//! The matcher.
use crate::cancellation::{CancellationHandle, Cancelled};
use crate::error::MatcherError;
use crate::model::{MatcherView, Phase};
use crate::parser::{StopReason, TokenId, TokenParser};
use toktrie::SimpleVob;
use vstd::prelude::*;

verus! {

/// What a matcher is doing.
enum MatcherState<P> {
    Normal(P),
    Error(String),
    Cancelled,
}

/// Drives a token parser and keeps the cause once it fails or is cancelled.
///
/// This is meant to be used in server-side scenarios.
pub struct Matcher<P> {
    state: MatcherState<P>,
    cancellation: Option<CancellationHandle>,
}

impl<P> View for Matcher<P> {
    type V = MatcherView<P>;

    closed spec fn view(&self) -> MatcherView<P> {
        MatcherView {
            phase: match self.state {
                MatcherState::Normal(parser) => Phase::Normal(parser),
                MatcherState::Error(message) => Phase::Error(message@),
                MatcherState::Cancelled => Phase::Cancelled,
            },
            handle: self.cancellation,
        }
    }
}

/// What becomes of the outcome of a run when the last look at the request saw `requested`. A
/// request discards the outcome, whatever it is, and so does a cancellation that the parser
/// reports.
pub fn publish<T>(outcome: Result<T, MatcherError>, requested: bool) -> (result: Result<
    T,
    MatcherError,
>)
    ensures
        result == crate::model::published(outcome, requested),
{
    match outcome {
        Ok(value) => if requested {
            Err(MatcherError::Cancelled(Cancelled))
        } else {
            Ok(value)
        },
        Err(error) => if requested || error.is_cancelled() {
            Err(MatcherError::Cancelled(Cancelled))
        } else {
            Err(error)
        },
    }
}

/// Looks at the cancellation request. Without a handle there is none.
fn look(handle: &Option<CancellationHandle>) -> (requested: bool)
    ensures
        crate::model::sees(*handle, requested),
{
    match handle {
        Some(handle) => handle.is_cancelled(),
        None => false,
    }
}

/// Looks at the cancellation request and publishes the outcome accordingly. Returns what it saw
/// beside the published result.
pub fn settle<T>(handle: &Option<CancellationHandle>, outcome: Result<T, MatcherError>) -> (settled:
    (bool, Result<T, MatcherError>))
    ensures
        crate::model::sees(*handle, settled.0),
        settled.1 == crate::model::published(outcome, settled.0),
{
    let requested = look(handle);
    (requested, publish(outcome, requested))
}

/// Clones `parser`, with lexer caches of its own if the clone is a deep one, and makes the clone
/// look at `handle`, where there is one.
pub fn duplicate<P: TokenParser>(
    parser: &P,
    deep: bool,
    handle: &Option<CancellationHandle>,
) -> (copy: P)
    ensures
        MatcherView::duplicated(*parser, deep, *handle, copy),
{
    let bare = if deep {
        parser.deep_clone()
    } else {
        parser.clone()
    };
    assert(MatcherView::bare_copy(*parser, deep, bare));
    match handle {
        Some(handle) => bare.set_cancellation_handle(handle.clone()),
        None => bare,
    }
}

impl<P: TokenParser> Matcher<P> {
    /// Runs `f` on the parser, guarded: a terminal matcher does not run it, a request that is seen
    /// before it keeps it from running, and one that is seen after it discards what it returned.
    ///
    /// While the parser is out, the matcher holds an error, which stays if `f` unwinds.
    fn with_inner<T, F: FnOnce(P) -> (P, Result<T, MatcherError>)>(
        &mut self,
        f: F,
        Ghost(run): Ghost<crate::model::Run<P, T>>,
    ) -> (result: Result<T, MatcherError>)
        requires
            old(self)@.phase is Normal && old(self)@.observes(false) ==> call_requires(
                f,
                (old(self)@.phase->Normal_0,),
            ),
            forall|parser: P, returned: (P, Result<T, MatcherError>)| #[trigger]
                call_ensures(f, (parser,), returned) ==> run(parser, returned.0, returned.1),
        ensures
            old(self)@.operated(run, final(self)@, result),
    {
        let ghost pre = self@;
        let mut state = MatcherState::Error("parser panicked".to_owned());
        std::mem::swap(&mut state, &mut self.state);
        match state {
            MatcherState::Normal(parser) => {
                let ghost before = parser;
                let admitted = match &self.cancellation {
                    Some(handle) => handle.check(),
                    None => Ok(()),
                };
                let ghost first = admitted is Err;
                let (parser, outcome) = match admitted {
                    Ok(()) => f(parser),
                    Err(cancelled) => (parser, Err(MatcherError::Cancelled(cancelled))),
                };
                let ghost after = parser;
                let ghost ran = outcome;
                let (last, decided) = settle(&self.cancellation, outcome);
                let ghost verdict = decided;
                let result = match decided {
                    Ok(value) => {
                        self.state = MatcherState::Normal(parser);
                        Ok(value)
                    },
                    Err(MatcherError::Cancelled(cancelled)) => {
                        self.state = MatcherState::Cancelled;
                        Err(MatcherError::Cancelled(cancelled))
                    },
                    Err(MatcherError::Failed(message)) => {
                        let message = parser.augment_err(message);
                        self.state = MatcherState::Error(message.clone());
                        Err(MatcherError::Failed(message))
                    },
                };
                assert(pre.ran(run, first, before, after, ran));
                assert(pre.settled(after, ran, last, verdict, self@, result));
                assert(pre.completed_at(run, before, first, last, self@, result));
                assert(pre.completed(run, before, self@, result));
                assert(pre.operated(run, self@, result));
                result
            },
            MatcherState::Error(message) => {
                self.state = MatcherState::Error(message.clone());
                Err(MatcherError::Failed(message))
            },
            MatcherState::Cancelled => {
                self.state = MatcherState::Cancelled;
                Err(MatcherError::Cancelled(Cancelled))
            },
        }
    }
}

/// Making matchers, and cancelling them.
impl<P: TokenParser> Matcher<P> {
    /// A matcher that drives `parser`, which must not backtrack; it is started if it is fresh.
    /// Cancellation is not enabled.
    pub fn new(parser: Result<P, MatcherError>) -> (matcher: Self)
        ensures
            MatcherView::created(parser, matcher@),
    {
        let state = match parser {
            Ok(parser) => if parser.may_backtrack() {
                MatcherState::Error("backtracking not supported".to_owned())
            } else if parser.is_fresh() {
                MatcherState::Normal(parser.start_without_prompt())
            } else {
                MatcherState::Normal(parser)
            },
            Err(error) => MatcherState::Error(error.to_string()),
        };
        Matcher { state, cancellation: None }
    }

    /// Enable cancellation for this matcher.
    pub fn into_cancellable(self) -> (matcher: Self)
        ensures
            self@.enabled(matcher@),
    {
        let mut matcher = self;
        matcher.enable_cancellation();
        matcher
    }

    /// Enable cancellation for this matcher.
    pub(crate) fn enable_cancellation(&mut self)
        ensures
            old(self)@.enabled(final(self)@),
    {
        if self.cancellation.is_some() {
            return ;
        }
        let cancellation = CancellationHandle::default();
        let mut state = MatcherState::Cancelled;
        std::mem::swap(&mut state, &mut self.state);
        self.state = match state {
            MatcherState::Normal(parser) => MatcherState::Normal(
                parser.set_cancellation_handle(cancellation.clone()),
            ),
            terminal => terminal,
        };
        self.cancellation = Some(cancellation);
    }

    /// Return a handle when cancellation is enabled. Cloned handles share its cancellation state.
    ///
    /// Matcher clones sample the request when cloning starts. Each usable clone gets
    /// independent cancellation state. A clone that observes cancellation stays cancelled.
    pub fn cancellation_handle(&self) -> (handle: Option<CancellationHandle>)
        ensures
            handle == self@.handle,
    {
        match &self.cancellation {
            Some(handle) => Some(handle.clone()),
            None => None,
        }
    }

    /// Clones the matcher. Sampling the request defines the clone's independence from later
    /// requests.
    fn clone_inner(&self, deep: bool) -> (matcher: Self)
        ensures
            self@.copied(deep, matcher@),
    {
        let (cancellation, requested) = match &self.cancellation {
            Some(handle) => {
                let (own, requested) = handle.snapshot();
                (Some(own), requested)
            },
            None => (None, false),
        };
        let state = match &self.state {
            MatcherState::Error(message) => MatcherState::Error(message.clone()),
            MatcherState::Cancelled => MatcherState::Cancelled,
            MatcherState::Normal(parser) => if requested {
                MatcherState::Cancelled
            } else {
                MatcherState::Normal(duplicate(parser, deep, &cancellation))
            },
        };
        let matcher = Matcher { state, cancellation };
        assert(self@.copied_at(deep, requested, matcher@));
        matcher
    }

    /// Clone the parser and its lexer caches for independent execution.
    ///
    /// This samples cancellation when cloning starts, as [`Clone::clone`] does.
    /// Later requests do not affect the clone. An observed cancellation remains terminal.
    pub fn deep_clone(&self) -> (matcher: Self)
        ensures
            self@.copied(true, matcher@),
    {
        self.clone_inner(true)
    }
}

impl<P: TokenParser> Clone for Matcher<P> {
    fn clone(&self) -> (matcher: Self)
        ensures
            self@.copied(false, matcher@),
    {
        self.clone_inner(false)
    }
}

/// The runs that take more than one call on the parser.
impl<P: TokenParser> Matcher<P> {
    /// Feeds `tokens`, then lets the parser stop.
    fn feed(start: P, tokens: &[TokenId]) -> (returned: (P, Result<(), MatcherError>))
        ensures
            MatcherView::fed(start, tokens@, returned.0, returned.1),
    {
        let mut parser = start;
        let mut index: usize = 0;
        assert(tokens@.skip(0) == tokens@);
        while index < tokens.len()
            invariant
                index <= tokens.len(),
                forall|after: P, outcome: Result<(), MatcherError>| #[trigger]
                    MatcherView::fed(parser, tokens@.skip(index as int), after, outcome)
                        ==> MatcherView::fed(start, tokens@, after, outcome),
            decreases tokens.len() - index,
        {
            let ghost rest = tokens@.skip(index as int);
            let ghost here = parser;
            assert(rest.drop_first() == tokens@.skip(index + 1));
            let (next, back) = parser.consume_token(tokens[index]);
            assert(call_ensures(P::consume_token, (here, rest[0]), (next, back)));
            match back {
                Ok(back) => if back != 0 {
                    let outcome = Err(MatcherError::failed("unexpected backtracking"));
                    assert(MatcherView::fed(here, rest, next, outcome));
                    return (next, outcome);
                },
                Err(error) => {
                    let outcome = Err(error);
                    assert(MatcherView::fed(here, rest, next, outcome));
                    return (next, outcome);
                },
            }
            parser = next;
            index = index + 1;
            assert forall|after: P, outcome: Result<(), MatcherError>| #[trigger]
                MatcherView::fed(parser, tokens@.skip(index as int), after, outcome) implies MatcherView::fed(
                start,
                tokens@,
                after,
                outcome,
            ) by {
                assert(MatcherView::fed(here, rest, after, outcome));
            }
        }
        let ghost here = parser;
        let (parser, stop) = parser.check_stop();
        let outcome = match stop {
            Ok(_) => Ok(()),
            Err(error) => Err(error),
        };
        assert(MatcherView::fed(here, tokens@.skip(index as int), parser, outcome));
        (parser, outcome)
    }

    /// Feeds `tokens` as far as the parser takes them, and counts those fed.
    fn try_feed(start: P, tokens: &[TokenId]) -> (returned: (P, Result<usize, MatcherError>))
        ensures
            MatcherView::tried(start, tokens@, 0, returned.0, returned.1),
    {
        let mut parser = start;
        let mut index: usize = 0;
        assert(tokens@.skip(0) == tokens@);
        while index < tokens.len()
            invariant
                index <= tokens.len(),
                forall|after: P, outcome: Result<usize, MatcherError>| #[trigger]
                    MatcherView::tried(
                        parser,
                        tokens@.skip(index as int),
                        index as nat,
                        after,
                        outcome,
                    ) ==> MatcherView::tried(start, tokens@, 0, after, outcome),
            decreases tokens.len() - index,
        {
            let ghost rest = tokens@.skip(index as int);
            let ghost here = parser;
            assert(rest.drop_first() == tokens@.skip(index + 1));
            let (next, valid) = parser.validate_token(tokens[index]);
            assert(call_ensures(P::validate_token, (here, rest[0]), (next, valid)));
            match valid {
                Ok(valid) => if !valid {
                    let outcome = Ok(index);
                    assert(MatcherView::tried(here, rest, index as nat, next, outcome));
                    return (next, outcome);
                },
                Err(error) => {
                    let outcome = Err(error);
                    assert(MatcherView::tried(here, rest, index as nat, next, outcome));
                    return (next, outcome);
                },
            }
            let (last, step) = Self::step(next, tokens[index]);
            assert(MatcherView::stepped(next, rest[0], last, step));
            match step {
                Ok(()) => {},
                Err(error) => {
                    let outcome = Err(error);
                    assert(MatcherView::tried(here, rest, index as nat, last, outcome));
                    return (last, outcome);
                },
            }
            parser = last;
            index = index + 1;
            assert forall|after: P, outcome: Result<usize, MatcherError>| #[trigger]
                MatcherView::tried(
                    parser,
                    tokens@.skip(index as int),
                    index as nat,
                    after,
                    outcome,
                ) implies MatcherView::tried(start, tokens@, 0, after, outcome) by {
                assert(MatcherView::tried(here, rest, (index - 1) as nat, after, outcome));
            }
        }
        let outcome = Ok(tokens.len());
        assert(MatcherView::tried(
            parser,
            tokens@.skip(index as int),
            index as nat,
            parser,
            outcome,
        ));
        (parser, outcome)
    }

    /// Feeds one token that the parser takes, then lets it stop.
    fn step(parser: P, token: TokenId) -> (returned: (P, Result<(), MatcherError>))
        ensures
            MatcherView::stepped(parser, token, returned.0, returned.1),
    {
        let (next, back) = parser.consume_token(token);
        match back {
            Ok(back) => {
                let (last, stop) = next.check_stop();
                match stop {
                    Ok(_) => if back == 0 {
                        (last, Ok(()))
                    } else {
                        (last, Err(MatcherError::failed("unexpected backtracking")))
                    },
                    Err(error) => (last, Err(error)),
                }
            },
            Err(error) => (next, Err(error)),
        }
    }

    /// The end-of-sequence mask if the parser has stopped, else its own mask.
    fn mask_or_eos(parser: P) -> (returned: (P, Result<SimpleVob, MatcherError>))
        ensures
            MatcherView::masked_or_eos(parser, returned.0, returned.1),
    {
        match parser.stop_reason() {
            Ok(StopReason::NotStopped) => parser.compute_mask(),
            Ok(_) => {
                let outcome = match parser.tok_trie() {
                    Ok(trie) => Ok(trie.eos_token_set()),
                    Err(error) => Err(error),
                };
                assert(MatcherView::eos(parser, outcome));
                (parser, outcome)
            },
            Err(error) => (parser, Err(error)),
        }
    }
}

/// The guarded operations.
impl<P: TokenParser> Matcher<P> {
    /// Advance the parser by the given tokens.
    /// Also checks if the parser should stop after consuming the tokens
    /// and puts the parser in stop state if necessary.
    pub fn consume_tokens(&mut self, tokens: &[TokenId]) -> (result: Result<(), MatcherError>)
        ensures
            old(self)@.operated(MatcherView::<P>::feeding(tokens@), final(self)@, result),
    {
        let ghost run = MatcherView::<P>::feeding(tokens@);
        let call = |parser: P| -> (returned: (P, Result<(), MatcherError>))
            ensures
                run(parser, returned.0, returned.1),
        {
            Self::feed(parser, tokens)
        };
        self.with_inner(call, Ghost(run))
    }

    /// Advance the parser by one token, as [`Self::consume_tokens`] does.
    pub fn consume_token(&mut self, token: TokenId) -> (result: Result<(), MatcherError>)
        ensures
            old(self)@.operated(MatcherView::<P>::feeding(seq![token]), final(self)@, result),
    {
        let tokens = [token];
        assert(tokens@ == seq![token]);
        self.consume_tokens(&tokens)
    }

    /// Make the lexer of the parser fail.
    pub fn test_trigger_lexer_error(&mut self) -> (result: Result<(), MatcherError>)
        ensures
            old(self)@.operated(MatcherView::<P>::triggering_lexer_error(), final(self)@, result),
    {
        let ghost run = MatcherView::<P>::triggering_lexer_error();
        let call = |parser: P| -> (returned: (P, Result<(), MatcherError>))
            ensures
                run(parser, returned.0, returned.1),
        {
            parser.test_trigger_lexer_error()
        };
        self.with_inner(call, Ghost(run))
    }

    /// Take back the last `num_tokens` tokens.
    pub fn rollback(&mut self, num_tokens: usize) -> (result: Result<(), MatcherError>)
        ensures
            old(self)@.operated(MatcherView::<P>::rolling_back(num_tokens), final(self)@, result),
    {
        let ghost run = MatcherView::<P>::rolling_back(num_tokens);
        let call = |parser: P| -> (returned: (P, Result<(), MatcherError>))
            ensures
                run(parser, returned.0, returned.1),
        {
            parser.rollback(num_tokens)
        };
        self.with_inner(call, Ghost(run))
    }

    /// Take back all tokens.
    pub fn reset(&mut self) -> (result: Result<(), MatcherError>)
        ensures
            old(self)@.operated(MatcherView::<P>::resetting(), final(self)@, result),
    {
        let ghost run = MatcherView::<P>::resetting();
        let call = |parser: P| -> (returned: (P, Result<(), MatcherError>))
            ensures
                run(parser, returned.0, returned.1),
        {
            parser.reset()
        };
        self.with_inner(call, Ghost(run))
    }

    /// Compute which tokens can be consumed in the current state.
    pub fn compute_mask(&mut self) -> (result: Result<SimpleVob, MatcherError>)
        ensures
            old(self)@.operated(MatcherView::<P>::masking(), final(self)@, result),
    {
        let ghost run = MatcherView::<P>::masking();
        let call = |parser: P| -> (returned: (P, Result<SimpleVob, MatcherError>))
            ensures
                run(parser, returned.0, returned.1),
        {
            parser.compute_mask()
        };
        self.with_inner(call, Ghost(run))
    }

    /// Compute which tokens can be consumed in the current state.
    /// Returns a mask with just the EOS token if the parser is stopped.
    /// May still fail if the parser is in an error state.
    pub fn compute_mask_or_eos(&mut self) -> (result: Result<SimpleVob, MatcherError>)
        ensures
            old(self)@.operated(MatcherView::<P>::masking_or_eos(), final(self)@, result),
    {
        let ghost run = MatcherView::<P>::masking_or_eos();
        let call = |parser: P| -> (returned: (P, Result<SimpleVob, MatcherError>))
            ensures
                run(parser, returned.0, returned.1),
        {
            Self::mask_or_eos(parser)
        };
        self.with_inner(call, Ghost(run))
    }

    /// Can the grammar be finished in the current state?
    /// In other words, would the current token mask allow EOS token?
    pub fn is_accepting(&mut self) -> (result: Result<bool, MatcherError>)
        ensures
            old(self)@.operated(MatcherView::<P>::accepting(), final(self)@, result),
    {
        let ghost run = MatcherView::<P>::accepting();
        let call = |parser: P| -> (returned: (P, Result<bool, MatcherError>))
            ensures
                run(parser, returned.0, returned.1),
        {
            parser.is_accepting()
        };
        self.with_inner(call, Ghost(run))
    }

    /// Tries to advance the parser by consuming the given tokens.
    /// Returns the number of tokens consumed.
    /// Also checks if the parser should stop after consuming the tokens
    /// and puts the parser in stop state if necessary.
    pub fn try_consume_tokens(&mut self, tokens: &[TokenId]) -> (result: Result<usize, MatcherError>)
        ensures
            old(self)@.operated(MatcherView::<P>::trying(tokens@), final(self)@, result),
    {
        let ghost run = MatcherView::<P>::trying(tokens@);
        let call = |parser: P| -> (returned: (P, Result<usize, MatcherError>))
            ensures
                run(parser, returned.0, returned.1),
        {
            Self::try_feed(parser, tokens)
        };
        self.with_inner(call, Ghost(run))
    }

    /// How many of the given tokens, from the first on, can be consumed.
    pub fn validate_tokens(&mut self, tokens: &[TokenId]) -> (result: Result<usize, MatcherError>)
        ensures
            old(self)@.operated(MatcherView::<P>::validating(tokens), final(self)@, result),
    {
        let ghost run = MatcherView::<P>::validating(tokens);
        let call = |parser: P| -> (returned: (P, Result<usize, MatcherError>))
            ensures
                run(parser, returned.0, returned.1),
        {
            parser.validate_tokens_raw(tokens)
        };
        self.with_inner(call, Ghost(run))
    }
}

/// The operations that return a list, which is empty after a failure.
impl<P: TokenParser> Matcher<P> {
    /// Return forced tokens, or an empty list for non-canonical tokenizers or failed operations.
    /// Use `is_error`, `is_cancelled`, `get_error`, or `stop_reason` to inspect failures.
    pub fn compute_ff_tokens(&mut self) -> (tokens: Vec<TokenId>)
        ensures
            old(self)@.listed(MatcherView::<P>::forcing_tokens(), final(self)@, tokens@),
    {
        let ghost run = MatcherView::<P>::forcing_tokens();
        let call = |parser: P| -> (returned: (P, Result<Vec<TokenId>, MatcherError>))
            ensures
                run(parser, returned.0, returned.1),
        {
            parser.compute_ff_tokens()
        };
        match self.with_inner(call, Ghost(run)) {
            Ok(tokens) => tokens,
            Err(_) => Vec::new(),
        }
    }

    /// Consume the forced tokens and return them, or an empty list if the operation fails.
    pub fn consume_ff_tokens(&mut self) -> (tokens: Vec<TokenId>)
        ensures
            old(self)@.forced(final(self)@, tokens@),
    {
        let tokens = self.compute_ff_tokens();
        if tokens.len() != 0 && self.consume_tokens(tokens.as_slice()).is_err() {
            return Vec::new();
        }
        tokens
    }

    /// Return bytes forced by the current parser state, or an empty list if the operation fails.
    /// This also works for non-canonical tokenizers.
    /// Use `is_error`, `is_cancelled`, `get_error`, or `stop_reason` to inspect failures.
    pub fn compute_ff_bytes(&mut self) -> (bytes: Vec<u8>)
        ensures
            old(self)@.listed(MatcherView::<P>::forcing_bytes(), final(self)@, bytes@),
    {
        let ghost run = MatcherView::<P>::forcing_bytes();
        let call = |parser: P| -> (returned: (P, Result<Vec<u8>, MatcherError>))
            ensures
                run(parser, returned.0, returned.1),
        {
            parser.force_bytes()
        };
        match self.with_inner(call, Ghost(run)) {
            Ok(bytes) => bytes,
            Err(_) => Vec::new(),
        }
    }
}

/// The state of the matcher. Each query looks at the cancellation request once and leaves the
/// answer to a function that takes what it saw.
impl<P: TokenParser> Matcher<P> {
    /// Looks at the cancellation request of the matcher.
    fn requested(&self) -> (requested: bool)
        ensures
            self@.observes(requested),
    {
        look(&self.cancellation)
    }

    /// An existing error keeps its original cause after a later cancellation request.
    pub fn is_cancelled(&self) -> (cancelled: bool)
        ensures
            exists|requested: bool| #[trigger]
                self@.observes(requested) && cancelled == self@.cancelled_at(requested),
    {
        self.is_cancelled_when(self.requested())
    }

    /// [`Self::is_cancelled`] for a request that is seen as `requested`.
    pub fn is_cancelled_when(&self, requested: bool) -> (cancelled: bool)
        ensures
            cancelled == self@.cancelled_at(requested),
    {
        requested && !matches!(self.state, MatcherState::Error(_))
    }

    /// Whether the matcher has a stop reason.
    pub fn is_stopped(&self) -> (stopped: bool)
        ensures
            exists|requested: bool| #[trigger]
                self@.observes(requested) && self@.stopped_at(requested, stopped),
    {
        self.is_stopped_when(self.requested())
    }

    /// [`Self::is_stopped`] for a request that is seen as `requested`.
    pub fn is_stopped_when(&self, requested: bool) -> (stopped: bool)
        ensures
            self@.stopped_at(requested, stopped),
    {
        self.stop_reason_when(requested) != StopReason::NotStopped
    }

    /// Why the matcher stopped, if it did. A parser that fails to tell has an internal error.
    pub fn stop_reason(&self) -> (reason: StopReason)
        ensures
            exists|requested: bool| #[trigger]
                self@.observes(requested) && self@.stop_reason_at(requested, reason),
    {
        self.stop_reason_when(self.requested())
    }

    /// [`Self::stop_reason`] for a request that is seen as `requested`.
    pub fn stop_reason_when(&self, requested: bool) -> (reason: StopReason)
        ensures
            self@.stop_reason_at(requested, reason),
    {
        if self.is_cancelled_when(requested) {
            return StopReason::Cancelled;
        }
        match &self.state {
            MatcherState::Normal(parser) => match parser.stop_reason() {
                Ok(reason) => reason,
                Err(error) => {
                    assert(call_ensures(P::stop_reason, (parser,), Err(error)));
                    StopReason::InternalError
                },
            },
            MatcherState::Error(_) => StopReason::InternalError,
            MatcherState::Cancelled => StopReason::Cancelled,
        }
    }

    /// Whether the matcher failed or is cancelled.
    pub fn is_error(&self) -> (error: bool)
        ensures
            exists|requested: bool| #[trigger]
                self@.observes(requested) && error == self@.error_at(requested),
    {
        self.is_error_when(self.requested())
    }

    /// [`Self::is_error`] for a request that is seen as `requested`.
    pub fn is_error_when(&self, requested: bool) -> (error: bool)
        ensures
            error == self@.error_at(requested),
    {
        self.is_cancelled_when(requested) || matches!(
            self.state,
            MatcherState::Error(_) | MatcherState::Cancelled
        )
    }

    /// The message of the failure, if the matcher failed or is cancelled.
    pub fn get_error(&self) -> (message: Option<String>)
        ensures
            exists|requested: bool| #[trigger]
                self@.observes(requested) && match message {
                    Some(message) => self@.message_at(requested) == Some(message@),
                    None => self@.message_at(requested) is None,
                },
    {
        self.get_error_when(self.requested())
    }

    /// [`Self::get_error`] for a request that is seen as `requested`.
    pub fn get_error_when(&self, requested: bool) -> (message: Option<String>)
        ensures
            match message {
                Some(message) => self@.message_at(requested) == Some(message@),
                None => self@.message_at(requested) is None,
            },
    {
        if self.is_cancelled_when(requested) {
            return Some(Cancelled.to_string());
        }
        match &self.state {
            MatcherState::Normal(_) => None,
            MatcherState::Error(message) => Some(message.clone()),
            MatcherState::Cancelled => Some(Cancelled.to_string()),
        }
    }
}

/// What the parser knows. A terminal matcher knows nothing of it.
impl<P: TokenParser> Matcher<P> {
    /// Warnings about the grammar.
    pub fn grammar_warnings(&mut self) -> (warnings: Vec<String>)
        ensures
            final(self)@.handle == old(self)@.handle,
            old(self)@.phase is Normal ==> final(self)@.phase is Normal && exists|parser: &mut P|
                {
                    &&& #[trigger] call_ensures(P::grammar_warnings, (parser,), warnings)
                    &&& *parser == old(self)@.phase->Normal_0
                    &&& *final(parser) == final(self)@.phase->Normal_0
                },
            !(old(self)@.phase is Normal) ==> final(self)@.phase == old(self)@.phase
                && warnings@.len() == 0,
            old(self)@.evolves(final(self)@),
    {
        match &mut self.state {
            MatcherState::Normal(parser) => parser.grammar_warnings(),
            MatcherState::Error(_) | MatcherState::Cancelled => Vec::new(),
        }
    }

    /// The tokenizer environment of the parser.
    pub fn tok_env(&self) -> (env: Result<P::Env, MatcherError>)
        ensures
            match self@.phase {
                Phase::Normal(parser) => env matches Ok(copy) && MatcherView::env_copied(
                    parser,
                    copy,
                ),
                Phase::Error(message) => crate::model::fails_with(env, message),
                Phase::Cancelled => env == crate::model::cancelled::<P::Env>(),
            },
    {
        match &self.state {
            MatcherState::Normal(parser) => {
                let own = parser.token_env();
                let copy = own.clone();
                assert(MatcherView::env_copied(*parser, copy));
                Ok(copy)
            },
            MatcherState::Error(message) => Err(MatcherError::Failed(message.clone())),
            MatcherState::Cancelled => Err(MatcherError::Cancelled(Cancelled)),
        }
    }

    /// Statistics of the last step of the parser.
    pub fn last_step_stats(&self) -> (stats: Result<&P::Stats, MatcherError>)
        ensures
            match self@.phase {
                Phase::Normal(parser) => stats matches Ok(own) && call_ensures(
                    P::last_step_stats,
                    (&parser,),
                    own,
                ),
                Phase::Error(message) => crate::model::fails_with(stats, message),
                Phase::Cancelled => stats == crate::model::cancelled::<&P::Stats>(),
            },
    {
        match &self.state {
            MatcherState::Normal(parser) => Ok(parser.last_step_stats()),
            MatcherState::Error(message) => Err(MatcherError::Failed(message.clone())),
            MatcherState::Cancelled => Err(MatcherError::Cancelled(Cancelled)),
        }
    }

    /// Make the parser forget cached masks.
    pub fn invalidate_bias_cache(&mut self)
        ensures
            final(self)@.handle == old(self)@.handle,
            old(self)@.phase is Normal ==> final(self)@.phase is Normal && exists|parser: &mut P|
                {
                    &&& #[trigger] call_ensures(P::invalidate_bias_cache, (parser,), ())
                    &&& *parser == old(self)@.phase->Normal_0
                    &&& *final(parser) == final(self)@.phase->Normal_0
                },
            !(old(self)@.phase is Normal) ==> final(self)@.phase == old(self)@.phase,
            old(self)@.evolves(final(self)@),
    {
        match &mut self.state {
            MatcherState::Normal(parser) => parser.invalidate_bias_cache(),
            MatcherState::Error(_) | MatcherState::Cancelled => {},
        }
    }

    /// What the grammar captured under `name`.
    pub fn get_capture(&self, name: &str) -> (capture: Option<&[u8]>)
        ensures
            match self@.phase {
                Phase::Normal(parser) => call_ensures(P::get_capture, (&parser, name), capture),
                _ => capture is None,
            },
    {
        match &self.state {
            MatcherState::Normal(parser) => parser.get_capture(name),
            MatcherState::Error(_) | MatcherState::Cancelled => None,
        }
    }

    /// All that the grammar captured.
    pub fn captures(&self) -> (captures: &[(String, Vec<u8>)])
        ensures
            match self@.phase {
                Phase::Normal(parser) => call_ensures(P::captures, (&parser,), captures),
                _ => captures@.len() == 0,
            },
    {
        match &self.state {
            MatcherState::Normal(parser) => parser.captures(),
            MatcherState::Error(_) | MatcherState::Cancelled => &[],
        }
    }
}

} // verus!
