//! The mathematical model of a matcher, and the relations that the contracts are stated with.
use crate::cancellation::{CancellationHandle, Cancelled};
use crate::error::MatcherError;
use crate::parser::{StopReason, TokenId, TokenParser};
use toktrie::{SimpleVob, TokTrie};
use vstd::prelude::*;

verus! {

/// What a matcher is doing. The last two phases are terminal.
pub enum Phase<P> {
    /// It drives this parser.
    Normal(P),
    /// It failed with this message.
    Error(Seq<char>),
    /// It observed a cancellation request.
    Cancelled,
}

/// The model of a matcher.
pub struct MatcherView<P> {
    /// What the matcher is doing.
    pub phase: Phase<P>,
    /// The handle that cancels the matcher, once cancellation is enabled.
    pub handle: Option<CancellationHandle>,
}

/// What a run of the parser can do: from a parser to the parser after it and the outcome.
pub type Run<P, T> = spec_fn(P, P, Result<T, MatcherError>) -> bool;

/// The failure with the given message.
pub open spec fn fails_with<T>(result: Result<T, MatcherError>, message: Seq<char>) -> bool {
    result matches Err(MatcherError::Failed(text)) && text@ == message
}

/// The failure of a cancelled operation.
pub open spec fn cancelled<T>() -> Result<T, MatcherError> {
    Err(MatcherError::Cancelled(Cancelled))
}

/// What is published of `outcome` when the last look at the request saw `requested`: a request
/// discards every outcome, and so does a cancellation that the parser reports.
pub open spec fn published<T>(outcome: Result<T, MatcherError>, requested: bool) -> Result<
    T,
    MatcherError,
> {
    if requested || outcome matches Err(MatcherError::Cancelled(_)) {
        cancelled()
    } else {
        outcome
    }
}

/// A look at the cancellation request can see `requested`. Without a handle there is none.
pub open spec fn sees(handle: Option<CancellationHandle>, requested: bool) -> bool {
    match handle {
        Some(handle) => handle.reads(requested),
        None => !requested,
    }
}

impl<P> MatcherView<P> {
    /// A look at the cancellation request of the matcher can see `requested`.
    pub open spec fn observes(self, requested: bool) -> bool {
        sees(self.handle, requested)
    }

    /// Whether the matcher counts as cancelled when the request is seen as `requested`. An error
    /// keeps its original cause.
    pub open spec fn cancelled_at(self, requested: bool) -> bool {
        requested && !(self.phase is Error)
    }

    /// Whether the matcher counts as failed when the request is seen as `requested`.
    pub open spec fn error_at(self, requested: bool) -> bool {
        self.cancelled_at(requested) || !(self.phase is Normal)
    }

    /// The message of the failure when the request is seen as `requested`.
    pub open spec fn message_at(self, requested: bool) -> Option<Seq<char>> {
        if self.cancelled_at(requested) {
            Some(Cancelled::message())
        } else {
            match self.phase {
                Phase::Normal(_) => None,
                Phase::Error(message) => Some(message),
                Phase::Cancelled => Some(Cancelled::message()),
            }
        }
    }

    /// How a matcher may change in any number of calls: a terminal phase stays as it is, and so
    /// does a handle.
    pub open spec fn evolves(self, post: Self) -> bool {
        &&& self.phase is Normal || post.phase == self.phase
        &&& self.handle is Some ==> post.handle == self.handle
    }
}

impl<P: TokenParser> MatcherView<P> {
    /// `reason` is a stop reason of `parser`. A parser that fails to tell has an internal error.
    pub open spec fn answers(parser: P, reason: StopReason) -> bool {
        ||| call_ensures(P::stop_reason, (&parser,), Ok(reason))
        ||| {
            &&& reason == StopReason::InternalError
            &&& exists|error: MatcherError| #[trigger]
                call_ensures(P::stop_reason, (&parser,), Err(error))
        }
    }

    /// The parser of the matcher, if it drives one, has one stop reason.
    pub open spec fn has_one_answer(self) -> bool {
        self.phase matches Phase::Normal(parser) ==> forall|one: StopReason, other: StopReason|
            #![trigger Self::answers(parser, one), Self::answers(parser, other)]
            Self::answers(parser, one) && Self::answers(parser, other) ==> one == other
    }

    /// `reason` is a stop reason of the matcher when the request is seen as `requested`.
    pub open spec fn stop_reason_at(self, requested: bool, reason: StopReason) -> bool {
        if self.cancelled_at(requested) {
            reason == StopReason::Cancelled
        } else {
            match self.phase {
                Phase::Normal(parser) => Self::answers(parser, reason),
                Phase::Error(_) => reason == StopReason::InternalError,
                Phase::Cancelled => reason == StopReason::Cancelled,
            }
        }
    }

    /// `stopped` tells whether the matcher has a stop reason when the request is seen as
    /// `requested`.
    pub open spec fn stopped_at(self, requested: bool, stopped: bool) -> bool {
        exists|reason: StopReason| #[trigger]
            self.stop_reason_at(requested, reason) && stopped == (reason != StopReason::NotStopped)
    }

    /// What a matcher made from `parser` is. It never starts with a handle.
    pub open spec fn created(parser: Result<P, MatcherError>, post: Self) -> bool {
        &&& post.handle is None
        &&& match parser {
            Ok(parser) => {
                ||| {
                    &&& call_ensures(P::may_backtrack, (&parser,), true)
                    &&& post.phase == Phase::<P>::Error("backtracking not supported"@)
                }
                ||| {
                    &&& call_ensures(P::may_backtrack, (&parser,), false)
                    &&& post.phase matches Phase::Normal(started) && Self::started(parser, started)
                }
            },
            Err(error) => post.phase == Phase::<P>::Error(error.message()),
        }
    }

    /// `started` is `parser`, started if it was fresh.
    pub open spec fn started(parser: P, started: P) -> bool {
        ||| {
            &&& call_ensures(P::is_fresh, (&parser,), true)
            &&& call_ensures(P::start_without_prompt, (parser,), started)
        }
        ||| {
            &&& call_ensures(P::is_fresh, (&parser,), false)
            &&& started == parser
        }
    }

    /// Enabling cancellation. A matcher that has a handle stays as it is; another gets a handle
    /// without a request, and its parser learns of that handle.
    pub open spec fn enabled(self, post: Self) -> bool {
        match self.handle {
            Some(_) => post == self,
            None => {
                &&& post.handle matches Some(handle) && handle.starts_with(false)
                &&& match self.phase {
                    Phase::Normal(parser) => post.phase matches Phase::Normal(told) && call_ensures(
                        P::set_cancellation_handle,
                        (parser, post.handle->0),
                        told,
                    ),
                    _ => post.phase == self.phase,
                }
            },
        }
    }

    /// Cloning. The copy samples the request once, as `requested`, and has a handle of its own
    /// that starts from the sample. A request that was sampled leaves the copy cancelled. Otherwise
    /// the parser is duplicated for that handle, so not before the sample was taken.
    pub open spec fn copied_at(self, deep: bool, requested: bool, copy: Self) -> bool {
        &&& match self.handle {
            Some(handle) => handle.reads(requested) && (copy.handle matches Some(own)
                && own.starts_with(requested)),
            None => !requested && copy.handle is None,
        }
        &&& match self.phase {
            Phase::Normal(parser) => if requested {
                copy.phase is Cancelled
            } else {
                copy.phase matches Phase::Normal(duplicate) && call_ensures(
                    crate::matcher::duplicate::<P>,
                    (&parser, deep, &copy.handle),
                    duplicate,
                )
            },
            _ => copy.phase == self.phase,
        }
    }

    /// `copy` is a clone of the matcher.
    pub open spec fn copied(self, deep: bool, copy: Self) -> bool {
        exists|requested: bool| self.copied_at(deep, requested, copy)
    }

    /// `duplicate` is a clone of `parser` that looks at `handle`, where there is one.
    pub open spec fn duplicated(
        parser: P,
        deep: bool,
        handle: Option<CancellationHandle>,
        duplicate: P,
    ) -> bool {
        exists|bare: P|
            {
                &&& #[trigger] Self::bare_copy(parser, deep, bare)
                &&& match handle {
                    Some(handle) => call_ensures(
                        P::set_cancellation_handle,
                        (bare, handle),
                        duplicate,
                    ),
                    None => duplicate == bare,
                }
            }
    }

    /// `bare` is a clone of `parser`, with lexer caches of its own if it is a deep one.
    pub open spec fn bare_copy(parser: P, deep: bool, bare: P) -> bool {
        if deep {
            call_ensures(P::deep_clone, (&parser,), bare)
        } else {
            call_ensures(P::clone, (&parser,), bare)
        }
    }

    /// `copy` is a clone of the tokenizer environment of `parser`.
    pub open spec fn env_copied(parser: P, copy: P::Env) -> bool {
        exists|own: &P::Env| #[trigger]
            call_ensures(P::token_env, (&parser,), own) && cloned(*own, copy)
    }

    /// The first look at the request sees `first`. If that is no request, the parser runs from
    /// `parser` to `after` with `outcome`; otherwise it stays as it is.
    pub open spec fn ran<T>(
        self,
        run: Run<P, T>,
        first: bool,
        parser: P,
        after: P,
        outcome: Result<T, MatcherError>,
    ) -> bool {
        &&& self.observes(first)
        &&& if first {
            after == parser && outcome == cancelled::<T>()
        } else {
            run(parser, after, outcome)
        }
    }

    /// The outcome of a run is settled, which takes the last look at the request: it sees `last`
    /// and only comes once there is an outcome. What is `decided` is then told.
    pub open spec fn settled<T>(
        self,
        after: P,
        outcome: Result<T, MatcherError>,
        last: bool,
        decided: Result<T, MatcherError>,
        post: Self,
        result: Result<T, MatcherError>,
    ) -> bool {
        &&& call_ensures(crate::matcher::settle::<T>, (&self.handle, outcome), (last, decided))
        &&& Self::told(after, decided, post.phase, result)
    }

    /// How a decided outcome is told. The matcher goes on with the parser after a success and is
    /// terminal after anything else. A failure is told in the words of the parser.
    pub open spec fn told<T>(
        after: P,
        decided: Result<T, MatcherError>,
        phase: Phase<P>,
        result: Result<T, MatcherError>,
    ) -> bool {
        match decided {
            Ok(_) => phase == Phase::Normal(after) && result == decided,
            Err(MatcherError::Cancelled(_)) => phase is Cancelled && result == cancelled::<T>(),
            Err(MatcherError::Failed(message)) => {
                &&& result matches Err(MatcherError::Failed(text))
                    && call_ensures(P::augment_err, (after, message), text)
                &&& phase == Phase::<P>::Error(result->Err_0.message())
            },
        }
    }

    /// An operation that drives `parser`: it looks at the request, which it sees as `first`, runs
    /// the parser, then settles the outcome with a look that sees `last`.
    pub open spec fn completed_at<T>(
        self,
        run: Run<P, T>,
        parser: P,
        first: bool,
        last: bool,
        post: Self,
        result: Result<T, MatcherError>,
    ) -> bool {
        exists|after: P, outcome: Result<T, MatcherError>, decided: Result<T, MatcherError>|
            {
                &&& #[trigger] self.ran(run, first, parser, after, outcome)
                &&& #[trigger] self.settled(after, outcome, last, decided, post, result)
            }
    }

    /// An operation that drives `parser`, whatever its two looks at the request see.
    pub open spec fn completed<T>(
        self,
        run: Run<P, T>,
        parser: P,
        post: Self,
        result: Result<T, MatcherError>,
    ) -> bool {
        exists|first: bool, last: bool|
            self.completed_at(run, parser, first, last, post, result)
    }

    /// One guarded operation of a matcher. A terminal matcher reports why it is terminal and
    /// stays as it is.
    pub open spec fn operated<T>(
        self,
        run: Run<P, T>,
        post: Self,
        result: Result<T, MatcherError>,
    ) -> bool {
        &&& post.handle == self.handle
        &&& match self.phase {
            Phase::Normal(parser) => self.completed(run, parser, post, result),
            Phase::Error(message) => post.phase == self.phase && fails_with(result, message),
            Phase::Cancelled => post.phase == self.phase && result == cancelled::<T>(),
        }
    }
}

/// The runs of the parser behind the operations of a matcher.
impl<P: TokenParser> MatcherView<P> {
    /// Feeds `tokens` to the parser one by one, then lets it stop. The first failure ends the run,
    /// and so does a token that makes the parser ask for tokens to be taken back.
    pub open spec fn fed(
        parser: P,
        tokens: Seq<TokenId>,
        after: P,
        outcome: Result<(), MatcherError>,
    ) -> bool
        decreases tokens.len(),
    {
        if tokens.len() == 0 {
            exists|stop: Result<bool, MatcherError>|
                {
                    &&& #[trigger] call_ensures(P::check_stop, (parser,), (after, stop))
                    &&& match stop {
                        Ok(_) => outcome == Ok::<(), MatcherError>(()),
                        Err(error) => outcome == Err::<(), MatcherError>(error),
                    }
                }
        } else {
            exists|next: P, back: Result<usize, MatcherError>|
                {
                    &&& #[trigger] call_ensures(P::consume_token, (parser, tokens[0]), (next, back))
                    &&& match back {
                        Ok(0) => Self::fed(next, tokens.drop_first(), after, outcome),
                        Ok(_) => after == next && fails_with(outcome, "unexpected backtracking"@),
                        Err(error) => after == next && outcome == Err::<(), MatcherError>(error),
                    }
                }
        }
    }

    /// The parser consumes all of `tokens`, one by one, with nothing to take back, and gets to
    /// `at`.
    pub open spec fn consumed(parser: P, tokens: Seq<TokenId>, at: P) -> bool
        decreases tokens.len(),
    {
        if tokens.len() == 0 {
            at == parser
        } else {
            exists|next: P|
                {
                    &&& #[trigger] call_ensures(
                        P::consume_token,
                        (parser, tokens[0]),
                        (next, Ok(0)),
                    )
                    &&& Self::consumed(next, tokens.drop_first(), at)
                }
        }
    }

    /// Feeds `tokens` to the parser as far as it takes them, `count` having been fed before. The
    /// first token that the parser does not take ends the run; the outcome counts the tokens fed.
    pub open spec fn tried(
        parser: P,
        tokens: Seq<TokenId>,
        count: nat,
        after: P,
        outcome: Result<usize, MatcherError>,
    ) -> bool
        decreases tokens.len(),
    {
        if tokens.len() == 0 {
            after == parser && (outcome matches Ok(fed) && fed == count)
        } else {
            exists|next: P, valid: Result<bool, MatcherError>|
                {
                    &&& #[trigger] call_ensures(
                        P::validate_token,
                        (parser, tokens[0]),
                        (next, valid),
                    )
                    &&& match valid {
                        Ok(true) => exists|last: P, step: Result<(), MatcherError>|
                            {
                                &&& #[trigger] Self::stepped(next, tokens[0], last, step)
                                &&& match step {
                                    Ok(_) => Self::tried(
                                        last,
                                        tokens.drop_first(),
                                        count + 1,
                                        after,
                                        outcome,
                                    ),
                                    Err(error) => after == last && outcome == Err::<
                                        usize,
                                        MatcherError,
                                    >(error),
                                }
                            },
                        Ok(false) => after == next && (outcome matches Ok(fed) && fed == count),
                        Err(error) => after == next && outcome == Err::<usize, MatcherError>(error),
                    }
                }
        }
    }

    /// Feeds one token to the parser and lets it stop. Only then does it count that the token
    /// makes the parser ask for tokens to be taken back.
    pub open spec fn stepped(
        parser: P,
        token: TokenId,
        after: P,
        step: Result<(), MatcherError>,
    ) -> bool {
        exists|next: P, back: Result<usize, MatcherError>|
            {
                &&& #[trigger] call_ensures(P::consume_token, (parser, token), (next, back))
                &&& match back {
                    Ok(back) => exists|stop: Result<bool, MatcherError>|
                        {
                            &&& #[trigger] call_ensures(P::check_stop, (next,), (after, stop))
                            &&& match stop {
                                Ok(_) => if back == 0 {
                                    step == Ok::<(), MatcherError>(())
                                } else {
                                    fails_with(step, "unexpected backtracking"@)
                                },
                                Err(error) => step == Err::<(), MatcherError>(error),
                            }
                        },
                    Err(error) => after == next && step == Err::<(), MatcherError>(error),
                }
            }
    }

    /// The parser takes all of `tokens`, one by one, and gets to `at`.
    pub open spec fn reached(parser: P, tokens: Seq<TokenId>, at: P) -> bool
        decreases tokens.len(),
    {
        if tokens.len() == 0 {
            at == parser
        } else {
            exists|next: P, last: P|
                {
                    &&& #[trigger] call_ensures(
                        P::validate_token,
                        (parser, tokens[0]),
                        (next, Ok(true)),
                    )
                    &&& #[trigger] Self::stepped(next, tokens[0], last, Ok(()))
                    &&& Self::reached(last, tokens.drop_first(), at)
                }
        }
    }

    /// The mask of the parser, or the end-of-sequence mask if the parser has a stop reason.
    pub open spec fn masked_or_eos(
        parser: P,
        after: P,
        outcome: Result<SimpleVob, MatcherError>,
    ) -> bool {
        exists|told: Result<StopReason, MatcherError>|
            {
                &&& #[trigger] call_ensures(P::stop_reason, (&parser,), told)
                &&& match told {
                    Ok(StopReason::NotStopped) => call_ensures(
                        P::compute_mask,
                        (parser,),
                        (after, outcome),
                    ),
                    Ok(_) => after == parser && Self::eos(parser, outcome),
                    Err(error) => after == parser && outcome == Err::<SimpleVob, MatcherError>(
                        error,
                    ),
                }
            }
    }

    /// The end-of-sequence mask of the trie of `parser`, or why there is no trie.
    pub open spec fn eos(parser: P, outcome: Result<SimpleVob, MatcherError>) -> bool {
        exists|trie: Result<&TokTrie, MatcherError>|
            {
                &&& #[trigger] call_ensures(P::tok_trie, (&parser,), trie)
                &&& match trie {
                    Ok(trie) => outcome matches Ok(mask) && crate::mask::is_eos_mask(mask, *trie),
                    Err(error) => outcome == Err::<SimpleVob, MatcherError>(error),
                }
            }
    }

    /// [`Self::fed`] as a run.
    pub open spec fn feeding(tokens: Seq<TokenId>) -> Run<P, ()> {
        |parser: P, after: P, outcome: Result<(), MatcherError>|
            Self::fed(parser, tokens, after, outcome)
    }

    /// [`Self::tried`] as a run, from the first token on.
    pub open spec fn trying(tokens: Seq<TokenId>) -> Run<P, usize> {
        |parser: P, after: P, outcome: Result<usize, MatcherError>|
            Self::tried(parser, tokens, 0, after, outcome)
    }

    /// `TokenParser::validate_tokens_raw` as a run.
    pub open spec fn validating(tokens: &[TokenId]) -> Run<P, usize> {
        |parser: P, after: P, outcome: Result<usize, MatcherError>|
            call_ensures(P::validate_tokens_raw, (parser, tokens), (after, outcome))
    }

    /// `TokenParser::rollback` as a run.
    pub open spec fn rolling_back(num_tokens: usize) -> Run<P, ()> {
        |parser: P, after: P, outcome: Result<(), MatcherError>|
            call_ensures(P::rollback, (parser, num_tokens), (after, outcome))
    }

    /// `TokenParser::reset` as a run.
    pub open spec fn resetting() -> Run<P, ()> {
        |parser: P, after: P, outcome: Result<(), MatcherError>|
            call_ensures(P::reset, (parser,), (after, outcome))
    }

    /// `TokenParser::test_trigger_lexer_error` as a run.
    pub open spec fn triggering_lexer_error() -> Run<P, ()> {
        |parser: P, after: P, outcome: Result<(), MatcherError>|
            call_ensures(P::test_trigger_lexer_error, (parser,), (after, outcome))
    }

    /// `TokenParser::compute_mask` as a run.
    pub open spec fn masking() -> Run<P, SimpleVob> {
        |parser: P, after: P, outcome: Result<SimpleVob, MatcherError>|
            call_ensures(P::compute_mask, (parser,), (after, outcome))
    }

    /// [`Self::masked_or_eos`] as a run.
    pub open spec fn masking_or_eos() -> Run<P, SimpleVob> {
        |parser: P, after: P, outcome: Result<SimpleVob, MatcherError>|
            Self::masked_or_eos(parser, after, outcome)
    }

    /// `TokenParser::is_accepting` as a run.
    pub open spec fn accepting() -> Run<P, bool> {
        |parser: P, after: P, outcome: Result<bool, MatcherError>|
            call_ensures(P::is_accepting, (parser,), (after, outcome))
    }

    /// `TokenParser::compute_ff_tokens` as a run.
    pub open spec fn forcing_tokens() -> Run<P, Vec<TokenId>> {
        |parser: P, after: P, outcome: Result<Vec<TokenId>, MatcherError>|
            call_ensures(P::compute_ff_tokens, (parser,), (after, outcome))
    }

    /// `TokenParser::force_bytes` as a run.
    pub open spec fn forcing_bytes() -> Run<P, Vec<u8>> {
        |parser: P, after: P, outcome: Result<Vec<u8>, MatcherError>|
            call_ensures(P::force_bytes, (parser,), (after, outcome))
    }

    /// An operation whose result is a list. A failure shows as the empty list.
    pub open spec fn listed<T>(self, run: Run<P, Vec<T>>, post: Self, list: Seq<T>) -> bool {
        exists|result: Result<Vec<T>, MatcherError>|
            {
                &&& #[trigger] self.operated(run, post, result)
                &&& list == match result {
                    Ok(items) => items@,
                    Err(_) => Seq::<T>::empty(),
                }
            }
    }

    /// Consuming the forced tokens: they are listed, then fed unless there are none. A failure of
    /// either shows as the empty list.
    pub open spec fn forced(self, post: Self, tokens: Seq<TokenId>) -> bool {
        exists|mid: Self, found: Seq<TokenId>|
            {
                &&& #[trigger] self.listed(Self::forcing_tokens(), mid, found)
                &&& if found.len() == 0 {
                    post == mid && tokens == found
                } else {
                    exists|result: Result<(), MatcherError>|
                        {
                            &&& #[trigger] mid.operated(Self::feeding(found), post, result)
                            &&& tokens == if result is Ok {
                                found
                            } else {
                                Seq::<TokenId>::empty()
                            }
                        }
                }
            }
    }
}

} // verus!
