use llg_matcher::{
    CancellationHandle, Cancelled, Matcher, MatcherError, StopReason, TokenId, TokenParser,
};
use std::sync::Arc;
use toktrie::{ApproximateTokEnv, SimpleVob, TokEnv, TokRxInfo, TokTrie};

#[derive(Clone)]
enum Grammar {
    /// `start: "text"`
    Literal(Vec<u8>),
    /// `start: /[a-z]+/`
    Letters,
}

/// A parser for the two kinds of grammar that these tests use.
#[derive(Clone)]
struct GrammarParser {
    env: TokEnv,
    grammar: Grammar,
    fresh: bool,
    tokens: Vec<TokenId>,
    stop: StopReason,
    handle: Option<CancellationHandle>,
    steps: usize,
}

impl GrammarParser {
    fn new(env: &TokEnv, grammar: &str) -> Self {
        let body = grammar.strip_prefix("start: ").unwrap();
        let grammar = if body == "/[a-z]+/" {
            Grammar::Letters
        } else {
            let text = body.strip_prefix('"').unwrap().strip_suffix('"').unwrap();
            Grammar::Literal(text.as_bytes().to_vec())
        };
        GrammarParser {
            env: env.clone(),
            grammar,
            fresh: true,
            tokens: Vec::new(),
            stop: StopReason::NotStopped,
            handle: None,
            steps: 0,
        }
    }

    fn bytes(&self, more: &[TokenId]) -> Vec<u8> {
        let mut bytes = Vec::new();
        for token in self.tokens.iter().chain(more) {
            bytes.extend_from_slice(self.env.tok_trie().token(*token));
        }
        bytes
    }

    fn allows(&self, token: TokenId) -> bool {
        let bytes = self.bytes(&[token]);
        !self.env.tok_trie().token(token).is_empty()
            && match &self.grammar {
                Grammar::Literal(text) => text.starts_with(&bytes),
                Grammar::Letters => bytes.iter().all(u8::is_ascii_lowercase),
            }
    }

    fn rest(&self) -> Vec<u8> {
        match &self.grammar {
            Grammar::Literal(text) => text[self.bytes(&[]).len()..].to_vec(),
            Grammar::Letters => Vec::new(),
        }
    }

    fn guarded<T>(self, value: T) -> (Self, Result<T, MatcherError>) {
        let requested = self.handle.as_ref().is_some_and(CancellationHandle::is_cancelled);
        if requested {
            (self, Err(MatcherError::Cancelled(Cancelled)))
        } else {
            (self, Ok(value))
        }
    }
}

impl TokenParser for GrammarParser {
    type Env = TokEnv;
    type Stats = usize;

    fn may_backtrack(&self) -> bool {
        false
    }
    fn is_fresh(&self) -> bool {
        self.fresh
    }
    fn start_without_prompt(mut self) -> Self {
        self.fresh = false;
        self
    }
    fn set_cancellation_handle(mut self, handle: CancellationHandle) -> Self {
        self.handle = Some(handle);
        self
    }
    fn deep_clone(&self) -> Self {
        self.clone()
    }
    fn consume_token(mut self, token: TokenId) -> (Self, Result<usize, MatcherError>) {
        if !self.allows(token) {
            return (self, Err(MatcherError::Failed("token not allowed".to_string())));
        }
        self.tokens.push(token);
        self.steps += 1;
        self.guarded(0)
    }
    fn check_stop(mut self) -> (Self, Result<bool, MatcherError>) {
        let complete = matches!(self.grammar, Grammar::Literal(_)) && self.rest().is_empty();
        if complete {
            self.stop = StopReason::NoExtension;
        }
        (self, Ok(complete))
    }
    fn validate_token(self, token: TokenId) -> (Self, Result<bool, MatcherError>) {
        let valid = self.allows(token);
        self.guarded(valid)
    }
    fn validate_tokens_raw(self, tokens: &[TokenId]) -> (Self, Result<usize, MatcherError>) {
        let mut ahead = self.clone();
        let mut count = 0;
        for token in tokens {
            if !ahead.allows(*token) {
                break;
            }
            ahead.tokens.push(*token);
            count += 1;
        }
        self.guarded(count)
    }
    fn rollback(mut self, num_tokens: usize) -> (Self, Result<(), MatcherError>) {
        let left = self.tokens.len() - num_tokens;
        self.tokens.truncate(left);
        self.stop = StopReason::NotStopped;
        self.guarded(())
    }
    fn reset(mut self) -> (Self, Result<(), MatcherError>) {
        self.tokens.clear();
        self.stop = StopReason::NotStopped;
        self.guarded(())
    }
    fn compute_mask(self) -> (Self, Result<SimpleVob, MatcherError>) {
        let mut mask = self.env.tok_trie().alloc_token_set();
        for token in 0..self.env.tok_trie().vocab_size() as TokenId {
            if self.allows(token) {
                mask.allow_token(token);
            }
        }
        self.guarded(mask)
    }
    fn is_accepting(self) -> (Self, Result<bool, MatcherError>) {
        let accepting = !self.tokens.is_empty() && self.rest().is_empty();
        self.guarded(accepting)
    }
    fn compute_ff_tokens(self) -> (Self, Result<Vec<TokenId>, MatcherError>) {
        let tokens = if self.env.tokenize_is_canonical() {
            self.env.tokenize_bytes(&self.rest())
        } else {
            Vec::new()
        };
        self.guarded(tokens)
    }
    fn force_bytes(self) -> (Self, Result<Vec<u8>, MatcherError>) {
        let bytes = self.rest();
        self.guarded(bytes)
    }
    fn test_trigger_lexer_error(self) -> (Self, Result<(), MatcherError>) {
        (self, Err(MatcherError::Failed("lexer error".to_string())))
    }
    fn stop_reason(&self) -> Result<StopReason, MatcherError> {
        Ok(self.stop)
    }
    fn augment_err(self, message: String) -> String {
        message
    }
    fn grammar_warnings(&mut self) -> Vec<String> {
        Vec::new()
    }
    fn invalidate_bias_cache(&mut self) {}
    fn token_env(&self) -> &TokEnv {
        &self.env
    }
    fn tok_trie(&self) -> Result<&TokTrie, MatcherError> {
        Ok(self.env.tok_trie())
    }
    fn last_step_stats(&self) -> &usize {
        &self.steps
    }
    fn get_capture(&self, _name: &str) -> Option<&[u8]> {
        None
    }
    fn captures(&self) -> &[(String, Vec<u8>)] {
        &[]
    }
}

fn matcher(grammar: &str, canonical: bool) -> Matcher<GrammarParser> {
    let env: TokEnv = if canonical {
        ApproximateTokEnv::single_byte_env()
    } else {
        let mut words = (0..=255).map(|x| vec![x]).collect::<Vec<_>>();
        words.push(Vec::new());
        for n in 0..8192 {
            let mut n = n;
            let mut word = vec![b'a'; 4];
            for b in &mut word {
                *b += (n % 26) as u8;
                n /= 26;
            }
            words.push(word);
        }
        Arc::new(ApproximateTokEnv::new(TokTrie::from(
            &TokRxInfo::new(words.len() as u32, 256),
            &words,
        )))
    };
    let matcher = Matcher::new(Ok(GrammarParser::new(&env, grammar))).into_cancellable();
    assert!(!matcher.is_error(), "{:?}", matcher.get_error());
    matcher
}

fn assert_cancelled<T: std::fmt::Debug>(r: Result<T, MatcherError>) {
    assert!(r.unwrap_err().is_cancelled());
}

#[test]
fn forced_results_keep_failure_in_matcher_state() {
    let mut tested = matcher(r#"start: "abcdef""#, true);
    let expected = b"abcdef".iter().map(|b| *b as u32).collect::<Vec<_>>();
    assert_eq!(tested.compute_ff_tokens(), expected);
    assert_eq!(tested.compute_ff_bytes(), b"abcdef");
    assert_eq!(tested.consume_ff_tokens(), expected);
    assert!(!tested.is_error());
    assert!(!tested.is_cancelled());
    assert!(tested.get_error().is_none());
    assert_eq!(tested.stop_reason(), StopReason::NoExtension);

    let mut cancelled = matcher(r#"start: "abcdef""#, true).into_cancellable();
    cancelled.cancellation_handle().unwrap().cancel();
    assert!(cancelled.compute_ff_tokens().is_empty());
    assert!(cancelled.compute_ff_bytes().is_empty());
    assert!(cancelled.consume_ff_tokens().is_empty());
    assert!(cancelled.is_error());
    assert!(cancelled.is_cancelled());
    assert_eq!(cancelled.get_error().as_deref(), Some("operation cancelled"));
    assert_eq!(cancelled.stop_reason(), StopReason::Cancelled);

    let mut healthy_empty = matcher("start: /[a-z]+/", true);
    assert!(healthy_empty.compute_ff_tokens().is_empty());
    assert!(!healthy_empty.is_error());
    assert!(!healthy_empty.is_cancelled());
    assert!(healthy_empty.get_error().is_none());
    assert_eq!(healthy_empty.stop_reason(), StopReason::NotStopped);
}

#[test]
fn cancellation_is_opt_in() {
    let env = ApproximateTokEnv::single_byte_env();
    let mut matcher = Matcher::new(Ok(GrammarParser::new(&env, "start: /[a-z]+/")));
    assert!(matcher.cancellation_handle().is_none());
    assert!(!matcher.is_cancelled());
    assert!(matcher.clone().cancellation_handle().is_none());
    assert!(matcher.deep_clone().cancellation_handle().is_none());
    let disabled_mask = matcher.clone().compute_mask().unwrap();
    let mut enabled = matcher.clone().into_cancellable();
    assert_eq!(enabled.compute_mask().unwrap(), disabled_mask);
    matcher = matcher.into_cancellable();
    assert!(matcher.cancellation_handle().is_some());
    matcher.cancellation_handle().unwrap().cancel();
    assert!(matcher.is_cancelled());
}

#[test]
fn terminal_cancellation_and_clone_ownership() {
    let mut original = matcher("start: /[a-z]+/", false);
    let mut shallow = original.clone();
    let mut deep = original.deep_clone();
    let handle = original.cancellation_handle().unwrap();
    let second_handle = handle.clone();
    drop(handle);
    second_handle.cancel();
    second_handle.cancel();
    assert!(original.is_cancelled());
    assert_eq!(original.stop_reason(), StopReason::Cancelled);
    assert_cancelled(original.clone().compute_mask());
    assert_cancelled(original.deep_clone().compute_mask());
    assert_cancelled(original.compute_mask_or_eos());
    assert_cancelled(original.consume_token(b'a' as u32));
    assert!(original.compute_ff_tokens().is_empty());
    assert!(original.compute_ff_bytes().is_empty());
    assert!(original.consume_ff_tokens().is_empty());
    assert!(original.is_error());
    assert!(original.is_cancelled());
    assert_eq!(original.get_error().as_deref(), Some("operation cancelled"));
    assert_eq!(original.stop_reason(), StopReason::Cancelled);
    assert_cancelled(original.is_accepting());
    assert_cancelled(original.reset());
    assert_cancelled(original.rollback(0));
    assert_cancelled(original.validate_tokens(&[]));
    assert_cancelled(original.try_consume_tokens(&[]));
    assert_cancelled(original.clone().compute_mask());
    assert_cancelled(original.deep_clone().compute_mask());
    assert_eq!(shallow.compute_mask().unwrap(), deep.compute_mask().unwrap());
    drop(original);
    second_handle.cancel();
    let failure = MatcherError::Failed("original error".to_string());
    let mut error = Matcher::<GrammarParser>::new(Err(failure)).into_cancellable();
    error.cancellation_handle().unwrap().cancel();
    assert!(!error.is_cancelled());
    assert!(error.compute_ff_tokens().is_empty());
    assert!(error.compute_ff_bytes().is_empty());
    assert!(error.consume_ff_tokens().is_empty());
    assert!(error.is_error());
    assert_eq!(error.get_error().as_deref(), Some("original error"));
    assert_eq!(error.stop_reason(), StopReason::InternalError);
    assert_eq!(error.compute_mask().unwrap_err().to_string(), "original error");
}

#[test]
fn cancellation_defeats_cached_and_forced_masks() {
    let mut cached = matcher("start: /[a-z]+/", false);
    cached.consume_token(b'a' as u32).unwrap();
    let expected = cached.compute_mask().unwrap();
    assert_eq!(cached.compute_mask().unwrap(), expected);
    cached.cancellation_handle().unwrap().cancel();
    assert_cancelled(cached.compute_mask());

    let mut forced = matcher("start: \"abcdef\"", true);
    assert!(!forced.compute_ff_tokens().is_empty());
    forced.cancellation_handle().unwrap().cancel();
    assert_cancelled(forced.compute_mask_or_eos());

    let mut stopped = matcher("start: \"a\"", false);
    stopped.consume_token(b'a' as u32).unwrap();
    assert!(stopped.is_stopped());
    stopped.cancellation_handle().unwrap().cancel();
    assert_cancelled(stopped.compute_mask_or_eos());
}

#[test]
fn fast_forward_methods_keep_public_signatures() {
    let _: fn(&mut Matcher<GrammarParser>) -> Vec<TokenId> =
        Matcher::<GrammarParser>::compute_ff_tokens;
    let _: fn(&mut Matcher<GrammarParser>) -> Vec<TokenId> =
        Matcher::<GrammarParser>::consume_ff_tokens;
    let _: fn(&mut Matcher<GrammarParser>) -> Vec<u8> = Matcher::<GrammarParser>::compute_ff_bytes;
}

#[test]
fn stopped_matcher_allows_eos_only() {
    let mut stopped = matcher("start: \"a\"", false);
    assert_eq!(stopped.compute_mask_or_eos().unwrap().to_list(), vec![b'a' as u32]);
    stopped.consume_token(b'a' as u32).unwrap();
    let mask = stopped.compute_mask_or_eos().unwrap();
    assert_eq!(mask.to_list(), vec![256]);
    assert_eq!(mask.len(), 257 + 8192);
}

#[test]
fn handle_requests_are_permanent_and_shared() {
    let handle = CancellationHandle::default();
    let shared = handle.clone();
    let other = CancellationHandle::default();
    assert!(!handle.is_cancelled());
    assert!(!shared.is_cancelled());
    shared.cancel();
    assert!(handle.is_cancelled());
    assert!(shared.is_cancelled());
    assert!(handle.is_cancelled());
    assert!(!other.is_cancelled());
    drop(shared);
    assert!(handle.is_cancelled());
}

#[test]
fn cancelled_has_a_message() {
    assert_eq!(Cancelled.to_string(), "operation cancelled");
    assert_eq!(Cancelled, Cancelled);
}
