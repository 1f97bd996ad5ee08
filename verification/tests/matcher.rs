use llg_matcher::matcher::{duplicate, publish, settle};
use llg_matcher::{
    CancellationHandle, Cancelled, Matcher, MatcherError, StopReason, TokenId, TokenParser,
};
use std::cell::RefCell;
use std::rc::Rc;
use toktrie::{SimpleVob, TokRxInfo, TokTrie};

fn failure(message: &str) -> MatcherError {
    MatcherError::Failed(message.to_string())
}

fn cancelled() -> MatcherError {
    MatcherError::Cancelled(Cancelled)
}

/// A parser that logs its calls. Token 7 makes it ask for one token back, token 8 fails when it is
/// consumed, token 9 is refused, token 6 fails when it is validated, and token 5 fails to stop.
/// Its call `request_in` raises the request of its own handle, its call `cancel_in` reports a
/// cancellation, and its call `fail_in` fails.
struct Script {
    log: Rc<RefCell<Vec<String>>>,
    trie: TokTrie,
    fresh: bool,
    backtrack: bool,
    stop: StopReason,
    tokens: Vec<TokenId>,
    forced: Vec<TokenId>,
    request_in: &'static str,
    cancel_in: &'static str,
    fail_in: &'static str,
    handle: Option<CancellationHandle>,
    captures: Vec<(String, Vec<u8>)>,
    env: String,
}

impl Script {
    fn new() -> Self {
        let words: Vec<Vec<u8>> = (0..16u8).map(|x| vec![b'a' + x]).collect();
        Script {
            log: Rc::new(RefCell::new(Vec::new())),
            trie: TokTrie::from(&TokRxInfo::new(16, 15), &words),
            fresh: false,
            backtrack: false,
            stop: StopReason::NotStopped,
            tokens: Vec::new(),
            forced: Vec::new(),
            request_in: "",
            cancel_in: "",
            fail_in: "",
            handle: None,
            captures: vec![("word".to_string(), b"hello".to_vec())],
            env: "env".to_string(),
        }
    }

    fn note(&self, entry: String) {
        self.log.borrow_mut().push(entry);
    }

    fn answer<T>(
        self,
        call: &str,
        entry: String,
        result: Result<T, MatcherError>,
    ) -> (Self, Result<T, MatcherError>) {
        self.note(entry);
        if self.request_in == call {
            self.handle.as_ref().unwrap().cancel();
        }
        let result = if self.cancel_in == call { Err(cancelled()) } else { result };
        (self, result)
    }
}

impl Clone for Script {
    fn clone(&self) -> Self {
        self.note("clone".to_string());
        Script {
            log: self.log.clone(),
            trie: self.trie.clone(),
            fresh: self.fresh,
            backtrack: self.backtrack,
            stop: self.stop,
            tokens: self.tokens.clone(),
            forced: self.forced.clone(),
            request_in: self.request_in,
            cancel_in: self.cancel_in,
            fail_in: self.fail_in,
            handle: self.handle.clone(),
            captures: self.captures.clone(),
            env: self.env.clone(),
        }
    }
}

impl TokenParser for Script {
    type Env = String;
    type Stats = Vec<TokenId>;

    fn may_backtrack(&self) -> bool {
        self.backtrack
    }
    fn is_fresh(&self) -> bool {
        self.fresh
    }
    fn start_without_prompt(mut self) -> Self {
        self.note("start".to_string());
        self.fresh = false;
        self
    }
    fn set_cancellation_handle(mut self, handle: CancellationHandle) -> Self {
        self.note("set_handle".to_string());
        self.handle = Some(handle);
        self
    }
    fn deep_clone(&self) -> Self {
        self.note("deep".to_string());
        self.clone()
    }
    fn consume_token(mut self, token: TokenId) -> (Self, Result<usize, MatcherError>) {
        self.tokens.push(token);
        let result = match token {
            7 => Ok(1),
            8 => Err(failure("bad token")),
            _ => Ok(0),
        };
        self.answer("consume", format!("consume {token}"), result)
    }
    fn check_stop(self) -> (Self, Result<bool, MatcherError>) {
        let result = if self.tokens.last() == Some(&5) {
            Err(failure("cannot stop"))
        } else {
            Ok(true)
        };
        self.answer("check_stop", "check_stop".to_string(), result)
    }
    fn validate_token(self, token: TokenId) -> (Self, Result<bool, MatcherError>) {
        let result = match token {
            6 => Err(failure("cannot validate")),
            9 => Ok(false),
            _ => Ok(true),
        };
        self.answer("validate", format!("validate {token}"), result)
    }
    fn validate_tokens_raw(self, tokens: &[TokenId]) -> (Self, Result<usize, MatcherError>) {
        let count = tokens.iter().take_while(|token| **token != 9).count();
        self.answer("validate_raw", format!("validate_raw {tokens:?}"), Ok(count))
    }
    fn rollback(mut self, num_tokens: usize) -> (Self, Result<(), MatcherError>) {
        let result = if num_tokens <= self.tokens.len() {
            let left = self.tokens.len() - num_tokens;
            self.tokens.truncate(left);
            Ok(())
        } else {
            Err(failure("too many"))
        };
        self.answer("rollback", format!("rollback {num_tokens}"), result)
    }
    fn reset(mut self) -> (Self, Result<(), MatcherError>) {
        self.tokens.clear();
        self.answer("reset", "reset".to_string(), Ok(()))
    }
    fn compute_mask(self) -> (Self, Result<SimpleVob, MatcherError>) {
        let mut mask = self.trie.alloc_token_set();
        mask.allow_token(2);
        mask.allow_token(3);
        self.answer("mask", "mask".to_string(), Ok(mask))
    }
    fn is_accepting(self) -> (Self, Result<bool, MatcherError>) {
        let accepting = self.tokens.len() == 2;
        self.answer("accepting", "accepting".to_string(), Ok(accepting))
    }
    fn compute_ff_tokens(self) -> (Self, Result<Vec<TokenId>, MatcherError>) {
        let forced = self.forced.clone();
        self.answer("ff_tokens", "ff_tokens".to_string(), Ok(forced))
    }
    fn force_bytes(self) -> (Self, Result<Vec<u8>, MatcherError>) {
        self.answer("ff_bytes", "ff_bytes".to_string(), Ok(b"xyz".to_vec()))
    }
    fn test_trigger_lexer_error(self) -> (Self, Result<(), MatcherError>) {
        self.answer("lexer", "lexer".to_string(), Err(failure("lexer error")))
    }
    fn stop_reason(&self) -> Result<StopReason, MatcherError> {
        if self.fail_in == "stop_reason" {
            Err(failure("panic: no reason"))
        } else {
            Ok(self.stop)
        }
    }
    fn augment_err(self, message: String) -> String {
        format!("{message} after {:?}", self.tokens)
    }
    fn grammar_warnings(&mut self) -> Vec<String> {
        self.tokens.push(100);
        vec!["ambiguous".to_string()]
    }
    fn invalidate_bias_cache(&mut self) {
        self.note("invalidate".to_string());
    }
    fn token_env(&self) -> &String {
        &self.env
    }
    fn tok_trie(&self) -> Result<&TokTrie, MatcherError> {
        if self.fail_in == "tok_trie" {
            Err(failure("panic: no trie"))
        } else {
            Ok(&self.trie)
        }
    }
    fn last_step_stats(&self) -> &Vec<TokenId> {
        &self.tokens
    }
    fn get_capture(&self, name: &str) -> Option<&[u8]> {
        self.captures.iter().find(|c| c.0 == name).map(|c| c.1.as_slice())
    }
    fn captures(&self) -> &[(String, Vec<u8>)] {
        &self.captures
    }
}

fn log_of(script: &Script) -> Rc<RefCell<Vec<String>>> {
    script.log.clone()
}

fn plain() -> (Matcher<Script>, Rc<RefCell<Vec<String>>>) {
    let script = Script::new();
    let log = log_of(&script);
    (Matcher::new(Ok(script)), log)
}

fn requesting(call: &'static str) -> (Matcher<Script>, Rc<RefCell<Vec<String>>>) {
    let mut script = Script::new();
    script.request_in = call;
    script.forced = vec![1, 2, 3];
    let log = log_of(&script);
    let matcher = Matcher::new(Ok(script)).into_cancellable();
    log.borrow_mut().clear();
    (matcher, log)
}

fn tokens_of(matcher: &Matcher<Script>) -> Vec<TokenId> {
    matcher.last_step_stats().unwrap().clone()
}

#[test]
fn publish_discards_cancelled_outcomes() {
    assert_eq!(publish(Ok(3), false), Ok(3));
    assert_eq!(publish(Ok(3), true), Err(cancelled()));
    assert_eq!(publish::<u8>(Err(failure("x")), false), Err(failure("x")));
    assert_eq!(publish::<u8>(Err(failure("x")), true), Err(cancelled()));
    assert_eq!(publish::<u8>(Err(cancelled()), false), Err(cancelled()));
    assert_eq!(publish::<u8>(Err(cancelled()), true), Err(cancelled()));
}

#[test]
fn settle_looks_at_the_request() {
    let handle = CancellationHandle::default();
    let enabled = Some(handle.clone());
    assert_eq!(settle(&None, Ok(3)), (false, Ok(3)));
    assert_eq!(settle(&enabled, Ok(3)), (false, Ok(3)));
    assert_eq!(settle::<u8>(&enabled, Err(failure("x"))), (false, Err(failure("x"))));
    handle.cancel();
    assert_eq!(settle(&enabled, Ok(3)), (true, Err(cancelled())));
    assert_eq!(settle::<u8>(&enabled, Err(failure("x"))), (true, Err(cancelled())));
    assert_eq!(settle::<u8>(&None, Err(cancelled())), (false, Err(cancelled())));
}

#[test]
fn duplicate_tells_the_copy_of_the_handle() {
    let script = Script::new();
    let log = log_of(&script);
    let handle = CancellationHandle::default();
    let copy = duplicate(&script, true, &Some(handle.clone()));
    assert_eq!(*log.borrow(), vec!["deep", "clone", "set_handle"]);
    handle.cancel();
    assert!(copy.handle.unwrap().is_cancelled());
    log.borrow_mut().clear();
    let copy = duplicate(&script, false, &None);
    assert_eq!(*log.borrow(), vec!["clone"]);
    assert!(copy.handle.is_none());
}

#[test]
fn errors_have_messages() {
    assert!(cancelled().is_cancelled());
    assert!(!failure("operation cancelled").is_cancelled());
    assert_eq!(cancelled().to_string(), "operation cancelled");
    assert_eq!(failure("x").to_string(), "x");
}

#[test]
fn new_rejects_backtracking() {
    let mut script = Script::new();
    script.backtrack = true;
    script.fresh = true;
    let log = log_of(&script);
    let mut matcher = Matcher::new(Ok(script));
    assert!(matcher.is_error());
    assert_eq!(matcher.get_error().as_deref(), Some("backtracking not supported"));
    assert_eq!(matcher.stop_reason(), StopReason::InternalError);
    assert_eq!(matcher.reset(), Err(failure("backtracking not supported")));
    assert!(log.borrow().is_empty());
}

#[test]
fn new_starts_a_fresh_parser_only() {
    let mut script = Script::new();
    script.fresh = true;
    let log = log_of(&script);
    let matcher = Matcher::new(Ok(script));
    assert!(!matcher.is_error());
    assert_eq!(*log.borrow(), vec!["start"]);
    let (matcher, log) = plain();
    assert!(!matcher.is_error());
    assert!(log.borrow().is_empty());
}

#[test]
fn new_keeps_the_message_of_an_error() {
    let matcher = Matcher::<Script>::new(Err(failure("no grammar")));
    assert_eq!(matcher.get_error().as_deref(), Some("no grammar"));
    let matcher = Matcher::<Script>::new(Err(cancelled()));
    assert_eq!(matcher.get_error().as_deref(), Some("operation cancelled"));
    assert_eq!(matcher.stop_reason(), StopReason::InternalError);
    assert!(!matcher.is_cancelled());
}

#[test]
fn consume_tokens_feeds_all_and_lets_the_parser_stop() {
    let (mut matcher, log) = plain();
    assert_eq!(matcher.consume_tokens(&[1, 2, 3]), Ok(()));
    assert_eq!(*log.borrow(), vec!["consume 1", "consume 2", "consume 3", "check_stop"]);
    assert_eq!(tokens_of(&matcher), vec![1, 2, 3]);
    log.borrow_mut().clear();
    assert_eq!(matcher.consume_tokens(&[]), Ok(()));
    assert_eq!(*log.borrow(), vec!["check_stop"]);
    log.borrow_mut().clear();
    assert_eq!(matcher.consume_token(4), Ok(()));
    assert_eq!(*log.borrow(), vec!["consume 4", "check_stop"]);
}

#[test]
fn consume_tokens_ends_at_the_first_failure() {
    let (mut matcher, log) = plain();
    assert_eq!(matcher.consume_tokens(&[1, 8, 3]), Err(failure("bad token after [1, 8]")));
    assert_eq!(*log.borrow(), vec!["consume 1", "consume 8"]);
    assert!(matcher.is_error());
    assert!(matcher.is_stopped());
    assert!(!matcher.is_cancelled());
    assert_eq!(matcher.get_error().as_deref(), Some("bad token after [1, 8]"));
    assert_eq!(matcher.stop_reason(), StopReason::InternalError);
    log.borrow_mut().clear();
    assert_eq!(matcher.consume_token(1), Err(failure("bad token after [1, 8]")));
    assert_eq!(matcher.reset(), Err(failure("bad token after [1, 8]")));
    assert_eq!(matcher.rollback(1), Err(failure("bad token after [1, 8]")));
    assert!(log.borrow().is_empty());
}

#[test]
fn consume_tokens_rejects_backtracking_at_once() {
    let (mut matcher, log) = plain();
    assert_eq!(
        matcher.consume_tokens(&[1, 7, 3]),
        Err(failure("unexpected backtracking after [1, 7]"))
    );
    assert_eq!(*log.borrow(), vec!["consume 1", "consume 7"]);
}

#[test]
fn consume_tokens_reports_a_failure_to_stop() {
    let (mut matcher, _) = plain();
    assert_eq!(matcher.consume_tokens(&[1, 5]), Err(failure("cannot stop after [1, 5]")));
    assert!(matcher.is_error());
}

#[test]
fn try_consume_tokens_counts_what_it_fed() {
    let (mut matcher, log) = plain();
    assert_eq!(matcher.try_consume_tokens(&[1, 2, 9, 3]), Ok(2));
    assert_eq!(
        *log.borrow(),
        vec![
            "validate 1",
            "consume 1",
            "check_stop",
            "validate 2",
            "consume 2",
            "check_stop",
            "validate 9"
        ]
    );
    assert_eq!(tokens_of(&matcher), vec![1, 2]);
    assert_eq!(matcher.try_consume_tokens(&[1, 2]), Ok(2));
    assert_eq!(matcher.try_consume_tokens(&[]), Ok(0));
    assert_eq!(matcher.try_consume_tokens(&[9]), Ok(0));
}

#[test]
fn try_consume_tokens_ends_at_the_first_failure() {
    let (mut matcher, _) = plain();
    assert_eq!(matcher.try_consume_tokens(&[1, 6]), Err(failure("cannot validate after [1]")));
    let (mut matcher, _) = plain();
    assert_eq!(matcher.try_consume_tokens(&[1, 8]), Err(failure("bad token after [1, 8]")));
    let (mut matcher, _) = plain();
    assert_eq!(matcher.try_consume_tokens(&[5, 1]), Err(failure("cannot stop after [5]")));
    let (mut matcher, log) = plain();
    assert_eq!(
        matcher.try_consume_tokens(&[7, 1]),
        Err(failure("unexpected backtracking after [7]"))
    );
    assert_eq!(*log.borrow(), vec!["validate 7", "consume 7", "check_stop"]);
}

#[test]
fn operations_hand_their_arguments_to_the_parser() {
    let (mut matcher, log) = plain();
    assert_eq!(matcher.consume_tokens(&[1, 2, 3]), Ok(()));
    log.borrow_mut().clear();
    assert_eq!(matcher.rollback(1), Ok(()));
    assert_eq!(matcher.is_accepting(), Ok(true));
    assert_eq!(matcher.validate_tokens(&[4, 9, 4]), Ok(1));
    assert_eq!(matcher.compute_mask().unwrap().to_list(), vec![2, 3]);
    assert_eq!(matcher.compute_ff_bytes(), b"xyz");
    assert_eq!(matcher.reset(), Ok(()));
    assert_eq!(matcher.is_accepting(), Ok(false));
    assert_eq!(
        *log.borrow(),
        vec![
            "rollback 1",
            "accepting",
            "validate_raw [4, 9, 4]",
            "mask",
            "ff_bytes",
            "reset",
            "accepting"
        ]
    );
    assert_eq!(matcher.rollback(1), Err(failure("too many after []")));
    let (mut matcher, _) = plain();
    assert_eq!(matcher.test_trigger_lexer_error(), Err(failure("lexer error after []")));
    assert!(matcher.is_error());
}

#[test]
fn mask_or_eos_follows_the_stop_reason() {
    let (mut matcher, _) = plain();
    assert_eq!(matcher.compute_mask_or_eos().unwrap().to_list(), vec![2, 3]);

    let mut script = Script::new();
    script.stop = StopReason::EndOfSentence;
    let log = log_of(&script);
    let mut matcher = Matcher::new(Ok(script));
    let mask = matcher.compute_mask_or_eos().unwrap();
    assert_eq!(mask.to_list(), vec![15]);
    assert_eq!(mask.len(), 16);
    assert!(log.borrow().is_empty());
    assert!(!matcher.is_error());

    let mut script = Script::new();
    script.stop = StopReason::NoExtension;
    script.trie = script.trie.with_eos_tokens(&[4, 11]);
    let mut matcher = Matcher::new(Ok(script));
    assert_eq!(matcher.compute_mask_or_eos().unwrap().to_list(), vec![4, 11]);

    let mut script = Script::new();
    script.stop = StopReason::NoExtension;
    script.trie = script.trie.with_info(TokRxInfo::new(16, toktrie::INVALID_TOKEN));
    let mut matcher = Matcher::new(Ok(script));
    let mask = matcher.compute_mask_or_eos().unwrap();
    assert!(mask.to_list().is_empty());
    assert_eq!(mask.len(), 16);
}

#[test]
fn mask_or_eos_stores_a_failure_of_the_parser() {
    let mut script = Script::new();
    script.fail_in = "stop_reason";
    let log = log_of(&script);
    let mut matcher = Matcher::new(Ok(script));
    assert!(matcher.is_stopped());
    assert!(!matcher.is_error());
    assert_eq!(matcher.stop_reason(), StopReason::InternalError);
    assert_eq!(matcher.compute_mask_or_eos(), Err(failure("panic: no reason after []")));
    assert!(log.borrow().is_empty());
    assert_eq!(matcher.get_error().as_deref(), Some("panic: no reason after []"));

    let mut script = Script::new();
    script.fail_in = "tok_trie";
    script.stop = StopReason::NoExtension;
    let mut matcher = Matcher::new(Ok(script));
    assert_eq!(matcher.compute_mask_or_eos(), Err(failure("panic: no trie after []")));
    assert!(matcher.is_error());
    assert_eq!(matcher.reset(), Err(failure("panic: no trie after []")));
}

#[test]
fn request_before_an_operation_keeps_the_parser_from_running() {
    let (mut matcher, log) = requesting("");
    matcher.cancellation_handle().unwrap().cancel();
    assert_eq!(matcher.consume_tokens(&[1]), Err(cancelled()));
    assert!(log.borrow().is_empty());
    assert_eq!(matcher.stop_reason(), StopReason::Cancelled);
}

#[test]
fn request_during_an_operation_discards_a_complete_result() {
    let (mut matcher, log) = requesting("mask");
    assert_eq!(matcher.compute_mask(), Err(cancelled()));
    assert_eq!(*log.borrow(), vec!["mask"]);
    assert!(matcher.is_cancelled());
    assert_eq!(matcher.compute_mask(), Err(cancelled()));
    assert_eq!(*log.borrow(), vec!["mask"]);

    let (mut matcher, _) = requesting("ff_bytes");
    assert!(matcher.compute_ff_bytes().is_empty());
    assert!(matcher.is_cancelled());
    assert_eq!(matcher.get_error().as_deref(), Some("operation cancelled"));

    let (mut matcher, _) = requesting("ff_tokens");
    assert!(matcher.compute_ff_tokens().is_empty());
    assert_eq!(matcher.stop_reason(), StopReason::Cancelled);

    let (mut matcher, _) = requesting("lexer");
    assert_eq!(matcher.test_trigger_lexer_error(), Err(cancelled()));
    assert!(matcher.is_cancelled());
}

#[test]
fn request_during_forced_consumption_discards_the_tokens() {
    let (mut matcher, log) = requesting("check_stop");
    assert!(matcher.consume_ff_tokens().is_empty());
    assert_eq!(
        *log.borrow(),
        vec!["ff_tokens", "consume 1", "consume 2", "consume 3", "check_stop"]
    );
    assert!(matcher.is_error());
    assert!(matcher.is_cancelled());
    assert_eq!(matcher.get_error().as_deref(), Some("operation cancelled"));
}

#[test]
fn forced_tokens_are_consumed_unless_there_are_none() {
    let mut script = Script::new();
    script.forced = vec![1, 2, 3];
    let log = log_of(&script);
    let mut matcher = Matcher::new(Ok(script));
    assert_eq!(matcher.compute_ff_tokens(), vec![1, 2, 3]);
    assert!(tokens_of(&matcher).is_empty());
    assert_eq!(matcher.consume_ff_tokens(), vec![1, 2, 3]);
    assert_eq!(tokens_of(&matcher), vec![1, 2, 3]);
    assert_eq!(log.borrow().len(), 6);

    let (mut matcher, log) = plain();
    assert!(matcher.consume_ff_tokens().is_empty());
    assert_eq!(*log.borrow(), vec!["ff_tokens"]);
    assert!(!matcher.is_error());

    let mut script = Script::new();
    script.forced = vec![1, 8];
    let mut matcher = Matcher::new(Ok(script));
    assert!(matcher.consume_ff_tokens().is_empty());
    assert_eq!(matcher.get_error().as_deref(), Some("bad token after [1, 8]"));
}

#[test]
fn cancellation_reported_by_the_parser_is_terminal() {
    let mut script = Script::new();
    script.cancel_in = "reset";
    let mut matcher = Matcher::new(Ok(script));
    assert_eq!(matcher.consume_token(1), Ok(()));
    assert_eq!(matcher.reset(), Err(cancelled()));
    assert!(matcher.cancellation_handle().is_none());
    assert!(!matcher.is_cancelled());
    assert!(matcher.is_error());
    assert!(matcher.is_stopped());
    assert_eq!(matcher.stop_reason(), StopReason::Cancelled);
    assert_eq!(matcher.get_error().as_deref(), Some("operation cancelled"));
    assert_eq!(matcher.consume_token(1), Err(cancelled()));
    assert!(matcher.clone().is_error());
    assert_eq!(matcher.clone().stop_reason(), StopReason::Cancelled);
}

#[test]
fn enabling_tells_the_parser_and_happens_once() {
    let (matcher, log) = plain();
    let matcher = matcher.into_cancellable();
    assert_eq!(*log.borrow(), vec!["set_handle"]);
    let handle = matcher.cancellation_handle().unwrap();
    let matcher = matcher.into_cancellable();
    assert_eq!(*log.borrow(), vec!["set_handle"]);
    handle.cancel();
    assert!(matcher.is_cancelled());

    let error = Matcher::<Script>::new(Err(failure("x"))).into_cancellable();
    assert!(error.cancellation_handle().is_some());
    assert_eq!(error.get_error().as_deref(), Some("x"));
}

#[test]
fn clones_have_cancellation_state_of_their_own() {
    let (matcher, log) = requesting("");
    let shallow = matcher.clone();
    assert_eq!(*log.borrow(), vec!["clone", "set_handle"]);
    log.borrow_mut().clear();
    let deep = matcher.deep_clone();
    assert_eq!(*log.borrow(), vec!["deep", "clone", "set_handle"]);
    shallow.cancellation_handle().unwrap().cancel();
    assert!(shallow.is_cancelled());
    assert!(!matcher.is_cancelled());
    assert!(!deep.is_cancelled());
    matcher.cancellation_handle().unwrap().cancel();
    assert!(!deep.is_cancelled());
}

#[test]
fn clones_keep_what_they_sampled() {
    let (matcher, log) = requesting("");
    matcher.cancellation_handle().unwrap().cancel();
    let mut copy = matcher.clone();
    assert!(log.borrow().is_empty());
    assert!(copy.is_cancelled());
    assert!(copy.cancellation_handle().is_some());
    assert_eq!(copy.reset(), Err(cancelled()));
    assert_eq!(copy.deep_clone().reset(), Err(cancelled()));

    let error = Matcher::<Script>::new(Err(failure("x"))).into_cancellable();
    error.cancellation_handle().unwrap().cancel();
    let mut copy = error.deep_clone();
    assert!(!copy.is_cancelled());
    assert_eq!(copy.reset(), Err(failure("x")));

    let (matcher, log) = plain();
    let copy = matcher.clone();
    assert!(copy.cancellation_handle().is_none());
    assert_eq!(*log.borrow(), vec!["clone"]);
}

#[test]
fn queries_answer_for_what_was_seen() {
    let (normal, _) = plain();
    assert!(!normal.is_cancelled_when(false));
    assert!(!normal.is_error_when(false));
    assert!(!normal.is_stopped_when(false));
    assert_eq!(normal.stop_reason_when(false), StopReason::NotStopped);
    assert_eq!(normal.get_error_when(false), None);
    assert!(normal.is_cancelled_when(true));
    assert!(normal.is_error_when(true));
    assert!(normal.is_stopped_when(true));
    assert_eq!(normal.stop_reason_when(true), StopReason::Cancelled);
    assert_eq!(normal.get_error_when(true).as_deref(), Some("operation cancelled"));

    let error = Matcher::<Script>::new(Err(failure("x")));
    for requested in [false, true] {
        assert!(!error.is_cancelled_when(requested));
        assert!(error.is_error_when(requested));
        assert!(error.is_stopped_when(requested));
        assert_eq!(error.stop_reason_when(requested), StopReason::InternalError);
        assert_eq!(error.get_error_when(requested).as_deref(), Some("x"));
    }

    let mut script = Script::new();
    script.cancel_in = "reset";
    let mut stopped = Matcher::new(Ok(script));
    assert_eq!(stopped.reset(), Err(cancelled()));
    for requested in [false, true] {
        assert_eq!(stopped.is_cancelled_when(requested), requested);
        assert!(stopped.is_error_when(requested));
        assert!(stopped.is_stopped_when(requested));
        assert_eq!(stopped.stop_reason_when(requested), StopReason::Cancelled);
        assert_eq!(stopped.get_error_when(requested).as_deref(), Some("operation cancelled"));
    }

    let mut script = Script::new();
    script.stop = StopReason::MaxTokensTotal;
    let matcher = Matcher::new(Ok(script));
    assert!(matcher.is_stopped());
    assert!(!matcher.is_error());
    assert_eq!(matcher.stop_reason(), StopReason::MaxTokensTotal);
}

#[test]
fn parser_facts_are_known_while_it_runs() {
    let (mut matcher, log) = plain();
    assert_eq!(matcher.consume_token(1), Ok(()));
    log.borrow_mut().clear();
    assert_eq!(matcher.tok_env(), Ok("env".to_string()));
    assert_eq!(matcher.last_step_stats(), Ok(&vec![1]));
    assert_eq!(matcher.get_capture("word"), Some(&b"hello"[..]));
    assert_eq!(matcher.get_capture("other"), None);
    assert_eq!(matcher.captures(), &[("word".to_string(), b"hello".to_vec())]);
    assert_eq!(matcher.grammar_warnings(), vec!["ambiguous"]);
    assert_eq!(matcher.last_step_stats(), Ok(&vec![1, 100]));
    matcher.invalidate_bias_cache();
    assert_eq!(*log.borrow(), vec!["invalidate"]);
    assert!(!matcher.is_error());
}

#[test]
fn terminal_matchers_know_nothing_of_the_parser() {
    let mut error = Matcher::<Script>::new(Err(failure("x")));
    assert_eq!(error.tok_env(), Err(failure("x")));
    assert_eq!(error.last_step_stats(), Err(failure("x")));
    assert_eq!(error.get_capture("word"), None);
    assert!(error.captures().is_empty());
    assert!(error.grammar_warnings().is_empty());
    error.invalidate_bias_cache();
    assert_eq!(error.get_error().as_deref(), Some("x"));

    let (mut matcher, log) = requesting("reset");
    assert_eq!(matcher.reset(), Err(cancelled()));
    log.borrow_mut().clear();
    assert_eq!(matcher.tok_env(), Err(cancelled()));
    assert_eq!(matcher.last_step_stats(), Err(cancelled()));
    assert_eq!(matcher.get_capture("word"), None);
    assert!(matcher.captures().is_empty());
    assert!(matcher.grammar_warnings().is_empty());
    matcher.invalidate_bias_cache();
    assert!(log.borrow().is_empty());
    assert_eq!(matcher.stop_reason(), StopReason::Cancelled);
}

#[test]
fn request_alone_leaves_the_facts_of_the_parser() {
    let (mut matcher, _) = requesting("");
    matcher.cancellation_handle().unwrap().cancel();
    assert!(matcher.is_cancelled());
    assert_eq!(matcher.tok_env(), Ok("env".to_string()));
    assert_eq!(matcher.grammar_warnings(), vec!["ambiguous"]);
    assert_eq!(matcher.captures().len(), 1);
}
