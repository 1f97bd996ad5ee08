//! The parser that a matcher drives.
use crate::cancellation::CancellationHandle;
use crate::error::MatcherError;
use toktrie::{SimpleVob, TokTrie};
pub use toktrie::TokenId;
use vstd::prelude::*;

verus! {

/// Why a parser or a matcher stopped.
#[derive(Clone, Copy, Debug, PartialEq, Eq, Structural)]
pub enum StopReason {
    /// The parser has not stopped.
    NotStopped,
    /// The limit on the total number of tokens was reached.
    MaxTokensTotal,
    /// The limit on the number of tokens of the top-level parser was reached.
    MaxTokensParser,
    /// The grammar is complete and allows no extension.
    NoExtension,
    /// The token mask allows no extension.
    NoExtensionBias,
    /// The end of the sequence was consumed.
    EndOfSentence,
    /// The matcher or the parser failed.
    InternalError,
    /// The lexer grew past its limits.
    LexerTooComplex,
    /// The parser grew past its limits.
    ParserTooComplex,
    /// A cancellation request was observed.
    Cancelled,
}

/// A token parser, as a matcher uses it.
///
/// A method that changes the parser takes it by value and hands it back beside its result; the two
/// that no operation guards change it in place. No method promises anything: a matcher is correct
/// for every parser, and its contracts speak of what a call on the parser can return through
/// `call_ensures`. Where a method returns a `Result`, an implementation reports a panic of its own
/// as an error, and a request that it observes as [`MatcherError::Cancelled`].
pub trait TokenParser: Clone {
    /// The tokenizer environment of the parser.
    type Env: Clone;

    /// Statistics of one step.
    type Stats;

    /// Whether the parser may ask for tokens to be taken back.
    fn may_backtrack(&self) -> bool;

    /// Whether the parser has not been started yet.
    fn is_fresh(&self) -> bool;

    /// Starts the parser on an empty prompt.
    fn start_without_prompt(self) -> Self;

    /// Makes the parser look at `handle` while it works.
    fn set_cancellation_handle(self, handle: CancellationHandle) -> Self;

    /// Copies the parser with its lexer caches, which [`Clone::clone`] shares.
    fn deep_clone(&self) -> Self;

    /// Advances by one token. Returns how many tokens have to be taken back.
    fn consume_token(self, token: TokenId) -> (Self, Result<usize, MatcherError>);

    /// Stops the parser if nothing can follow. Returns whether it is stopped.
    fn check_stop(self) -> (Self, Result<bool, MatcherError>);

    /// Whether `token` can be consumed next.
    fn validate_token(self, token: TokenId) -> (Self, Result<bool, MatcherError>);

    /// How many of `tokens`, from the first on, can be consumed in turn.
    fn validate_tokens_raw(self, tokens: &[TokenId]) -> (Self, Result<usize, MatcherError>);

    /// Takes back the last `num_tokens` tokens.
    fn rollback(self, num_tokens: usize) -> (Self, Result<(), MatcherError>);

    /// Takes back all tokens.
    fn reset(self) -> (Self, Result<(), MatcherError>);

    /// The tokens that can be consumed next.
    fn compute_mask(self) -> (Self, Result<SimpleVob, MatcherError>);

    /// Whether the grammar can be finished here.
    fn is_accepting(self) -> (Self, Result<bool, MatcherError>);

    /// The tokens that have to come next.
    fn compute_ff_tokens(self) -> (Self, Result<Vec<TokenId>, MatcherError>);

    /// The bytes that have to come next.
    fn force_bytes(self) -> (Self, Result<Vec<u8>, MatcherError>);

    /// Makes the lexer fail.
    fn test_trigger_lexer_error(self) -> (Self, Result<(), MatcherError>);

    /// Why the parser stopped, if it did.
    fn stop_reason(&self) -> Result<StopReason, MatcherError>;

    /// The text under which a failure with `message` is reported.
    fn augment_err(self, message: String) -> String;

    /// Warnings about the grammar.
    fn grammar_warnings(&mut self) -> Vec<String>;

    /// Forgets cached masks.
    fn invalidate_bias_cache(&mut self);

    /// The tokenizer environment.
    fn token_env(&self) -> &Self::Env;

    /// The token trie of the tokenizer environment.
    fn tok_trie(&self) -> Result<&TokTrie, MatcherError>;

    /// Statistics of the last step.
    fn last_step_stats(&self) -> &Self::Stats;

    /// What the grammar captured under `name`.
    fn get_capture(&self, name: &str) -> Option<&[u8]>;

    /// All that the grammar captured.
    fn captures(&self) -> &[(String, Vec<u8>)];
}

} // verus!
