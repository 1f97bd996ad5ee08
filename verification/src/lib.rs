//! A token matcher for constrained decoding.
//!
//! A [`Matcher`] wraps a [`TokenParser`] and decides what each call on it returns: the parser's
//! own result, the error that stopped the matcher, or [`Cancelled`]. Every contract is stated over
//! the model in [`model`]; the statements that span several functions stand in [`laws`], and what
//! each call comes to on the parser in [`calls`].
pub mod calls;
pub mod cancellation;
pub mod error;
pub mod laws;
pub mod mask;
pub mod matcher;
pub mod model;
pub mod parser;

pub use cancellation::{CancellationHandle, Cancelled};
pub use error::MatcherError;
pub use matcher::Matcher;
pub use parser::{StopReason, TokenId, TokenParser};
