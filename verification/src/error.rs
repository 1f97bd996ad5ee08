//! What a fallible matcher operation fails with.
use crate::cancellation::Cancelled;
use vstd::prelude::*;

verus! {

/// Why an operation of a matcher or of its parser failed.
#[derive(Debug, PartialEq, Eq)]
pub enum MatcherError {
    /// A cancellation request was observed.
    Cancelled(Cancelled),
    /// Anything else, as a message.
    Failed(String),
}

impl MatcherError {
    /// The message of this error.
    pub open spec fn message(self) -> Seq<char> {
        match self {
            MatcherError::Cancelled(_) => Cancelled::message(),
            MatcherError::Failed(message) => message@,
        }
    }

    /// Whether this error reports a cancellation.
    pub fn is_cancelled(&self) -> (cancelled: bool)
        ensures
            cancelled == (self is Cancelled),
    {
        match self {
            MatcherError::Cancelled(_) => true,
            MatcherError::Failed(_) => false,
        }
    }

    /// The message as a string.
    pub fn to_string(&self) -> (message: String)
        ensures
            message@ == self.message(),
    {
        match self {
            MatcherError::Cancelled(cancelled) => cancelled.to_string(),
            MatcherError::Failed(message) => message.clone(),
        }
    }

    /// The failure that carries `message`.
    pub(crate) fn failed(message: &str) -> (error: Self)
        ensures
            error matches MatcherError::Failed(text) && text@ == message@,
    {
        MatcherError::Failed(message.to_owned())
    }
}

} // verus!
