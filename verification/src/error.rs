//! The failures that a completion call reports to its caller.

use vstd::prelude::*;

verus! {

/// Why a completion call gave up.
#[derive(Clone, Copy, Debug, PartialEq, Eq, Structural)]
pub enum CompletionError {
    /// The prompt is neither text, nor an object, nor an array.
    InvalidPromptShape,
    /// The batch size is zero.
    InvalidBatchSize,
    /// The service answered with a body that holds no array of choices.
    TransportError,
}

impl CompletionError {
    /// A short description for messages and logs.
    pub fn message(&self) -> (text: &'static str)
        ensures
            text@ == match *self {
                CompletionError::InvalidPromptShape => "prompt must be text, an object or an array"@,
                CompletionError::InvalidBatchSize => "batch size must be positive"@,
                CompletionError::TransportError => "response holds no array of choices"@,
            },
    {
        match self {
            CompletionError::InvalidPromptShape => "prompt must be text, an object or an array",
            CompletionError::InvalidBatchSize => "batch size must be positive",
            CompletionError::TransportError => "response holds no array of choices",
        }
    }
}

} // verus!
