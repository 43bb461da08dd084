//! Error taxonomy of the core. Errors are returned as values; the verified
//! functions of this crate never panic.

use vstd::prelude::*;

verus! {

/// Why a core operation failed.
#[derive(Clone, Copy, Debug, PartialEq, Eq, Structural)]
pub enum CoreError {
    /// A model slot was used before its initialization succeeded.
    NotInitialized,
    /// A non-blocking host observed the encoder lock as taken.
    EncoderBusy,
    /// The subword tokenizer rejected the input.
    TokenizationFailed,
    /// The inference runtime failed to run the model.
    InferenceFailed,
    /// A model artifact was absent or malformed.
    ArtifactMissing,
    /// Provided arrays disagree with the expected shape.
    ShapeMismatch,
    /// An operation that needs at least one input text got none.
    EmptyInput,
}

} // verus!
