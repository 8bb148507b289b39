//! Error type of the inference core.

use vstd::prelude::*;

verus! {

/// What can go wrong while loading a model or its collaborators.
#[derive(Debug, Clone, PartialEq, Eq)]
pub enum LlamaError {
    /// The underlying stream could not be read; the text describes the cause.
    Io(String),
    /// The checkpoint is malformed: nonsensical header or too little data.
    InvalidModel(String),
    /// The tokenizer could not be loaded or used.
    Tokenizer(String),
}

} // verus!
