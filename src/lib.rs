//! Single-sequence inference core for Llama-style decoder checkpoints.
//!
//! The crate holds the integer side of inference: the checkpoint header and
//! weight layout, the loader that slices the weight stream into per-layer
//! records, the key/value cache addressing of grouped-query attention, the
//! ordering decisions of the sampler, and the step decisions of a generation
//! session. Weights travel as raw IEEE-754 single-precision bit patterns.

use vstd::prelude::*;

pub mod attention;
pub mod config;
pub mod error;
pub mod piece;
pub mod sample;
pub mod session;
pub mod weights;

pub use config::LlamaConfig;
pub use error::LlamaError;
pub use weights::{load_model, LlamaLayerWeights, LlamaWeights};

verus! {
} // verus!
