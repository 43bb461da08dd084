//! Native compute core of a semantic text/code search tool.
//!
//! The core builds the exact integer inputs of two transformer encoders
//! (a dense single-vector encoder and a late-interaction encoder), packs
//! quantized per-token document embeddings into a columnar index layout,
//! filters document tokens through a skip-list, and orders candidate
//! documents by score. All of that logic is verified; the host side runs
//! the neural inference itself and the floating-point arithmetic around it.

use vstd::prelude::*;

pub mod dense;
pub mod errors;
pub mod framing;
pub mod pack;
pub mod prepare;
pub mod rank;
pub mod skiplist;
pub mod tensor;
pub mod trusted;

verus! {

/// Fixed number of query positions after framing: the query is always
/// padded with `MASK` tokens to this length (query expansion).
pub const QUERY_MAXLEN: usize = 32;

/// Upper bound on the framed length of one document, `CLS` and `SEP` included.
pub const DOC_MAXLEN: usize = 96;

/// Hidden dimension of the dense encoder.
pub const DENSE_HIDDEN_SIZE: usize = 384;

/// Hidden dimension of the late-interaction encoder.
pub const COLBERT_HIDDEN_SIZE: usize = 48;

/// Token budget of the dense tokenizer: longer inputs are truncated.
pub const DENSE_MAX_TOKENS: usize = 256;

/// Logging hook for the host runtime. Intentionally a no-op: native logging
/// was polluting the host's CLI output; hosts that need debugging should log
/// on their own side of the boundary.
#[allow(unused_variables)]
pub fn log_native(msg: &str) {
}

} // verus!
