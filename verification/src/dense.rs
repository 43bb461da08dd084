//! Verified preparation of the dense encoder's inputs. The dense tokenizer
//! is configured (host-side, at load time) with truncation to the dense
//! token budget and pad-to-longest batching; this module turns its
//! per-text encodings into the three padded `[B, L]` int64 tensors the
//! model takes, and owes the empty-input error.

use vstd::prelude::*;
use crate::errors::CoreError;
use crate::tensor::spec_flat_rows;
use crate::tensor::spec_max_row_len;
use crate::tensor::flatten_rows;
use crate::tensor::max_row_len;
use crate::trusted::tok_encode_batch;
use crate::trusted::encoding_ids;
use crate::trusted::encoding_attention_mask;
use crate::trusted::encoding_type_ids;

verus! {

/// The verified preparation of one dense batch: the tokenizer's per-text
/// rows and the padded tensors built from them.
pub struct DenseBatch {
    /// Row-major `[B, L]` subword ids, zero-padded.
    pub input_ids: Vec<i64>,
    /// Row-major `[B, L]` attention mask values, zero-padded.
    pub attention_mask: Vec<i64>,
    /// Row-major `[B, L]` token type ids, zero-padded.
    pub token_type_ids: Vec<i64>,
    /// The tokenizer's id row of each text.
    pub ids_rows: Vec<Vec<u32>>,
    /// The tokenizer's attention-mask row of each text.
    pub mask_rows: Vec<Vec<u32>>,
    /// The tokenizer's token-type row of each text.
    pub type_rows: Vec<Vec<u32>>,
    /// The longest id row of the batch; the padded width `L`.
    pub max_len: usize,
}

/// Well-formedness of a prepared dense batch: the three tensors are
/// exactly the padded layouts of the tokenizer's rows, at the width of the
/// longest id row.
pub open spec fn dense_batch_wf(b: DenseBatch) -> bool {
    let ri = b.ids_rows@.map_values(|v: Vec<u32>| v@);
    let rm = b.mask_rows@.map_values(|v: Vec<u32>| v@);
    let rt = b.type_rows@.map_values(|v: Vec<u32>| v@);
    &&& rm.len() == ri.len()
    &&& rt.len() == ri.len()
    &&& b.max_len as int == spec_max_row_len(ri)
    &&& b.input_ids@ == spec_flat_rows(ri, b.max_len as int)
    &&& b.attention_mask@ == spec_flat_rows(rm, b.max_len as int)
    &&& b.token_type_ids@ == spec_flat_rows(rt, b.max_len as int)
}

/// Prepare a batch of texts for dense inference: tokenize the batch with
/// the tokenizer's configured truncation and padding, then build the
/// padded `[B, L]` tensors. An empty batch is rejected, and only an empty
/// batch is rejected with `EmptyInput`.
pub fn encode_dense_inputs(tok: &tokenizers::Tokenizer, texts: &Vec<String>) -> (r: Result<
    DenseBatch,
    CoreError,
>)
    ensures
        texts@.len() == 0 ==> r == Err::<DenseBatch, CoreError>(CoreError::EmptyInput),
        r matches Err(e) ==> (e == CoreError::EmptyInput || e == CoreError::TokenizationFailed),
        r matches Err(e) && e == CoreError::EmptyInput ==> texts@.len() == 0,
        r matches Ok(b) ==> dense_batch_wf(b) && b.ids_rows@.len() == texts@.len(),
{
    if texts.len() == 0 {
        return Err(CoreError::EmptyInput);
    }
    let encs = match tok_encode_batch(tok, texts, true) {
        Ok(v) => v,
        Err(e) => {
            return Err(e);
        },
    };
    let n = encs.len();
    let mut ids_rows: Vec<Vec<u32>> = Vec::new();
    let mut mask_rows: Vec<Vec<u32>> = Vec::new();
    let mut type_rows: Vec<Vec<u32>> = Vec::new();
    let mut i: usize = 0;
    while i < n
        invariant
            n == encs@.len(),
            i <= n,
            ids_rows@.len() == i,
            mask_rows@.len() == i,
            type_rows@.len() == i,
        decreases n - i,
    {
        let e = &encs[i];
        let ids = encoding_ids(e);
        let mask = encoding_attention_mask(e);
        let types = encoding_type_ids(e);
        ids_rows.push(ids);
        mask_rows.push(mask);
        type_rows.push(types);
        i = i + 1;
    }
    let max_len = max_row_len(&ids_rows);
    let input_ids = flatten_rows(&ids_rows, max_len);
    let attention_mask = flatten_rows(&mask_rows, max_len);
    let token_type_ids = flatten_rows(&type_rows, max_len);
    Ok(DenseBatch {
        input_ids,
        attention_mask,
        token_type_ids,
        ids_rows,
        mask_rows,
        type_rows,
        max_len,
    })
}

} // verus!
