//! The crate's trusted boundary: declarations of the outside types the
//! logic carries, and thin wrappers around the outside calls it makes.
//! Each wrapper's contract states only what the outside crate's source
//! shows; everything downstream of these contracts is verified.

use vstd::prelude::*;
use crate::errors::CoreError;

verus! {

/// The pretrained subword tokenizer of the `tokenizers` crate. Opaque to
/// the verifier; values of it are only carried through and handed to the
/// wrappers below.
#[verifier::external_type_specification]
#[verifier::external_body]
pub struct ExTokenizer(tokenizers::Tokenizer);

/// One encoded text of the `tokenizers` crate: parallel arrays of subword
/// ids, attention mask and type ids. Opaque to the verifier.
#[verifier::external_type_specification]
#[verifier::external_body]
pub struct ExEncoding(tokenizers::Encoding);

/// The error type of `serde_json`. Opaque; carried only to be mapped to a
/// library error.
#[verifier::external_type_specification]
#[verifier::external_body]
pub struct ExSerdeJsonError(serde_json::Error);

/// What `serde_json` parses a text into when asked for a list of unsigned
/// 32-bit integers: `Some` exactly on the texts it accepts. A function of
/// the text alone; its value on a given text is not axiomatized here.
pub uninterp spec fn json_u32_list(s: Seq<char>) -> Option<Seq<u32>>;

/// Relies on `serde_json::from_str::<Vec<u32>>`: deterministic parse of a
/// JSON array of unsigned 32-bit integers from the text alone.
#[verifier::external_body]
pub(crate) fn parse_u32_list(s: &str) -> (r: Result<Vec<u32>, serde_json::Error>)
    ensures
        r matches Ok(v) ==> json_u32_list(s@) == Some(v@),
        r is Ok <==> json_u32_list(s@) is Some,
{
    serde_json::from_str::<Vec<u32>>(s)
}

/// Relies on `TokenizerImpl::token_to_id`: looks one token's literal
/// surface form up in the vocabulary, added tokens included. The result
/// depends on the tokenizer's artifacts, so nothing is stated of it.
#[verifier::external_body]
pub(crate) fn tok_token_to_id(tok: &tokenizers::Tokenizer, token: &str) -> (r: Option<u32>) {
    tok.token_to_id(token)
}

/// Relies on `TokenizerImpl::encode`: subword-encodes one text, without
/// automatic sentinel insertion when `add_special_tokens` is false. The ids
/// depend on the tokenizer's artifacts, so only the error case is stated.
#[verifier::external_body]
pub(crate) fn tok_encode(tok: &tokenizers::Tokenizer, text: &str, add_special_tokens: bool) -> (r:
    Result<tokenizers::Encoding, CoreError>)
    ensures
        r matches Err(e) ==> e == CoreError::TokenizationFailed,
{
    match tok.encode(text, add_special_tokens) {
        Ok(e) => Ok(e),
        Err(_) => Err(CoreError::TokenizationFailed),
    }
}

/// Relies on `TokenizerImpl::encode_batch`: encodes the texts in order and
/// returns exactly one encoding per input (its body maps the inputs and
/// collects), applying the tokenizer's configured truncation and padding.
#[verifier::external_body]
pub(crate) fn tok_encode_batch(
    tok: &tokenizers::Tokenizer,
    texts: &Vec<String>,
    add_special_tokens: bool,
) -> (r: Result<Vec<tokenizers::Encoding>, CoreError>)
    ensures
        r matches Ok(v) ==> v@.len() == texts@.len(),
        r matches Err(e) ==> e == CoreError::TokenizationFailed,
{
    match tok.encode_batch(texts.clone(), add_special_tokens) {
        Ok(v) => Ok(v),
        Err(_) => Err(CoreError::TokenizationFailed),
    }
}

/// Relies on `Encoding::get_ids`: the subword ids of an encoded text.
#[verifier::external_body]
pub(crate) fn encoding_ids(e: &tokenizers::Encoding) -> (r: Vec<u32>) {
    e.get_ids().to_vec()
}

/// Relies on `Encoding::get_attention_mask`: 1 on real tokens, 0 on padding.
#[verifier::external_body]
pub(crate) fn encoding_attention_mask(e: &tokenizers::Encoding) -> (r: Vec<u32>) {
    e.get_attention_mask().to_vec()
}

/// Relies on `Encoding::get_type_ids`: the segment type ids of an encoded
/// text, typically all zero for single-sequence inputs.
#[verifier::external_body]
pub(crate) fn encoding_type_ids(e: &tokenizers::Encoding) -> (r: Vec<u32>) {
    e.get_type_ids().to_vec()
}

} // verus!
