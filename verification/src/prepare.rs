//! Verified preparation of the late-interaction encoder's inputs: marker
//! fallback on the text, subword tokenization through the trusted wrapper,
//! framing, and the padded batched tensors.

use vstd::prelude::*;
use vstd::string::StrSliceExecFns;
use vstd::string::StringExecFns;
use crate::QUERY_MAXLEN;
use crate::DOC_MAXLEN;
use crate::errors::CoreError;
use crate::framing::SpecialIds;
use crate::framing::spec_query_frame;
use crate::framing::spec_doc_frame;
use crate::framing::assemble_query_ids;
use crate::framing::assemble_doc_ids;
use crate::tensor::spec_flat_rows;
use crate::tensor::spec_flat_attention;
use crate::tensor::spec_max_row_len;
use crate::tensor::flatten_rows;
use crate::tensor::flatten_attention;
use crate::framing::resolve_special_ids;
use crate::trusted::tok_encode;
use crate::trusted::tok_token_to_id;
use crate::trusted::encoding_ids;

verus! {

/// Discover the special token ids of a loaded tokenizer by looking up the
/// literal surface forms of the sentinels and of the query/document
/// markers. What each lookup yields depends on the tokenizer's artifacts;
/// the fallback rules (absent sentinels to id 0, absent `PAD` to the
/// `MASK` id) are those of `resolve_special_ids`, which pins them.
pub fn discover_special_ids(tok: &tokenizers::Tokenizer) -> SpecialIds {
    let cls = tok_token_to_id(tok, "[CLS]");
    let sep = tok_token_to_id(tok, "[SEP]");
    let mask = tok_token_to_id(tok, "[MASK]");
    let pad = tok_token_to_id(tok, "[PAD]");
    let query_marker = tok_token_to_id(tok, "[Q]");
    let doc_marker = tok_token_to_id(tok, "[D]");
    resolve_special_ids(cls, sep, mask, pad, query_marker, doc_marker)
}

/// Whether the text opens with the literal three-character marker `[c]`.
pub open spec fn spec_starts_with_marker(s: Seq<char>, mid: char) -> bool {
    s.len() >= 3 && s[0] == '[' && s[1] == mid && s[2] == ']'
}

/// The text actually handed to the tokenizer: where the tokenizer has no
/// marker token and the text does not already open with the literal
/// marker, the four-character prefix `[c] ` is prepended; never both.
pub open spec fn spec_effective_text(s: Seq<char>, marker_id: Option<u32>, mid: char) -> Seq<
    char,
> {
    if marker_id is None && !spec_starts_with_marker(s, mid) {
        seq!['[', mid, ']', ' '] + s
    } else {
        s
    }
}

/// Decide whether the text already opens with the literal marker.
fn starts_with_marker(text: &str, mid: char) -> (r: bool)
    ensures
        r == spec_starts_with_marker(text@, mid),
{
    let n = text.unicode_len();
    if n < 3 {
        return false;
    }
    let c0 = text.get_char(0);
    let c1 = text.get_char(1);
    let c2 = text.get_char(2);
    c0 == '[' && c1 == mid && c2 == ']'
}

/// Apply the marker fallback: prepend the literal prefix exactly when the
/// tokenizer has no marker id and the text does not already carry one.
fn effective_text(text: &str, marker_id: Option<u32>, mid: char, prefix: &str) -> (r: String)
    requires
        prefix@ == seq!['[', mid, ']', ' '],
    ensures
        r@ == spec_effective_text(text@, marker_id, mid),
{
    if marker_id.is_none() && !starts_with_marker(text, mid) {
        let mut s = String::from_str(prefix);
        s.append(text);
        s
    } else {
        String::from_str(text)
    }
}

/// The verified preparation of one query: the text handed to the
/// tokenizer, and the framed ids, always exactly `QUERY_MAXLEN` of them;
/// every position is attended.
pub struct QueryPrep {
    /// The text handed to the tokenizer (marker fallback applied).
    pub tokenizer_text: String,
    /// The subword ids the tokenizer produced for that text.
    pub tokens: Vec<u32>,
    /// The framed ids: `[CLS] [Q]? tokens [SEP] [MASK]...`.
    pub input_ids: Vec<u32>,
}

/// Prepare one query for inference: apply the `[Q]` marker fallback,
/// tokenize without automatic sentinels, and frame to `QUERY_MAXLEN` ids.
/// The framed ids are exactly the query framing of the subword ids the
/// tokenizer returned for the stated text. The attention mask over these
/// ids is all ones (see `query_attention_mask`).
pub fn prepare_query(tok: &tokenizers::Tokenizer, ids: &SpecialIds, text: &str) -> (r: Result<
    QueryPrep,
    CoreError,
>)
    ensures
        r matches Ok(p) ==> {
            &&& p.tokenizer_text@ == spec_effective_text(text@, ids.query_marker_id, 'Q')
            &&& p.input_ids@ == spec_query_frame(p.tokens@, *ids)
            &&& p.input_ids@.len() == QUERY_MAXLEN
        },
        r matches Err(e) ==> e == CoreError::TokenizationFailed,
{
    proof {
        reveal_strlit("[Q] ");
        assert("[Q] "@ =~= seq!['[', 'Q', ']', ' ']);
    }
    let send = effective_text(text, ids.query_marker_id, 'Q', "[Q] ");
    let enc = match tok_encode(tok, send.as_str(), false) {
        Ok(e) => e,
        Err(e) => {
            return Err(e);
        },
    };
    let toks = encoding_ids(&enc);
    let frame = assemble_query_ids(&toks, ids);
    Ok(QueryPrep { tokenizer_text: send, tokens: toks, input_ids: frame })
}

/// The query-side attention mask: all `QUERY_MAXLEN` positions attended,
/// the mask-expanded ones included.
pub fn query_attention_mask() -> (r: Vec<i64>)
    ensures
        r@.len() == QUERY_MAXLEN,
        forall|j: int| 0 <= j < r@.len() ==> r@[j] == 1i64,
{
    let mut r: Vec<i64> = Vec::new();
    let mut i: usize = 0;
    while i < QUERY_MAXLEN
        invariant
            i <= QUERY_MAXLEN,
            r@.len() == i,
            forall|j: int| 0 <= j < i ==> r@[j] == 1i64,
        decreases QUERY_MAXLEN - i,
    {
        r.push(1i64);
        i = i + 1;
    }
    r
}

/// Widen framed ids to the int64 element type the inference runtime takes.
pub fn ids_to_i64(ids: &Vec<u32>) -> (r: Vec<i64>)
    ensures
        r@.len() == ids@.len(),
        forall|j: int| 0 <= j < ids@.len() ==> r@[j] == ids@[j] as i64,
{
    let n = ids.len();
    let mut r: Vec<i64> = Vec::new();
    let mut i: usize = 0;
    while i < n
        invariant
            n == ids@.len(),
            i <= n,
            r@.len() == i,
            forall|j: int| 0 <= j < i ==> r@[j] == ids@[j] as i64,
        decreases n - i,
    {
        let v = ids[i];
        r.push(v as i64);
        i = i + 1;
    }
    r
}

/// The verified preparation of one document batch: each document's framed
/// ids, and the padded `[B, Lmax]` tensors built from them.
pub struct DocBatch {
    /// The text handed to the tokenizer for each document (marker
    /// fallback applied per text).
    pub tokenizer_texts: Vec<String>,
    /// The subword ids the tokenizer produced for each document's text.
    pub doc_tokens: Vec<Vec<u32>>,
    /// Row-major `[B, Lmax]` framed ids, zero-padded.
    pub input_ids: Vec<i64>,
    /// Row-major `[B, Lmax]` mask: 1 on each document's real tokens.
    pub attention_mask: Vec<i64>,
    /// Each document's framed ids before padding; their lengths are the
    /// real lengths that post-inference slicing must honor.
    pub doc_token_ids: Vec<Vec<u32>>,
    /// The longest framed length of the batch, 0 for an empty batch.
    pub max_len: usize,
}

/// Well-formedness of a prepared document batch: the tensors are exactly
/// the padded layout of the per-document frames, each frame is the
/// document framing of its tokenizer output, and each frame keeps the
/// length bounds.
pub open spec fn doc_batch_wf(b: DocBatch, ids: SpecialIds) -> bool {
    let rows = b.doc_token_ids@.map_values(|v: Vec<u32>| v@);
    &&& b.max_len as int == spec_max_row_len(rows)
    &&& b.input_ids@ == spec_flat_rows(rows, b.max_len as int)
    &&& b.attention_mask@ == spec_flat_attention(rows, b.max_len as int)
    &&& forall|i: int| 0 <= i < rows.len() ==> 2 <= #[trigger] rows[i].len() <= DOC_MAXLEN
    &&& b.doc_tokens@.len() == rows.len()
    &&& forall|i: int|
        0 <= i < rows.len() ==> #[trigger] rows[i] == spec_doc_frame(b.doc_tokens@[i]@, ids)
}

/// Prepare a batch of documents for inference: apply the `[D]` marker
/// fallback per text, tokenize, frame each document, and build the padded
/// `[B, Lmax]` tensors. An empty batch prepares, without error, to an
/// empty result; each document's frame is exactly the document framing of
/// the subword ids the tokenizer returned for that document's stated
/// effective text.
pub fn prepare_docs(tok: &tokenizers::Tokenizer, ids: &SpecialIds, texts: &Vec<String>) -> (r:
    Result<DocBatch, CoreError>)
    ensures
        texts@.len() == 0 ==> (r matches Ok(b) && b.doc_token_ids@.len() == 0),
        r matches Ok(b) ==> {
            &&& doc_batch_wf(b, *ids)
            &&& b.doc_token_ids@.len() == texts@.len()
            &&& b.tokenizer_texts@.len() == texts@.len()
            &&& forall|i: int|
                0 <= i < texts@.len() ==> #[trigger] b.tokenizer_texts@[i]@
                    == spec_effective_text(texts@[i]@, ids.doc_marker_id, 'D')
        },
        r matches Err(e) ==> e == CoreError::TokenizationFailed,
{
    let n = texts.len();
    let mut sent_texts: Vec<String> = Vec::new();
    let mut toks_list: Vec<Vec<u32>> = Vec::new();
    let mut frames: Vec<Vec<u32>> = Vec::new();
    let mut max_len: usize = 0;
    let mut i: usize = 0;
    while i < n
        invariant
            n == texts@.len(),
            i <= n,
            frames@.len() == i,
            sent_texts@.len() == i,
            toks_list@.len() == i,
            max_len as int == spec_max_row_len(frames@.map_values(|v: Vec<u32>| v@)),
            forall|k: int|
                0 <= k < i ==> 2 <= #[trigger] frames@[k]@.len() <= DOC_MAXLEN,
            forall|k: int|
                0 <= k < i ==> #[trigger] sent_texts@[k]@ == spec_effective_text(texts@[k]@,
                    ids.doc_marker_id, 'D'),
            forall|k: int|
                0 <= k < i ==> #[trigger] frames@[k]@ == spec_doc_frame(toks_list@[k]@, *ids),
        decreases n - i,
    {
        let text = &texts[i];
        proof {
            reveal_strlit("[D] ");
            assert("[D] "@ =~= seq!['[', 'D', ']', ' ']);
        }
        let send = effective_text(text.as_str(), ids.doc_marker_id, 'D', "[D] ");
        let enc = match tok_encode(tok, send.as_str(), false) {
            Ok(e) => e,
            Err(e) => {
                return Err(e);
            },
        };
        let toks = encoding_ids(&enc);
        let frame = assemble_doc_ids(&toks, ids);
        let frame_len = frame.len();
        let ghost old_rows = frames@.map_values(|v: Vec<u32>| v@);
        frames.push(frame);
        sent_texts.push(send);
        toks_list.push(toks);
        if frame_len > max_len {
            max_len = frame_len;
        }
        proof {
            let rows = frames@.map_values(|v: Vec<u32>| v@);
            assert(rows.drop_last() =~= old_rows);
            assert(rows.last() == frames@[i as int]@);
            assert(forall|k: int| 0 <= k < i ==> frames@[k] == frames@.take(i as int)[k]);
        }
        i = i + 1;
    }
    let input_ids = flatten_rows(&frames, max_len);
    let attention_mask = flatten_attention(&frames, max_len);
    Ok(DocBatch {
        tokenizer_texts: sent_texts,
        doc_tokens: toks_list,
        input_ids,
        attention_mask,
        doc_token_ids: frames,
        max_len,
    })
}

} // verus!
