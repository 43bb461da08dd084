//! Input framing for the late-interaction encoder: the exact token-id
//! sequences handed to the model for queries and documents.
//!
//! A query is framed as `[CLS] [Q]? tokens... [SEP] [MASK]...` and always
//! occupies exactly `QUERY_MAXLEN` positions; a document is framed as
//! `[CLS] [D]? tokens... [SEP]` and occupies between 2 and `DOC_MAXLEN`
//! positions. Where the tokenizer has no dedicated marker token, the marker
//! is instead prepended to the text itself before tokenization (see the
//! preparation functions), and no marker id appears in the frame.

use vstd::prelude::*;
use crate::QUERY_MAXLEN;
use crate::DOC_MAXLEN;

verus! {

/// The special token ids one encoder discovered in its tokenizer, and the
/// optional ids of the query/document marker tokens.
pub struct SpecialIds {
    /// Sequence-start sentinel.
    pub cls_id: u32,
    /// Separator sentinel, always the last non-pad token of a frame.
    pub sep_id: u32,
    /// Masked-position sentinel, also used for query expansion.
    pub mask_id: u32,
    /// Padding sentinel; falls back to the `MASK` id where absent.
    pub pad_id: u32,
    /// Id of the `[Q]` marker token, where the vocabulary has one.
    pub query_marker_id: Option<u32>,
    /// Id of the `[D]` marker token, where the vocabulary has one.
    pub doc_marker_id: Option<u32>,
}

/// The id a vocabulary lookup produced, or 0 where the token is absent.
pub open spec fn spec_id_or_zero(looked_up: Option<u32>) -> u32 {
    match looked_up {
        Some(id) => id,
        None => 0,
    }
}

/// Resolve the special ids from vocabulary lookups of the literal surface
/// forms: an absent sentinel falls back to id 0, and an absent `PAD` falls
/// back to the `MASK` id.
pub fn resolve_special_ids(
    cls: Option<u32>,
    sep: Option<u32>,
    mask: Option<u32>,
    pad: Option<u32>,
    query_marker: Option<u32>,
    doc_marker: Option<u32>,
) -> (r: SpecialIds)
    ensures
        r.cls_id == spec_id_or_zero(cls),
        r.sep_id == spec_id_or_zero(sep),
        r.mask_id == spec_id_or_zero(mask),
        r.pad_id == (match pad {
            Some(p) => p,
            None => spec_id_or_zero(mask),
        }),
        r.query_marker_id == query_marker,
        r.doc_marker_id == doc_marker,
{
    let mask_id = match mask {
        Some(m) => m,
        None => 0,
    };
    SpecialIds {
        cls_id: match cls {
            Some(v) => v,
            None => 0,
        },
        sep_id: match sep {
            Some(v) => v,
            None => 0,
        },
        mask_id,
        pad_id: match pad {
            Some(v) => v,
            None => mask_id,
        },
        query_marker_id: query_marker,
        doc_marker_id: doc_marker,
    }
}

/// The tokens that open a frame: `CLS`, then the marker where one exists.
pub open spec fn spec_frame_head(cls: u32, marker: Option<u32>) -> Seq<u32> {
    match marker {
        Some(m) => seq![cls, m],
        None => seq![cls],
    }
}

/// `CLS`, the optional marker, the subword ids truncated so that the total
/// length including the closing `SEP` stays within `maxlen`, then `SEP`.
pub open spec fn spec_frame(
    tokens: Seq<u32>,
    cls: u32,
    marker: Option<u32>,
    sep: u32,
    maxlen: int,
) -> Seq<u32> {
    let head = spec_frame_head(cls, marker);
    let budget = maxlen - head.len() - 1;
    let body = if tokens.len() <= budget {
        tokens
    } else {
        tokens.take(budget)
    };
    head + body + seq![sep]
}

/// Query framing: the frame, then `MASK` up to `QUERY_MAXLEN` positions
/// (query expansion: the mask-padded positions are attended and score).
pub open spec fn spec_query_frame(tokens: Seq<u32>, ids: SpecialIds) -> Seq<u32> {
    let framed = spec_frame(tokens, ids.cls_id, ids.query_marker_id, ids.sep_id,
        QUERY_MAXLEN as int);
    framed + Seq::new((QUERY_MAXLEN - framed.len()) as nat, |i: int| ids.mask_id)
}

/// Document framing: the frame alone; its length varies with the input.
pub open spec fn spec_doc_frame(tokens: Seq<u32>, ids: SpecialIds) -> Seq<u32> {
    spec_frame(tokens, ids.cls_id, ids.doc_marker_id, ids.sep_id, DOC_MAXLEN as int)
}

/// A query frame occupies exactly `QUERY_MAXLEN` positions, whatever the
/// length of the tokenized input.
pub proof fn lemma_query_frame_len(tokens: Seq<u32>, ids: SpecialIds)
    ensures
        spec_query_frame(tokens, ids).len() == QUERY_MAXLEN,
{
}

/// A document frame holds at least `CLS` and `SEP`, and never exceeds
/// `DOC_MAXLEN` positions.
pub proof fn lemma_doc_frame_len(tokens: Seq<u32>, ids: SpecialIds)
    ensures
        2 <= spec_doc_frame(tokens, ids).len() <= DOC_MAXLEN,
{
}

/// A document frame opens with `CLS` and closes with `SEP`: `SEP` is the
/// last non-pad token of every assembled document.
pub proof fn lemma_doc_frame_shape(tokens: Seq<u32>, ids: SpecialIds)
    ensures
        spec_doc_frame(tokens, ids).first() == ids.cls_id,
        spec_doc_frame(tokens, ids).last() == ids.sep_id,
{
    lemma_doc_frame_len(tokens, ids);
}

/// A query frame opens with `CLS`, whatever the input.
pub proof fn lemma_query_frame_shape(tokens: Seq<u32>, ids: SpecialIds)
    ensures
        spec_query_frame(tokens, ids).first() == ids.cls_id,
{
    lemma_query_frame_len(tokens, ids);
}

/// Build the framed query ids: `[CLS] [Q]? tokens... [SEP] [MASK]...`,
/// truncating the tokens so that `SEP` still fits, then mask-padding to
/// exactly `QUERY_MAXLEN` positions.
pub fn assemble_query_ids(tokens: &Vec<u32>, ids: &SpecialIds) -> (r: Vec<u32>)
    ensures
        r@ == spec_query_frame(tokens@, *ids),
        r@.len() == QUERY_MAXLEN,
{
    let mut r: Vec<u32> = Vec::new();
    r.push(ids.cls_id);
    if let Some(m) = ids.query_marker_id {
        r.push(m);
    }
    assert(r@ == spec_frame_head(ids.cls_id, ids.query_marker_id));
    let head_len = r.len();
    let budget = QUERY_MAXLEN - head_len - 1;
    let body_len = if tokens.len() <= budget {
        tokens.len()
    } else {
        budget
    };
    let ghost head = spec_frame_head(ids.cls_id, ids.query_marker_id);
    let mut i: usize = 0;
    while i < body_len
        invariant
            i <= body_len,
            body_len <= tokens@.len(),
            r@ == head + tokens@.take(i as int),
        decreases body_len - i,
    {
        let t = tokens[i];
        r.push(t);
        proof {
            assert(tokens@.take(i + 1) =~= tokens@.take(i as int).push(tokens@[i as int]));
            assert(r@ =~= head + tokens@.take(i + 1));
        }
        i = i + 1;
    }
    r.push(ids.sep_id);
    let ghost framed = spec_frame(tokens@, ids.cls_id, ids.query_marker_id, ids.sep_id,
        QUERY_MAXLEN as int);
    proof {
        assert(tokens@.take(body_len as int) =~= (if tokens@.len() <= QUERY_MAXLEN - head.len() - 1 {
            tokens@
        } else {
            tokens@.take(QUERY_MAXLEN - head.len() - 1)
        }));
        assert(r@ =~= framed);
    }
    while r.len() < QUERY_MAXLEN
        invariant
            framed.len() <= r@.len() <= QUERY_MAXLEN,
            r@ == framed + Seq::new((r@.len() - framed.len()) as nat, |k: int| ids.mask_id),
        decreases QUERY_MAXLEN - r@.len(),
    {
        r.push(ids.mask_id);
        proof {
            assert(r@ =~= framed + Seq::new((r@.len() - framed.len()) as nat,
                |k: int| ids.mask_id));
        }
    }
    proof {
        assert(r@ =~= spec_query_frame(tokens@, *ids));
    }
    r
}

/// Build the framed document ids: `[CLS] [D]? tokens... [SEP]`, truncating
/// the tokens so that `SEP` still fits within `DOC_MAXLEN` positions.
pub fn assemble_doc_ids(tokens: &Vec<u32>, ids: &SpecialIds) -> (r: Vec<u32>)
    ensures
        r@ == spec_doc_frame(tokens@, *ids),
        2 <= r@.len() <= DOC_MAXLEN,
{
    let mut r: Vec<u32> = Vec::new();
    r.push(ids.cls_id);
    if let Some(m) = ids.doc_marker_id {
        r.push(m);
    }
    assert(r@ == spec_frame_head(ids.cls_id, ids.doc_marker_id));
    let head_len = r.len();
    let budget = DOC_MAXLEN - head_len - 1;
    let body_len = if tokens.len() <= budget {
        tokens.len()
    } else {
        budget
    };
    let ghost head = spec_frame_head(ids.cls_id, ids.doc_marker_id);
    let mut i: usize = 0;
    while i < body_len
        invariant
            i <= body_len,
            body_len <= tokens@.len(),
            r@ == head + tokens@.take(i as int),
        decreases body_len - i,
    {
        let t = tokens[i];
        r.push(t);
        proof {
            assert(tokens@.take(i + 1) =~= tokens@.take(i as int).push(tokens@[i as int]));
            assert(r@ =~= head + tokens@.take(i + 1));
        }
        i = i + 1;
    }
    r.push(ids.sep_id);
    proof {
        assert(tokens@.take(body_len as int) =~= (if tokens@.len() <= DOC_MAXLEN - head.len() - 1 {
            tokens@
        } else {
            tokens@.take(DOC_MAXLEN - head.len() - 1)
        }));
        assert(r@ =~= spec_doc_frame(tokens@, *ids));
    }
    r
}

} // verus!
