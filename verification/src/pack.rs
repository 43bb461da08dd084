//! The packed index layout: a batch of variable-length per-token document
//! matrices, already quantized to signed 8-bit, flattened into one
//! embeddings buffer with parallel token-id, length and offset arrays.
//!
//! `offsets[i]` indexes the embeddings buffer in elements (not bytes, not
//! tokens): it equals the total number of embedding scalars of the earlier
//! documents. The token-id side has no offset array; a prefix sum over
//! `lengths` recovers it.

use vstd::prelude::*;

verus! {

/// One document's quantized per-token embeddings: `token_ids.len()` rows of
/// `hidden` scalars each, flattened row-major into `values`.
pub struct QuantizedDocEmbedding {
    /// Quantized embedding scalars, `token_ids.len() * hidden` of them.
    pub values: Vec<i8>,
    /// The framed token ids of the document, one per row.
    pub token_ids: Vec<u32>,
}

/// The packed index over a batch of documents: four parallel arrays.
pub struct ColbertPackedResult {
    /// All documents' quantized scalars, concatenated.
    pub embeddings: Vec<i8>,
    /// All documents' token ids, concatenated.
    pub token_ids: Vec<u32>,
    /// Number of tokens of each document.
    pub lengths: Vec<u32>,
    /// Element offset of each document inside `embeddings`.
    pub offsets: Vec<u32>,
}

/// A document's scalar buffer agrees with its token count and the hidden
/// dimension.
pub open spec fn spec_doc_wf(d: QuantizedDocEmbedding, hidden: int) -> bool {
    d.values@.len() == d.token_ids@.len() * hidden
}

/// The concatenation of the documents' scalar buffers, in order.
pub open spec fn spec_concat_values(docs: Seq<QuantizedDocEmbedding>) -> Seq<i8>
    decreases docs.len(),
{
    if docs.len() == 0 {
        Seq::empty()
    } else {
        spec_concat_values(docs.drop_last()) + docs.last().values@
    }
}

/// The concatenation of the documents' token ids, in order.
pub open spec fn spec_concat_tokens(docs: Seq<QuantizedDocEmbedding>) -> Seq<u32>
    decreases docs.len(),
{
    if docs.len() == 0 {
        Seq::empty()
    } else {
        spec_concat_tokens(docs.drop_last()) + docs.last().token_ids@
    }
}

/// The sum of a length array, as an unbounded integer.
pub open spec fn spec_sum_lens(lens: Seq<u32>) -> int
    decreases lens.len(),
{
    if lens.len() == 0 {
        0
    } else {
        spec_sum_lens(lens.drop_last()) + lens.last()
    }
}

/// Well-formedness of a packed index against a hidden dimension: offsets
/// are the element prefix sums of `lengths`, every document's scalars lie
/// inside the embeddings buffer, and the token-id array holds exactly the
/// documents' tokens.
pub open spec fn packed_wf(p: ColbertPackedResult, hidden: int) -> bool {
    &&& p.offsets@.len() == p.lengths@.len()
    &&& forall|i: int|
        0 <= i < p.lengths@.len() ==> #[trigger] p.offsets@[i] as int == spec_sum_lens(
            p.lengths@.take(i),
        ) * hidden
    &&& spec_sum_lens(p.lengths@) * hidden <= p.embeddings@.len()
    &&& spec_sum_lens(p.lengths@) == p.token_ids@.len()
}

/// Splitting a batch at any point splits the concatenated scalars.
pub proof fn lemma_concat_values_append(a: Seq<QuantizedDocEmbedding>, b: Seq<QuantizedDocEmbedding>)
    ensures
        spec_concat_values(a + b) == spec_concat_values(a) + spec_concat_values(b),
    decreases b.len(),
{
    if b.len() == 0 {
        assert(a + b =~= a);
        assert(spec_concat_values(a) + spec_concat_values(b) =~= spec_concat_values(a));
    } else {
        assert((a + b).drop_last() =~= a + b.drop_last());
        assert((a + b).last() == b.last());
        lemma_concat_values_append(a, b.drop_last());
        assert(spec_concat_values(a + b) =~= spec_concat_values(a) + spec_concat_values(b));
    }
}

/// Splitting a batch at any point splits the concatenated token ids.
pub proof fn lemma_concat_tokens_append(a: Seq<QuantizedDocEmbedding>, b: Seq<QuantizedDocEmbedding>)
    ensures
        spec_concat_tokens(a + b) == spec_concat_tokens(a) + spec_concat_tokens(b),
    decreases b.len(),
{
    if b.len() == 0 {
        assert(a + b =~= a);
        assert(spec_concat_tokens(a) + spec_concat_tokens(b) =~= spec_concat_tokens(a));
    } else {
        assert((a + b).drop_last() =~= a + b.drop_last());
        assert((a + b).last() == b.last());
        lemma_concat_tokens_append(a, b.drop_last());
        assert(spec_concat_tokens(a + b) =~= spec_concat_tokens(a) + spec_concat_tokens(b));
    }
}

/// Extending a prefix of the batch by one document appends that document's
/// scalars and tokens to the concatenations.
pub proof fn lemma_concat_take_succ(docs: Seq<QuantizedDocEmbedding>, i: int)
    requires
        0 <= i < docs.len(),
    ensures
        spec_concat_values(docs.take(i + 1)) == spec_concat_values(docs.take(i))
            + docs[i].values@,
        spec_concat_tokens(docs.take(i + 1)) == spec_concat_tokens(docs.take(i))
            + docs[i].token_ids@,
{
    assert(docs.take(i + 1).drop_last() =~= docs.take(i));
    assert(docs.take(i + 1).last() == docs[i]);
}

/// A batch prefix contributes no more scalars or tokens than the batch.
pub proof fn lemma_concat_take_le(docs: Seq<QuantizedDocEmbedding>, i: int)
    requires
        0 <= i <= docs.len(),
    ensures
        spec_concat_values(docs.take(i)).len() <= spec_concat_values(docs).len(),
        spec_concat_tokens(docs.take(i)).len() <= spec_concat_tokens(docs).len(),
    decreases docs.len() - i,
{
    if i == docs.len() {
        assert(docs.take(i) =~= docs);
    } else {
        lemma_concat_take_succ(docs, i);
        lemma_concat_take_le(docs, i + 1);
    }
}

/// With every document well formed, the scalar count is the token count
/// scaled by the hidden dimension.
pub proof fn lemma_concat_values_len(docs: Seq<QuantizedDocEmbedding>, hidden: int)
    requires
        forall|i: int| 0 <= i < docs.len() ==> #[trigger] spec_doc_wf(docs[i], hidden),
    ensures
        spec_concat_values(docs).len() == spec_concat_tokens(docs).len() * hidden,
    decreases docs.len(),
{
    if docs.len() == 0 {
        assert(spec_concat_tokens(docs).len() == 0);
        assert(spec_concat_values(docs).len() == 0);
    } else {
        let rest = docs.drop_last();
        assert(forall|i: int| 0 <= i < rest.len() ==> #[trigger] spec_doc_wf(rest[i], hidden));
        lemma_concat_values_len(rest, hidden);
        assert(spec_doc_wf(docs.last(), hidden)) by {
            assert(docs.last() == docs[docs.len() - 1]);
        }
        assert(spec_concat_tokens(rest).len() * hidden + docs.last().token_ids@.len() * hidden
            == (spec_concat_tokens(rest).len() + docs.last().token_ids@.len()) * hidden)
            by (nonlinear_arith);
    }
}

/// Extending a length-array prefix by one entry adds that entry to the sum.
pub proof fn lemma_sum_lens_take_succ(lens: Seq<u32>, i: int)
    requires
        0 <= i < lens.len(),
    ensures
        spec_sum_lens(lens.take(i + 1)) == spec_sum_lens(lens.take(i)) + lens[i],
{
    assert(lens.take(i + 1).drop_last() =~= lens.take(i));
    assert(lens.take(i + 1).last() == lens[i]);
}

/// A prefix sum never exceeds the full sum, and no sum is negative.
pub proof fn lemma_sum_lens_take_le(lens: Seq<u32>, i: int)
    requires
        0 <= i <= lens.len(),
    ensures
        0 <= spec_sum_lens(lens.take(i)) <= spec_sum_lens(lens),
    decreases lens.len() - i,
{
    if i == lens.len() {
        assert(lens.take(i) =~= lens);
        lemma_sum_lens_nonneg(lens);
    } else {
        lemma_sum_lens_take_succ(lens, i);
        lemma_sum_lens_take_le(lens, i + 1);
        lemma_sum_lens_nonneg(lens.take(i));
    }
}

/// A sum of unsigned lengths is never negative.
pub proof fn lemma_sum_lens_nonneg(lens: Seq<u32>)
    ensures
        0 <= spec_sum_lens(lens),
    decreases lens.len(),
{
    if lens.len() > 0 {
        lemma_sum_lens_nonneg(lens.drop_last());
    }
}

/// When a length array mirrors the documents' token counts, its prefix sums
/// are the token counts of the batch prefixes.
pub proof fn lemma_sum_lens_matches_tokens(
    docs: Seq<QuantizedDocEmbedding>,
    lens: Seq<u32>,
    i: int,
)
    requires
        lens.len() == docs.len(),
        forall|j: int| 0 <= j < docs.len() ==> #[trigger] lens[j] as int == docs[j].token_ids@.len(),
        0 <= i <= docs.len(),
    ensures
        spec_sum_lens(lens.take(i)) == spec_concat_tokens(docs.take(i)).len(),
    decreases i,
{
    if i > 0 {
        lemma_sum_lens_matches_tokens(docs, lens, i - 1);
        lemma_sum_lens_take_succ(lens, i - 1);
        lemma_concat_take_succ(docs, i - 1);
    }
}

/// The stated invariants of the packed layout: the first offset is zero,
/// offsets never decrease, every document's scalars lie inside the
/// embeddings buffer, and the lengths sum to the token-id count.
pub proof fn lemma_packed_invariants(p: ColbertPackedResult, hidden: int)
    requires
        packed_wf(p, hidden),
        hidden >= 0,
    ensures
        p.lengths@.len() > 0 ==> p.offsets@[0] == 0,
        forall|i: int, j: int|
            0 <= i <= j < p.offsets@.len() ==> p.offsets@[i] <= p.offsets@[j],
        forall|i: int|
            0 <= i < p.lengths@.len() ==> #[trigger] (p.offsets@[i] + p.lengths@[i] * hidden)
                <= p.embeddings@.len(),
        spec_sum_lens(p.lengths@) == p.token_ids@.len(),
{
    let lens = p.lengths@;
    if lens.len() > 0 {
        assert(lens.take(0) =~= Seq::<u32>::empty());
        assert(p.offsets@[0] as int == spec_sum_lens(lens.take(0)) * hidden);
        assert(spec_sum_lens(lens.take(0)) * hidden == 0) by (nonlinear_arith);
    }
    assert forall|i: int, j: int| 0 <= i <= j < p.offsets@.len() implies p.offsets@[i]
        <= p.offsets@[j] by {
        lemma_sum_lens_prefix_mono(lens, i, j);
        assert(spec_sum_lens(lens.take(i)) * hidden <= spec_sum_lens(lens.take(j)) * hidden)
            by (nonlinear_arith)
            requires spec_sum_lens(lens.take(i)) <= spec_sum_lens(lens.take(j)), hidden >= 0;
    }
    assert forall|i: int| 0 <= i < lens.len() implies #[trigger] (p.offsets@[i] + p.lengths@[i]
        * hidden) <= p.embeddings@.len() by {
        lemma_sum_lens_take_succ(lens, i);
        lemma_sum_lens_take_le(lens, i + 1);
        assert((spec_sum_lens(lens.take(i)) + lens[i]) * hidden == spec_sum_lens(lens.take(i))
            * hidden + lens[i] * hidden) by (nonlinear_arith);
        assert(spec_sum_lens(lens.take(i + 1)) * hidden <= spec_sum_lens(lens) * hidden)
            by (nonlinear_arith)
            requires spec_sum_lens(lens.take(i + 1)) <= spec_sum_lens(lens), hidden >= 0;
    }
}

/// Prefix sums of a length array are monotone in the prefix length.
pub proof fn lemma_sum_lens_prefix_mono(lens: Seq<u32>, i: int, j: int)
    requires
        0 <= i <= j <= lens.len(),
    ensures
        spec_sum_lens(lens.take(i)) <= spec_sum_lens(lens.take(j)),
    decreases j - i,
{
    if i < j {
        lemma_sum_lens_take_succ(lens, i);
        lemma_sum_lens_prefix_mono(lens, i + 1, j);
    }
}

/// Pack a batch of quantized documents into the columnar index layout.
/// Walks the batch in order; for each document records the current element
/// offset and the token count, then appends the document's scalars and
/// token ids to the flat buffers.
pub fn pack_quantized_docs(docs: &Vec<QuantizedDocEmbedding>, hidden: usize) -> (r:
    ColbertPackedResult)
    requires
        hidden >= 1,
        forall|i: int| 0 <= i < docs@.len() ==> #[trigger] spec_doc_wf(docs@[i], hidden as int),
        spec_concat_tokens(docs@).len() * hidden <= u32::MAX,
    ensures
        r.embeddings@ == spec_concat_values(docs@),
        r.token_ids@ == spec_concat_tokens(docs@),
        r.lengths@.len() == docs@.len(),
        forall|i: int| 0 <= i < docs@.len() ==> #[trigger] r.lengths@[i] as int
            == docs@[i].token_ids@.len(),
        r.offsets@.len() == docs@.len(),
        forall|i: int| 0 <= i < docs@.len() ==> #[trigger] r.offsets@[i] as int
            == spec_concat_values(docs@.take(i)).len(),
        packed_wf(r, hidden as int),
{
    let ghost all = docs@;
    proof {
        lemma_concat_values_len(all, hidden as int);
    }
    let mut embeddings: Vec<i8> = Vec::new();
    let mut token_ids: Vec<u32> = Vec::new();
    let mut lengths: Vec<u32> = Vec::new();
    let mut offsets: Vec<u32> = Vec::new();
    let n = docs.len();
    let mut i: usize = 0;
    while i < n
        invariant
            n == all.len(),
            all == docs@,
            hidden >= 1,
            i <= n,
            forall|k: int| 0 <= k < all.len() ==> #[trigger] spec_doc_wf(all[k], hidden as int),
            spec_concat_tokens(all).len() * hidden <= u32::MAX,
            spec_concat_values(all).len() == spec_concat_tokens(all).len() * hidden,
            embeddings@ == spec_concat_values(all.take(i as int)),
            token_ids@ == spec_concat_tokens(all.take(i as int)),
            lengths@.len() == i,
            forall|k: int| 0 <= k < i ==> #[trigger] lengths@[k] as int
                == all[k].token_ids@.len(),
            offsets@.len() == i,
            forall|k: int| 0 <= k < i ==> #[trigger] offsets@[k] as int
                == spec_concat_values(all.take(k)).len(),
        decreases n - i,
    {
        let d = &docs[i];
        proof {
            lemma_concat_take_le(all, i as int);
            lemma_concat_take_succ(all, i as int);
            assert(spec_doc_wf(all[i as int], hidden as int));
            assert(all[i as int].token_ids@.len() <= spec_concat_tokens(all).len()) by {
                assert(spec_concat_tokens(all.take(i as int + 1)).len() <= spec_concat_tokens(
                    all).len()) by {
                    lemma_concat_take_le(all, i as int + 1);
                }
            }
            assert(spec_concat_tokens(all).len() <= spec_concat_tokens(all).len() * hidden)
                by (nonlinear_arith)
                requires hidden >= 1, spec_concat_tokens(all).len() >= 0;
        }
        offsets.push(embeddings.len() as u32);
        lengths.push(d.token_ids.len() as u32);
        let vn = d.values.len();
        let mut j: usize = 0;
        while j < vn
            invariant
                vn == d.values@.len(),
                j <= vn,
                embeddings@ == spec_concat_values(all.take(i as int)) + d.values@.take(j as int),
            decreases vn - j,
        {
            let v = d.values[j];
            embeddings.push(v);
            proof {
                assert(d.values@.take(j + 1) =~= d.values@.take(j as int).push(d.values@[j as int]));
                assert(embeddings@ =~= spec_concat_values(all.take(i as int)) + d.values@.take(
                    j + 1));
            }
            j = j + 1;
        }
        let tn = d.token_ids.len();
        let mut j2: usize = 0;
        while j2 < tn
            invariant
                tn == d.token_ids@.len(),
                j2 <= tn,
                token_ids@ == spec_concat_tokens(all.take(i as int)) + d.token_ids@.take(
                    j2 as int),
            decreases tn - j2,
        {
            let t = d.token_ids[j2];
            token_ids.push(t);
            proof {
                assert(d.token_ids@.take(j2 + 1) =~= d.token_ids@.take(j2 as int).push(
                    d.token_ids@[j2 as int]));
                assert(token_ids@ =~= spec_concat_tokens(all.take(i as int)) + d.token_ids@.take(
                    j2 + 1));
            }
            j2 = j2 + 1;
        }
        proof {
            assert(d.values@.take(d.values@.len() as int) =~= d.values@);
            assert(d.token_ids@.take(d.token_ids@.len() as int) =~= d.token_ids@);
            assert(embeddings@ == spec_concat_values(all.take(i as int + 1)));
            assert(token_ids@ == spec_concat_tokens(all.take(i as int + 1)));
        }
        i = i + 1;
    }
    proof {
        assert(all.take(n as int) =~= all);
    }
    let r = ColbertPackedResult { embeddings, token_ids, lengths, offsets };
    proof {
        lemma_pack_result_wf(r, all, hidden as int);
    }
    r
}

/// A sum of lengths is bounded by the number of entries times the largest
/// possible entry.
pub proof fn lemma_sum_lens_upper(lens: Seq<u32>)
    ensures
        spec_sum_lens(lens) <= lens.len() * (u32::MAX as int),
    decreases lens.len(),
{
    if lens.len() == 0 {
    } else {
        lemma_sum_lens_upper(lens.drop_last());
        assert((lens.len() - 1) * (u32::MAX as int) + (u32::MAX as int) == lens.len() * (
        u32::MAX as int)) by (nonlinear_arith);
    }
}

/// Decide whether four provided arrays form a well-formed packed index for
/// the given hidden dimension. This is how untrusted arrays presented at
/// query time are admitted before any scoring walks them.
pub fn validate_packed(p: &ColbertPackedResult, hidden: usize) -> (b: bool)
    requires
        hidden >= 1,
    ensures
        b == packed_wf(*p, hidden as int),
{
    if p.offsets.len() != p.lengths.len() {
        return false;
    }
    let n = p.lengths.len();
    let mut sum: u128 = 0;
    let mut i: usize = 0;
    while i < n
        invariant
            n == p.lengths@.len(),
            p.offsets@.len() == p.lengths@.len(),
            hidden >= 1,
            i <= n,
            sum as int == spec_sum_lens(p.lengths@.take(i as int)),
            forall|j: int| 0 <= j < i ==> #[trigger] p.offsets@[j] as int == spec_sum_lens(
                p.lengths@.take(j)) * (hidden as int),
        decreases n - i,
    {
        proof {
            lemma_sum_lens_nonneg(p.lengths@.take(i as int));
        }
        if sum > u32::MAX as u128 {
            proof {
                assert(spec_sum_lens(p.lengths@.take(i as int)) * (hidden as int) >= sum as int)
                    by (nonlinear_arith)
                    requires
                        hidden >= 1,
                        sum as int == spec_sum_lens(p.lengths@.take(i as int)),
                        sum as int >= 0,
                ;
                assert(!(p.offsets@[i as int] as int == spec_sum_lens(p.lengths@.take(i as int))
                    * (hidden as int)));
            }
            return false;
        }
        proof {
            assert(sum as int * (hidden as int) <= u32::MAX as int * usize::MAX as int)
                by (nonlinear_arith)
                requires
                    0 <= sum as int <= u32::MAX as int,
                    0 <= hidden as int <= usize::MAX as int,
            ;
        }
        let expected: u128 = sum * (hidden as u128);
        if (p.offsets[i] as u128) != expected {
            return false;
        }
        proof {
            lemma_sum_lens_take_succ(p.lengths@, i as int);
            lemma_sum_lens_upper(p.lengths@.take(i as int));
        }
        sum = sum + (p.lengths[i] as u128);
        i = i + 1;
    }
    proof {
        assert(p.lengths@.take(n as int) =~= p.lengths@);
    }
    if sum > p.embeddings.len() as u128 {
        proof {
            assert(spec_sum_lens(p.lengths@) * (hidden as int) >= sum as int)
                by (nonlinear_arith)
                requires
                    hidden >= 1,
                    sum as int == spec_sum_lens(p.lengths@),
                    sum as int >= 0,
            ;
        }
        return false;
    }
    proof {
        assert(sum as int * (hidden as int) <= usize::MAX as int * usize::MAX as int)
            by (nonlinear_arith)
            requires
                0 <= sum as int <= usize::MAX as int,
                0 <= hidden as int <= usize::MAX as int,
        ;
    }
    let total: u128 = sum * (hidden as u128);
    if total > p.embeddings.len() as u128 {
        return false;
    }
    if sum != p.token_ids.len() as u128 {
        return false;
    }
    true
}

/// The element range of one document inside the flat embeddings buffer:
/// `lengths[idx] * hidden` scalars starting at `offsets[idx]`.
pub fn doc_embedding_slice(p: &ColbertPackedResult, idx: usize, hidden: usize) -> (r: Vec<i8>)
    requires
        packed_wf(*p, hidden as int),
        hidden >= 1,
        idx < p.lengths@.len(),
    ensures
        r@ == p.embeddings@.subrange(p.offsets@[idx as int] as int, p.offsets@[idx as int]
            + p.lengths@[idx as int] * hidden),
{
    let emb_len = p.embeddings.len();
    proof {
        lemma_packed_invariants(*p, hidden as int);
        lemma_sum_lens_nonneg(p.lengths@.take(idx as int));
        assert((p.offsets@[idx as int] + p.lengths@[idx as int] * (hidden as int))
            <= p.embeddings@.len());
    }
    let start = p.offsets[idx] as usize;
    let rows = p.lengths[idx] as usize;
    let count = rows * hidden;
    let mut r: Vec<i8> = Vec::new();
    let mut j: usize = 0;
    while j < count
        invariant
            packed_wf(*p, hidden as int),
            idx < p.lengths@.len(),
            start == p.offsets@[idx as int],
            count == p.lengths@[idx as int] * hidden,
            start + count <= p.embeddings@.len(),
            p.embeddings@.len() <= usize::MAX,
            j <= count,
            r@ == p.embeddings@.subrange(start as int, start + j),
        decreases count - j,
    {
        let v = p.embeddings[start + j];
        r.push(v);
        proof {
            assert(r@ =~= p.embeddings@.subrange(start as int, start + j + 1));
        }
        j = j + 1;
    }
    r
}

/// The token-id start of one document: the prefix sum of `lengths` before
/// it. Not stored in the packed layout; recovered on demand.
pub fn token_start(p: &ColbertPackedResult, idx: usize) -> (r: usize)
    requires
        packed_wf(*p, 1),
        idx <= p.lengths@.len(),
    ensures
        r as int == spec_sum_lens(p.lengths@.take(idx as int)),
{
    let total = p.token_ids.len();
    let mut sum: usize = 0;
    let mut i: usize = 0;
    while i < idx
        invariant
            packed_wf(*p, 1),
            idx <= p.lengths@.len(),
            total == p.token_ids@.len(),
            i <= idx,
            sum as int == spec_sum_lens(p.lengths@.take(i as int)),
        decreases idx - i,
    {
        proof {
            lemma_sum_lens_take_succ(p.lengths@, i as int);
            lemma_sum_lens_take_le(p.lengths@, i as int + 1);
            assert(spec_sum_lens(p.lengths@) * 1 == spec_sum_lens(p.lengths@));
        }
        sum = sum + (p.lengths[i] as usize);
        i = i + 1;
    }
    sum
}

/// The token ids of one document, recovered from the flat token-id array.
pub fn doc_token_slice(p: &ColbertPackedResult, idx: usize) -> (r: Vec<u32>)
    requires
        packed_wf(*p, 1),
        idx < p.lengths@.len(),
    ensures
        r@ == p.token_ids@.subrange(spec_sum_lens(p.lengths@.take(idx as int)),
            spec_sum_lens(p.lengths@.take(idx as int)) + p.lengths@[idx as int]),
{
    let start = token_start(p, idx);
    let count = p.lengths[idx] as usize;
    let total = p.token_ids.len();
    proof {
        lemma_sum_lens_take_succ(p.lengths@, idx as int);
        lemma_sum_lens_take_le(p.lengths@, idx as int + 1);
        assert(spec_sum_lens(p.lengths@) * 1 == spec_sum_lens(p.lengths@));
    }
    let mut r: Vec<u32> = Vec::new();
    let mut j: usize = 0;
    while j < count
        invariant
            start + count <= p.token_ids@.len(),
            total == p.token_ids@.len(),
            j <= count,
            r@ == p.token_ids@.subrange(start as int, start + j),
        decreases count - j,
    {
        let t = p.token_ids[start + j];
        r.push(t);
        proof {
            assert(r@ =~= p.token_ids@.subrange(start as int, start + j + 1));
        }
        j = j + 1;
    }
    r
}

/// Round trip through the packed layout: slicing the concatenated buffers
/// at a document's offset and extent recovers exactly that document's
/// scalars and token ids.
pub proof fn lemma_pack_roundtrip(docs: Seq<QuantizedDocEmbedding>, i: int)
    requires
        0 <= i < docs.len(),
    ensures
        spec_concat_values(docs).subrange(spec_concat_values(docs.take(i)).len() as int,
            spec_concat_values(docs.take(i)).len() + docs[i].values@.len() as int)
            == docs[i].values@,
        spec_concat_tokens(docs).subrange(spec_concat_tokens(docs.take(i)).len() as int,
            spec_concat_tokens(docs.take(i)).len() + docs[i].token_ids@.len() as int)
            == docs[i].token_ids@,
{
    assert(docs =~= docs.take(i + 1) + docs.skip(i + 1));
    lemma_concat_values_append(docs.take(i + 1), docs.skip(i + 1));
    lemma_concat_tokens_append(docs.take(i + 1), docs.skip(i + 1));
    lemma_concat_take_succ(docs, i);
    assert(spec_concat_values(docs).subrange(spec_concat_values(docs.take(i)).len() as int,
        spec_concat_values(docs.take(i)).len() + docs[i].values@.len() as int) =~= docs[i].values@);
    assert(spec_concat_tokens(docs).subrange(spec_concat_tokens(docs.take(i)).len() as int,
        spec_concat_tokens(docs.take(i)).len() + docs[i].token_ids@.len() as int) =~= docs[i].token_ids@);
}

/// The exact pack output satisfies the packed-layout well-formedness.
proof fn lemma_pack_result_wf(r: ColbertPackedResult, docs: Seq<QuantizedDocEmbedding>, hidden: int)
    requires
        hidden >= 1,
        forall|i: int| 0 <= i < docs.len() ==> #[trigger] spec_doc_wf(docs[i], hidden),
        r.embeddings@ == spec_concat_values(docs),
        r.token_ids@ == spec_concat_tokens(docs),
        r.lengths@.len() == docs.len(),
        forall|i: int| 0 <= i < docs.len() ==> #[trigger] r.lengths@[i] as int
            == docs[i].token_ids@.len(),
        r.offsets@.len() == docs.len(),
        forall|i: int| 0 <= i < docs.len() ==> #[trigger] r.offsets@[i] as int
            == spec_concat_values(docs.take(i)).len(),
    ensures
        packed_wf(r, hidden),
{
    lemma_sum_lens_matches_tokens(docs, r.lengths@, docs.len() as int);
    assert(r.lengths@.take(docs.len() as int) =~= r.lengths@);
    assert(docs.take(docs.len() as int) =~= docs);
    lemma_concat_values_len(docs, hidden);
    assert forall|i: int| 0 <= i < r.lengths@.len() implies #[trigger] r.offsets@[i] as int
        == spec_sum_lens(r.lengths@.take(i)) * hidden by {
        lemma_sum_lens_matches_tokens(docs, r.lengths@, i);
        assert(forall|k: int| 0 <= k < docs.take(i).len() ==> #[trigger] spec_doc_wf(
            docs.take(i)[k], hidden));
        lemma_concat_values_len(docs.take(i), hidden);
    }
}

} // verus!
