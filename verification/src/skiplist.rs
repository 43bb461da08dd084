//! The skip-list: a set of token ids (typically punctuation and sentinels)
//! that the document side of MaxSim ignores. Loaded once at model load
//! time, empty when the model ships no skip-list artifact, immutable
//! afterwards.

use vstd::prelude::*;
use crate::errors::CoreError;
use crate::trusted::json_u32_list;
use crate::trusted::parse_u32_list;

verus! {

/// A set of token ids that scoring must not let any query row match.
pub struct SkipList {
    ids: Vec<u32>,
}

/// The set of ids an id list denotes.
pub open spec fn spec_id_set(ids: Seq<u32>) -> Set<u32> {
    Set::new(|x: u32| ids.contains(x))
}

impl View for SkipList {
    type V = Set<u32>;

    closed spec fn view(&self) -> Set<u32> {
        spec_id_set(self.ids@)
    }
}

impl SkipList {
    /// The empty skip-list: no token is ever skipped.
    pub fn empty() -> (r: SkipList)
        ensures
            r@ == Set::<u32>::empty(),
    {
        let r = SkipList { ids: Vec::new() };
        proof {
            assert(r@ =~= Set::<u32>::empty());
        }
        r
    }

    /// The skip-list holding exactly the given ids.
    pub fn from_ids(ids: Vec<u32>) -> (r: SkipList)
        ensures
            r@ == spec_id_set(ids@),
    {
        SkipList { ids }
    }

    /// Load a skip-list from the text of a skip-list artifact: a JSON array
    /// of unsigned 32-bit token ids. A text the parser rejects surfaces as
    /// a malformed-artifact error.
    pub fn from_json(text: &str) -> (r: Result<SkipList, CoreError>)
        ensures
            r is Ok <==> json_u32_list(text@) is Some,
            r matches Ok(sl) ==> sl@ == spec_id_set(json_u32_list(text@)->Some_0),
            r matches Err(e) ==> e == CoreError::ArtifactMissing,
    {
        match parse_u32_list(text) {
            Ok(ids) => Ok(SkipList { ids }),
            Err(_) => Err(CoreError::ArtifactMissing),
        }
    }

    /// Whether a document token with this id is skipped during scoring.
    pub fn contains(&self, id: u32) -> (r: bool)
        ensures
            r == self@.contains(id),
    {
        let n = self.ids.len();
        let mut i: usize = 0;
        while i < n
            invariant
                n == self.ids@.len(),
                i <= n,
                forall|j: int| 0 <= j < i ==> self.ids@[j] != id,
            decreases n - i,
        {
            if self.ids[i] == id {
                return true;
            }
            i = i + 1;
        }
        false
    }

    /// The skipped ids, for hosts that persist or display them.
    pub fn to_ids(&self) -> (r: Vec<u32>)
        ensures
            spec_id_set(r@) == self@,
    {
        let mut r: Vec<u32> = Vec::new();
        let n = self.ids.len();
        let mut i: usize = 0;
        while i < n
            invariant
                n == self.ids@.len(),
                i <= n,
                r@ == self.ids@.take(i as int),
            decreases n - i,
        {
            let v = self.ids[i];
            r.push(v);
            proof {
                assert(r@ =~= self.ids@.take(i + 1));
            }
            i = i + 1;
        }
        proof {
            assert(self.ids@.take(n as int) =~= self.ids@);
        }
        r
    }
}

/// Which document rows take part in scoring: row `t` scores exactly when
/// its token id is not skip-listed.
pub open spec fn spec_scored_mask(token_ids: Seq<u32>, skip: Set<u32>) -> Seq<bool> {
    Seq::new(token_ids.len(), |t: int| !skip.contains(token_ids[t]))
}

/// Compute the scored mask of one document.
pub fn scored_mask(token_ids: &Vec<u32>, skip: &SkipList) -> (r: Vec<bool>)
    ensures
        r@ == spec_scored_mask(token_ids@, skip@),
{
    let n = token_ids.len();
    let mut r: Vec<bool> = Vec::new();
    let mut i: usize = 0;
    while i < n
        invariant
            n == token_ids@.len(),
            i <= n,
            r@.len() == i,
            forall|j: int| 0 <= j < i ==> r@[j] == !skip@.contains(token_ids@[j]),
        decreases n - i,
    {
        let hit = skip.contains(token_ids[i]);
        r.push(!hit);
        i = i + 1;
    }
    proof {
        assert(r@ =~= spec_scored_mask(token_ids@, skip@));
    }
    r
}

/// What a MaxSim scorer is allowed to read of a document: the embedding
/// rows of the tokens that are not skip-listed, in document order.
pub open spec fn spec_filter_scored(rows: Seq<Seq<i8>>, ids: Seq<u32>, skip: Set<u32>) -> Seq<
    Seq<i8>,
>
    decreases ids.len(),
{
    if ids.len() == 0 {
        Seq::empty()
    } else {
        let rest = spec_filter_scored(rows.drop_last(), ids.drop_last(), skip);
        if skip.contains(ids.last()) {
            rest
        } else {
            rest.push(rows.last())
        }
    }
}

/// Skip-listed tokens are invisible to scoring: inserting a row whose
/// token id is skip-listed, at any position, leaves the scored rows
/// exactly as they were. A scorer that reads a document only through its
/// scored rows therefore gives two documents that differ only in
/// skip-listed tokens identical scores, against any query.
pub proof fn lemma_skip_token_invisible(
    rows: Seq<Seq<i8>>,
    ids: Seq<u32>,
    skip: Set<u32>,
    pos: int,
    extra_row: Seq<i8>,
    extra_id: u32,
)
    requires
        rows.len() == ids.len(),
        0 <= pos <= ids.len(),
        skip.contains(extra_id),
    ensures
        spec_filter_scored(rows.insert(pos, extra_row), ids.insert(pos, extra_id), skip)
            == spec_filter_scored(rows, ids, skip),
    decreases ids.len() - pos,
{
    let rows2 = rows.insert(pos, extra_row);
    let ids2 = ids.insert(pos, extra_id);
    if pos == ids.len() {
        assert(ids2.last() == extra_id);
        assert(rows2.drop_last() =~= rows);
        assert(ids2.drop_last() =~= ids);
    } else {
        assert(ids2.last() == ids.last());
        assert(rows2.last() == rows.last());
        assert(rows2.drop_last() =~= rows.drop_last().insert(pos, extra_row));
        assert(ids2.drop_last() =~= ids.drop_last().insert(pos, extra_id));
        lemma_skip_token_invisible(rows.drop_last(), ids.drop_last(), skip, pos, extra_row,
            extra_id);
    }
}

/// The per-token rows of a document's flat scalar buffer: `n` rows of
/// `hidden` scalars each, in order.
pub open spec fn spec_doc_rows(values: Seq<i8>, n: int, hidden: int) -> Seq<Seq<i8>> {
    Seq::new(n as nat, |t: int| values.subrange(t * hidden, (t + 1) * hidden))
}

/// What a scorer reads of one document held as a flat buffer beside its
/// token ids: the rows of the non-skip-listed tokens, in order.
pub open spec fn spec_scored_input(
    values: Seq<i8>,
    ids: Seq<u32>,
    skip: Set<u32>,
    hidden: int,
) -> Seq<Seq<i8>> {
    spec_filter_scored(spec_doc_rows(values, ids.len() as int, hidden), ids, skip)
}

/// Splicing one row block into a flat buffer inserts one row into its
/// row-wise reading.
proof fn lemma_doc_rows_insert(values: Seq<i8>, n: int, hidden: int, p: int, row: Seq<i8>)
    requires
        hidden >= 0,
        n >= 0,
        values.len() == n * hidden,
        0 <= p <= n,
        row.len() == hidden,
    ensures
        spec_doc_rows(values.subrange(0, p * hidden) + row + values.subrange(p * hidden,
            values.len() as int), n + 1, hidden) == spec_doc_rows(values, n, hidden).insert(p,
            row),
{
    assert(0 <= p * hidden <= n * hidden) by (nonlinear_arith)
        requires 0 <= p <= n, hidden >= 0,
    ;
    let head = values.subrange(0, p * hidden);
    let tail = values.subrange(p * hidden, values.len() as int);
    let spliced = head + row + tail;
    let lhs = spec_doc_rows(spliced, n + 1, hidden);
    let rhs = spec_doc_rows(values, n, hidden).insert(p, row);
    spec_doc_rows(values, n, hidden).insert_ensures(p, row);
    assert forall|t: int| 0 <= t < n + 1 implies lhs[t] == rhs[t] by {
        assert(0 <= t * hidden && t * hidden <= (t + 1) * hidden) by (nonlinear_arith)
            requires t >= 0, hidden >= 0,
        ;
        assert((t + 1) * hidden == t * hidden + hidden) by (nonlinear_arith);
        assert((p + 1) * hidden == p * hidden + hidden) by (nonlinear_arith);
        if t < p {
            assert((t + 1) * hidden <= p * hidden) by (nonlinear_arith)
                requires t + 1 <= p, hidden >= 0,
            ;
            assert(spliced.subrange(t * hidden, (t + 1) * hidden) =~= values.subrange(t * hidden,
                (t + 1) * hidden));
            assert(rhs[t] == values.subrange(t * hidden, (t + 1) * hidden));
        } else if t == p {
            assert(spliced.subrange(p * hidden, (p + 1) * hidden) =~= row);
            assert(rhs[p] == row);
        } else {
            assert((p + 1) * hidden <= t * hidden && (t + 1) * hidden <= (n + 1) * hidden)
                by (nonlinear_arith)
                requires p + 1 <= t, t + 1 <= n + 1, hidden >= 0,
            ;
            assert((t - 1) * hidden + hidden == t * hidden && (t + 1) * hidden - hidden == t
                * hidden) by (nonlinear_arith);
            assert((t - 1) * hidden >= p * hidden) by (nonlinear_arith)
                requires t - 1 >= p, hidden >= 0,
            ;
            assert(t * hidden <= n * hidden) by (nonlinear_arith)
                requires t <= n, hidden >= 0,
            ;
            assert(spliced.subrange(t * hidden, (t + 1) * hidden) =~= values.subrange((t - 1)
                * hidden, t * hidden));
            assert(rhs[t] == values.subrange((t - 1) * hidden, t * hidden));
        }
    }
    assert(lhs =~= rhs);
}

/// Skip-listed tokens are invisible to scoring, stated over the flat
/// buffers the packed store holds: splicing a row whose token id is
/// skip-listed into a document's scalar buffer, at any token position,
/// leaves the scored input exactly as it was.
pub proof fn lemma_skip_token_invisible_flat(
    values: Seq<i8>,
    ids: Seq<u32>,
    skip: Set<u32>,
    hidden: int,
    pos: int,
    extra_row: Seq<i8>,
    extra_id: u32,
)
    requires
        hidden >= 0,
        values.len() == ids.len() * hidden,
        0 <= pos <= ids.len(),
        extra_row.len() == hidden,
        skip.contains(extra_id),
    ensures
        spec_scored_input(values.subrange(0, pos * hidden) + extra_row + values.subrange(pos
            * hidden, values.len() as int), ids.insert(pos, extra_id), skip, hidden)
            == spec_scored_input(values, ids, skip, hidden),
{
    let n = ids.len() as int;
    lemma_doc_rows_insert(values, n, hidden, pos, extra_row);
    ids.insert_ensures(pos, extra_id);
    lemma_skip_token_invisible(spec_doc_rows(values, n, hidden), ids, skip, pos, extra_row,
        extra_id);
}

} // verus!
