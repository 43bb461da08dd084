//! Rerank ordering: the stable descending order of candidate positions by
//! an integer score key, truncated to the top k. The host maps each
//! floating-point score to an order-preserving integer key; everything
//! from the keys to the returned order is verified here. On equal keys the
//! earlier candidate wins, preserving the caller's candidate order.

use vstd::prelude::*;

verus! {

/// Where a stable descending insertion places a new element: after every
/// element already ordered whose key is at least the new element's key.
pub open spec fn spec_insert_pos(ord: Seq<usize>, keys: Seq<i64>, x: usize) -> int
    decreases ord.len(),
{
    if ord.len() == 0 {
        0
    } else if keys[ord[0] as int] >= keys[x as int] {
        1 + spec_insert_pos(ord.drop_first(), keys, x)
    } else {
        0
    }
}

/// The stable descending order of the first `n` positions of `keys`,
/// built by inserting each position in turn.
pub open spec fn spec_order_upto(keys: Seq<i64>, n: int) -> Seq<usize>
    decreases n,
{
    if n <= 0 {
        Seq::empty()
    } else {
        let prev = spec_order_upto(keys, n - 1);
        prev.insert(spec_insert_pos(prev, keys, (n - 1) as usize), (n - 1) as usize)
    }
}

/// The stable descending order of all positions of `keys`.
pub open spec fn spec_rank_order(keys: Seq<i64>) -> Seq<usize> {
    spec_order_upto(keys, keys.len() as int)
}

/// The order truncated to its first `k` entries.
pub open spec fn spec_top_k(keys: Seq<i64>, k: int) -> Seq<usize> {
    let ord = spec_rank_order(keys);
    if k >= ord.len() {
        ord
    } else {
        ord.take(k)
    }
}

/// The insertion position lies within the ordered prefix.
proof fn lemma_insert_pos_bounds(ord: Seq<usize>, keys: Seq<i64>, x: usize)
    ensures
        0 <= spec_insert_pos(ord, keys, x) <= ord.len(),
    decreases ord.len(),
{
    if ord.len() > 0 && keys[ord[0] as int] >= keys[x as int] {
        lemma_insert_pos_bounds(ord.drop_first(), keys, x);
    }
}

/// Every element before the insertion position has a key at least the new
/// key; the element at the position, where one exists, has a smaller key.
proof fn lemma_insert_pos_char(ord: Seq<usize>, keys: Seq<i64>, x: usize)
    ensures
        forall|q: int|
            0 <= q < spec_insert_pos(ord, keys, x) ==> keys[#[trigger] ord[q] as int]
                >= keys[x as int],
        spec_insert_pos(ord, keys, x) < ord.len() ==> keys[ord[spec_insert_pos(ord, keys, x)]
            as int] < keys[x as int],
    decreases ord.len(),
{
    lemma_insert_pos_bounds(ord, keys, x);
    if ord.len() > 0 && keys[ord[0] as int] >= keys[x as int] {
        lemma_insert_pos_char(ord.drop_first(), keys, x);
        lemma_insert_pos_bounds(ord.drop_first(), keys, x);
        assert forall|q: int| 0 <= q < spec_insert_pos(ord, keys, x) implies keys[
            #[trigger] ord[q] as int] >= keys[x as int] by {
            if q >= 1 {
                assert(ord[q] == ord.drop_first()[q - 1]);
            }
        }
        if spec_insert_pos(ord, keys, x) < ord.len() {
            assert(ord[spec_insert_pos(ord, keys, x)] == ord.drop_first()[spec_insert_pos(
                ord.drop_first(), keys, x)]);
        }
    }
}

/// Any position with the same characterization is the insertion position.
proof fn lemma_insert_pos_unique(ord: Seq<usize>, keys: Seq<i64>, x: usize, p: int)
    requires
        0 <= p <= ord.len(),
        forall|q: int| 0 <= q < p ==> keys[#[trigger] ord[q] as int] >= keys[x as int],
        p < ord.len() ==> keys[ord[p] as int] < keys[x as int],
    ensures
        p == spec_insert_pos(ord, keys, x),
    decreases ord.len(),
{
    if ord.len() == 0 {
    } else if keys[ord[0] as int] >= keys[x as int] {
        assert(p >= 1);
        assert(forall|q: int| 0 <= q < p - 1 ==> keys[#[trigger] ord.drop_first()[q] as int]
            >= keys[x as int]) by {
            assert(forall|q: int| 0 <= q < p - 1 ==> ord.drop_first()[q] == ord[q + 1]);
        }
        if p - 1 < ord.drop_first().len() {
            assert(ord.drop_first()[p - 1] == ord[p]);
        }
        lemma_insert_pos_unique(ord.drop_first(), keys, x, p - 1);
    } else {
        if p > 0 {
            assert(keys[ord[0] as int] >= keys[x as int]);
        }
    }
}

/// What it means for `ord` to be the stable descending order of the first
/// `n` positions: it holds each position below `n` exactly once, its keys
/// never increase along it, and on equal keys the smaller position comes
/// first.
pub open spec fn spec_order_props(keys: Seq<i64>, n: int, ord: Seq<usize>) -> bool {
    &&& ord.len() == n
    &&& forall|q: int| 0 <= q < n ==> (#[trigger] ord[q]) < n
    &&& forall|a: int, b: int|
        #![trigger ord[a], ord[b]]
        0 <= a < b < n ==> ord[a] != ord[b]
    &&& forall|a: int, b: int|
        #![trigger ord[a], ord[b]]
        0 <= a < b < n ==> keys[ord[a] as int] >= keys[ord[b] as int]
    &&& forall|a: int, b: int|
        #![trigger ord[a], ord[b]]
        0 <= a < b < n && keys[ord[a] as int] == keys[ord[b] as int] ==> ord[a] < ord[b]
}

/// The shape of the stable descending order of a prefix: it permutes the
/// positions below `n` (each exactly once), its keys never increase along
/// it, and on equal keys the smaller position comes first.
pub proof fn lemma_order_upto_props(keys: Seq<i64>, n: int)
    requires
        0 <= n <= keys.len(),
        n <= usize::MAX,
    ensures
        spec_order_props(keys, n, spec_order_upto(keys, n)),
    decreases n,
{
    if n > 0 {
        lemma_order_upto_props(keys, n - 1);
        let prev = spec_order_upto(keys, n - 1);
        let x = (n - 1) as usize;
        assert(x as int == n - 1);
        let p = spec_insert_pos(prev, keys, x);
        let ord = spec_order_upto(keys, n);
        lemma_insert_pos_bounds(prev, keys, x);
        lemma_insert_pos_char(prev, keys, x);
        prev.insert_ensures(p, x);
        assert(ord == prev.insert(p, x));
        // Keys never increase past the insertion position in the old order.
        assert forall|q: int| p <= q < prev.len() implies keys[(#[trigger] prev[q]) as int]
            < keys[x as int] by {
            assert(keys[prev[p] as int] < keys[x as int]);
            if q > p {
                assert(keys[prev[q] as int] <= keys[prev[p] as int]);
            }
        }
        assert forall|a: int, b: int| 0 <= a < b < n implies keys[(#[trigger] ord[a]) as int]
            >= keys[(#[trigger] ord[b]) as int] && ord[a] != ord[b] && (keys[ord[a] as int]
            == keys[ord[b] as int] ==> ord[a] < ord[b]) by {
            if b < p {
                assert(ord[a] == prev[a]);
                assert(ord[b] == prev[b]);
                assert(keys[prev[a] as int] >= keys[prev[b] as int]);
            } else if a < p && b == p {
                assert(ord[a] == prev[a]);
                assert(ord[b] == x);
                assert(keys[prev[a] as int] >= keys[x as int]);
                assert((prev[a] as int) < n - 1);
            } else if a < p && b > p {
                assert(ord[a] == prev[a]);
                assert(ord[b] == prev[b - 1]);
                assert(keys[prev[a] as int] >= keys[prev[b - 1] as int]);
            } else if a == p {
                assert(b > p);
                assert(ord[a] == x);
                assert(ord[b] == prev[b - 1]);
                assert(keys[prev[b - 1] as int] < keys[x as int]);
                assert((prev[b - 1] as int) < n - 1);
            } else {
                assert(a > p && b > p);
                assert(ord[a] == prev[a - 1]);
                assert(ord[b] == prev[b - 1]);
                assert(keys[prev[a - 1] as int] >= keys[prev[b - 1] as int]);
            }
        }
        assert forall|q: int| 0 <= q < n implies (#[trigger] ord[q]) < n by {
            if q < p {
                assert(ord[q] == prev[q]);
            } else if q == p {
                assert(ord[q] == x);
            } else {
                assert(ord[q] == prev[q - 1]);
            }
        }
    }
}

/// Two runs on equal keys give equal orders: the rerank order is a
/// function of the score keys alone, so identical inputs produce
/// identical rankings.
pub proof fn lemma_order_deterministic(keys1: Seq<i64>, keys2: Seq<i64>, k: int)
    requires
        keys1 == keys2,
    ensures
        spec_top_k(keys1, k) == spec_top_k(keys2, k),
{
}

/// Compute the stable descending order of all positions of `keys` by
/// insertion, exactly as the specification builds it.
pub fn rank_descending(keys: &Vec<i64>) -> (r: Vec<usize>)
    ensures
        r@ == spec_rank_order(keys@),
{
    let n = keys.len();
    let mut ord: Vec<usize> = Vec::new();
    let mut i: usize = 0;
    while i < n
        invariant
            n == keys@.len(),
            i <= n,
            ord@ == spec_order_upto(keys@, i as int),
            ord@.len() == i,
            forall|q: int| 0 <= q < i ==> (#[trigger] ord@[q]) < i,
        decreases n - i,
    {
        let m = ord.len();
        let mut p: usize = 0;
        while p < m && keys[ord[p]] >= keys[i]
            invariant
                n == keys@.len(),
                i < n,
                m == ord@.len(),
                ord@.len() == i,
                forall|q: int| 0 <= q < i ==> (#[trigger] ord@[q]) < i,
                p <= m,
                forall|q: int| 0 <= q < p ==> keys@[#[trigger] ord@[q] as int] >= keys@[i as int],
            decreases m - p,
        {
            p = p + 1;
        }
        proof {
            lemma_insert_pos_unique(ord@, keys@, i as usize, p as int);
        }
        let ghost old_ord = ord@;
        ord.insert(p, i);
        proof {
            old_ord.insert_ensures(p as int, i as usize);
            assert(ord@ == spec_order_upto(keys@, i as int + 1));
            assert forall|q: int| 0 <= q < i + 1 implies (#[trigger] ord@[q]) < i + 1 by {
                if q < p {
                    assert(ord@[q] == old_ord[q]);
                } else if q == p {
                    assert(ord@[q] == i as usize);
                } else {
                    assert(ord@[q] == old_ord[q - 1]);
                }
            }
        }
        i = i + 1;
    }
    ord
}

/// The top-k rerank order: the stable descending order truncated to at
/// most `k` entries, in score order.
pub fn top_k_descending(keys: &Vec<i64>, k: usize) -> (r: Vec<usize>)
    ensures
        r@ == spec_top_k(keys@, k as int),
        r@.len() == (if k as int <= keys@.len() { k as int } else { keys@.len() as int }),
{
    let n = keys.len();
    let mut ord = rank_descending(keys);
    proof {
        lemma_order_upto_props(keys@, n as int);
    }
    ord.truncate(k);
    ord
}

/// Map an order over candidate positions to the candidates themselves.
pub fn apply_order_u32(xs: &Vec<u32>, order: &Vec<usize>) -> (r: Vec<u32>)
    requires
        forall|q: int| 0 <= q < order@.len() ==> (#[trigger] order@[q]) < xs@.len(),
    ensures
        r@.len() == order@.len(),
        forall|q: int| 0 <= q < order@.len() ==> #[trigger] r@[q] == xs@[order@[q] as int],
{
    let n = order.len();
    let mut r: Vec<u32> = Vec::new();
    let mut i: usize = 0;
    while i < n
        invariant
            n == order@.len(),
            forall|q: int| 0 <= q < order@.len() ==> (#[trigger] order@[q]) < xs@.len(),
            i <= n,
            r@.len() == i,
            forall|q: int| 0 <= q < i ==> #[trigger] r@[q] == xs@[order@[q] as int],
        decreases n - i,
    {
        let idx = order[i];
        let v = xs[idx];
        r.push(v);
        i = i + 1;
    }
    r
}

} // verus!
