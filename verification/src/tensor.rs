//! The padded, batched tensor layout handed to the inference runtime:
//! row-major `[B, L]` int64 buffers, zero-padded to the longest row of the
//! batch, with a parallel attention mask that is 1 exactly on real tokens.

use vstd::prelude::*;

verus! {

/// One padded row: the row's values widened to `i64`, then zeros up to
/// `width` positions; values beyond `width` are dropped.
pub open spec fn spec_padded_row(ids: Seq<u32>, width: int) -> Seq<i64> {
    Seq::new(width as nat, |j: int| if j < ids.len() { ids[j] as i64 } else { 0i64 })
}

/// One attention row: 1 on the first `len` positions, 0 elsewhere.
pub open spec fn spec_attention_row(len: int, width: int) -> Seq<i64> {
    Seq::new(width as nat, |j: int| if j < len { 1i64 } else { 0i64 })
}

/// The flat row-major layout of the padded rows.
pub open spec fn spec_flat_rows(rows: Seq<Seq<u32>>, width: int) -> Seq<i64>
    decreases rows.len(),
{
    if rows.len() == 0 {
        Seq::empty()
    } else {
        spec_flat_rows(rows.drop_last(), width) + spec_padded_row(rows.last(), width)
    }
}

/// The flat row-major attention mask of rows with the given lengths.
pub open spec fn spec_flat_attention(rows: Seq<Seq<u32>>, width: int) -> Seq<i64>
    decreases rows.len(),
{
    if rows.len() == 0 {
        Seq::empty()
    } else {
        spec_flat_attention(rows.drop_last(), width) + spec_attention_row(
            rows.last().len() as int, width)
    }
}

/// The length of the longest row of a batch; 0 for an empty batch.
pub open spec fn spec_max_row_len(rows: Seq<Seq<u32>>) -> int
    decreases rows.len(),
{
    if rows.len() == 0 {
        0
    } else {
        let rest = spec_max_row_len(rows.drop_last());
        if rows.last().len() > rest {
            rows.last().len() as int
        } else {
            rest
        }
    }
}

/// A flat buffer holds exactly `rows * width` entries.
pub proof fn lemma_flat_rows_len(rows: Seq<Seq<u32>>, width: int)
    requires
        width >= 0,
    ensures
        spec_flat_rows(rows, width).len() == rows.len() * width,
        spec_flat_attention(rows, width).len() == rows.len() * width,
    decreases rows.len(),
{
    if rows.len() == 0 {
        assert(rows.len() * width == 0) by (nonlinear_arith)
            requires rows.len() == 0,
        ;
    } else {
        lemma_flat_rows_len(rows.drop_last(), width);
        assert((rows.len() - 1) * width + width == rows.len() * width) by (nonlinear_arith);
    }
}

/// Position `i * width + j` of the flat buffers reads row `i`, column `j`:
/// the row's value (or padding zero), and its attention bit.
pub proof fn lemma_flat_rows_index(rows: Seq<Seq<u32>>, width: int, i: int, j: int)
    requires
        width >= 0,
        0 <= i < rows.len(),
        0 <= j < width,
    ensures
        spec_flat_rows(rows, width)[i * width + j] == (if j < rows[i].len() {
            rows[i][j] as i64
        } else {
            0i64
        }),
        spec_flat_attention(rows, width)[i * width + j] == (if j < rows[i].len() {
            1i64
        } else {
            0i64
        }),
    decreases rows.len(),
{
    lemma_flat_rows_len(rows.drop_last(), width);
    if i == rows.len() - 1 {
        assert(i * width + j - (rows.len() - 1) * width == j);
        assert(rows.last() == rows[i]);
    } else {
        assert(0 <= i * width + j) by (nonlinear_arith)
            requires 0 <= i, 0 <= j, width >= 0,
        ;
        assert((i + 1) * width <= (rows.len() - 1) * width) by (nonlinear_arith)
            requires i + 1 <= rows.len() - 1, width >= 0,
        ;
        assert(i * width + j < (i + 1) * width) by (nonlinear_arith)
            requires 0 <= j < width,
        ;
        lemma_flat_rows_index(rows.drop_last(), width, i, j);
        assert(rows.drop_last()[i] == rows[i]);
    }
}

/// Flatten a batch of rows into the padded row-major int64 buffer.
pub fn flatten_rows(rows: &Vec<Vec<u32>>, width: usize) -> (r: Vec<i64>)
    ensures
        r@ == spec_flat_rows(rows@.map_values(|v: Vec<u32>| v@), width as int),
{
    let ghost grows = rows@.map_values(|v: Vec<u32>| v@);
    let n = rows.len();
    let mut r: Vec<i64> = Vec::new();
    let mut i: usize = 0;
    while i < n
        invariant
            n == rows@.len(),
            grows == rows@.map_values(|v: Vec<u32>| v@),
            i <= n,
            r@ == spec_flat_rows(grows.take(i as int), width as int),
        decreases n - i,
    {
        let row = &rows[i];
        let row_len = row.len();
        let mut j: usize = 0;
        while j < width
            invariant
                n == rows@.len(),
                grows == rows@.map_values(|v: Vec<u32>| v@),
                i < n,
                row@ == grows[i as int],
                row_len == row@.len(),
                j <= width,
                r@ == spec_flat_rows(grows.take(i as int), width as int) + spec_padded_row(
                    grows[i as int], width as int).take(j as int),
            decreases width - j,
        {
            if j < row_len {
                let v = row[j];
                r.push(v as i64);
            } else {
                r.push(0i64);
            }
            proof {
                let prow = spec_padded_row(grows[i as int], width as int);
                assert(prow.take(j + 1) =~= prow.take(j as int).push(prow[j as int]));
                assert(r@ =~= spec_flat_rows(grows.take(i as int), width as int) + prow.take(
                    j + 1));
            }
            j = j + 1;
        }
        proof {
            let prow = spec_padded_row(grows[i as int], width as int);
            assert(prow.take(width as int) =~= prow);
            assert(grows.take(i + 1).drop_last() =~= grows.take(i as int));
            assert(grows.take(i + 1).last() == grows[i as int]);
            assert(r@ =~= spec_flat_rows(grows.take(i + 1), width as int));
        }
        i = i + 1;
    }
    proof {
        assert(grows.take(n as int) =~= grows);
    }
    r
}

/// Flatten the attention mask of a batch: 1 on each row's real tokens,
/// 0 on its padding.
pub fn flatten_attention(rows: &Vec<Vec<u32>>, width: usize) -> (r: Vec<i64>)
    ensures
        r@ == spec_flat_attention(rows@.map_values(|v: Vec<u32>| v@), width as int),
{
    let ghost grows = rows@.map_values(|v: Vec<u32>| v@);
    let n = rows.len();
    let mut r: Vec<i64> = Vec::new();
    let mut i: usize = 0;
    while i < n
        invariant
            n == rows@.len(),
            grows == rows@.map_values(|v: Vec<u32>| v@),
            i <= n,
            r@ == spec_flat_attention(grows.take(i as int), width as int),
        decreases n - i,
    {
        let row_len = rows[i].len();
        let mut j: usize = 0;
        while j < width
            invariant
                n == rows@.len(),
                grows == rows@.map_values(|v: Vec<u32>| v@),
                i < n,
                row_len == grows[i as int].len(),
                j <= width,
                r@ == spec_flat_attention(grows.take(i as int), width as int)
                    + spec_attention_row(grows[i as int].len() as int, width as int).take(
                    j as int),
            decreases width - j,
        {
            if j < row_len {
                r.push(1i64);
            } else {
                r.push(0i64);
            }
            proof {
                let prow = spec_attention_row(grows[i as int].len() as int, width as int);
                assert(prow.take(j + 1) =~= prow.take(j as int).push(prow[j as int]));
                assert(r@ =~= spec_flat_attention(grows.take(i as int), width as int) + prow.take(
                    j + 1));
            }
            j = j + 1;
        }
        proof {
            let prow = spec_attention_row(grows[i as int].len() as int, width as int);
            assert(prow.take(width as int) =~= prow);
            assert(grows.take(i + 1).drop_last() =~= grows.take(i as int));
            assert(grows.take(i + 1).last() == grows[i as int]);
            assert(r@ =~= spec_flat_attention(grows.take(i + 1), width as int));
        }
        i = i + 1;
    }
    proof {
        assert(grows.take(n as int) =~= grows);
    }
    r
}

/// The length of the longest row of a batch.
pub fn max_row_len(rows: &Vec<Vec<u32>>) -> (r: usize)
    ensures
        r as int == spec_max_row_len(rows@.map_values(|v: Vec<u32>| v@)),
{
    let ghost grows = rows@.map_values(|v: Vec<u32>| v@);
    let n = rows.len();
    let mut r: usize = 0;
    let mut i: usize = 0;
    while i < n
        invariant
            n == rows@.len(),
            grows == rows@.map_values(|v: Vec<u32>| v@),
            i <= n,
            r as int == spec_max_row_len(grows.take(i as int)),
        decreases n - i,
    {
        let row_len = rows[i].len();
        if row_len > r {
            r = row_len;
        }
        proof {
            assert(grows.take(i + 1).drop_last() =~= grows.take(i as int));
            assert(grows.take(i + 1).last() == grows[i as int]);
        }
        i = i + 1;
    }
    proof {
        assert(grows.take(n as int) =~= grows);
    }
    r
}

} // verus!
