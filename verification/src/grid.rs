//! Cell enumeration for one strip.
//!
//! A strip's work is a reduction over a two-dimensional grid of cells:
//! every column of the full x resolution crossed with every row of the
//! strip's block.  `strip_cells` lays those cells out row-major in one
//! flat list, each cell exactly once, so a worker can walk the list and
//! accumulate the integrand's midpoint values in any order it likes.

use vstd::arithmetic::div_mod::lemma_fundamental_div_mod_converse;
use vstd::arithmetic::mul::lemma_mul_inequality;
use vstd::prelude::*;
use crate::partition::Region;

verus! {

/// Enumerates the cells of one strip, row-major by column: entry
/// `t` is the pair `(column, global row)` with `column == t / rows` and
/// `row == j_lo + t % rows`.  Every cell of the strip appears exactly
/// once; `lemma_cell_listed_once` names each cell's unique position.
pub fn strip_cells(r: &Region) -> (cells: Vec<(u64, u64)>)
    requires
        r.wf(),
    ensures
        cells@.len() == r.cell_count(),
        forall|t: int|
            0 <= t < cells@.len() ==> (#[trigger] cells@[t]).0 == t / r.rows() && cells@[t].1
                == r.j_lo + t % r.rows(),
{
    let rows = r.j_hi - r.j_lo;
    let mut cells: Vec<(u64, u64)> = Vec::new();
    let mut i: u64 = 0;
    if rows == 0 {
        proof {
            assert(r.cell_count() == r.xsteps * 0);
            assert(r.xsteps * 0 == 0) by (nonlinear_arith);
        }
        return cells;
    }
    while i < r.xsteps
        invariant
            r.wf(),
            rows == r.rows(),
            rows >= 1,
            0 <= i <= r.xsteps,
            cells@.len() == i * rows,
            forall|t: int|
                0 <= t < cells@.len() ==> (#[trigger] cells@[t]).0 == t / r.rows() && cells@[t].1
                    == r.j_lo + t % r.rows(),
        decreases r.xsteps - i,
    {
        let mut j: u64 = r.j_lo;
        while j < r.j_hi
            invariant
                r.wf(),
                rows == r.rows(),
                rows >= 1,
                0 <= i < r.xsteps,
                r.j_lo <= j <= r.j_hi,
                cells@.len() == i * rows + (j - r.j_lo),
                forall|t: int|
                    0 <= t < cells@.len() ==> (#[trigger] cells@[t]).0 == t / r.rows()
                        && cells@[t].1 == r.j_lo + t % r.rows(),
            decreases r.j_hi - j,
        {
            proof {
                lemma_fundamental_div_mod_converse(
                    i as int * rows as int + (j - r.j_lo),
                    rows as int,
                    i as int,
                    j - r.j_lo,
                );
            }
            cells.push((i, j));
            j = j + 1;
        }
        proof {
            assert((i as int + 1) * rows as int == i as int * rows as int + rows as int)
                by (nonlinear_arith);
        }
        i = i + 1;
    }
    cells
}

/// Cell `(i, j)` of a strip stands at position `i * rows + (j - j_lo)`
/// of the list `strip_cells` builds, inside the list's bounds, and that
/// position decodes back to `(i, j)`: together with the list's length
/// this puts every cell of the strip in the list exactly once.
pub proof fn lemma_cell_listed_once(r: Region, i: int, j: int)
    requires
        r.wf(),
        0 <= i < r.xsteps,
        r.j_lo <= j < r.j_hi,
    ensures
        0 <= i * r.rows() + (j - r.j_lo) < r.cell_count(),
        (i * r.rows() + (j - r.j_lo)) / r.rows() == i,
        r.j_lo + (i * r.rows() + (j - r.j_lo)) % r.rows() == j,
{
    let rows = r.rows();
    lemma_mul_inequality(0, i, rows);
    lemma_mul_inequality(i + 1, r.xsteps as int, rows);
    assert((i + 1) * rows == i * rows + rows) by (nonlinear_arith);
    lemma_fundamental_div_mod_converse(i * rows + (j - r.j_lo), rows, i, j - r.j_lo);
}

} // verus!
