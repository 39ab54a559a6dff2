//! Domain decomposition into per-worker strips.
//!
//! The domain is cut along the y axis.  The global y resolution is a
//! uniform grid of `ysteps` rows; worker `k` of `threads` receives the
//! contiguous block of rows `[strip_lo(k), strip_hi(k))`.  Every worker
//! but the last receives the integer quotient `ysteps / threads` rows;
//! the last also receives the remainder, so that the blocks tile the
//! whole row range with no gap, no overlap and no lost rows.  A strip's
//! y extent is the extent of its rows on the global grid, so the last
//! strip's upper boundary is the domain's upper boundary itself, not a
//! value accumulated by repeated addition.

use vstd::arithmetic::div_mod::{
    lemma_div_pos_is_pos,
    lemma_fundamental_div_mod,
    lemma_mod_bound,
};
use vstd::arithmetic::mul::{lemma_mul_inequality, lemma_mul_is_distributive_add};
use vstd::prelude::*;

verus! {

/// The share of one worker: the full x resolution and a block of rows
/// `[j_lo, j_hi)` of the global y grid.  Row `j` spans the fraction
/// `[j / ysteps_total, (j + 1) / ysteps_total]` of the domain's y extent,
/// and the cell at column `i`, row `j` has its midpoint at the fractions
/// `(2 i + 1) / (2 xsteps)` and `(2 j + 1) / (2 ysteps_total)` of the x
/// and y extents.
#[derive(Clone, Copy, Debug, PartialEq, Eq, Structural)]
pub struct Region {
    pub xsteps: u64,
    pub ysteps_total: u64,
    pub j_lo: u64,
    pub j_hi: u64,
}

impl Region {
    /// The resolution is positive and the row block lies on the grid.
    pub open spec fn wf(self) -> bool {
        &&& self.xsteps >= 1
        &&& self.ysteps_total >= 1
        &&& self.j_lo <= self.j_hi
        &&& self.j_hi <= self.ysteps_total
    }

    /// How many rows this strip holds.
    pub open spec fn rows(self) -> int {
        self.j_hi - self.j_lo
    }

    /// How many grid cells this strip holds.
    pub open spec fn cell_count(self) -> int {
        self.xsteps * self.rows()
    }
}

/// The first row of strip `k`: each of the `threads` strips before the
/// last holds exactly `ysteps / threads` rows.
pub open spec fn strip_lo(k: int, ysteps: int, threads: int) -> int {
    k * (ysteps / threads)
}

/// One past the last row of strip `k`: the last strip ends at the last
/// grid row, taking the remainder of the division with it.
pub open spec fn strip_hi(k: int, ysteps: int, threads: int) -> int {
    if k == threads - 1 {
        ysteps
    } else {
        (k + 1) * (ysteps / threads)
    }
}

/// How many rows strip `k` holds.
pub open spec fn strip_rows(k: int, ysteps: int, threads: int) -> int {
    strip_hi(k, ysteps, threads) - strip_lo(k, ysteps, threads)
}

/// The rows handed to the first `n` strips, counted strip by strip.
pub open spec fn rows_assigned(n: int, ysteps: int, threads: int) -> int
    decreases n,
{
    if n <= 0 {
        0
    } else {
        rows_assigned(n - 1, ysteps, threads) + strip_rows(n - 1, ysteps, threads)
    }
}

/// Splits the grid among `threads` workers.  Produces one region per
/// worker; region `k` keeps the full x resolution and receives the row
/// block `[strip_lo(k), strip_hi(k))`.
pub fn partition(xsteps: u64, ysteps: u64, threads: u64) -> (regions: Vec<Region>)
    requires
        xsteps >= 1,
        ysteps >= 1,
        threads >= 1,
    ensures
        regions@.len() == threads,
        forall|k: int|
            0 <= k < threads ==> (#[trigger] regions@[k]) == (Region {
                xsteps,
                ysteps_total: ysteps,
                j_lo: strip_lo(k, ysteps as int, threads as int) as u64,
                j_hi: strip_hi(k, ysteps as int, threads as int) as u64,
            }),
        forall|k: int| 0 <= k < threads ==> (#[trigger] regions@[k]).wf(),
        forall|k: int|
            0 <= k < threads ==> (#[trigger] regions@[k]).j_lo == strip_lo(
                k,
                ysteps as int,
                threads as int,
            ) && regions@[k].j_hi == strip_hi(k, ysteps as int, threads as int),
{
    let q = ysteps / threads;
    proof {
        lemma_fundamental_div_mod(ysteps as int, threads as int);
        lemma_mod_bound(ysteps as int, threads as int);
        lemma_div_pos_is_pos(ysteps as int, threads as int);
    }
    let mut regions: Vec<Region> = Vec::new();
    let mut k: u64 = 0;
    while k < threads
        invariant
            0 <= k <= threads,
            xsteps >= 1,
            ysteps >= 1,
            threads >= 1,
            q == ysteps as int / threads as int,
            threads * q <= ysteps,
            regions@.len() == k,
            forall|t: int|
                0 <= t < k ==> (#[trigger] regions@[t]) == (Region {
                    xsteps,
                    ysteps_total: ysteps,
                    j_lo: strip_lo(t, ysteps as int, threads as int) as u64,
                    j_hi: strip_hi(t, ysteps as int, threads as int) as u64,
                }),
            forall|t: int| 0 <= t < k ==> (#[trigger] regions@[t]).wf(),
            forall|t: int|
                0 <= t < k ==> (#[trigger] regions@[t]).j_lo == strip_lo(
                    t,
                    ysteps as int,
                    threads as int,
                ) && regions@[t].j_hi == strip_hi(t, ysteps as int, threads as int),
        decreases threads - k,
    {
        proof {
            lemma_mul_inequality(k as int, threads as int, q as int);
            lemma_mul_inequality(k as int + 1, threads as int, q as int);
        }
        let j_lo = k * q;
        let j_hi = if k == threads - 1 {
            ysteps
        } else {
            (k + 1) * q
        };
        proof {
            lemma_mul_inequality(k as int, k as int + 1, q as int);
        }
        regions.push(Region { xsteps, ysteps_total: ysteps, j_lo, j_hi });
        k = k + 1;
    }
    regions
}

/// The strips tile the row range `[0, ysteps)` of the global grid: the
/// first begins at row zero, the last ends exactly at `ysteps`, each
/// strip ends where the next begins, and the per-strip row counts add
/// up to `ysteps` with nothing lost to the integer division.
pub proof fn lemma_strips_tile(ysteps: int, threads: int)
    requires
        ysteps >= 1,
        threads >= 1,
    ensures
        strip_lo(0, ysteps, threads) == 0,
        strip_hi(threads - 1, ysteps, threads) == ysteps,
        forall|k: int|
            0 <= k < threads - 1 ==> #[trigger] strip_hi(k, ysteps, threads) == strip_lo(
                k + 1,
                ysteps,
                threads,
            ),
        forall|k: int| 0 <= k < threads ==> #[trigger] strip_rows(k, ysteps, threads) >= 0,
        rows_assigned(threads, ysteps, threads) == ysteps,
{
    let q = ysteps / threads;
    lemma_fundamental_div_mod(ysteps, threads);
    lemma_mod_bound(ysteps, threads);
    lemma_div_pos_is_pos(ysteps, threads);
    assert forall|k: int| 0 <= k < threads implies #[trigger] strip_rows(k, ysteps, threads)
        >= 0 by {
        lemma_mul_inequality(k, k + 1, q);
        lemma_mul_inequality(k, threads, q);
    }
    lemma_rows_assigned_prefix(threads, ysteps, threads);
}

/// The rows handed to the first `n` strips reach exactly to the end of
/// strip `n - 1`: the strips are contiguous from row zero.
proof fn lemma_rows_assigned_prefix(n: int, ysteps: int, threads: int)
    requires
        1 <= n <= threads,
        ysteps >= 1,
        threads >= 1,
    ensures
        rows_assigned(n, ysteps, threads) == strip_hi(n - 1, ysteps, threads),
    decreases n,
{
    if n == 1 {
        assert(rows_assigned(0, ysteps, threads) == 0);
        assert(strip_lo(0, ysteps, threads) == 0);
    } else {
        lemma_rows_assigned_prefix(n - 1, ysteps, threads);
    }
}

/// The cells handed to the first `n` strips, counted strip by strip:
/// each strip holds the full x resolution crossed with its rows.
pub open spec fn cells_assigned(n: int, xsteps: int, ysteps: int, threads: int) -> int
    decreases n,
{
    if n <= 0 {
        0
    } else {
        cells_assigned(n - 1, xsteps, ysteps, threads) + xsteps * strip_rows(n - 1, ysteps, threads)
    }
}

/// Summed over all workers, the per-strip cell counts give exactly the
/// cell count of the whole grid: the parallel pass evaluates the same
/// number of midpoints a single worker would, none dropped and none
/// counted twice.
pub proof fn lemma_cells_partitioned(xsteps: int, ysteps: int, threads: int)
    requires
        xsteps >= 1,
        ysteps >= 1,
        threads >= 1,
    ensures
        cells_assigned(threads, xsteps, ysteps, threads) == xsteps * ysteps,
{
    lemma_cells_scaled(threads, xsteps, ysteps, threads);
    lemma_strips_tile(ysteps, threads);
}

/// The cells of the first `n` strips are the full x resolution times
/// their rows.
proof fn lemma_cells_scaled(n: int, xsteps: int, ysteps: int, threads: int)
    requires
        0 <= n <= threads,
        xsteps >= 1,
        ysteps >= 1,
        threads >= 1,
    ensures
        cells_assigned(n, xsteps, ysteps, threads) == xsteps * rows_assigned(n, ysteps, threads),
    decreases n,
{
    if n == 0 {
        assert(xsteps * 0 == 0) by (nonlinear_arith);
    } else {
        lemma_cells_scaled(n - 1, xsteps, ysteps, threads);
        lemma_mul_is_distributive_add(
            xsteps,
            rows_assigned(n - 1, ysteps, threads),
            strip_rows(n - 1, ysteps, threads),
        );
    }
}

/// Every row of the global grid belongs to exactly one strip: the work
/// is neither dropped nor double-counted, whatever the worker count, so
/// summing per-strip results visits each grid cell exactly once — the
/// same set of cells a single worker would visit.
pub proof fn lemma_row_covered_once(j: int, ysteps: int, threads: int)
    requires
        ysteps >= 1,
        threads >= 1,
        0 <= j < ysteps,
    ensures
        exists|k: int|
            0 <= k < threads && #[trigger] strip_lo(k, ysteps, threads) <= j < strip_hi(
                k,
                ysteps,
                threads,
            ),
        forall|k1: int, k2: int|
            (0 <= k1 < threads && 0 <= k2 < threads && #[trigger] strip_lo(k1, ysteps, threads)
                <= j < strip_hi(k1, ysteps, threads) && #[trigger] strip_lo(k2, ysteps, threads)
                <= j < strip_hi(k2, ysteps, threads)) ==> k1 == k2,
{
    let q = ysteps / threads;
    lemma_fundamental_div_mod(ysteps, threads);
    lemma_mod_bound(ysteps, threads);
    lemma_div_pos_is_pos(ysteps, threads);
    // Existence: the row's own quotient names its strip, capped at the last.
    if q == 0 {
        assert(strip_lo(threads - 1, ysteps, threads) == (threads - 1) * 0 == 0);
        assert(strip_lo(threads - 1, ysteps, threads) <= j < strip_hi(threads - 1, ysteps, threads));
    } else {
        let k0 = j / q;
        lemma_fundamental_div_mod(j, q);
        lemma_mod_bound(j, q);
        lemma_div_pos_is_pos(j, q);
        if k0 >= threads - 1 {
            lemma_mul_inequality(threads - 1, k0, q);
            assert(strip_lo(threads - 1, ysteps, threads) <= j < strip_hi(
                threads - 1,
                ysteps,
                threads,
            ));
        } else {
            assert(strip_lo(k0, ysteps, threads) == k0 * q == q * k0);
            assert((k0 + 1) * q == k0 * q + q) by (nonlinear_arith);
            assert(strip_lo(k0, ysteps, threads) <= j < strip_hi(k0, ysteps, threads));
        }
    }
    // Uniqueness: a strip ends no later than any later strip begins.
    assert forall|k1: int, k2: int|
        (0 <= k1 < threads && 0 <= k2 < threads && #[trigger] strip_lo(k1, ysteps, threads) <= j
            < strip_hi(k1, ysteps, threads) && #[trigger] strip_lo(k2, ysteps, threads) <= j
            < strip_hi(k2, ysteps, threads)) implies k1 == k2 by {
        if k1 < k2 {
            lemma_mul_inequality(k1 + 1, k2, q);
            lemma_mul_inequality(k2, threads, q);
        }
        if k2 < k1 {
            lemma_mul_inequality(k2 + 1, k1, q);
            lemma_mul_inequality(k1, threads, q);
        }
    }
}

} // verus!
