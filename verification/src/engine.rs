//! The convergence loop, as a state machine.
//!
//! One refinement iteration evaluates the whole grid at the current
//! resolution; the caller then compares the absolute and relative error
//! of the new estimate against its thresholds and reports the two verdicts
//! here.  On convergence the resolution is left as it was; otherwise both
//! step counts double and the pass either continues or, when the iteration
//! budget is spent, ends in the `Exhausted` phase.  A budget-exhausted run
//! still carries its last estimate: exhaustion is not an error.

use vstd::prelude::*;

verus! {

/// Where a convergence run stands.
#[derive(Clone, Copy, Debug, PartialEq, Eq, Structural)]
pub enum Phase {
    /// More iterations may run.
    Running,
    /// Both error thresholds were met; the run is over.
    Converged,
    /// The iteration budget was spent without convergence; the run is
    /// over and the last estimate stands as the best effort.
    Exhausted,
}

/// The cross-iteration state of one convergence run: the current grid
/// resolution, how many iterations have finished, the budget, and the
/// phase.
#[derive(Clone, Copy, Debug, PartialEq, Eq, Structural)]
pub struct ConvState {
    pub xsteps: u64,
    pub ysteps: u64,
    pub iters_done: u64,
    pub max_iters: u64,
    pub phase: Phase,
}

impl ConvState {
    /// The count of finished iterations never passes the budget, a
    /// running state still has budget left, and an exhausted one has
    /// none.
    pub open spec fn budget_ok(self) -> bool {
        &&& self.iters_done <= self.max_iters
        &&& (self.phase is Running ==> self.iters_done < self.max_iters)
        &&& (self.phase is Exhausted ==> self.iters_done == self.max_iters)
    }

    /// Resolution and budget are positive and the iteration count
    /// respects the budget.
    pub open spec fn wf(self) -> bool {
        &&& self.xsteps >= 1
        &&& self.ysteps >= 1
        &&& self.max_iters >= 1
        &&& self.budget_ok()
    }
}

/// What one finished iteration does to the state.  `abs_below` and
/// `rel_below` say whether the new estimate's absolute and relative error
/// fell strictly below their thresholds.  Convergence needs both; any
/// other outcome doubles the resolution, and spends the budget's last
/// iteration if this was it.
pub open spec fn step_spec(s: ConvState, abs_below: bool, rel_below: bool) -> ConvState {
    if abs_below && rel_below {
        ConvState { iters_done: (s.iters_done + 1) as u64, phase: Phase::Converged, ..s }
    } else {
        ConvState {
            xsteps: (2 * s.xsteps) as u64,
            ysteps: (2 * s.ysteps) as u64,
            iters_done: (s.iters_done + 1) as u64,
            max_iters: s.max_iters,
            phase: if s.iters_done + 1 == s.max_iters {
                Phase::Exhausted
            } else {
                Phase::Running
            },
        }
    }
}

impl ConvState {
    /// The state at the start of a run: nothing done yet, initial
    /// resolution in place.
    pub fn start(xsteps: u64, ysteps: u64, max_iters: u64) -> (s: ConvState)
        requires
            xsteps >= 1,
            ysteps >= 1,
            max_iters >= 1,
        ensures
            s == (ConvState { xsteps, ysteps, iters_done: 0, max_iters, phase: Phase::Running }),
            s.wf(),
    {
        ConvState { xsteps, ysteps, iters_done: 0, max_iters, phase: Phase::Running }
    }

    /// Records the outcome of one finished iteration.  The two flags are
    /// the caller's threshold verdicts on the fresh estimate.  The bounds
    /// on the step counts keep the doubling inside `u64`.
    pub fn on_pass(&mut self, abs_below: bool, rel_below: bool)
        requires
            old(self).wf(),
            old(self).phase is Running,
            old(self).xsteps <= u64::MAX / 2,
            old(self).ysteps <= u64::MAX / 2,
        ensures
            *final(self) == step_spec(*old(self), abs_below, rel_below),
            final(self).wf(),
            final(self).iters_done == old(self).iters_done + 1,
            final(self).max_iters == old(self).max_iters,
            (final(self).phase is Converged) <==> (abs_below && rel_below),
            (final(self).phase is Exhausted) <==> (!(abs_below && rel_below) && old(self).iters_done
                + 1 == old(self).max_iters),
            (abs_below && rel_below) ==> final(self).xsteps == old(self).xsteps
                && final(self).ysteps == old(self).ysteps,
            !(abs_below && rel_below) ==> final(self).xsteps == 2 * old(self).xsteps
                && final(self).ysteps == 2 * old(self).ysteps,
    {
        self.iters_done = self.iters_done + 1;
        if abs_below && rel_below {
            self.phase = Phase::Converged;
        } else {
            self.xsteps = 2 * self.xsteps;
            self.ysteps = 2 * self.ysteps;
            if self.iters_done == self.max_iters {
                self.phase = Phase::Exhausted;
            }
        }
    }
}

/// A budget of one iteration that misses a threshold ends the run at once
/// in the `Exhausted` phase, after exactly one iteration; the run is over
/// but not failed, and its single estimate is the result.
pub proof fn lemma_single_budget_exhausts(s: ConvState, abs_below: bool, rel_below: bool)
    requires
        s.wf(),
        s.phase is Running,
        s.max_iters == 1,
        !(abs_below && rel_below),
    ensures
        step_spec(s, abs_below, rel_below).phase is Exhausted,
        step_spec(s, abs_below, rel_below).iters_done == 1,
{
}

/// The state after a whole run that applies the given threshold verdicts
/// in order, one pair per finished iteration, stopping at the first
/// terminal phase.
pub open spec fn run_spec(s: ConvState, verdicts: Seq<(bool, bool)>) -> ConvState
    decreases verdicts.len(),
{
    if verdicts.len() == 0 || !(s.phase is Running) {
        s
    } else {
        run_spec(step_spec(s, verdicts[0].0, verdicts[0].1), verdicts.skip(1))
    }
}

/// A run never outlives its budget: however the threshold verdicts fall,
/// the count of finished iterations stays within `max_iters`, and once as
/// many verdicts have been applied as the budget allows, the run stands
/// in a terminal phase — converged, or exhausted with its last estimate
/// as the best effort.
pub proof fn lemma_run_within_budget(s: ConvState, verdicts: Seq<(bool, bool)>)
    requires
        s.budget_ok(),
    ensures
        run_spec(s, verdicts).budget_ok(),
        run_spec(s, verdicts).max_iters == s.max_iters,
        run_spec(s, verdicts).iters_done <= s.max_iters,
        verdicts.len() >= s.max_iters - s.iters_done ==> !(run_spec(s, verdicts).phase is Running),
    decreases verdicts.len(),
{
    if verdicts.len() > 0 && s.phase is Running {
        lemma_run_within_budget(step_spec(s, verdicts[0].0, verdicts[0].1), verdicts.skip(1));
    }
}

} // verus!
