use midpoint_quad::engine::{ConvState, Phase};

#[test]
fn converges_when_both_thresholds_met() {
    let mut s = ConvState::start(10, 10, 5);
    assert_eq!(s.phase, Phase::Running);
    s.on_pass(true, true);
    assert_eq!(s.phase, Phase::Converged);
    assert_eq!(s.iters_done, 1);
    assert_eq!((s.xsteps, s.ysteps), (10, 10));
}

#[test]
fn one_threshold_alone_does_not_converge() {
    let mut s = ConvState::start(10, 10, 5);
    s.on_pass(true, false);
    assert_eq!(s.phase, Phase::Running);
    assert_eq!((s.xsteps, s.ysteps), (20, 20));
    s.on_pass(false, true);
    assert_eq!(s.phase, Phase::Running);
    assert_eq!((s.xsteps, s.ysteps), (40, 40));
}

#[test]
fn doubles_until_budget_is_spent() {
    let mut s = ConvState::start(3, 7, 4);
    let mut iterations = 0;
    while s.phase == Phase::Running {
        s.on_pass(false, false);
        iterations += 1;
        assert!(iterations <= 4);
    }
    assert_eq!(s.phase, Phase::Exhausted);
    assert_eq!(iterations, 4);
    assert_eq!(s.iters_done, 4);
    assert_eq!((s.xsteps, s.ysteps), (3 << 4, 7 << 4));
}

#[test]
fn single_iteration_budget_exhausts() {
    let mut s = ConvState::start(10, 10, 1);
    s.on_pass(false, false);
    assert_eq!(s.phase, Phase::Exhausted);
    assert_eq!(s.iters_done, 1);
}

#[test]
fn convergence_on_the_last_iteration_still_counts() {
    let mut s = ConvState::start(10, 10, 2);
    s.on_pass(false, false);
    assert_eq!(s.phase, Phase::Running);
    s.on_pass(true, true);
    assert_eq!(s.phase, Phase::Converged);
    assert_eq!(s.iters_done, 2);
}
