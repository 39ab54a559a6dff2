use midpoint_quad::partition::partition;

#[test]
fn two_strips_split_evenly() {
    let regs = partition(10, 10, 2);
    assert_eq!(regs.len(), 2);
    assert_eq!((regs[0].j_lo, regs[0].j_hi), (0, 5));
    assert_eq!((regs[1].j_lo, regs[1].j_hi), (5, 10));
    for r in &regs {
        assert_eq!(r.xsteps, 10);
        assert_eq!(r.ysteps_total, 10);
    }
}

#[test]
fn remainder_goes_to_last_strip() {
    let regs = partition(4, 10, 3);
    assert_eq!(regs.len(), 3);
    assert_eq!((regs[0].j_lo, regs[0].j_hi), (0, 3));
    assert_eq!((regs[1].j_lo, regs[1].j_hi), (3, 6));
    assert_eq!((regs[2].j_lo, regs[2].j_hi), (6, 10));
    let total: u64 = regs.iter().map(|r| r.j_hi - r.j_lo).sum();
    assert_eq!(total, 10);
}

#[test]
fn single_thread_gets_whole_grid() {
    let regs = partition(8, 7, 1);
    assert_eq!(regs.len(), 1);
    assert_eq!((regs[0].j_lo, regs[0].j_hi), (0, 7));
}

#[test]
fn more_threads_than_rows() {
    let regs = partition(3, 2, 5);
    assert_eq!(regs.len(), 5);
    for k in 0..4 {
        assert_eq!(regs[k].j_lo, regs[k].j_hi);
    }
    assert_eq!((regs[4].j_lo, regs[4].j_hi), (0, 2));
}

#[test]
fn strips_tile_rows_for_many_shapes() {
    for threads in 1..=9u64 {
        for ysteps in 1..=25u64 {
            let regs = partition(5, ysteps, threads);
            assert_eq!(regs.len() as u64, threads);
            assert_eq!(regs[0].j_lo, 0);
            assert_eq!(regs[regs.len() - 1].j_hi, ysteps);
            for w in regs.windows(2) {
                assert_eq!(w[0].j_hi, w[1].j_lo);
            }
            let total: u64 = regs.iter().map(|r| r.j_hi - r.j_lo).sum();
            assert_eq!(total, ysteps);
            for j in 0..ysteps {
                let owners = regs.iter().filter(|r| r.j_lo <= j && j < r.j_hi).count();
                assert_eq!(owners, 1, "row {} of {} held by {} strips", j, ysteps, owners);
            }
        }
    }
}
