use midpoint_quad::params::{ConfigError, GridParams};

#[test]
fn valid_config_accepted() {
    let p = GridParams::new(10, 10, 5, 2).unwrap();
    assert_eq!(p.xsteps, 10);
    assert_eq!(p.ysteps, 10);
    assert_eq!(p.max_iters, 5);
    assert_eq!(p.thread_num, 2);
}

#[test]
fn invalid_thread_count_rejected() {
    assert_eq!(GridParams::new(10, 10, 5, 0), Err(ConfigError::InvalidThreads));
    assert_eq!(GridParams::new(10, 10, 5, -3), Err(ConfigError::InvalidThreads));
}

#[test]
fn invalid_steps_rejected() {
    assert_eq!(GridParams::new(0, 10, 5, 2), Err(ConfigError::InvalidSteps));
    assert_eq!(GridParams::new(10, -1, 5, 2), Err(ConfigError::InvalidSteps));
}

#[test]
fn invalid_iters_rejected() {
    assert_eq!(GridParams::new(10, 10, 0, 2), Err(ConfigError::InvalidIters));
    assert_eq!(GridParams::new(10, 10, -7, 2), Err(ConfigError::InvalidIters));
}

#[test]
fn thread_check_comes_first() {
    assert_eq!(GridParams::new(0, 0, 0, 0), Err(ConfigError::InvalidThreads));
}
