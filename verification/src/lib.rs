//! Parallel adaptive midpoint-rule quadrature: the verified core.
//!
//! The engine splits a rectangular domain into horizontal strips, evaluates
//! a composite midpoint rule over each strip, sums the partial results, and
//! doubles the grid resolution until successive estimates agree within
//! configured error thresholds.  The grid layout, the strip decomposition,
//! and the convergence decisions are verified here; the floating-point
//! evaluation itself is carried out by the caller on the layout this
//! library hands out.

pub mod engine;
pub mod grid;
pub mod params;
pub mod partition;
