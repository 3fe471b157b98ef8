//! Parametric-equalizer design: fits a chain of filters to a measured
//! frequency response with a seeded differential-evolution search.
//!
//! All quantities are fixed-point integers. Frequencies lie on a
//! logarithmic scale, in milli-octaves above 1 Hz; levels and gains are in
//! milli-decibels; quality factors are in thousandths.
pub mod arith;
pub mod curve;
pub mod filters;
pub mod loss;
pub mod rng;
pub mod de;
pub mod progress;
pub mod local;
pub mod optim;

pub use curve::CurveData;
pub use optim::{OptimizationParams, OptimizationResult, optimize, run_optimization_internal, validate_params};
pub use progress::{CancellationState, ProgressCallback, ProgressUpdate};
