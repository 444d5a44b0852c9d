//! Statistics of a benchmark run.
pub mod histogram;
pub mod latency;
pub mod laws;
pub mod recorder;
pub mod sample;
pub mod session;
pub mod sums;
