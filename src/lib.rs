//! Data derivation for benchmark report charts.
//!
//! Every quantity is an integer: durations are picoseconds, iteration
//! counts are plain counts, and curve coordinates are integers in a unit
//! the caller picks. The library decides scales, geometry, outlier series,
//! summary ordering and chart descriptions; drawing is left to a renderer.
pub mod chart;
pub mod distribution;
pub mod estimate;
pub mod geometry;
pub mod measurement;
pub mod order;
pub mod outliers;
pub mod report;
pub mod scale;
pub mod summary;
pub mod text;
