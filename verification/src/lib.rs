//! Exact-arithmetic statistics for planar samples: the mean polar angle of a
//! point cloud and the Kolmogorov-Smirnov distance of one coordinate stream
//! from the uniform distribution on the unit interval.
//!
//! Every quantity is an integer in a unit of the caller's choosing, and every
//! statistic is returned as an exact ratio, so the contracts below are stated
//! over mathematical integers and hold without rounding.

pub mod analysis;
pub mod angle;
pub mod config;
pub mod error;
pub mod ks;
pub mod normalized;
pub mod sampler;
pub mod sort;
