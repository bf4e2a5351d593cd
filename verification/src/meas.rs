//! Measurements.
pub mod histogram_alp;
pub mod median;
pub mod discrete_gaussian;
