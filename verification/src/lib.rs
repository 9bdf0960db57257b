//! Gas-price prediction pipeline: synthetic data generation, a small
//! feed-forward regression network, mini-batch training with an adaptive
//! optimizer, parameter persistence, and point prediction.
//!
//! All numeric values are fixed-point: an `i64` holds a real number scaled
//! by one million (micro-units), so the whole pipeline is exact integer
//! arithmetic.

pub mod fixed;
pub mod rng;
pub mod data;
pub mod model;
pub mod train;
pub mod artifact;
