//! Statistical tolerance-stack analysis engine.
//!
//! A stack-up is an ordered chain of dimensioned features (linear dimensions
//! or hole/pin float fits) whose variations combine into one resultant
//! assembly dimension.  This crate models such a chain, runs a seeded
//! Monte Carlo simulation of it, and reduces the sample population into
//! summary statistics and conformance estimates against specification
//! limits.
//!
//! All dimensions are fixed-point numbers: an `i64` counts micro-units, so
//! one unit is [`model::SCALE`] = 1 000 000.  The caller converts to and
//! from its preferred display representation at the boundary.

pub mod model;
pub mod rng;
pub mod sampler;
pub mod evaluate;
pub mod stats;
pub mod driver;
pub mod laws;
