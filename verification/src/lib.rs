//! Gold-code generation and brute-force acquisition.
//!
//! A ranging code is produced by two ten-cell linear feedback shift registers
//! whose outputs are combined through a per-satellite pair of taps. The decoder
//! correlates such a code against a circular sample buffer at every phase and
//! classifies each score as a resolved bit or as undetermined.

pub mod params;
pub mod cells;
pub mod model;
pub mod generator;
pub mod correlation;
pub mod decoder;
pub mod acquisition;
pub mod distinct;
