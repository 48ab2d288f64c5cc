//! Procedural synthesis of a square world of terrain tiles.
//!
//! The pipeline turns a noise-derived elevation field into a classified tile
//! grid and then scatters garbage piles over it with a ring-decay placement
//! algorithm.  Elevation samples are carried as order-preserving integer keys
//! and probabilities as fixed-point fractions, so every step of the pipeline
//! states and proves an exact contract.

pub mod elevation;
pub mod errors;
pub mod garbage;
pub mod generator;
pub mod ring;
pub mod rng;
pub mod tile;
