//! Procedural terrain generation for a climbing-survival game world.
//!
//! Quantities that live in `[0, 1]` (slope, stability, elevation, aggression)
//! are kept as integers in thousandths, so `1000` stands for `1.0`. Climbing
//! difficulty is kept in thousandths as well.

pub mod random;
pub mod terrain;
pub mod grid;
pub mod elevation;
pub mod classify;
pub mod features;
pub mod passes;
pub mod population;
pub mod spawns;
pub mod level;
pub mod catalog;
pub mod generate;
pub mod laws;
