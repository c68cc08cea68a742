//! A verified engine for Conway's Game of Life on a finite, edge-clamped grid.
//!
//! The engine is split into three layers:
//! - [`grid`] owns the cell states and answers neighbour queries;
//! - [`stepper`] computes the next generation from a grid;
//! - [`driver`] gates generation advances by a fixed time interval.
//!
//! Rendering, random seeding and frame scheduling are left to the embedding
//! program; the engine works on plain values only.

pub mod driver;
pub mod grid;
pub mod stepper;
