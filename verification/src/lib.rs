//! A verified stepping engine for Conway's Game of Life and its
//! generalizations over a sparse, unbounded 2D grid.
//!
//! The library is organized around four ideas:
//! - `components`: coordinates, cell states, the Moore-8 neighborhood and
//!   the birth/survival transition rule;
//! - `world`: the set of tracked cells (one per coordinate) and the
//!   immutable per-generation snapshot of their states;
//! - `engine`: the cadence timer and the generational stepping engine
//!   (gate, snapshot, compute, commit);
//! - `spatial`: a proximity index usable as an alternate neighbor source.

pub mod components;
pub mod engine;
pub mod spatial;
pub mod world;
