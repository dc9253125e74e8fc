//! A hexagonal-grid board model: cube coordinates with correct six-way
//! adjacency, and a board that owns tiles keyed by a unique string
//! identifier, with at most one tile per cell.

pub mod coord;
pub mod tile;
pub mod board;
