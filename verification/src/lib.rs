//! The core of a walkable fractal landscape: an unbounded grid of cells, a fixed
//! window of tiles that follows an observer across it, and the rules by which the
//! window moves.
//!
//! Everything here works on integers. World positions are whole world units, the
//! field's values are small indices; whatever needs real numbers is left to the
//! caller, which hands this library the indices it has computed.

pub mod fractal;
pub mod map;
pub mod player;
pub mod shared;
pub mod valley;
