//! Elementary one-dimensional cellular automata (the 256 Wolfram rules) on a
//! toroidal board of fixed width and height.

pub mod cell;
pub mod rule;
pub mod grid;
pub mod laws;
pub mod render;
pub mod session;
