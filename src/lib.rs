//! An interpreter core for a two-dimensional stack language of the Befunge
//! family: a toroidal program grid, an instruction pointer and one stack.
pub mod xy;
pub mod grid;
pub mod input;
pub mod state;
