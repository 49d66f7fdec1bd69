//! Grid-based cellular automaton: Conway's rules and a two-team variant.

pub mod board;
pub mod cell;
pub mod grid;
pub mod input;
pub mod neighbors;
pub mod patterns;
pub mod rules;
pub mod scheduler;
pub mod simulation;
