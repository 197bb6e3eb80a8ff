//! A 2048 player: a packed board with table-driven moves, row/column evaluators with a
//! precomputed variant, and an expectiminimax search over moves and tile spawns.

pub mod utils;
pub mod error;
pub mod board;
pub mod evaluators;
pub mod solver;
pub mod strategy;
pub mod game;
pub mod display;
