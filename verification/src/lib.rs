//! A block-pushing puzzle on a fixed grid: a man walks the stage and pushes
//! blocks onto goals.
//!
//! The stage is read from text, one row per line. Every operation is stated
//! against a mathematical model of the stage, and the rules of the game are
//! proved of that model in [`laws`].

pub mod command;
pub mod counting;
pub mod laws;
pub mod level;
pub mod object;
pub mod rules;
pub mod search;
pub mod stage;
pub mod text;
