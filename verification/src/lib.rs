//! Rule engine of a grid-based snake game.
//!
//! The crate owns the simulation state (board, snake, food, tick clock) and
//! advances it in discrete steps. Every transition carries a contract over a
//! mathematical model of the state, and the contracts are proved.

pub mod board;
pub mod clock;
pub mod components;
pub mod food;
pub mod game;
pub mod snake;
