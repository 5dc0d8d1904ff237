//! A grid-based snake game: movement on a wrap-around board, growth on food,
//! self-collision, scoring and keyboard steering, all as verified state
//! transitions over a mathematical model of the game.

mod random;

pub mod game;
pub mod grid;
pub mod laws;
