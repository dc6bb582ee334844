//! The rules of a grid-based snake game: the board, the snake's body, the
//! food, and the per-tick transition that moves the snake, resolves
//! collisions and decides when the game is over.
pub mod geometry;
mod random;
pub mod game;
pub mod text;

pub use geometry::{Direction, Grid, Point};
pub use game::{Food, Game, GameState, Input, Snake};
