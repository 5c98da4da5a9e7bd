//! Simulation core of a grid-based snake game.
//!
//! The game is played on a square grid whose edges wrap around. A snake is an
//! ordered body of cells with a heading; it advances one cell per step, grows
//! by eating, and the round ends when its head runs into the rest of its body
//! or when no cell is left for new food.

pub mod direction;
pub mod position;
pub mod snake;
pub mod food;
pub mod game;

pub use crate::direction::Direction;
pub use crate::food::{food_from_choice, free_positions, place_food, GridExhausted};
pub use crate::game::{Game, Status};
pub use crate::position::Position;
pub use crate::snake::Snake;
