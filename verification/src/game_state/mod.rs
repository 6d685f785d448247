//! The state of the game.

pub mod world;
pub mod db;
pub mod game;
pub mod turn;
