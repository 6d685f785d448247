//! Clone Factory: the rules of a grid game in which recordings of the
//! player's own actions are replayed by clones.

pub mod direction;
pub mod datatypes;
pub mod error;
pub mod engine;
pub mod static_data;
pub mod action;
pub mod buildings;
pub mod inventory;
pub mod recording;
pub mod actor;
pub mod score;
pub mod eventqueue;
pub mod game_state;
pub mod devtools;
pub mod worldgen;
pub mod crafting;
