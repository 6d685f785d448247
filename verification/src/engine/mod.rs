//! Spatial containers and the updates staged against them.

pub mod update;
pub mod worldlayer;
pub mod tracking_worldlayer;
