//! How bodies move through the world.
pub mod player;
