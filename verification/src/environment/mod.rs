//! The voxel world: chunks and what happens in them.
pub mod chunk;
pub mod fluids;
pub mod mesher;
pub mod raycast;
pub mod save_manager;
pub mod streaming;
pub mod world;
pub mod worldgen;
