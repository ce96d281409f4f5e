//! Core logic of a small voxel game: blocks and chunks, meshing,
//! terrain, water, saves, collision and the menus around them.
//!
//! Everything here is pure computation on integers, strings and collections.
//! Windows, the GPU, files and floating point live in the program that uses
//! this library.
pub mod engine;
pub mod environment;
pub mod logic;
pub mod physics;
pub mod platform;
pub mod text;
pub mod textures;
