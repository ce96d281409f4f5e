//! The texture atlas.
pub mod atlas;
pub mod builder;
pub mod picture;
