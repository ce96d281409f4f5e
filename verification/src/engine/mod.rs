//! What drives the screen.
pub mod camera;
pub mod highlight;
pub mod render_state;
