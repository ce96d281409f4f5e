//! Input, menus and the rules of a running game.
pub mod game;
pub mod hud;
pub mod immersive;
pub mod menu;
pub mod touch;
pub mod ui_overlay;
