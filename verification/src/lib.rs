//! Game logic of a terminal shoot-'em-up in the style of Space Invaders.
pub mod outside;
pub mod game;
pub mod laws;
pub mod render;
pub mod input;
pub mod screens;
pub mod text_laws;
