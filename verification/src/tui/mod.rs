//! The radar in a terminal: its state, its keys, and what it shows.

pub mod fit;
pub mod style;
pub mod app;
pub mod event;
pub mod render;
pub mod render_laws;
pub mod config;
pub mod layout;
