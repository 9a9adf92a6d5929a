//! The radar in a browser: its address, its state, and what it shows.

pub mod config;
pub mod app;
pub mod client;
pub mod display;
pub mod panel;
pub mod detail;
pub mod laws;
