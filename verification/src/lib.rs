//! Flight tracking: what a server and its clients decide about the aircraft overhead.

pub mod decimal;
pub mod number;
pub mod span;
pub mod order;
pub mod server;
pub mod text;
pub mod api;
pub mod args;
pub mod client;
pub mod display;
pub mod display_laws;
pub mod waybar;
pub mod tui;
pub mod selection;
pub mod detail;
pub mod web;
pub mod standalone;
