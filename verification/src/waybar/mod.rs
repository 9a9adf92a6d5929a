//! The status-bar module: one request, one line.

pub mod bar;
pub mod bar_laws;
pub mod config;
