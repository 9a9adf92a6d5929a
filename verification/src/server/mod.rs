//! The server: what it holds of the airspace, when it polls, and what it answers.

pub mod domain;
pub mod tracker;
pub mod tracker_laws;
pub mod readsb;
pub mod readsb_laws;
pub mod sources;
pub mod poller;
pub mod config;
pub mod api;
pub mod http;
pub mod report;
