//! A pomodoro timer's state machine and log formats.

pub mod app;
pub mod display;
pub mod laws;
pub mod stats;
pub mod store;
pub mod text;
