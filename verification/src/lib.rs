//! Verified core of a terminal UI for Docker containers: the log model, the
//! state machine that turns messages into state changes and effects, and the
//! OSC 52 clipboard encoding.
pub mod text;
pub mod osc52;
pub mod docker;
pub mod message;
pub mod state;
pub mod update;
pub mod log_buffer;
pub mod view;
pub mod clipboard;
pub mod laws;
