//! Core of a vertically-stacked terminal multiplexer: pane state, app state,
//! the viewport layout engine, input routing, key encoding, and the pure parts
//! of scrollback and cell rendering. Host-terminal and PTY plumbing live
//! outside this crate and exchange plain values with it.

pub mod app_state;
pub mod config;
pub mod events;
pub mod input;
pub mod keys;
pub mod layout;
pub mod pane;
pub mod render;
pub mod text;
