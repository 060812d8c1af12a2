//! A verified model of a small environment-variable manager: named
//! environments of key/value pairs, the commands that edit them, and the
//! state machine of the interactive session that drives those commands.

pub mod commands;
pub mod config;
pub mod error;
pub mod string_map;
pub mod text;
pub mod tui;
