//! Multi-session terminal multiplexer for SSH hosts: a tab-addressable
//! registry of PTY-backed sessions, each with a VT100-interpreted screen,
//! a bounded searchable scrollback, a connection-state machine with bounded
//! reconnection, and activity signalling for a tab bar.

pub mod cli;
pub mod config;
pub mod form;
pub mod host;
pub mod layout;
pub mod parser_error;
pub mod searchable;
pub mod session;
pub mod strutil;
pub mod tabs;
pub mod terminal;
