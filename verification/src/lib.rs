//! Verified core of a terminal multiplexer for coding agents: protocol deltas,
//! process recognition, path links, terminal mode tracking and related rules.

pub mod health;
pub mod protocol;
pub mod text;
pub mod search;
pub mod agents;
pub mod platform;
pub mod detect;
pub mod builtin_agents;
pub mod input;
pub mod pane;
pub mod kiro_session;
pub mod path_links;
pub mod ipc;
pub mod persist;
pub mod integration;
pub mod remote_desktop;
pub mod pty_lifecycle;
pub mod plugin_installations;
