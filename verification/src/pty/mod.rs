//! Shell sessions on pseudo-terminals: the registry of sessions, the plan by which a
//! session is started, and what is forwarded of its output.

pub mod bridge;
pub mod codec;
pub mod commands;
pub mod error;
pub mod manager;
pub mod session;
pub mod shell;
