//! A multi-connection IRC client engine: protocol codec, per-connection
//! session state machine, connection registry, and the pure parts of the
//! scrollback log and the saved-connection store.

pub mod codec;
pub mod commands;
pub mod config_store;
pub mod connection;
pub mod lifecycle;
pub mod messages;
pub mod session;
pub mod storage;
pub mod text;
