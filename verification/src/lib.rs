//! A room-based chat service: named rooms with append-only message logs,
//! cursor-based delivery by polling, presence with expiry, and a flat-file
//! store, all held in one owned state whose every transition is specified.

pub mod chat;
pub mod client;
pub mod common;
pub mod server;
