//! The participant's side: what to ask the server, and what to make of its
//! replies.

pub mod clib;
