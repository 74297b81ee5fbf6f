//! The server: its state as mathematics, the state itself with the calls
//! that change it, the file store, and what holds of every run.

pub mod model;
pub mod names;
pub mod text;
pub mod slib;
pub mod store;
pub mod laws;
