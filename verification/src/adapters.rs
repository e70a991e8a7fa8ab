//! What stands between the engine and the outside: request checks, and the
//! shaping of what is stored and shown.

pub mod client;
pub mod http;
pub mod persistence;
