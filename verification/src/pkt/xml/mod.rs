//! The XML messages of the login handshake.

pub mod client;
pub mod server;
