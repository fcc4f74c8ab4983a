//! How the packets of the game are written as XT messages, in the dialect of
//! the second-generation client.

pub mod client;
pub mod server;
