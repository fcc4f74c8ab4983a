//! The packets of the second-generation client, one type each.

pub mod client;
pub mod server;
