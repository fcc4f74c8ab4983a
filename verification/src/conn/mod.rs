//! Connections: framing of the byte stream and the login conversation.

pub mod line;
pub mod login;
pub mod server_list;
