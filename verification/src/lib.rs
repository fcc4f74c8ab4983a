//! A gateway for a text-over-TCP multiplayer protocol: NUL-delimited framing,
//! the tokenized XT wire codec, the packet catalogue, and the decision logic
//! of the connection registry, the handshake gate and the session store.

pub mod conn;
pub mod datamodel;
pub mod pkg;
pub mod text;
pub mod pkt;
pub mod server;
