//! The socket system: between the connections and the event bus.

pub mod as2;
pub mod authgate;
pub mod dist;
