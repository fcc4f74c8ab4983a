//! Packets: the XT wire codec and what it carries.

pub mod meta;
pub mod xml;
pub mod xt;
