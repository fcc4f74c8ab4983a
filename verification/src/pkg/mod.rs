//! The XT codec without allocation: the fields of a message borrowed from
//! the text that was read.

pub mod xt;
