//! Packets declared one type each, and how they are written as XT messages.

pub mod as2;
