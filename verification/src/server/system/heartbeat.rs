//! The heartbeat: one event on the bus every second.

use vstd::prelude::*;
use crate::server::Event;

verus! {

/// The system that beats.
#[derive(Debug, Clone, Copy, PartialEq, Eq)]
pub struct Heartbeat;

/// The time between two beats, in milliseconds.
pub const PERIOD_MILLIS: u64 = 1000;

impl Heartbeat {
    /// The event that one beat publishes.
    pub fn beat(&self) -> (out: Event)
        ensures
            out == Event::Heartbeat,
    {
        Event::Heartbeat
    }

    /// What the system publishes in answer to an event from the bus: nothing.
    pub fn on_event(&self, event: &Event) -> (out: Vec<Event>)
        ensures
            out@.len() == 0,
    {
        Vec::new()
    }
}

} // verus!
