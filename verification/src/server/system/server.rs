//! The server system: the one subscriber that changes the session store.

use vstd::prelude::*;
use crate::pkt::meta::PlayerId;
use crate::server::{Error, Event, EventView, event_views};
use crate::server::logic::event_effect;
use crate::server::state;
use crate::server::state::{PlayerView, is_roster};

verus! {

/// The system that keeps the session store.
#[derive(Debug, Clone, Copy, PartialEq, Eq)]
pub struct Server;

impl Server {
    /// Handles one event from the bus under the store's write lock, at the
    /// time `clock` in milliseconds, and returns what is to be published. A
    /// fault leaves the store as it was and is the caller's to report; the
    /// loop goes on.
    pub fn on_event(&self, store: &mut state::Server, event: Event, clock: usize) -> (res: Result<
        Vec<Event>,
        Error,
    >)
        requires
            old(store).wf(),
        ensures
            final(store).wf(),
            match res {
                Ok(events) => exists|roster: Seq<PlayerView>|
                    {
                        &&& event@ matches EventView::PlayerJoinedRoom(_, room) ==> is_roster(
                            old(store)@,
                            room,
                            roster,
                        )
                        &&& #[trigger] event_effect(old(store)@, clock, event@, roster) == Ok::<
                            (Map<PlayerId, PlayerView>, Seq<EventView>),
                            Error,
                        >((final(store)@, event_views(events@)))
                    },
                Err(e) => final(store)@ == old(store)@ && event_effect(
                    old(store)@,
                    clock,
                    event@,
                    Seq::<PlayerView>::empty(),
                ) == Err::<(Map<PlayerId, PlayerView>, Seq<EventView>), Error>(e),
            },
    {
        store.handle_event(event, clock)
    }
}

} // verus!
