//! The game server: what crosses the event bus, the session store and the
//! decisions that the systems take.

use vstd::prelude::*;
use crate::pkt::meta;
use crate::server::logic::ServerError;

pub mod logic;
pub mod state;
pub mod system;

verus! {

/// What the coordinator can be told from outside.
#[derive(Debug, Clone, Copy, PartialEq, Eq)]
pub enum ServerCmd {
    Foo,
}

/// Everything that crosses the event bus.
#[derive(Debug, Clone, PartialEq, Eq)]
pub enum Event {
    PlayerConnected(meta::PlayerId),
    PlayerDisconnected(meta::PlayerId),
    PacketSent(meta::PlayerId, meta::server::Packet),
    PacketReceived(meta::PlayerId, meta::client::Packet),
    PlayerTransferRoomRequest(meta::PlayerId, meta::RoomId),
    PlayerJoinedRoom(meta::PlayerId, meta::RoomId),
    Error,
    DisconnectPlayer,
    Heartbeat,
}

/// An `Event` as plain values.
pub enum EventView {
    PlayerConnected(meta::PlayerId),
    PlayerDisconnected(meta::PlayerId),
    PacketSent(meta::PlayerId, meta::server::PacketView),
    PacketReceived(meta::PlayerId, meta::client::PacketView),
    PlayerTransferRoomRequest(meta::PlayerId, meta::RoomId),
    PlayerJoinedRoom(meta::PlayerId, meta::RoomId),
    Error,
    DisconnectPlayer,
    Heartbeat,
}

impl View for Event {
    type V = EventView;

    open spec fn view(&self) -> EventView {
        match *self {
            Event::PlayerConnected(id) => EventView::PlayerConnected(id),
            Event::PlayerDisconnected(id) => EventView::PlayerDisconnected(id),
            Event::PacketSent(id, packet) => EventView::PacketSent(id, packet@),
            Event::PacketReceived(id, packet) => EventView::PacketReceived(id, packet@),
            Event::PlayerTransferRoomRequest(id, room) => EventView::PlayerTransferRoomRequest(
                id,
                room,
            ),
            Event::PlayerJoinedRoom(id, room) => EventView::PlayerJoinedRoom(id, room),
            Event::Error => EventView::Error,
            Event::DisconnectPlayer => EventView::DisconnectPlayer,
            Event::Heartbeat => EventView::Heartbeat,
        }
    }
}

/// The views of a sequence of events.
pub open spec fn event_views(v: Seq<Event>) -> Seq<EventView> {
    Seq::new(v.len(), |i: int| v[i]@)
}

/// A fault while an event was handled, with the player it concerns.
#[derive(Debug, Clone, Copy, PartialEq, Eq)]
pub enum Error {
    PlayerError(meta::PlayerId, ServerError),
}

} // verus!
