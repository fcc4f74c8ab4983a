//! The bridge for clients of the second generation: what comes from a
//! connection becomes an event on the bus, and a packet that the bus sends to
//! a player becomes a message for its connection.

use vstd::prelude::*;
use crate::pkt::meta;
use crate::pkt::meta::PlayerId;
use crate::pkt::xt::{XTPacket, XTPacketView};
use crate::pkt::xt::as2::client::{PacketError, PacketErrorView, read_form};
use crate::pkt::xt::as2::client;
use crate::pkt::xt::as2::server;
use crate::pkt::xt::as2::server::{has_wire_form, wire_form};
use crate::server::{Event, EventView};
use crate::server::system::socket::dist;

verus! {

/// The event that stands on the bus for what a connection reported.
pub open spec fn inbound_event(player_id: PlayerId, event: dist::EventView) -> Result<
    EventView,
    PacketErrorView,
> {
    match event {
        dist::EventView::Connected => Ok(EventView::PlayerConnected(player_id)),
        dist::EventView::Disconnected => Ok(EventView::PlayerDisconnected(player_id)),
        dist::EventView::Packet(xt) => match read_form(xt) {
            Ok(packet) => Ok(EventView::PacketReceived(player_id, packet)),
            Err(e) => Err(e),
        },
    }
}

/// Turns what a connection reported into an event for the bus. A message
/// that is no packet of this dialect is a protocol violation, which the
/// caller ends the session for.
pub fn inbound(player_id: PlayerId, event: dist::Event) -> (out: Result<Event, PacketError>)
    requires
        event matches dist::Event::Packet(xt) ==> xt@.handler_id is Some,
    ensures
        match out {
            Ok(e) => inbound_event(player_id, event@) == Ok::<EventView, PacketErrorView>(e@),
            Err(e) => inbound_event(player_id, event@) == Err::<EventView, PacketErrorView>(e@),
        },
{
    match event {
        dist::Event::Connected => Ok(Event::PlayerConnected(player_id)),
        dist::Event::Disconnected => Ok(Event::PlayerDisconnected(player_id)),
        dist::Event::Packet(xt) => match client::Packet::try_from_xt(xt) {
            Ok(packet) => Ok(Event::PacketReceived(player_id, packet.0)),
            Err(e) => Err(e),
        },
    }
}

/// The message to push to a player for an event on the bus: only a packet
/// that is sent to a player, and that this dialect can write, gives one.
pub open spec fn outbound_message(event: EventView) -> Option<(PlayerId, XTPacketView)> {
    match event {
        EventView::PacketSent(player_id, packet) => if has_wire_form(packet) {
            Some((player_id, wire_form(packet)))
        } else {
            None
        },
        _ => None,
    }
}

/// The message to push to a player for an event on the bus, if the event
/// asks for one.
pub fn outbound(event: Event) -> (out: Option<(PlayerId, XTPacket)>)
    ensures
        match out {
            Some((player_id, xt)) => outbound_message(event@) == Some((player_id, xt@)),
            None => outbound_message(event@) is None,
        },
{
    match event {
        Event::PacketSent(player_id, packet) => {
            let packet = server::Packet(packet);
            if packet.has_wire_form() {
                Some((player_id, packet.into_xt()))
            } else {
                None
            }
        },
        _ => None,
    }
}

} // verus!
