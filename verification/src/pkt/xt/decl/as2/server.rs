//! What the server sends.

use vstd::prelude::*;
use crate::pkt::xt::{XTPacket, XTPacketView, XT_DEFAULT_INT_ID};
use crate::text::{decimal, decimal_string, texts};

verus! {

pub type PlayerId = usize;

#[derive(Clone, Debug, PartialEq, Eq)]
pub enum Packet {
    PlayerSetPosition(PlayerSetPosition),
}

/// A player has moved to a place in its room.
#[derive(Clone, Copy, Debug, PartialEq, Eq)]
pub struct PlayerSetPosition {
    pub player_id: usize,
    pub x: usize,
    pub y: usize,
}

/// The message that stands for the packet.
pub open spec fn wire_form(p: Packet) -> XTPacketView {
    match p {
        Packet::PlayerSetPosition(PlayerSetPosition { player_id, x, y }) => XTPacketView {
            handler_id: None,
            packet_id: "123"@,
            internal_id: XT_DEFAULT_INT_ID as int,
            data: seq![decimal(player_id as nat), decimal(x as nat), decimal(y as nat)],
        },
    }
}

impl Packet {
    /// The message that stands for the packet.
    pub fn to_xt(&self) -> (out: XTPacket)
        ensures
            out@ == wire_form(*self),
    {
        match self {
            Packet::PlayerSetPosition(PlayerSetPosition { player_id, x, y }) => {
                let mut data: Vec<String> = Vec::new();
                data.push(decimal_string(*player_id as u64));
                data.push(decimal_string(*x as u64));
                data.push(decimal_string(*y as u64));
                assert(texts(data@) =~= wire_form(*self).data);
                XTPacket {
                    handler_id: None,
                    packet_id: "123".to_owned(),
                    internal_id: XT_DEFAULT_INT_ID,
                    data,
                }
            },
        }
    }
}

} // verus!
