//! What a client sends.

use vstd::prelude::*;
use crate::pkt::xt::{XTPacket, XTPacketView};
use crate::text::{fit_usize, parse_unsigned, parse_usize, same_text, texts};

verus! {

#[derive(Clone, Debug, PartialEq, Eq)]
pub enum Packet {
    PlayerSetPosition(PlayerSetPosition),
}

/// Why a message is none of the packets.
#[derive(Debug, Clone, PartialEq, Eq)]
pub enum PacketError {
    /// Fewer or more arguments than expected.
    BadArgCount,
    /// This argument should have been a whole number.
    BadDatatypeInt(String),
    /// Entirely not recognized.
    Unrecognized { handler_id: String, packet_id: String },
}

/// A `PacketError` as plain values.
pub enum PacketErrorView {
    BadArgCount,
    BadDatatypeInt(Seq<char>),
    Unrecognized { handler_id: Seq<char>, packet_id: Seq<char> },
}

impl View for PacketError {
    type V = PacketErrorView;

    open spec fn view(&self) -> PacketErrorView {
        match *self {
            PacketError::BadArgCount => PacketErrorView::BadArgCount,
            PacketError::BadDatatypeInt(text) => PacketErrorView::BadDatatypeInt(text@),
            PacketError::Unrecognized { handler_id, packet_id } => PacketErrorView::Unrecognized {
                handler_id: handler_id@,
                packet_id: packet_id@,
            },
        }
    }
}

/// The player moves to a place in its room.
#[derive(Clone, Copy, Debug, PartialEq, Eq)]
pub struct PlayerSetPosition {
    pub x: usize,
    pub y: usize,
}

/// The packet that a client's message stands for.
pub open spec fn read_form(x: XTPacketView) -> Result<Packet, PacketErrorView>
    recommends
        x.handler_id is Some,
{
    let h = x.handler_id->0;
    let d = x.data;
    if h == "s"@ && x.packet_id == "u#sp"@ {
        if d.len() != 2 {
            Err(PacketErrorView::BadArgCount)
        } else if fit_usize(parse_unsigned(d[0])) is None {
            Err(PacketErrorView::BadDatatypeInt(d[0]))
        } else if fit_usize(parse_unsigned(d[1])) is None {
            Err(PacketErrorView::BadDatatypeInt(d[1]))
        } else {
            Ok(
                Packet::PlayerSetPosition(
                    PlayerSetPosition {
                        x: fit_usize(parse_unsigned(d[0]))->0,
                        y: fit_usize(parse_unsigned(d[1]))->0,
                    },
                ),
            )
        }
    } else {
        Err(PacketErrorView::Unrecognized { handler_id: h, packet_id: x.packet_id })
    }
}

impl Packet {
    /// Reads a client's message as a packet.
    ///
    /// A message that the server wrote has no handler id and is not taken.
    pub fn try_from_xt(value: &XTPacket) -> (out: Result<Packet, PacketError>)
        requires
            value@.handler_id is Some,
        ensures
            match out {
                Ok(p) => read_form(value@) == Ok::<Packet, PacketErrorView>(p),
                Err(e) => read_form(value@) == Err::<Packet, PacketErrorView>(e@),
            },
    {
        let handler_id = match &value.handler_id {
            Some(h) => h,
            None => vstd::pervasive::unreached(),
        };
        let ghost d = texts(value.data@);
        if same_text(handler_id.as_str(), "s") && same_text(value.packet_id.as_str(), "u#sp") {
            if value.data.len() != 2 {
                return Err(PacketError::BadArgCount);
            }
            assert(d[0] == value.data@[0]@ && d[1] == value.data@[1]@);
            let x = match parse_usize(value.data[0].as_str()) {
                Some(x) => x,
                None => {
                    return Err(PacketError::BadDatatypeInt(value.data[0].clone()));
                },
            };
            let y = match parse_usize(value.data[1].as_str()) {
                Some(y) => y,
                None => {
                    return Err(PacketError::BadDatatypeInt(value.data[1].clone()));
                },
            };
            Ok(Packet::PlayerSetPosition(PlayerSetPosition { x, y }))
        } else {
            Err(
                PacketError::Unrecognized {
                    handler_id: handler_id.clone(),
                    packet_id: value.packet_id.clone(),
                },
            )
        }
    }
}

} // verus!
