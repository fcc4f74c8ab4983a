//! What the server answers during the handshake.

use vstd::prelude::*;
use vstd::string::StringExecFns;

verus! {

#[derive(Debug, Clone, PartialEq, Eq)]
pub enum Packet {
    /// The client's version is accepted.
    ApiOK,
    /// The key that the client is to hash its password with.
    RandomKey(String),
}

/// A handshake answer as plain values.
pub enum PacketView {
    ApiOK,
    RandomKey(Seq<char>),
}

impl View for Packet {
    type V = PacketView;

    open spec fn view(&self) -> PacketView {
        match *self {
            Packet::ApiOK => PacketView::ApiOK,
            Packet::RandomKey(key) => PacketView::RandomKey(key@),
        }
    }
}

/// The document that stands for the answer. The key is written as it is.
pub open spec fn document(packet: PacketView) -> Seq<char> {
    match packet {
        PacketView::ApiOK => "<msg t=\"sys\"><body action=\"apiOK\" r=\"0\" /></msg>"@,
        PacketView::RandomKey(key) => "<msg t=\"sys\"><body action=\"rndK\" r=\"-1\"><k>"@ + key
            + "</k></body></msg>"@,
    }
}

/// Writes the answer as one XML document.
pub fn serialize(packet: Packet) -> (out: String)
    ensures
        out@ == document(packet@),
{
    match packet {
        Packet::ApiOK => String::from_str("<msg t=\"sys\"><body action=\"apiOK\" r=\"0\" /></msg>"),
        Packet::RandomKey(key) => {
            let mut out = String::from_str("<msg t=\"sys\"><body action=\"rndK\" r=\"-1\"><k>");
            out.append(key.as_str());
            out.append("</k></body></msg>");
            out
        },
    }
}

} // verus!
