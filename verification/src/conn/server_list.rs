//! The login server: after the handshake it tells the client which game
//! servers there are.

use vstd::prelude::*;
use crate::pkt::meta;
use crate::pkt::xt::{XTPacket, XTPacketView, XT_DEFAULT_INT_ID};
use crate::pkt::xt::as2;
use crate::pkt::xt::as2::server::wire_form;
use crate::server::system::socket::authgate::{KNOWN_PLAYER, validate, verdict};
use crate::text::texts;

verus! {

/// The login server.
#[derive(Debug, Clone, Copy, PartialEq, Eq)]
pub struct ServerList {}

/// The message that lists the game servers for the one known player.
pub open spec fn listing() -> XTPacketView {
    XTPacketView {
        handler_id: None,
        packet_id: "l"@,
        internal_id: XT_DEFAULT_INT_ID as int,
        data: seq![
            "102"@,
            "fc15ebff4bae96e53d1a55ba559eca3f"@,
            ""@,
            "3100,0|3101,0|3102,0|3103,0"@,
        ],
    }
}

/// What a client is told once it has submitted its credentials: the list of
/// servers where they are good, the error that the name is not known where
/// they are not.
pub open spec fn login_answer(username: Seq<char>, password: Seq<char>) -> XTPacketView {
    if verdict(username, password) is Some {
        listing()
    } else {
        wire_form(
            meta::server::PacketView::Error(meta::server::Error::NameNotFound),
        )
    }
}

impl ServerList {
    pub fn new() -> (out: ServerList) {
        ServerList {  }
    }

    /// What a client is told once it has submitted its credentials.
    pub fn answer(&self, username: &str, password: &str) -> (out: XTPacket)
        ensures
            out@ == login_answer(username@, password@),
    {
        match validate(username, password) {
            Some(_) => {
                let mut data: Vec<String> = Vec::new();
                data.push("102".to_owned());
                data.push("fc15ebff4bae96e53d1a55ba559eca3f".to_owned());
                data.push("".to_owned());
                data.push("3100,0|3101,0|3102,0|3103,0".to_owned());
                assert(texts(data@) =~= listing().data);
                XTPacket {
                    handler_id: None,
                    packet_id: "l".to_owned(),
                    internal_id: XT_DEFAULT_INT_ID,
                    data,
                }
            },
            None => as2::server::Packet(
                meta::server::Packet::Error(meta::server::Error::NameNotFound),
            ).into_xt(),
        }
    }
}

} // verus!
