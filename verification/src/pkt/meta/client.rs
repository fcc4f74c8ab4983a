//! What a client can ask for.

use vstd::prelude::*;
use crate::datamodel;
use crate::pkt::meta::PlayerId;

verus! {

#[derive(Clone, Debug, PartialEq, Eq)]
pub enum Packet {
    Heartbeat,
    JoinServer { penguin_id: PlayerId, login_key: String, language: String },
    GetInventory,
    GetBuddies,
    GetIgnoreList,
    StartMailEngine,
    GetMail,
    GetMyPuffles,
    GetLastRevision,
    GetEPFPoints,
    GetFieldOPStatus,
    GetEPFAgentStatus,
    QueryPlayerAwards { player_id: PlayerId },
    GetWaddlePopulation {  },
    GetPlayer { player: datamodel::PlayerId },
    SetPosition { x: isize, y: isize },
    SendMessage { message: String },
}

/// A client packet as plain values.
pub enum PacketView {
    Heartbeat,
    JoinServer { penguin_id: PlayerId, login_key: Seq<char>, language: Seq<char> },
    GetInventory,
    GetBuddies,
    GetIgnoreList,
    StartMailEngine,
    GetMail,
    GetMyPuffles,
    GetLastRevision,
    GetEPFPoints,
    GetFieldOPStatus,
    GetEPFAgentStatus,
    QueryPlayerAwards { player_id: PlayerId },
    GetWaddlePopulation,
    GetPlayer { player: datamodel::PlayerId },
    SetPosition { x: isize, y: isize },
    SendMessage { message: Seq<char> },
}

impl View for Packet {
    type V = PacketView;

    open spec fn view(&self) -> PacketView {
        match *self {
            Packet::Heartbeat => PacketView::Heartbeat,
            Packet::JoinServer { penguin_id, login_key, language } => PacketView::JoinServer {
                penguin_id,
                login_key: login_key@,
                language: language@,
            },
            Packet::GetInventory => PacketView::GetInventory,
            Packet::GetBuddies => PacketView::GetBuddies,
            Packet::GetIgnoreList => PacketView::GetIgnoreList,
            Packet::StartMailEngine => PacketView::StartMailEngine,
            Packet::GetMail => PacketView::GetMail,
            Packet::GetMyPuffles => PacketView::GetMyPuffles,
            Packet::GetLastRevision => PacketView::GetLastRevision,
            Packet::GetEPFPoints => PacketView::GetEPFPoints,
            Packet::GetFieldOPStatus => PacketView::GetFieldOPStatus,
            Packet::GetEPFAgentStatus => PacketView::GetEPFAgentStatus,
            Packet::QueryPlayerAwards { player_id } => PacketView::QueryPlayerAwards { player_id },
            Packet::GetWaddlePopulation {  } => PacketView::GetWaddlePopulation,
            Packet::GetPlayer { player } => PacketView::GetPlayer { player },
            Packet::SetPosition { x, y } => PacketView::SetPosition { x, y },
            Packet::SendMessage { message } => PacketView::SendMessage { message: message@ },
        }
    }
}

} // verus!
