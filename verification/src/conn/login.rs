//! The login conversation, one message at a time.

use vstd::prelude::*;
use crate::pkt;
use crate::text::push_char;

verus! {

/// Answers the messages of a login.
#[derive(Debug, Clone, Copy, PartialEq, Eq)]
pub struct LoginHandler {}

/// What follows a message of the login.
#[derive(Debug, Clone, PartialEq, Eq)]
pub enum LoginResp {
    /// The client has submitted its credentials: the handshake is over.
    HandShook,
    /// Send this to the client and go on.
    Packet(pkt::xml::server::Packet),
}

/// A `LoginResp` as plain values.
pub enum LoginRespView {
    HandShook,
    Packet(pkt::xml::server::PacketView),
}

impl View for LoginResp {
    type V = LoginRespView;

    open spec fn view(&self) -> LoginRespView {
        match *self {
            LoginResp::HandShook => LoginRespView::HandShook,
            LoginResp::Packet(p) => LoginRespView::Packet(p@),
        }
    }
}

/// The key that every client is given.
pub open spec fn shared_key() -> Seq<char> {
    seq!['h', 'o', 'u', 'd', 'i', 'n', 'i']
}

/// What follows a message of the login: a version check is accepted, a
/// request for the key is granted, and credentials end the handshake.
pub open spec fn response(packet: pkt::xml::client::PacketView) -> LoginRespView {
    match packet {
        pkt::xml::client::PacketView::VersionCheck { expected } => LoginRespView::Packet(
            pkt::xml::server::PacketView::ApiOK,
        ),
        pkt::xml::client::PacketView::RandomKey => LoginRespView::Packet(
            pkt::xml::server::PacketView::RandomKey(shared_key()),
        ),
        pkt::xml::client::PacketView::Login { username, password } => LoginRespView::HandShook,
    }
}

/// The key that every client is given.
pub fn key() -> (out: String)
    ensures
        out@ == shared_key(),
{
    let mut key = String::new();
    push_char(&mut key, 'h');
    push_char(&mut key, 'o');
    push_char(&mut key, 'u');
    push_char(&mut key, 'd');
    push_char(&mut key, 'i');
    push_char(&mut key, 'n');
    push_char(&mut key, 'i');
    assert(key@ =~= shared_key());
    key
}

impl LoginHandler {
    pub fn new() -> (out: LoginHandler) {
        LoginHandler {  }
    }

    /// What follows a message of the login.
    pub fn handle(&mut self, packet: &pkt::xml::client::Packet) -> (out: LoginResp)
        ensures
            out@ == response(packet@),
    {
        match packet {
            pkt::xml::client::Packet::VersionCheck { expected: _ } => LoginResp::Packet(
                pkt::xml::server::Packet::ApiOK,
            ),
            pkt::xml::client::Packet::RandomKey => LoginResp::Packet(
                pkt::xml::server::Packet::RandomKey(key()),
            ),
            pkt::xml::client::Packet::Login { username: _, password: _ } => LoginResp::HandShook,
        }
    }
}

} // verus!
