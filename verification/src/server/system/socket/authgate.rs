//! The auth gate that every new connection passes before it is registered: the
//! handshake, and the verdict on the credentials.

use vstd::prelude::*;
use crate::conn::line::ReadError;
use crate::conn::login::{key, shared_key};
use crate::pkt::meta;
use crate::pkt::meta::PlayerId;
use crate::pkt::xml;
use crate::text::{push_char, same_text};

verus! {

/// The verdict of the auth gate.
#[derive(Debug, Clone, Copy, PartialEq, Eq)]
pub enum AuthResult {
    Unauthenticated,
    Authenticated(PlayerId),
}

/// Why a handshake ended without a verdict.
#[derive(Debug, Clone, Copy, PartialEq, Eq)]
pub enum GateFault {
    /// The peer closed the stream before it submitted credentials.
    ClosedEarly,
    /// The connection failed.
    Transport(ReadError),
}

/// What the auth gate has the connection do next.
#[derive(Debug, Clone, PartialEq, Eq)]
pub enum GateStep {
    /// Read the next message.
    Continue,
    /// Send this answer, then read the next message.
    Reply(xml::server::Packet),
    /// The credentials are good: the connection belongs to this player.
    Accept(PlayerId),
    /// The credentials are bad: send this error, then drop the connection.
    Reject(meta::server::Error),
    /// The handshake failed.
    Abort(GateFault),
}

/// A `GateStep` as plain values.
pub enum GateStepView {
    Continue,
    Reply(xml::server::PacketView),
    Accept(PlayerId),
    Reject(meta::server::Error),
    Abort(GateFault),
}

impl View for GateStep {
    type V = GateStepView;

    open spec fn view(&self) -> GateStepView {
        match *self {
            GateStep::Continue => GateStepView::Continue,
            GateStep::Reply(p) => GateStepView::Reply(p@),
            GateStep::Accept(id) => GateStepView::Accept(id),
            GateStep::Reject(e) => GateStepView::Reject(e),
            GateStep::Abort(f) => GateStepView::Abort(f),
        }
    }
}

/// What one read during the handshake gave.
pub enum GateInputView {
    Message(xml::client::PacketView),
    Closed,
    Failed(ReadError),
}

/// The view of what one read gave.
pub open spec fn input_view(input: Result<Option<xml::client::Packet>, ReadError>) -> GateInputView {
    match input {
        Ok(Some(p)) => GateInputView::Message(p@),
        Ok(None) => GateInputView::Closed,
        Err(e) => GateInputView::Failed(e),
    }
}

/// The one name that is known, until there is a database of them.
pub open spec fn known_name() -> Seq<char> {
    seq!['k', 'i', 'r', 'i', 'l', 'l']
}

/// The player that the known name belongs to.
pub const KNOWN_PLAYER: PlayerId = 102;

/// The player that the credentials belong to, if they are good.
pub open spec fn verdict(username: Seq<char>, password: Seq<char>) -> Option<PlayerId> {
    if username == known_name() {
        Some(KNOWN_PLAYER)
    } else {
        None
    }
}

/// What the auth gate does after one read, while it waits for credentials.
///
/// A version check and a request for the key are answered and the auth gate waits
/// on; so it does after a message that could not be parsed. Credentials
/// settle it. A stream that ends first, or fails, is a failed handshake.
pub open spec fn gate_decision(input: GateInputView) -> GateStepView {
    match input {
        GateInputView::Message(xml::client::PacketView::VersionCheck { expected }) => GateStepView::Reply(
            xml::server::PacketView::ApiOK,
        ),
        GateInputView::Message(xml::client::PacketView::RandomKey) => GateStepView::Reply(
            xml::server::PacketView::RandomKey(shared_key()),
        ),
        GateInputView::Message(
            xml::client::PacketView::Login { username, password },
        ) => match verdict(username, password) {
            Some(id) => GateStepView::Accept(id),
            None => GateStepView::Reject(meta::server::Error::NameNotFound),
        },
        GateInputView::Closed => GateStepView::Abort(GateFault::ClosedEarly),
        GateInputView::Failed(ReadError::ParseError(_)) => GateStepView::Continue,
        GateInputView::Failed(e) => GateStepView::Abort(GateFault::Transport(e)),
    }
}

/// The player that the credentials belong to, if they are good.
pub fn validate(username: &str, password: &str) -> (out: Option<PlayerId>)
    ensures
        out == verdict(username@, password@),
{
    let mut known = String::new();
    push_char(&mut known, 'k');
    push_char(&mut known, 'i');
    push_char(&mut known, 'r');
    push_char(&mut known, 'i');
    push_char(&mut known, 'l');
    push_char(&mut known, 'l');
    assert(known@ =~= known_name());
    if same_text(username, known.as_str()) {
        Some(KNOWN_PLAYER)
    } else {
        None
    }
}

/// What the auth gate does after one read, while it waits for credentials.
pub fn gate_step(input: Result<Option<xml::client::Packet>, ReadError>) -> (out: GateStep)
    ensures
        out@ == gate_decision(input_view(input)),
{
    match input {
        Ok(Some(xml::client::Packet::VersionCheck { expected: _ })) => GateStep::Reply(
            xml::server::Packet::ApiOK,
        ),
        Ok(Some(xml::client::Packet::RandomKey)) => GateStep::Reply(
            xml::server::Packet::RandomKey(key()),
        ),
        Ok(Some(xml::client::Packet::Login { username, password })) => {
            match validate(username.as_str(), password.as_str()) {
                Some(id) => GateStep::Accept(id),
                None => GateStep::Reject(meta::server::Error::NameNotFound),
            }
        },
        Ok(None) => GateStep::Abort(GateFault::ClosedEarly),
        Err(ReadError::ParseError(_)) => GateStep::Continue,
        Err(e) => GateStep::Abort(GateFault::Transport(e)),
    }
}

/// The verdict that a settled gate hands to the registry. A gate that is
/// not settled yet has none.
pub fn settled(step: &GateStep) -> (out: Option<AuthResult>)
    ensures
        out == match step@ {
            GateStepView::Accept(id) => Some(AuthResult::Authenticated(id)),
            GateStepView::Reject(_) => Some(AuthResult::Unauthenticated),
            _ => None,
        },
{
    match step {
        GateStep::Accept(id) => Some(AuthResult::Authenticated(*id)),
        GateStep::Reject(_) => Some(AuthResult::Unauthenticated),
        _ => None,
    }
}

/// Whether a step ends the handshake.
pub open spec fn settles(step: GateStepView) -> bool {
    step is Accept || step is Reject || step is Abort
}

/// How a handshake ends, given what the reads give in turn: with the first
/// step that settles it. `None`: the reads given do not settle it yet.
pub open spec fn gate_outcome(inputs: Seq<GateInputView>) -> Option<GateStepView>
    decreases inputs.len(),
{
    if inputs.len() == 0 {
        None
    } else if settles(gate_decision(inputs[0])) {
        Some(gate_decision(inputs[0]))
    } else {
        gate_outcome(inputs.drop_first())
    }
}

/// Whether a read leaves the handshake open: a version check, a request for
/// the key, or a frame that could not be parsed.
pub open spec fn keeps_waiting(input: GateInputView) -> bool {
    match input {
        GateInputView::Message(xml::client::PacketView::VersionCheck { expected }) => true,
        GateInputView::Message(xml::client::PacketView::RandomKey) => true,
        GateInputView::Failed(ReadError::ParseError(_)) => true,
        _ => false,
    }
}

/// The handshake is a single pass. Whatever version checks, requests for the
/// key and malformed frames come first, in any order and number, the first
/// credentials that are submitted settle the handshake, and they alone: the
/// player is accepted where they are good, and rejected with the error that
/// the name is not known where they are not.
pub proof fn lemma_gate_single_pass(
    before: Seq<GateInputView>,
    username: Seq<char>,
    password: Seq<char>,
    rest: Seq<GateInputView>,
)
    requires
        forall|i: int| 0 <= i < before.len() ==> keeps_waiting(#[trigger] before[i]),
    ensures
        gate_outcome(before) is None,
        gate_outcome(
            before + seq![
                GateInputView::Message(xml::client::PacketView::Login { username, password }),
            ] + rest,
        ) == Some(
            match verdict(username, password) {
                Some(id) => GateStepView::Accept(id),
                None => GateStepView::Reject(meta::server::Error::NameNotFound),
            },
        ),
    decreases before.len(),
{
    let login = GateInputView::Message(xml::client::PacketView::Login { username, password });
    let all = before + seq![login] + rest;
    if before.len() == 0 {
        assert(all[0] == login);
    } else {
        assert(keeps_waiting(before[0]));
        assert(all[0] == before[0]);
        let tail = before.drop_first();
        assert forall|i: int| 0 <= i < tail.len() implies keeps_waiting(#[trigger] tail[i]) by {
            assert(tail[i] == before[i + 1]);
        }
        lemma_gate_single_pass(tail, username, password, rest);
        assert(all.drop_first() =~= tail + seq![login] + rest);
    }
}

} // verus!
