//! The connection registry: which players are connected, and the handle to
//! write to each of them.

use std::collections::HashMap;
use std::collections::hash_map::Entry;
use vstd::prelude::*;
use vstd::std_specs::hash::EntrySpecFns;
use vstd::std_specs::hash::OccupiedEntrySpecFns;
use crate::conn::line::ReadError;
use crate::pkt::meta::PlayerId;
use crate::pkt::xt::{XTPacket, XTPacketView};
use crate::server::system::socket::authgate::AuthResult;

verus! {

broadcast use vstd::std_specs::hash::group_hash_axioms;

/// What a connection reports about its player.
#[derive(Debug, Clone, PartialEq, Eq)]
pub enum Event {
    Packet(XTPacket),
    Connected,
    Disconnected,
}

/// An `Event` as plain values.
pub enum EventView {
    Packet(XTPacketView),
    Connected,
    Disconnected,
}

impl View for Event {
    type V = EventView;

    open spec fn view(&self) -> EventView {
        match *self {
            Event::Packet(xt) => EventView::Packet(xt@),
            Event::Connected => EventView::Connected,
            Event::Disconnected => EventView::Disconnected,
        }
    }
}

/// What happens to connections, as far as the registry is concerned.
pub enum Lifecycle {
    /// A new connection passed the auth gate as this player.
    Authenticated(PlayerId),
    /// A new connection did not pass the auth gate.
    Unauthenticated,
    /// The connection of this player signalled that it is gone.
    Disconnected(PlayerId),
}

/// The players that are registered after one more happening.
pub open spec fn after(ids: Set<PlayerId>, what: Lifecycle) -> Set<PlayerId> {
    match what {
        Lifecycle::Authenticated(id) => ids.insert(id),
        Lifecycle::Unauthenticated => ids,
        Lifecycle::Disconnected(id) => ids.remove(id),
    }
}

/// The players that are registered after all that happened, starting with
/// nobody.
pub open spec fn registered(history: Seq<Lifecycle>) -> Set<PlayerId>
    decreases history.len(),
{
    if history.len() == 0 {
        Set::empty()
    } else {
        after(registered(history.drop_last()), history.last())
    }
}

/// Registry invariant. At every point in time a player is registered if and
/// only if a connection passed the auth gate as that player and no disconnect of
/// that player was signalled since.
pub proof fn lemma_registry_invariant(history: Seq<Lifecycle>, id: PlayerId)
    ensures
        registered(history).contains(id) <==> exists|i: int|
            0 <= i < history.len() && #[trigger] history[i] == Lifecycle::Authenticated(id)
                && forall|j: int|
                i < j < history.len() ==> #[trigger] history[j] != Lifecycle::Disconnected(id),
    decreases history.len(),
{
    let alive = |h: Seq<Lifecycle>|
        exists|i: int|
            0 <= i < h.len() && #[trigger] h[i] == Lifecycle::Authenticated(id) && forall|j: int|
                i < j < h.len() ==> #[trigger] h[j] != Lifecycle::Disconnected(id);
    if history.len() > 0 {
        let init = history.drop_last();
        let n = init.len() as int;
        lemma_registry_invariant(init, id);
        if alive(history) {
            let i = choose|i: int|
                0 <= i < history.len() && #[trigger] history[i] == Lifecycle::Authenticated(id)
                    && forall|j: int|
                    i < j < history.len() ==> #[trigger] history[j] != Lifecycle::Disconnected(id);
            if i < n {
                assert(init[i] == Lifecycle::Authenticated(id));
                assert forall|j: int| i < j < init.len() implies #[trigger] init[j]
                    != Lifecycle::Disconnected(id) by {
                    assert(init[j] == history[j]);
                }
                assert(history[n] != Lifecycle::Disconnected(id));
            }
        }
        if registered(history).contains(id) {
            if history.last() == Lifecycle::Authenticated(id) {
                assert(history[n] == Lifecycle::Authenticated(id));
            } else {
                assert(registered(init).contains(id));
                let i = choose|i: int|
                    0 <= i < init.len() && #[trigger] init[i] == Lifecycle::Authenticated(id)
                        && forall|j: int|
                        i < j < init.len() ==> #[trigger] init[j] != Lifecycle::Disconnected(id);
                assert(history[i] == Lifecycle::Authenticated(id));
                assert forall|j: int| i < j < history.len() implies #[trigger] history[j]
                    != Lifecycle::Disconnected(id) by {
                    if j < n {
                        assert(init[j] == history[j]);
                    }
                }
            }
        }
    }
}

/// What the registry did with a new connection.
#[derive(Debug, Clone, Copy, PartialEq, Eq)]
pub enum Admission {
    /// The connection is registered as this player's: its reading starts.
    Registered(PlayerId),
    /// The connection did not pass the auth gate and is dropped.
    Refused,
    /// This player is connected already: the new connection is dropped and
    /// the fault reported.
    Duplicate(PlayerId),
}

/// Why a packet did not reach a player.
#[derive(Debug, Clone, Copy, PartialEq, Eq)]
pub enum DeliveryError {
    /// No connection is registered for the player.
    IllegalPlayer(PlayerId),
    /// The one attempt to write failed.
    WriteFailed(PlayerId),
}

/// What one read on a registered connection gave.
#[derive(Debug, Clone, PartialEq, Eq)]
pub enum ReadOutcome {
    /// A message arrived.
    Packet(XTPacket),
    /// The peer closed the stream between two frames.
    Closed,
    /// The connection failed, or a frame was no message.
    Fault(ReadError),
    /// The registry was told to stop.
    Cancelled,
}

/// A `ReadOutcome` as plain values.
pub enum ReadOutcomeView {
    Packet(XTPacketView),
    Closed,
    Fault(ReadError),
    Cancelled,
}

impl View for ReadOutcome {
    type V = ReadOutcomeView;

    open spec fn view(&self) -> ReadOutcomeView {
        match *self {
            ReadOutcome::Packet(xt) => ReadOutcomeView::Packet(xt@),
            ReadOutcome::Closed => ReadOutcomeView::Closed,
            ReadOutcome::Fault(e) => ReadOutcomeView::Fault(e),
            ReadOutcome::Cancelled => ReadOutcomeView::Cancelled,
        }
    }
}

/// What a connection's reading does after one read.
#[derive(Debug, Clone, PartialEq, Eq)]
pub enum ReadStep {
    /// Report this and read on.
    Forward(Event),
    /// Report this, take the connection out of the registry and end.
    Leave(Event),
}

/// The players and the handle to write to each of them. `W` is whatever the
/// embedding program writes through.
pub struct Registry<W> {
    connections: HashMap<PlayerId, W>,
}

impl<W> View for Registry<W> {
    type V = Map<PlayerId, W>;

    closed spec fn view(&self) -> Map<PlayerId, W> {
        self.connections@
    }
}

impl<W> Registry<W> {
    /// The players that are registered.
    pub open spec fn ids(&self) -> Set<PlayerId> {
        self@.dom()
    }

    /// A registry without connections.
    pub fn new() -> (out: Registry<W>)
        ensures
            out@ == Map::<PlayerId, W>::empty(),
    {
        Registry { connections: HashMap::with_capacity(64) }
    }

    /// Whether a connection is registered for the player.
    pub fn has(&self, player_id: PlayerId) -> (out: bool)
        ensures
            out == self@.contains_key(player_id),
    {
        self.connections.contains_key(&player_id)
    }

    /// Takes in a connection that has been through the auth gate. It is registered
    /// only with a verdict for a player, and only where that player has no
    /// connection yet; a connection that is there is never replaced.
    pub fn enroll(&mut self, verdict: AuthResult, writer: W) -> (out: Admission)
        ensures
            out == match verdict {
                AuthResult::Unauthenticated => Admission::Refused,
                AuthResult::Authenticated(id) => if old(self)@.contains_key(id) {
                    Admission::Duplicate(id)
                } else {
                    Admission::Registered(id)
                },
            },
            final(self)@ == match out {
                Admission::Registered(id) => old(self)@.insert(id, writer),
                _ => old(self)@,
            },
            final(self).ids() == after(
                old(self).ids(),
                match verdict {
                    AuthResult::Unauthenticated => Lifecycle::Unauthenticated,
                    AuthResult::Authenticated(id) => Lifecycle::Authenticated(id),
                },
            ),
    {
        match verdict {
            AuthResult::Unauthenticated => Admission::Refused,
            AuthResult::Authenticated(id) => {
                if self.connections.contains_key(&id) {
                    assert(self.ids() =~= old(self).ids().insert(id));
                    Admission::Duplicate(id)
                } else {
                    self.connections.insert(id, writer);
                    assert(self.ids() =~= old(self).ids().insert(id));
                    Admission::Registered(id)
                }
            },
        }
    }

    /// Takes the player's connection out of the registry and hands back its
    /// writer, if there was one.
    pub fn release(&mut self, player_id: PlayerId) -> (out: Option<W>)
        ensures
            final(self)@ == old(self)@.remove(player_id),
            final(self).ids() == after(old(self).ids(), Lifecycle::Disconnected(player_id)),
            match out {
                Some(w) => old(self)@.contains_key(player_id) && w == old(self)@[player_id],
                None => !old(self)@.contains_key(player_id),
            },
    {
        let out = self.connections.remove(&player_id);
        assert(self.ids() =~= old(self).ids().remove(player_id));
        out
    }

    /// The writer of the player's connection, to send one packet through.
    /// There is no retry, and a failed write evicts nothing.
    pub fn writer(&mut self, player_id: PlayerId) -> (out: Result<&mut W, DeliveryError>)
        ensures
            match out {
                Ok(w) => old(self)@.contains_key(player_id) && *w == old(self)@[player_id]
                    && final(self)@ == old(self)@.insert(player_id, *final(w)),
                Err(e) => !old(self)@.contains_key(player_id) && e == DeliveryError::IllegalPlayer(
                    player_id,
                ) && final(self)@ == old(self)@,
            },
    {
        match self.connections.entry(player_id) {
            Entry::Occupied(e) => Ok(e.into_mut()),
            Entry::Vacant(_) => Err(DeliveryError::IllegalPlayer(player_id)),
        }
    }
}

/// What one attempt to write a packet to a player comes to.
pub fn delivery(player_id: PlayerId, written: bool) -> (out: Result<(), DeliveryError>)
    ensures
        out == if written {
            Ok::<(), DeliveryError>(())
        } else {
            Err::<(), DeliveryError>(DeliveryError::WriteFailed(player_id))
        },
{
    if written {
        Ok(())
    } else {
        Err(DeliveryError::WriteFailed(player_id))
    }
}

/// A `ReadStep` as plain values.
pub enum ReadStepView {
    Forward(EventView),
    Leave(EventView),
}

impl View for ReadStep {
    type V = ReadStepView;

    open spec fn view(&self) -> ReadStepView {
        match *self {
            ReadStep::Forward(e) => ReadStepView::Forward(e@),
            ReadStep::Leave(e) => ReadStepView::Leave(e@),
        }
    }
}

/// What a connection's reading does after one read: a message is reported
/// and the reading goes on; anything else ends it with one report that the
/// player is disconnected.
pub open spec fn read_decision(outcome: ReadOutcomeView) -> ReadStepView {
    match outcome {
        ReadOutcomeView::Packet(xt) => ReadStepView::Forward(EventView::Packet(xt)),
        _ => ReadStepView::Leave(EventView::Disconnected),
    }
}

/// What a registered connection reports in all, given what its reads give in
/// turn: that it is connected, then each message, then that it is
/// disconnected, after which it reads no more.
pub open spec fn reports(outcomes: Seq<ReadOutcomeView>) -> Seq<EventView> {
    seq![EventView::Connected] + reports_from(outcomes)
}

/// What a connection reports from some read on.
pub open spec fn reports_from(outcomes: Seq<ReadOutcomeView>) -> Seq<EventView>
    decreases outcomes.len(),
{
    if outcomes.len() == 0 {
        seq![]
    } else {
        match read_decision(outcomes[0]) {
            ReadStepView::Forward(e) => seq![e] + reports_from(outcomes.drop_first()),
            ReadStepView::Leave(e) => seq![e],
        }
    }
}

/// The messages as reports, in order.
pub open spec fn as_packets(messages: Seq<XTPacketView>) -> Seq<EventView> {
    Seq::new(messages.len(), |i: int| EventView::Packet(messages[i]))
}

/// The messages as outcomes of reads, in order.
pub open spec fn as_reads(messages: Seq<XTPacketView>) -> Seq<ReadOutcomeView> {
    Seq::new(messages.len(), |i: int| ReadOutcomeView::Packet(messages[i]))
}

/// A connection that reads these messages and then something else reports
/// that it is connected, the messages in the order in which they came, and
/// that it is disconnected: once, and as the last of its reports, whatever
/// ended the reading and whatever later reads would have given.
pub proof fn lemma_reports_in_order(
    messages: Seq<XTPacketView>,
    end: ReadOutcomeView,
    rest: Seq<ReadOutcomeView>,
)
    requires
        !(end is Packet),
    ensures
        reports(as_reads(messages) + seq![end] + rest) == seq![EventView::Connected] + as_packets(
            messages,
        ) + seq![EventView::Disconnected],
{
    lemma_reports_from(messages, end, rest);
}

/// From any read on, the messages are reported in order and then the
/// disconnect.
proof fn lemma_reports_from(
    messages: Seq<XTPacketView>,
    end: ReadOutcomeView,
    rest: Seq<ReadOutcomeView>,
)
    requires
        !(end is Packet),
    ensures
        reports_from(as_reads(messages) + seq![end] + rest) == as_packets(messages) + seq![
            EventView::Disconnected,
        ],
    decreases messages.len(),
{
    let all = as_reads(messages) + seq![end] + rest;
    if messages.len() == 0 {
        assert(all[0] == end);
        assert(reports_from(all) =~= as_packets(messages) + seq![EventView::Disconnected]);
    } else {
        let tail = messages.drop_first();
        lemma_reports_from(tail, end, rest);
        assert(all[0] == ReadOutcomeView::Packet(messages[0]));
        assert(all.drop_first() =~= as_reads(tail) + seq![end] + rest);
        assert(reports_from(all) =~= as_packets(messages) + seq![EventView::Disconnected]);
    }
}

/// What a connection's reading does after one read.
pub fn read_step(outcome: ReadOutcome) -> (out: ReadStep)
    ensures
        out@ == read_decision(outcome@),
{
    match outcome {
        ReadOutcome::Packet(xt) => ReadStep::Forward(Event::Packet(xt)),
        _ => ReadStep::Leave(Event::Disconnected),
    }
}

} // verus!
