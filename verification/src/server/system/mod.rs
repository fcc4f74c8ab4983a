//! The systems: independent parts that publish to the event bus and
//! subscribe to it. What they decide stands here; the channels, the tasks and
//! the sockets are the embedding program's.

use tokio::sync::broadcast::{Sender, WeakSender};
use vstd::prelude::*;
use crate::server::{Event, EventView};

pub mod heartbeat;
pub mod server;
pub mod socket;

verus! {

/// How many events the bus holds for a subscriber that is behind.
pub const BUS_CAPACITY: usize = 16;

/// What one receive on a subscription gave.
#[derive(Debug, Clone, PartialEq, Eq)]
pub enum Received {
    /// The next event.
    Event(Event),
    /// The bus is gone: the one owner of it let go.
    Closed,
    /// The subscriber fell behind and this many events were dropped for it.
    Lagged(u64),
}

/// A `Received` as plain values.
pub enum ReceivedView {
    Event(EventView),
    Closed,
    Lagged(u64),
}

impl View for Received {
    type V = ReceivedView;

    open spec fn view(&self) -> ReceivedView {
        match *self {
            Received::Event(e) => ReceivedView::Event(e@),
            Received::Closed => ReceivedView::Closed,
            Received::Lagged(n) => ReceivedView::Lagged(n),
        }
    }
}

/// What a subscriber does after one receive.
#[derive(Debug, Clone, PartialEq, Eq)]
pub enum PollStep {
    /// Hand this event to the system.
    Deliver(Event),
    /// The bus is gone: the system's loop ends.
    Stop,
    /// Note the loss and receive again.
    Retry { dropped: u64 },
}

/// A `PollStep` as plain values.
pub enum PollStepView {
    Deliver(EventView),
    Stop,
    Retry { dropped: u64 },
}

impl View for PollStep {
    type V = PollStepView;

    open spec fn view(&self) -> PollStepView {
        match *self {
            PollStep::Deliver(e) => PollStepView::Deliver(e@),
            PollStep::Stop => PollStepView::Stop,
            PollStep::Retry { dropped } => PollStepView::Retry { dropped },
        }
    }
}

/// What a subscriber does after one receive: lag is noted and never ends the
/// loop.
pub open spec fn poll_decision(received: ReceivedView) -> PollStepView {
    match received {
        ReceivedView::Event(e) => PollStepView::Deliver(e),
        ReceivedView::Closed => PollStepView::Stop,
        ReceivedView::Lagged(n) => PollStepView::Retry { dropped: n },
    }
}

/// What a subscriber does after one receive.
pub fn poll_step(received: Received) -> (out: PollStep)
    ensures
        out@ == poll_decision(received@),
{
    match received {
        Received::Event(e) => PollStep::Deliver(e),
        Received::Closed => PollStep::Stop,
        Received::Lagged(n) => PollStep::Retry { dropped: n },
    }
}

/// What one poll of a subscription returns, given what the receives give in
/// turn: the first event, or nothing when the bus closes before one comes.
/// `None` outside: the receives given do not settle it yet.
pub open spec fn poll_result(receives: Seq<ReceivedView>) -> Option<Option<EventView>>
    decreases receives.len(),
{
    if receives.len() == 0 {
        None
    } else {
        match poll_decision(receives[0]) {
            PollStepView::Deliver(e) => Some(Some(e)),
            PollStepView::Stop => Some(None),
            PollStepView::Retry { dropped } => poll_result(receives.drop_first()),
        }
    }
}

/// Lag resilience. However many notices of lag a subscriber gets in a row,
/// its poll goes on and returns the event that comes after them.
pub proof fn lemma_lag_resilience(lags: Seq<ReceivedView>, event: EventView, rest: Seq<ReceivedView>)
    requires
        forall|i: int| 0 <= i < lags.len() ==> (#[trigger] lags[i]) is Lagged,
    ensures
        poll_result(lags + seq![ReceivedView::Event(event)] + rest) == Some(Some(event)),
    decreases lags.len(),
{
    let all = lags + seq![ReceivedView::Event(event)] + rest;
    if lags.len() == 0 {
        assert(all[0] == ReceivedView::Event(event));
    } else {
        assert(all[0] == lags[0]);
        let tail = lags.drop_first();
        assert forall|i: int| 0 <= i < tail.len() implies (#[trigger] tail[i]) is Lagged by {
            assert(tail[i] == lags[i + 1]);
        }
        lemma_lag_resilience(tail, event, rest);
        assert(all.drop_first() =~= tail + seq![ReceivedView::Event(event)] + rest);
    }
}

/// What became of an event that a system published.
#[derive(Debug, Clone, Copy, PartialEq, Eq)]
pub enum Published {
    /// The bus took it.
    Sent,
    /// The bus is gone; the event is dropped, which is no error.
    BusGone,
    /// Nobody is subscribed; the event is dropped, which is no error.
    NoSubscriber,
}

/// What becomes of a published event: it is sent where the bus still stands
/// and somebody listens, and dropped without error otherwise.
pub fn publish_outcome(bus_alive: bool, accepted: bool) -> (out: Published)
    ensures
        out == if !bus_alive {
            Published::BusGone
        } else if accepted {
            Published::Sent
        } else {
            Published::NoSubscriber
        },
{
    if !bus_alive {
        Published::BusGone
    } else if accepted {
        Published::Sent
    } else {
        Published::NoSubscriber
    }
}

/// `tokio::sync::broadcast::Sender`, the owning end of a broadcast channel.
/// Trusted as a value that is carried and handed on; nothing inside it is
/// looked at.
#[verifier::external_type_specification]
#[verifier::external_body]
#[verifier::reject_recursive_types(T)]
pub struct ExSender<T>(Sender<T>);

/// `tokio::sync::broadcast::WeakSender`, an end of a broadcast channel that
/// does not keep it open. Trusted as a value that is carried and handed on;
/// nothing inside it is looked at.
#[verifier::external_type_specification]
#[verifier::external_body]
#[verifier::reject_recursive_types(T)]
pub struct ExWeakSender<T>(WeakSender<T>);

/// Another handle on the same bus.
///
/// Trusted: speaks of `WeakSender::clone`. Nothing is claimed of the result.
pub assume_specification<T>[ <WeakSender<T> as Clone>::clone ](handle: &WeakSender<T>) -> (out:
    WeakSender<T>)
;

/// The handle on the bus that a system publishes with. It does not keep the
/// bus standing: that is the one owner's to do.
#[derive(Clone)]
pub struct EventSender(pub WeakSender<Event>);

/// The bus itself, if it still stands.
///
/// Trusted: stands for `WeakSender::upgrade`. Nothing is claimed of the result,
/// which depends on whether the owner has let go.
#[verifier::external_body]
fn upgrade(handle: &WeakSender<Event>) -> (out: Option<Sender<Event>>) {
    handle.upgrade()
}

/// Whether the bus took the event.
///
/// Trusted: stands for `Sender::send`. Nothing is claimed of the result, which
/// depends on whether anybody is subscribed.
#[verifier::external_body]
fn send(bus: &Sender<Event>, event: Event) -> (out: bool) {
    bus.send(event).is_ok()
}

impl EventSender {
    /// Publishes the event and says what became of it. Arrival is not owed:
    /// where the bus is gone or nobody is subscribed the event is dropped,
    /// and that is no error. Which of the three it was is the channel's to
    /// decide; the handle stays as it is.
    pub fn push(&mut self, event: Event) -> (out: Published)
        ensures
            *final(self) == *old(self),
    {
        match upgrade(&self.0) {
            Some(bus) => {
                let accepted = send(&bus, event);
                publish_outcome(true, accepted)
            },
            None => publish_outcome(false, false),
        }
    }
}

} // verus!
