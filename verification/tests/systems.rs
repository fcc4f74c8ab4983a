use xt_gateway::conn::line::{EnvFault, ParseFault, ReadError};
use xt_gateway::conn::login::{LoginHandler, LoginResp};
use xt_gateway::conn::server_list::ServerList;
use xt_gateway::pkt::meta;
use xt_gateway::pkt::xml;
use xt_gateway::pkt::xt::as2::client::PacketError;
use xt_gateway::pkt::xt::XTPacket;
use xt_gateway::server::system::heartbeat::{Heartbeat, PERIOD_MILLIS};
use xt_gateway::server::system::socket::as2::{inbound, outbound};
use xt_gateway::server::system::socket::authgate::{
    gate_step, settled, validate, AuthResult, GateFault, GateStep,
};
use xt_gateway::server::system::socket::dist;
use xt_gateway::server::system::socket::dist::{
    delivery, read_step, Admission, DeliveryError, ReadOutcome, ReadStep, Registry,
};
use xt_gateway::server::system::{poll_step, publish_outcome, PollStep, Published, Received};
use xt_gateway::server::Event;

fn xt(handler: Option<&str>, packet_id: &str, data: &[&str]) -> XTPacket {
    XTPacket {
        handler_id: handler.map(|h| h.to_owned()),
        packet_id: packet_id.to_owned(),
        internal_id: -1,
        data: data.iter().map(|d| d.to_string()).collect(),
    }
}

#[test]
fn lag_resilience() {
    assert_eq!(poll_step(Received::Lagged(3)), PollStep::Retry { dropped: 3 });
    assert_eq!(poll_step(Received::Lagged(u64::MAX)), PollStep::Retry { dropped: u64::MAX });
    // A subscriber that lagged goes on with the next event.
    let receives = vec![Received::Lagged(17), Received::Lagged(1), Received::Event(Event::Heartbeat)];
    let mut delivered = None;
    for received in receives {
        match poll_step(received) {
            PollStep::Retry { .. } => continue,
            PollStep::Deliver(event) => {
                delivered = Some(event);
                break;
            }
            PollStep::Stop => panic!("lag must not end the subscription"),
        }
    }
    assert_eq!(delivered, Some(Event::Heartbeat));
}

#[test]
fn poll_delivers_events_and_stops_when_the_bus_is_gone() {
    assert_eq!(
        poll_step(Received::Event(Event::PlayerConnected(1))),
        PollStep::Deliver(Event::PlayerConnected(1))
    );
    assert_eq!(poll_step(Received::Closed), PollStep::Stop);
}

#[test]
fn publishing_never_fails() {
    assert_eq!(publish_outcome(true, true), Published::Sent);
    assert_eq!(publish_outcome(true, false), Published::NoSubscriber);
    assert_eq!(publish_outcome(false, true), Published::BusGone);
    assert_eq!(publish_outcome(false, false), Published::BusGone);
}

#[test]
fn heartbeat_beats_every_second() {
    assert_eq!(PERIOD_MILLIS, 1000);
    assert_eq!(Heartbeat.beat(), Event::Heartbeat);
    assert!(Heartbeat.on_event(&Event::Heartbeat).is_empty());
    assert!(Heartbeat.on_event(&Event::PlayerConnected(1)).is_empty());
}

#[test]
fn credentials_of_the_known_player() {
    assert_eq!(validate("kirill", "anything"), Some(102));
    assert_eq!(validate("kirill", ""), Some(102));
    assert_eq!(validate("Kirill", "anything"), None);
    assert_eq!(validate("", ""), None);
}

#[test]
fn handshake_messages_are_answered() {
    assert_eq!(
        gate_step(Ok(Some(xml::client::Packet::VersionCheck { expected: "153".to_owned() }))),
        GateStep::Reply(xml::server::Packet::ApiOK)
    );
    assert_eq!(
        gate_step(Ok(Some(xml::client::Packet::RandomKey))),
        GateStep::Reply(xml::server::Packet::RandomKey("houdini".to_owned()))
    );
}

#[test]
fn credentials_settle_the_handshake() {
    let good = xml::client::Packet::Login { username: "kirill".to_owned(), password: "foo".to_owned() };
    let bad = xml::client::Packet::Login { username: "nobody".to_owned(), password: "foo".to_owned() };
    assert_eq!(gate_step(Ok(Some(good))), GateStep::Accept(102));
    assert_eq!(gate_step(Ok(Some(bad))), GateStep::Reject(meta::server::Error::NameNotFound));
    assert_eq!(settled(&GateStep::Accept(102)), Some(AuthResult::Authenticated(102)));
    assert_eq!(
        settled(&GateStep::Reject(meta::server::Error::NameNotFound)),
        Some(AuthResult::Unauthenticated)
    );
    assert_eq!(settled(&GateStep::Continue), None);
    assert_eq!(settled(&GateStep::Reply(xml::server::Packet::ApiOK)), None);
    assert_eq!(settled(&GateStep::Abort(GateFault::ClosedEarly)), None);
}

#[test]
fn malformed_frames_do_not_end_the_handshake() {
    assert_eq!(gate_step(Err(ReadError::ParseError(ParseFault::Xml))), GateStep::Continue);
    assert_eq!(gate_step(Err(ReadError::ParseError(ParseFault::Encoding))), GateStep::Continue);
}

#[test]
fn a_stream_that_ends_or_fails_ends_the_handshake() {
    assert_eq!(gate_step(Ok(None)), GateStep::Abort(GateFault::ClosedEarly));
    assert_eq!(
        gate_step(Err(ReadError::EnvError(EnvFault::ClosedMidFrame))),
        GateStep::Abort(GateFault::Transport(ReadError::EnvError(EnvFault::ClosedMidFrame)))
    );
    assert_eq!(
        gate_step(Err(ReadError::EnvError(EnvFault::Io))),
        GateStep::Abort(GateFault::Transport(ReadError::EnvError(EnvFault::Io)))
    );
}

#[test]
fn registry_invariant() {
    let mut registry: Registry<&str> = Registry::new();
    assert!(!registry.has(102));
    // Not before authentication.
    assert_eq!(registry.enroll(AuthResult::Unauthenticated, "w0"), Admission::Refused);
    assert!(!registry.has(102));
    // From authentication on.
    assert_eq!(registry.enroll(AuthResult::Authenticated(102), "w1"), Admission::Registered(102));
    assert!(registry.has(102));
    assert_eq!(registry.enroll(AuthResult::Authenticated(7), "w2"), Admission::Registered(7));
    // Until the disconnect, whatever happens to others.
    assert_eq!(registry.release(7), Some("w2"));
    assert!(registry.has(102));
    assert!(!registry.has(7));
    assert_eq!(registry.release(102), Some("w1"));
    assert!(!registry.has(102));
    assert_eq!(registry.release(102), None);
    // And again after a new authentication.
    assert_eq!(registry.enroll(AuthResult::Authenticated(102), "w3"), Admission::Registered(102));
    assert!(registry.has(102));
}

#[test]
fn registry_never_replaces_a_connection() {
    let mut registry: Registry<String> = Registry::new();
    assert_eq!(
        registry.enroll(AuthResult::Authenticated(102), "first".to_owned()),
        Admission::Registered(102)
    );
    assert_eq!(
        registry.enroll(AuthResult::Authenticated(102), "second".to_owned()),
        Admission::Duplicate(102)
    );
    assert_eq!(registry.writer(102).map(|w| w.clone()), Ok("first".to_owned()));
}

#[test]
fn registry_hands_out_the_writer_of_a_player() {
    let mut registry: Registry<Vec<u8>> = Registry::new();
    registry.enroll(AuthResult::Authenticated(1), Vec::new());
    registry.writer(1).unwrap().push(42);
    registry.writer(1).unwrap().push(43);
    assert_eq!(registry.writer(2).err(), Some(DeliveryError::IllegalPlayer(2)));
    assert_eq!(registry.release(1), Some(vec![42, 43]));
    assert_eq!(registry.writer(1).err(), Some(DeliveryError::IllegalPlayer(1)));
}

#[test]
fn failed_write_is_reported() {
    assert_eq!(delivery(5, true), Ok(()));
    assert_eq!(delivery(5, false), Err(DeliveryError::WriteFailed(5)));
}

#[test]
fn reading_forwards_messages_and_leaves_with_one_disconnect() {
    let message = xt(Some("s"), "i#gi", &[]);
    assert_eq!(
        read_step(ReadOutcome::Packet(message.clone())),
        ReadStep::Forward(dist::Event::Packet(message))
    );
    for outcome in [
        ReadOutcome::Closed,
        ReadOutcome::Cancelled,
        ReadOutcome::Fault(ReadError::EnvError(EnvFault::ClosedMidFrame)),
        ReadOutcome::Fault(ReadError::ParseError(ParseFault::Encoding)),
    ] {
        assert_eq!(read_step(outcome), ReadStep::Leave(dist::Event::Disconnected));
    }
}

#[test]
fn connection_reports_become_bus_events() {
    assert_eq!(inbound(5, dist::Event::Connected), Ok(Event::PlayerConnected(5)));
    assert_eq!(inbound(5, dist::Event::Disconnected), Ok(Event::PlayerDisconnected(5)));
    assert_eq!(
        inbound(5, dist::Event::Packet(xt(Some("s"), "i#gi", &[]))),
        Ok(Event::PacketReceived(5, meta::client::Packet::GetInventory))
    );
    assert_eq!(
        inbound(5, dist::Event::Packet(xt(Some("s"), "i#gi", &["1"]))),
        Err(PacketError::BadArgCount)
    );
}

#[test]
fn sent_packets_become_messages() {
    assert_eq!(
        outbound(Event::PacketSent(5, meta::server::Packet::GetBuddies {})),
        Some((5, xt(None, "gb", &[])))
    );
    assert_eq!(outbound(Event::PacketSent(5, meta::server::Packet::Heartbeat)), None);
    assert_eq!(outbound(Event::PlayerConnected(5)), None);
    assert_eq!(outbound(Event::Heartbeat), None);
    assert_eq!(outbound(Event::PacketReceived(5, meta::client::Packet::GetBuddies)), None);
}

#[test]
fn login_handler_answers_the_handshake() {
    let mut handler = LoginHandler::new();
    assert_eq!(
        handler.handle(&xml::client::Packet::VersionCheck { expected: "153".to_owned() }),
        LoginResp::Packet(xml::server::Packet::ApiOK)
    );
    assert_eq!(
        handler.handle(&xml::client::Packet::RandomKey),
        LoginResp::Packet(xml::server::Packet::RandomKey("houdini".to_owned()))
    );
    assert_eq!(
        handler.handle(&xml::client::Packet::Login {
            username: "anyone".to_owned(),
            password: "x".to_owned()
        }),
        LoginResp::HandShook
    );
}

#[test]
fn server_list_answers_a_login() {
    let list = ServerList::new();
    assert_eq!(
        list.answer("kirill", "foo"),
        xt(None, "l", &["102", "fc15ebff4bae96e53d1a55ba559eca3f", "", "3100,0|3101,0|3102,0|3103,0"])
    );
    assert_eq!(list.answer("nobody", "foo"), xt(None, "e", &["100"]));
}

#[test]
fn published_event_reaches_a_subscriber() {
    let (bus, mut subscription) = tokio::sync::broadcast::channel::<Event>(4);
    let mut sender = xt_gateway::server::system::EventSender(bus.downgrade());
    assert_eq!(sender.push(Event::PlayerConnected(7)), Published::Sent);
    assert_eq!(sender.clone().push(Event::Heartbeat), Published::Sent);
    assert_eq!(subscription.try_recv().ok(), Some(Event::PlayerConnected(7)));
    assert_eq!(subscription.try_recv().ok(), Some(Event::Heartbeat));
    assert!(subscription.try_recv().is_err());
}

#[test]
fn published_event_is_dropped_without_a_subscriber() {
    let (bus, subscription) = tokio::sync::broadcast::channel::<Event>(4);
    drop(subscription);
    let mut sender = xt_gateway::server::system::EventSender(bus.downgrade());
    assert_eq!(sender.push(Event::Heartbeat), Published::NoSubscriber);
    let mut late = bus.subscribe();
    assert_eq!(sender.push(Event::PlayerConnected(1)), Published::Sent);
    assert_eq!(late.try_recv().ok(), Some(Event::PlayerConnected(1)));
}

#[test]
fn published_event_is_dropped_when_the_bus_is_gone() {
    let (bus, mut subscription) = tokio::sync::broadcast::channel::<Event>(4);
    let mut sender = xt_gateway::server::system::EventSender(bus.downgrade());
    drop(bus);
    assert_eq!(sender.push(Event::Heartbeat), Published::BusGone);
    assert!(subscription.try_recv().is_err());
}

#[test]
fn lagged_subscriber_is_told_and_resumes() {
    let (bus, mut subscription) = tokio::sync::broadcast::channel::<Event>(2);
    let mut sender = xt_gateway::server::system::EventSender(bus.downgrade());
    for id in 0..5 {
        assert_eq!(sender.push(Event::PlayerConnected(id)), Published::Sent);
    }
    let mut delivered = Vec::new();
    let mut dropped = 0;
    loop {
        let received = match subscription.try_recv() {
            Ok(event) => Received::Event(event),
            Err(tokio::sync::broadcast::error::TryRecvError::Lagged(n)) => Received::Lagged(n),
            Err(_) => break,
        };
        match poll_step(received) {
            PollStep::Deliver(event) => delivered.push(event),
            PollStep::Retry { dropped: n } => dropped += n,
            PollStep::Stop => break,
        }
    }
    assert_eq!(dropped, 3);
    assert_eq!(delivered, vec![Event::PlayerConnected(3), Event::PlayerConnected(4)]);
}
