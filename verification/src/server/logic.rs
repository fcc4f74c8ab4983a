//! What the server does with each packet and each event: one change of the
//! session store at most, and the packets and events that follow from it.

use vstd::prelude::*;
use crate::datamodel::{PlayerGist, PlayerGistView, RoomId, gist_views};
use crate::pkt::meta;
use crate::pkt::meta::{ModeratorStatus, PlayerId};
use crate::server::{Error, Event, EventView, event_views};
use crate::server::state::{
    Player, PlayerView, Server, StateError, filed_by_id, is_roster, player_views,
};
use crate::text::push_char;

verus! {

/// Why a packet or an event could not be handled.
#[derive(Debug, Clone, Copy, PartialEq, Eq)]
pub enum ServerError {
    /// Bad input from a client.
    ClientFault(StateError),
    /// Something the server depends on is down.
    InfraFault(StateError),
    /// The server itself is in a bad state.
    ServerFault(StateError),
}

/// A packet that came in, with the player that sent it and the time at
/// which it came, in milliseconds.
#[derive(Debug, Clone, PartialEq, Eq)]
pub enum PacketIn {
    Player { player_id: PlayerId, packet: meta::client::Packet, at_millis: usize },
}

/// A packet to send, with the player to send it to.
#[derive(Debug, Clone, PartialEq, Eq)]
pub struct PacketOut {
    pub player_id: PlayerId,
    pub packet: meta::server::Packet,
}

/// A `PacketOut` as plain values.
pub struct PacketOutView {
    pub player_id: PlayerId,
    pub packet: meta::server::PacketView,
}

impl View for PacketOut {
    type V = PacketOutView;

    open spec fn view(&self) -> PacketOutView {
        PacketOutView { player_id: self.player_id, packet: self.packet@ }
    }
}

/// The views of a sequence of outgoing packets.
pub open spec fn out_views(v: Seq<PacketOut>) -> Seq<PacketOutView> {
    Seq::new(v.len(), |i: int| v[i]@)
}

/// Something that takes packets in and answers with packets.
pub trait ServerAutomata {
    fn handle_pkt(&mut self, packet_in: PacketIn, packet_out: &mut Vec<PacketOut>) -> Result<
        (),
        ServerError,
    >;
}

/// The room that a player is sent to when it has joined the server.
pub const SPAWN_ROOM: RoomId = 230;

/// The nickname that every player gets until there is a database of them.
pub open spec fn default_nickname() -> Seq<char> {
    seq!['k', 'i', 'r', 'i', 'l', 'l']
}

/// The revision that the server reports.
pub open spec fn revision() -> Seq<char> {
    seq!['h', 'o', 'u', 'd', 'i', 'n', 'i']
}

/// The items that every player owns.
pub open spec fn starter_items() -> Seq<usize> {
    seq![1, 429, 9057, 339, 609, 8009]
}

/// The player as it is when it has just joined the server.
pub open spec fn fresh_player(id: PlayerId) -> PlayerView {
    PlayerView { id, nickname: default_nickname(), room: None, x: 0, y: 0 }
}

/// What a player is told of itself when it joins, at the given time in
/// milliseconds.
pub open spec fn load_player(player: PlayerView, clock: usize) -> meta::server::PacketView {
    meta::server::PacketView::LoadPlayer {
        gist: player.gist(),
        coins: 100,
        safe_chat: false,
        egg_timer_minutes: 100,
        penguin_standard_time: (clock / 1000 * 1000) as usize,
        age: 0,
        minutes_played: 10,
        membership_days_remain: 1000,
        server_time_offset: 7,
        opened_playercard: true,
    }
}

/// One packet for one player.
pub open spec fn to(player_id: PlayerId, packet: meta::server::PacketView) -> PacketOutView {
    PacketOutView { player_id, packet }
}

/// What the store is like after a packet from player `id`, and what is sent
/// in answer; or the fault, in which case the store stays as it is and
/// nothing is sent.
pub open spec fn packet_effect(
    state: Map<PlayerId, PlayerView>,
    clock: usize,
    id: PlayerId,
    packet: meta::client::PacketView,
) -> Result<(Map<PlayerId, PlayerView>, Seq<PacketOutView>), ServerError> {
    match packet {
        meta::client::PacketView::JoinServer { penguin_id, login_key, language } => {
            if state.contains_key(id) {
                Err(ServerError::ClientFault(StateError::AlreadyPresent(id)))
            } else {
                Ok(
                    (
                        state.insert(id, fresh_player(id)),
                        seq![
                            to(id, meta::server::PacketView::ActiveFeatures),
                            to(id, load_player(fresh_player(id), clock)),
                            to(
                                penguin_id,
                                meta::server::PacketView::JoinedServer {
                                    agent_status: false,
                                    moderator_status: ModeratorStatus::NotModerator,
                                    book_modified: false,
                                },
                            ),
                            to(id, meta::server::PacketView::GetPlayerStamps { player_id: id }),
                        ],
                    ),
                )
            }
        },
        meta::client::PacketView::GetInventory => {
            if state.contains_key(id) {
                Ok(
                    (
                        state,
                        seq![to(id, meta::server::PacketView::GetInventory { items: starter_items() })],
                    ),
                )
            } else {
                Err(ServerError::ClientFault(StateError::NotPresent(id)))
            }
        },
        meta::client::PacketView::GetPlayer { player } => {
            if state.contains_key(player) {
                Ok(
                    (
                        state,
                        seq![to(id, meta::server::PacketView::GetPlayer { player: state[player].gist() })],
                    ),
                )
            } else {
                Err(ServerError::ClientFault(StateError::NotPresent(player)))
            }
        },
        meta::client::PacketView::SetPosition { x, y } => {
            if state.contains_key(id) {
                Ok((state.insert(id, PlayerView { x, y, ..state[id] }), seq![]))
            } else {
                Err(ServerError::ClientFault(StateError::NotPresent(id)))
            }
        },
        meta::client::PacketView::GetIgnoreList => Ok(
            (state, seq![to(id, meta::server::PacketView::GetIgnoreList)]),
        ),
        meta::client::PacketView::GetBuddies => Ok(
            (state, seq![to(id, meta::server::PacketView::GetBuddies)]),
        ),
        meta::client::PacketView::StartMailEngine => Ok(
            (
                state,
                seq![
                    to(
                        id,
                        meta::server::PacketView::StartMailEngine { unread_mail_count: 0, mail_count: 2 },
                    ),
                ],
            ),
        ),
        meta::client::PacketView::GetEPFPoints => Ok(
            (
                state,
                seq![
                    to(id, meta::server::PacketView::GetEPFPoints { career_medals: 0, agent_medals: 0 }),
                ],
            ),
        ),
        meta::client::PacketView::GetFieldOPStatus => Ok(
            (state, seq![to(id, meta::server::PacketView::GetFieldOPStatus)]),
        ),
        meta::client::PacketView::GetEPFAgentStatus => Ok(
            (state, seq![to(id, meta::server::PacketView::GetEPFAgentStatus)]),
        ),
        meta::client::PacketView::GetLastRevision => Ok(
            (state, seq![to(id, meta::server::PacketView::GetLastRevision(revision()))]),
        ),
        meta::client::PacketView::GetMail => Ok(
            (state, seq![to(id, meta::server::PacketView::GetMail)]),
        ),
        meta::client::PacketView::QueryPlayerAwards { player_id } => Ok(
            (state, seq![to(id, meta::server::PacketView::QueryPlayerAwards { player_id })]),
        ),
        meta::client::PacketView::GetWaddlePopulation => Ok(
            (state, seq![to(id, meta::server::PacketView::GetWaddlePopulation)]),
        ),
        meta::client::PacketView::Heartbeat => Ok((state, seq![])),
        meta::client::PacketView::GetMyPuffles => Ok((state, seq![])),
        meta::client::PacketView::SendMessage { message } => Ok((state, seq![])),
    }
}

/// The nickname that every player gets until there is a database of them.
fn default_nickname_string() -> (out: String)
    ensures
        out@ == default_nickname(),
{
    let mut out = String::new();
    push_char(&mut out, 'k');
    push_char(&mut out, 'i');
    push_char(&mut out, 'r');
    push_char(&mut out, 'i');
    push_char(&mut out, 'l');
    push_char(&mut out, 'l');
    assert(out@ =~= default_nickname());
    out
}

/// The revision that the server reports.
fn revision_string() -> (out: String)
    ensures
        out@ == revision(),
{
    let mut out = String::new();
    push_char(&mut out, 'h');
    push_char(&mut out, 'o');
    push_char(&mut out, 'u');
    push_char(&mut out, 'd');
    push_char(&mut out, 'i');
    push_char(&mut out, 'n');
    push_char(&mut out, 'i');
    assert(out@ =~= revision());
    out
}

/// Appends one packet for one player.
fn send(packet_out: &mut Vec<PacketOut>, player_id: PlayerId, packet: meta::server::Packet)
    ensures
        out_views(final(packet_out)@) == out_views(old(packet_out)@).push(to(player_id, packet@)),
{
    packet_out.push(PacketOut { player_id, packet });
    assert(out_views(packet_out@) =~= out_views(old(packet_out)@).push(to(player_id, packet@)));
}

impl Server {
    /// Handles one packet from player `id` at the time `clock`, in
    /// milliseconds: changes the store and appends the answers. After a fault
    /// both are as they were.
    pub fn handle_packet(
        &mut self,
        id: PlayerId,
        packet: meta::client::Packet,
        clock: usize,
        packet_out: &mut Vec<PacketOut>,
    ) -> (res: Result<(), ServerError>)
        ensures
            match res {
                Ok(_) => packet_effect(old(self)@, clock, id, packet@) == Ok::<
                    (Map<PlayerId, PlayerView>, Seq<PacketOutView>),
                    ServerError,
                >((final(self)@, out_views(final(packet_out)@).skip(old(packet_out)@.len() as int)))
                    && out_views(final(packet_out)@).take(old(packet_out)@.len() as int)
                    == out_views(old(packet_out)@),
                Err(e) => packet_effect(old(self)@, clock, id, packet@) == Err::<
                    (Map<PlayerId, PlayerView>, Seq<PacketOutView>),
                    ServerError,
                >(e) && final(self)@ == old(self)@ && final(packet_out)@ == old(packet_out)@,
            },
            old(self).wf() ==> final(self).wf(),
    {
        let ghost before = out_views(packet_out@);
        let ghost n = packet_out@.len() as int;
        match packet {
            meta::client::Packet::JoinServer { penguin_id, login_key: _, language: _ } => {
                if self.has_player(id) {
                    return Err(ServerError::ClientFault(StateError::AlreadyPresent(id)));
                }
                let player = Player {
                    id,
                    nickname: default_nickname_string(),
                    room: None,
                    x: 0,
                    y: 0,
                };
                assert(player@ == fresh_player(id));
                send(packet_out, id, meta::server::Packet::ActiveFeatures {  });
                send(
                    packet_out,
                    id,
                    meta::server::Packet::LoadPlayer {
                        gist: player.duplicate().into_gist(),
                        coins: 100,
                        safe_chat: false,
                        egg_timer_minutes: 100,
                        penguin_standard_time: clock / 1000 * 1000,
                        age: 0,
                        minutes_played: 10,
                        membership_days_remain: 1000,
                        server_time_offset: 7,
                        opened_playercard: true,
                        map_category: crate::datamodel::MapCategory::Normal,
                        new_player_status: crate::datamodel::NewPlayerStatus {  },
                    },
                );
                let pushed = self.push_player(player);
                assert(pushed is Ok);
                send(
                    packet_out,
                    penguin_id,
                    meta::server::Packet::JoinedServer {
                        agent_status: false,
                        moderator_status: ModeratorStatus::NotModerator,
                        book_modified: false,
                    },
                );
                send(packet_out, id, meta::server::Packet::GetPlayerStamps { player_id: id });
            },
            meta::client::Packet::GetInventory => {
                if !self.has_player(id) {
                    return Err(ServerError::ClientFault(StateError::NotPresent(id)));
                }
                let mut items: Vec<usize> = Vec::new();
                items.push(1);
                items.push(429);
                items.push(9057);
                items.push(339);
                items.push(609);
                items.push(8009);
                assert(items@ =~= starter_items());
                send(packet_out, id, meta::server::Packet::GetInventory { items });
            },
            meta::client::Packet::GetPlayer { player } => {
                if !self.has_player(player) {
                    return Err(ServerError::ClientFault(StateError::NotPresent(player)));
                }
                let gist = self.get_player(player).duplicate().into_gist();
                send(packet_out, id, meta::server::Packet::GetPlayer { player: gist });
            },
            meta::client::Packet::SetPosition { x, y } => {
                if !self.has_player(id) {
                    return Err(ServerError::ClientFault(StateError::NotPresent(id)));
                }
                let player = self.get_mut_player(id);
                player.x = x;
                player.y = y;
                assert(out_views(packet_out@).skip(n) =~= Seq::<PacketOutView>::empty());
            },
            meta::client::Packet::GetIgnoreList => {
                send(packet_out, id, meta::server::Packet::GetIgnoreList {  });
            },
            meta::client::Packet::GetBuddies => {
                send(packet_out, id, meta::server::Packet::GetBuddies {  });
            },
            meta::client::Packet::StartMailEngine => {
                send(
                    packet_out,
                    id,
                    meta::server::Packet::StartMailEngine { unread_mail_count: 0, mail_count: 2 },
                );
            },
            meta::client::Packet::GetEPFPoints => {
                send(
                    packet_out,
                    id,
                    meta::server::Packet::GetEPFPoints { career_medals: 0, agent_medals: 0 },
                );
            },
            meta::client::Packet::GetFieldOPStatus => {
                send(packet_out, id, meta::server::Packet::GetFieldOPStatus {  });
            },
            meta::client::Packet::GetEPFAgentStatus => {
                send(packet_out, id, meta::server::Packet::GetEPFAgentStatus {  });
            },
            meta::client::Packet::GetLastRevision => {
                send(packet_out, id, meta::server::Packet::GetLastRevision(revision_string()));
            },
            meta::client::Packet::GetMail => {
                send(packet_out, id, meta::server::Packet::GetMail {  });
            },
            meta::client::Packet::QueryPlayerAwards { player_id } => {
                send(packet_out, id, meta::server::Packet::QueryPlayerAwards { player_id });
            },
            meta::client::Packet::GetWaddlePopulation {  } => {
                send(packet_out, id, meta::server::Packet::GetWaddlePopulation {  });
            },
            meta::client::Packet::Heartbeat => {
                assert(out_views(packet_out@).skip(n) =~= Seq::<PacketOutView>::empty());
            },
            meta::client::Packet::GetMyPuffles => {
                assert(out_views(packet_out@).skip(n) =~= Seq::<PacketOutView>::empty());
            },
            meta::client::Packet::SendMessage { message: _ } => {
                assert(out_views(packet_out@).skip(n) =~= Seq::<PacketOutView>::empty());
            },
        }
        proof {
            let after = out_views(packet_out@);
            let expected = packet_effect(old(self)@, clock, id, packet@);
            assert(expected is Ok);
            assert(after.take(n) =~= before);
            assert(after.skip(n) =~= expected->Ok_0.1);
            assert(self@ =~= expected->Ok_0.0);
        }
        Ok(())
    }
}

/// The gists of the players, in order.
pub open spec fn gists_of(roster: Seq<PlayerView>) -> Seq<PlayerGistView> {
    Seq::new(roster.len(), |i: int| roster[i].gist())
}

/// The notice that `joiner` has been added, once for each player of `roster`
/// but the joiner, in the roster's order.
pub open spec fn notices(joiner: PlayerView, roster: Seq<PlayerView>) -> Seq<EventView>
    decreases roster.len(),
{
    if roster.len() == 0 {
        seq![]
    } else {
        let rest = notices(joiner, roster.drop_last());
        if roster.last().id == joiner.id {
            rest
        } else {
            rest.push(
                EventView::PacketSent(
                    roster.last().id,
                    meta::server::PacketView::AddedPlayer { player: joiner.gist() },
                ),
            )
        }
    }
}

/// What follows when `joiner` has entered `room`, whose members are `roster`:
/// the joiner is sent the roster, every other member a notice.
pub open spec fn joined_room_effect(
    joiner: PlayerView,
    room: RoomId,
    roster: Seq<PlayerView>,
) -> Seq<EventView> {
    seq![
        EventView::PacketSent(
            joiner.id,
            meta::server::PacketView::JoinRoom { room_id: room, players: gists_of(roster) },
        ),
    ] + notices(joiner, roster)
}

/// The outgoing packets as events for the bus.
pub open spec fn sent(outs: Seq<PacketOutView>) -> Seq<EventView> {
    Seq::new(outs.len(), |i: int| EventView::PacketSent(outs[i].player_id, outs[i].packet))
}

/// The event that follows a packet of its own accord: a player that has
/// joined the server asks to be moved to the spawn room.
pub open spec fn follow_up(id: PlayerId, packet: meta::client::PacketView) -> Seq<EventView> {
    if packet is JoinServer {
        seq![EventView::PlayerTransferRoomRequest(id, SPAWN_ROOM)]
    } else {
        seq![]
    }
}

/// The fault of an event that speaks of a player the store does not hold.
pub open spec fn missing(id: PlayerId) -> Error {
    Error::PlayerError(id, ServerError::ServerFault(StateError::NotPresent(id)))
}

/// What the store is like after an event, and the events that follow; or the
/// fault, in which case the store stays as it is and nothing follows.
/// `roster` lists the members of the room that a `PlayerJoinedRoom` speaks
/// of, in the order in which they are served.
pub open spec fn event_effect(
    state: Map<PlayerId, PlayerView>,
    clock: usize,
    event: EventView,
    roster: Seq<PlayerView>,
) -> Result<(Map<PlayerId, PlayerView>, Seq<EventView>), Error> {
    match event {
        EventView::PlayerConnected(id) => Ok(
            (state, seq![EventView::PacketSent(id, meta::server::PacketView::Loaded)]),
        ),
        EventView::PlayerDisconnected(id) => {
            if state.contains_key(id) {
                Ok((state.remove(id), seq![]))
            } else {
                Err(missing(id))
            }
        },
        EventView::PacketReceived(id, packet) => match packet_effect(state, clock, id, packet) {
            Ok((next, outs)) => Ok((next, sent(outs) + follow_up(id, packet))),
            Err(e) => Err(Error::PlayerError(id, e)),
        },
        EventView::PlayerTransferRoomRequest(id, room) => {
            if state.contains_key(id) {
                Ok(
                    (
                        state.insert(id, PlayerView { room: Some(room), ..state[id] }),
                        seq![EventView::PlayerJoinedRoom(id, room)],
                    ),
                )
            } else {
                Err(missing(id))
            }
        },
        EventView::PlayerJoinedRoom(id, room) => {
            if state.contains_key(id) {
                Ok((state, joined_room_effect(state[id], room, roster)))
            } else {
                Err(missing(id))
            }
        },
        _ => Ok((state, seq![])),
    }
}

/// The player that an event is about, if it is about one.
pub open spec fn subject(event: EventView) -> Option<PlayerId> {
    match event {
        EventView::PlayerConnected(id) => Some(id),
        EventView::PlayerDisconnected(id) => Some(id),
        EventView::PacketSent(id, _) => Some(id),
        EventView::PacketReceived(id, _) => Some(id),
        EventView::PlayerTransferRoomRequest(id, _) => Some(id),
        EventView::PlayerJoinedRoom(id, _) => Some(id),
        _ => None,
    }
}

/// One change at most. Whatever the event, the store is afterwards as it was
/// for every player but the one that the event is about; an event that is
/// about nobody, and one that ends in a fault, changes nothing.
pub proof fn lemma_one_change(
    state: Map<PlayerId, PlayerView>,
    clock: usize,
    event: EventView,
    roster: Seq<PlayerView>,
    other: PlayerId,
)
    requires
        subject(event) != Some(other),
    ensures
        event_effect(state, clock, event, roster) matches Ok((next, _)) ==> next.contains_key(other)
            == state.contains_key(other) && (state.contains_key(other) ==> next[other]
            == state[other]),
{
}

/// What follows when `joiner` has entered `room`, whose members are `roster`:
/// the joiner is sent the roster, every other member a notice.
pub fn joined_room_events(joiner: &Player, room_id: RoomId, roster: &Vec<&Player>) -> (out: Vec<
    Event,
>)
    ensures
        event_views(out@) == joined_room_effect(joiner@, room_id, player_views(roster@)),
{
    let ghost members = player_views(roster@);
    let mut gists: Vec<PlayerGist> = Vec::new();
    let mut i: usize = 0;
    while i < roster.len()
        invariant
            0 <= i <= roster.len(),
            members == player_views(roster@),
            gist_views(gists@) == gists_of(members).take(i as int),
        decreases roster.len() - i,
    {
        let ghost before = gist_views(gists@);
        gists.push(roster[i].duplicate().into_gist());
        assert(gist_views(gists@) =~= before.push(members[i as int].gist()));
        i += 1;
        assert(gist_views(gists@) =~= gists_of(members).take(i as int));
    }
    assert(gists_of(members).take(roster.len() as int) =~= gists_of(members));
    let mut out: Vec<Event> = Vec::new();
    out.push(
        Event::PacketSent(joiner.id, meta::server::Packet::JoinRoom { room_id, players: gists }),
    );
    let ghost head = event_views(out@);
    assert(head =~= seq![
        EventView::PacketSent(
            joiner.id,
            meta::server::PacketView::JoinRoom { room_id, players: gists_of(members) },
        ),
    ]);
    let mut j: usize = 0;
    assert(members.take(0) =~= Seq::<PlayerView>::empty());
    assert(event_views(out@) =~= head + notices(joiner@, members.take(0)));
    while j < roster.len()
        invariant
            0 <= j <= roster.len(),
            members == player_views(roster@),
            event_views(out@) == head + notices(joiner@, members.take(j as int)),
        decreases roster.len() - j,
    {
        let ghost before = event_views(out@);
        let ghost upto = members.take(j + 1);
        assert(upto.drop_last() =~= members.take(j as int));
        assert(upto.last() == roster@[j as int]@);
        if roster[j].id != joiner.id {
            out.push(
                Event::PacketSent(
                    roster[j].id,
                    meta::server::Packet::AddedPlayer { player: joiner.duplicate().into_gist() },
                ),
            );
            assert(event_views(out@) =~= before.push(
                EventView::PacketSent(
                    roster@[j as int].id,
                    meta::server::PacketView::AddedPlayer { player: joiner@.gist() },
                ),
            ));
        }
        j += 1;
        assert(event_views(out@) =~= head + notices(joiner@, members.take(j as int)));
    }
    assert(members.take(roster.len() as int) =~= members);
    out
}

/// The outgoing packets as events for the bus, and after them the events
/// that follow of their own accord.
fn publish(outs: Vec<PacketOut>, tail: Vec<Event>) -> (events: Vec<Event>)
    ensures
        event_views(events@) == sent(out_views(outs@)) + event_views(tail@),
{
    let ghost all = sent(out_views(outs@));
    let ghost rest = event_views(tail@);
    let mut events: Vec<Event> = Vec::new();
    for o in it: outs
        invariant
            all == sent(out_views(it.seq())),
            event_views(events@) == all.take(it.index()),
    {
        let ghost before = event_views(events@);
        let ghost k = it.index();
        events.push(Event::PacketSent(o.player_id, o.packet));
        assert(event_views(events@) =~= before.push(all[k]));
        assert(event_views(events@) =~= all.take(k + 1));
    }
    let ghost head = event_views(events@);
    assert(head =~= all);
    for e in it: tail
        invariant
            rest == event_views(it.seq()),
            event_views(events@) == head + rest.take(it.index()),
    {
        let ghost before = event_views(events@);
        let ghost k = it.index();
        events.push(e);
        assert(event_views(events@) =~= before.push(rest[k]));
        assert(event_views(events@) =~= head + rest.take(k + 1));
    }
    assert(event_views(events@) =~= all + rest);
    events
}

impl Server {
    /// Handles one event from the bus at the time `clock`, in milliseconds:
    /// changes the store at most once and returns the events to publish, in
    /// order. After a fault the store is as it was.
    pub fn handle_event(&mut self, event: Event, clock: usize) -> (res: Result<Vec<Event>, Error>)
        requires
            old(self).wf(),
        ensures
            final(self).wf(),
            match res {
                Ok(events) => exists|roster: Seq<PlayerView>|
                    {
                        &&& event@ matches EventView::PlayerJoinedRoom(_, room) ==> is_roster(
                            old(self)@,
                            room,
                            roster,
                        )
                        &&& #[trigger] event_effect(old(self)@, clock, event@, roster) == Ok::<
                            (Map<PlayerId, PlayerView>, Seq<EventView>),
                            Error,
                        >((final(self)@, event_views(events@)))
                    },
                Err(e) => final(self)@ == old(self)@ && event_effect(
                    old(self)@,
                    clock,
                    event@,
                    Seq::<PlayerView>::empty(),
                ) == Err::<(Map<PlayerId, PlayerView>, Seq<EventView>), Error>(e),
            },
    {
        let ghost none = Seq::<PlayerView>::empty();
        let mut events: Vec<Event> = Vec::new();
        match event {
            Event::PlayerConnected(id) => {
                events.push(Event::PacketSent(id, meta::server::Packet::Loaded));
                assert(event_views(events@) =~= seq![
                    EventView::PacketSent(id, meta::server::PacketView::Loaded),
                ]);
                assert(event_effect(old(self)@, clock, event@, none) == Ok::<
                    (Map<PlayerId, PlayerView>, Seq<EventView>),
                    Error,
                >((self@, event_views(events@))));
                Ok(events)
            },
            Event::PlayerDisconnected(id) => {
                match self.pop_player(id) {
                    Ok(_) => {
                        assert(event_views(events@) =~= Seq::<EventView>::empty());
                        assert(event_effect(old(self)@, clock, event@, none) == Ok::<
                            (Map<PlayerId, PlayerView>, Seq<EventView>),
                            Error,
                        >((self@, event_views(events@))));
                        Ok(events)
                    },
                    Err(e) => Err(Error::PlayerError(id, ServerError::ServerFault(e))),
                }
            },
            Event::PacketReceived(id, packet) => {
                let ghost view = packet@;
                let joins = match &packet {
                    meta::client::Packet::JoinServer { .. } => true,
                    _ => false,
                };
                let mut outs: Vec<PacketOut> = Vec::new();
                match self.handle_packet(id, packet, clock, &mut outs) {
                    Ok(_) => {
                        if joins {
                            events.push(Event::PlayerTransferRoomRequest(id, SPAWN_ROOM));
                        }
                        assert(event_views(events@) =~= follow_up(id, view));
                        assert(out_views(outs@).skip(0) =~= out_views(outs@));
                        let all = publish(outs, events);
                        assert(event_effect(old(self)@, clock, event@, none) == Ok::<
                            (Map<PlayerId, PlayerView>, Seq<EventView>),
                            Error,
                        >((self@, event_views(all@))));
                        Ok(all)
                    },
                    Err(e) => Err(Error::PlayerError(id, e)),
                }
            },
            Event::PlayerTransferRoomRequest(id, room) => {
                if !self.has_player(id) {
                    return Err(Error::PlayerError(id, ServerError::ServerFault(StateError::NotPresent(id))));
                }
                let player = self.get_mut_player(id);
                player.room = Some(room);
                events.push(Event::PlayerJoinedRoom(id, room));
                assert(event_views(events@) =~= seq![EventView::PlayerJoinedRoom(id, room)]);
                assert(event_effect(old(self)@, clock, event@, none) == Ok::<
                    (Map<PlayerId, PlayerView>, Seq<EventView>),
                    Error,
                >((self@, event_views(events@))));
                Ok(events)
            },
            Event::PlayerJoinedRoom(id, room) => {
                if !self.has_player(id) {
                    return Err(Error::PlayerError(id, ServerError::ServerFault(StateError::NotPresent(id))));
                }
                let roster = self.room_players(room);
                let joined = joined_room_events(self.get_player(id), room, &roster);
                assert(event_effect(old(self)@, clock, event@, player_views(roster@)) == Ok::<
                    (Map<PlayerId, PlayerView>, Seq<EventView>),
                    Error,
                >((self@, event_views(joined@))));
                Ok(joined)
            },
            Event::Error => {
                assert(event_views(events@) =~= Seq::<EventView>::empty());
                assert(event_effect(old(self)@, clock, event@, none) == Ok::<
                    (Map<PlayerId, PlayerView>, Seq<EventView>),
                    Error,
                >((self@, event_views(events@))));
                Ok(events)
            },
            Event::DisconnectPlayer => {
                assert(event_views(events@) =~= Seq::<EventView>::empty());
                assert(event_effect(old(self)@, clock, event@, none) == Ok::<
                    (Map<PlayerId, PlayerView>, Seq<EventView>),
                    Error,
                >((self@, event_views(events@))));
                Ok(events)
            },
            Event::Heartbeat => {
                assert(event_views(events@) =~= Seq::<EventView>::empty());
                assert(event_effect(old(self)@, clock, event@, none) == Ok::<
                    (Map<PlayerId, PlayerView>, Seq<EventView>),
                    Error,
                >((self@, event_views(events@))));
                Ok(events)
            },
            Event::PacketSent(_, _) => {
                assert(event_views(events@) =~= Seq::<EventView>::empty());
                assert(event_effect(old(self)@, clock, event@, none) == Ok::<
                    (Map<PlayerId, PlayerView>, Seq<EventView>),
                    Error,
                >((self@, event_views(events@))));
                Ok(events)
            },
        }
    }
}

impl ServerAutomata for Server {
    /// Handles the packet as `handle_packet` does, at the time that came with
    /// it.
    fn handle_pkt(&mut self, packet_in: PacketIn, packet_out: &mut Vec<PacketOut>) -> (res: Result<
        (),
        ServerError,
    >)
        ensures
            match (packet_in, res) {
                (PacketIn::Player { player_id, packet, at_millis }, Ok(_)) => packet_effect(
                    old(self)@,
                    at_millis,
                    player_id,
                    packet@,
                ) == Ok::<(Map<PlayerId, PlayerView>, Seq<PacketOutView>), ServerError>(
                    (final(self)@, out_views(final(packet_out)@).skip(old(packet_out)@.len() as int)),
                ) && out_views(final(packet_out)@).take(old(packet_out)@.len() as int) == out_views(
                    old(packet_out)@,
                ),
                (PacketIn::Player { player_id, packet, at_millis }, Err(e)) => packet_effect(
                    old(self)@,
                    at_millis,
                    player_id,
                    packet@,
                ) == Err::<(Map<PlayerId, PlayerView>, Seq<PacketOutView>), ServerError>(e)
                    && final(self)@ == old(self)@ && final(packet_out)@ == old(packet_out)@,
            },
    {
        match packet_in {
            PacketIn::Player { player_id, packet, at_millis } => self.handle_packet(
                player_id,
                packet,
                at_millis,
                packet_out,
            ),
        }
    }
}

/// How many of the events tell player `to` that `joiner` has been added.
pub open spec fn notice_count(events: Seq<EventView>, to: PlayerId, joiner: PlayerGistView) -> nat
    decreases events.len(),
{
    if events.len() == 0 {
        0
    } else {
        let rest = notice_count(events.drop_last(), to, joiner);
        if events.last() == EventView::PacketSent(
            to,
            meta::server::PacketView::AddedPlayer { player: joiner },
        ) {
            rest + 1
        } else {
            rest
        }
    }
}

/// How many players of the roster have this id.
pub open spec fn occurrences(roster: Seq<PlayerView>, id: PlayerId) -> nat
    decreases roster.len(),
{
    if roster.len() == 0 {
        0
    } else {
        occurrences(roster.drop_last(), id) + if roster.last().id == id {
            1nat
        } else {
            0nat
        }
    }
}

/// A player gets as many notices as the roster lists it, and the joiner none.
proof fn lemma_notices_count(joiner: PlayerView, roster: Seq<PlayerView>, to: PlayerId)
    ensures
        notice_count(notices(joiner, roster), to, joiner.gist()) == if to == joiner.id {
            0
        } else {
            occurrences(roster, to)
        },
    decreases roster.len(),
{
    if roster.len() > 0 {
        lemma_notices_count(joiner, roster.drop_last(), to);
        let rest = notices(joiner, roster.drop_last());
        if roster.last().id != joiner.id {
            let all = notices(joiner, roster);
            assert(all.drop_last() =~= rest);
        }
    }
}

/// A roster without repeated ids lists an id once or not at all.
proof fn lemma_occurrences(roster: Seq<PlayerView>, id: PlayerId)
    requires
        forall|i: int, j: int|
            0 <= i < j < roster.len() ==> (#[trigger] roster[i]).id != (#[trigger] roster[j]).id,
    ensures
        occurrences(roster, id) == if exists|i: int|
            0 <= i < roster.len() && (#[trigger] roster[i]).id == id {
            1nat
        } else {
            0nat
        },
    decreases roster.len(),
{
    if roster.len() > 0 {
        let init = roster.drop_last();
        assert forall|i: int, j: int| 0 <= i < j < init.len() implies (#[trigger] init[i]).id != (
        #[trigger] init[j]).id by {
            assert(init[i] == roster[i] && init[j] == roster[j]);
        }
        lemma_occurrences(init, id);
        if roster.last().id == id {
            assert(roster[roster.len() - 1].id == id);
            if exists|i: int| 0 <= i < init.len() && (#[trigger] init[i]).id == id {
                let i = choose|i: int| 0 <= i < init.len() && (#[trigger] init[i]).id == id;
                assert(roster[i].id == roster[roster.len() - 1].id);
                assert(false);
            }
        } else {
            if exists|i: int| 0 <= i < roster.len() && (#[trigger] roster[i]).id == id {
                let i = choose|i: int| 0 <= i < roster.len() && (#[trigger] roster[i]).id == id;
                assert(init[i].id == id);
            }
            if exists|i: int| 0 <= i < init.len() && (#[trigger] init[i]).id == id {
                let i = choose|i: int| 0 <= i < init.len() && (#[trigger] init[i]).id == id;
                assert(roster[i].id == id);
            }
        }
    }
}

/// Room join consistency. When a request to move player `p` to room `r` has
/// been handled, and then the event that it gave rise to, `p` is among the
/// members of `r`, every other member of `r` has been sent exactly one notice
/// that `p` was added, and nobody else has been sent one.
pub proof fn lemma_room_join_consistency(
    state: Map<PlayerId, PlayerView>,
    clock: usize,
    p: PlayerId,
    r: RoomId,
    roster: Seq<PlayerView>,
)
    requires
        filed_by_id(state),
        state.contains_key(p),
        is_roster(
            event_effect(
                state,
                clock,
                EventView::PlayerTransferRoomRequest(p, r),
                Seq::<PlayerView>::empty(),
            )->Ok_0.0,
            r,
            roster,
        ),
    ensures
        ({
            let moved = event_effect(
                state,
                clock,
                EventView::PlayerTransferRoomRequest(p, r),
                Seq::<PlayerView>::empty(),
            );
            let joined = event_effect(
                moved->Ok_0.0,
                clock,
                EventView::PlayerJoinedRoom(p, r),
                roster,
            );
            let after = joined->Ok_0.0;
            let events = joined->Ok_0.1;
            let joiner = after[p].gist();
            &&& moved is Ok
            &&& moved->Ok_0.1 == seq![EventView::PlayerJoinedRoom(p, r)]
            &&& joined is Ok
            &&& after[p].room == Some(r)
            &&& roster.contains(after[p])
            &&& forall|m: PlayerId|
                notice_count(events, m, joiner) == if m != p && #[trigger] after.contains_key(m)
                    && after[m].room == Some(r) {
                    1nat
                } else {
                    0nat
                }
        }),
{
    let moved = event_effect(
        state,
        clock,
        EventView::PlayerTransferRoomRequest(p, r),
        Seq::<PlayerView>::empty(),
    );
    let after = moved->Ok_0.0;
    assert(after.contains_key(p));
    let joined = event_effect(after, clock, EventView::PlayerJoinedRoom(p, r), roster);
    let events = joined->Ok_0.1;
    let me = after[p];
    let head = seq![
        EventView::PacketSent(
            p,
            meta::server::PacketView::JoinRoom { room_id: r, players: gists_of(roster) },
        ),
    ];
    assert(events == head + notices(me, roster));
    assert forall|m: PlayerId|
        notice_count(events, m, me.gist()) == if m != p && #[trigger] after.contains_key(m)
            && after[m].room == Some(r) {
            1nat
        } else {
            0nat
        } by {
        lemma_notice_count_after(head, notices(me, roster), m, me.gist());
        assert(head.drop_last() =~= Seq::<EventView>::empty());
        assert(notice_count(head.drop_last(), m, me.gist()) == 0);
        assert(head.last() == head[0]);
        assert(notice_count(head, m, me.gist()) == 0);
        lemma_notices_count(me, roster, m);
        lemma_occurrences(roster, m);
        if m != p && after.contains_key(m) && after[m].room == Some(r) {
            assert(roster.contains(after[m]));
            let i = choose|i: int| 0 <= i < roster.len() && roster[i] == after[m];
            assert(after[m].id == m);
            assert(roster[i].id == m);
        } else if m != p {
            if exists|i: int| 0 <= i < roster.len() && (#[trigger] roster[i]).id == m {
                let i = choose|i: int| 0 <= i < roster.len() && (#[trigger] roster[i]).id == m;
                assert(after.contains_key(roster[i].id) && after[roster[i].id] == roster[i]);
                assert(false);
            }
        }
    }
}

/// Counting notices over two runs of events is counting each and adding up.
proof fn lemma_notice_count_after(
    a: Seq<EventView>,
    b: Seq<EventView>,
    to: PlayerId,
    joiner: PlayerGistView,
)
    ensures
        notice_count(a + b, to, joiner) == notice_count(a, to, joiner) + notice_count(
            b,
            to,
            joiner,
        ),
    decreases b.len(),
{
    if b.len() == 0 {
        assert(a + b =~= a);
    } else {
        lemma_notice_count_after(a, b.drop_last(), to, joiner);
        assert((a + b).drop_last() =~= a + b.drop_last());
    }
}

} // verus!
