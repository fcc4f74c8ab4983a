use xt_gateway::datamodel::{MapCategory, NewPlayerStatus, PlayerGist};
use xt_gateway::pkt::meta;
use xt_gateway::pkt::meta::ModeratorStatus;
use xt_gateway::server::logic::{
    joined_room_events, PacketIn, PacketOut, ServerAutomata, ServerError, SPAWN_ROOM,
};
use xt_gateway::server::state::{Player, Server, StateError};
use xt_gateway::server::system;
use xt_gateway::server::{Error, Event};

fn player(id: usize, room: Option<usize>) -> Player {
    Player { id, nickname: "kirill".to_owned(), room, x: 0, y: 0 }
}

fn gist(id: usize) -> PlayerGist {
    player(id, None).into_gist()
}

fn joined(ids: &[usize]) -> Server {
    let mut server = Server::new();
    for id in ids {
        server.push_player(player(*id, None)).unwrap();
    }
    server
}

fn reply(server: &mut Server, id: usize, packet: meta::client::Packet) -> Result<Vec<Event>, Error> {
    server.handle_event(Event::PacketReceived(id, packet), 0)
}

#[test]
fn connected_player_is_told_that_the_server_is_loaded() {
    let mut server = Server::new();
    assert_eq!(
        server.handle_event(Event::PlayerConnected(5), 0),
        Ok(vec![Event::PacketSent(5, meta::server::Packet::Loaded)])
    );
    assert!(!server.has_player(5));
}

#[test]
fn join_server_creates_the_player_and_asks_for_the_spawn_room() {
    let mut server = Server::new();
    let join = meta::client::Packet::JoinServer {
        penguin_id: 7,
        login_key: "key".to_owned(),
        language: "en".to_owned(),
    };
    let events = server.handle_event(Event::PacketReceived(102, join), 1752891915999).unwrap();
    assert_eq!(
        events,
        vec![
            Event::PacketSent(102, meta::server::Packet::ActiveFeatures {}),
            Event::PacketSent(
                102,
                meta::server::Packet::LoadPlayer {
                    gist: gist(102),
                    coins: 100,
                    safe_chat: false,
                    egg_timer_minutes: 100,
                    penguin_standard_time: 1752891915000,
                    age: 0,
                    minutes_played: 10,
                    membership_days_remain: 1000,
                    server_time_offset: 7,
                    opened_playercard: true,
                    map_category: MapCategory::Normal,
                    new_player_status: NewPlayerStatus {},
                }
            ),
            Event::PacketSent(
                7,
                meta::server::Packet::JoinedServer {
                    agent_status: false,
                    moderator_status: ModeratorStatus::NotModerator,
                    book_modified: false,
                }
            ),
            Event::PacketSent(102, meta::server::Packet::GetPlayerStamps { player_id: 102 }),
            Event::PlayerTransferRoomRequest(102, 230),
        ]
    );
    assert_eq!(SPAWN_ROOM, 230);
    assert_eq!(server.get_player(102), &player(102, None));
}

#[test]
fn join_server_twice_is_a_client_fault() {
    let mut server = joined(&[102]);
    server.get_mut_player(102).room = Some(230);
    let join = meta::client::Packet::JoinServer {
        penguin_id: 102,
        login_key: "key".to_owned(),
        language: "en".to_owned(),
    };
    assert_eq!(
        reply(&mut server, 102, join),
        Err(Error::PlayerError(102, ServerError::ClientFault(StateError::AlreadyPresent(102))))
    );
    assert_eq!(server.get_player(102), &player(102, Some(230)));
}

#[test]
fn disconnect_removes_the_player() {
    let mut server = joined(&[1, 2]);
    assert_eq!(server.handle_event(Event::PlayerDisconnected(1), 0), Ok(vec![]));
    assert!(!server.has_player(1));
    assert!(server.has_player(2));
    assert_eq!(
        server.handle_event(Event::PlayerDisconnected(1), 0),
        Err(Error::PlayerError(1, ServerError::ServerFault(StateError::NotPresent(1))))
    );
}

#[test]
fn requests_that_are_echoed() {
    let mut server = joined(&[1]);
    let cases = [
        (meta::client::Packet::GetIgnoreList, meta::server::Packet::GetIgnoreList {}),
        (meta::client::Packet::GetBuddies, meta::server::Packet::GetBuddies {}),
        (
            meta::client::Packet::StartMailEngine,
            meta::server::Packet::StartMailEngine { unread_mail_count: 0, mail_count: 2 },
        ),
        (
            meta::client::Packet::GetEPFPoints,
            meta::server::Packet::GetEPFPoints { career_medals: 0, agent_medals: 0 },
        ),
        (meta::client::Packet::GetFieldOPStatus, meta::server::Packet::GetFieldOPStatus {}),
        (meta::client::Packet::GetEPFAgentStatus, meta::server::Packet::GetEPFAgentStatus {}),
        (
            meta::client::Packet::GetLastRevision,
            meta::server::Packet::GetLastRevision("houdini".to_owned()),
        ),
        (meta::client::Packet::GetMail, meta::server::Packet::GetMail {}),
        (
            meta::client::Packet::QueryPlayerAwards { player_id: 9 },
            meta::server::Packet::QueryPlayerAwards { player_id: 9 },
        ),
        (meta::client::Packet::GetWaddlePopulation {}, meta::server::Packet::GetWaddlePopulation {}),
        (
            meta::client::Packet::GetInventory,
            meta::server::Packet::GetInventory { items: vec![1, 429, 9057, 339, 609, 8009] },
        ),
    ];
    for (request, answer) in cases {
        assert_eq!(reply(&mut server, 1, request), Ok(vec![Event::PacketSent(1, answer)]));
    }
    assert_eq!(server.get_player(1), &player(1, None));
}

#[test]
fn requests_without_an_answer() {
    let mut server = joined(&[1]);
    assert_eq!(reply(&mut server, 1, meta::client::Packet::Heartbeat), Ok(vec![]));
    assert_eq!(reply(&mut server, 1, meta::client::Packet::GetMyPuffles), Ok(vec![]));
    assert_eq!(
        reply(&mut server, 1, meta::client::Packet::SendMessage { message: "hi".to_owned() }),
        Ok(vec![])
    );
}

#[test]
fn events_that_the_store_lets_pass() {
    let mut server = joined(&[1]);
    for event in [
        Event::Error,
        Event::DisconnectPlayer,
        Event::Heartbeat,
        Event::PacketSent(1, meta::server::Packet::Loaded),
    ] {
        assert_eq!(server.handle_event(event, 0), Ok(vec![]));
    }
    assert_eq!(server.get_player(1), &player(1, None));
}

#[test]
fn inventory_of_a_player_that_has_not_joined() {
    let mut server = Server::new();
    assert_eq!(
        reply(&mut server, 1, meta::client::Packet::GetInventory),
        Err(Error::PlayerError(1, ServerError::ClientFault(StateError::NotPresent(1))))
    );
}

#[test]
fn get_player_answers_with_the_gist() {
    let mut server = joined(&[1, 2]);
    server.get_mut_player(2).x = 12;
    let mut expected = gist(2);
    expected.x = 12;
    assert_eq!(
        reply(&mut server, 1, meta::client::Packet::GetPlayer { player: 2 }),
        Ok(vec![Event::PacketSent(1, meta::server::Packet::GetPlayer { player: expected })])
    );
    assert_eq!(
        reply(&mut server, 1, meta::client::Packet::GetPlayer { player: 3 }),
        Err(Error::PlayerError(1, ServerError::ClientFault(StateError::NotPresent(3))))
    );
}

#[test]
fn set_position_moves_the_player() {
    let mut server = joined(&[1, 2]);
    assert_eq!(reply(&mut server, 1, meta::client::Packet::SetPosition { x: 395, y: -384 }), Ok(vec![]));
    assert_eq!(
        server.get_player(1),
        &Player { id: 1, nickname: "kirill".to_owned(), room: None, x: 395, y: -384 }
    );
    assert_eq!(server.get_player(2), &player(2, None));
    assert_eq!(
        reply(&mut server, 3, meta::client::Packet::SetPosition { x: 1, y: 1 }),
        Err(Error::PlayerError(3, ServerError::ClientFault(StateError::NotPresent(3))))
    );
}

#[test]
fn transfer_sets_the_room_and_announces_it() {
    let mut server = joined(&[1]);
    assert_eq!(
        server.handle_event(Event::PlayerTransferRoomRequest(1, 230), 0),
        Ok(vec![Event::PlayerJoinedRoom(1, 230)])
    );
    assert_eq!(server.get_player(1), &player(1, Some(230)));
    assert_eq!(
        server.handle_event(Event::PlayerTransferRoomRequest(2, 230), 0),
        Err(Error::PlayerError(2, ServerError::ServerFault(StateError::NotPresent(2))))
    );
}

fn added_notices_for(events: &[Event], to: usize, joiner: &PlayerGist) -> usize {
    events
        .iter()
        .filter(|e| {
            **e == Event::PacketSent(to, meta::server::Packet::AddedPlayer { player: joiner.clone() })
        })
        .count()
}

#[test]
fn room_join_consistency() {
    let mut server = joined(&[1, 2, 3, 4]);
    server.get_mut_player(2).room = Some(230);
    server.get_mut_player(3).room = Some(230);
    server.get_mut_player(4).room = Some(100);

    let follow = server.handle_event(Event::PlayerTransferRoomRequest(1, 230), 0).unwrap();
    assert_eq!(follow, vec![Event::PlayerJoinedRoom(1, 230)]);
    let mut members: Vec<usize> = server.room_players(230).iter().map(|p| p.id).collect();
    members.sort();
    assert_eq!(members, vec![1, 2, 3]);

    let events = server.handle_event(Event::PlayerJoinedRoom(1, 230), 0).unwrap();
    assert_eq!(events.len(), 3);
    match &events[0] {
        Event::PacketSent(1, meta::server::Packet::JoinRoom { room_id: 230, players }) => {
            let mut listed: Vec<usize> = players.iter().map(|g| g.id).collect();
            listed.sort();
            assert_eq!(listed, vec![1, 2, 3]);
        }
        other => panic!("the joiner is sent the roster first, not {:?}", other),
    }
    let joiner = server.get_player(1).duplicate().into_gist();
    assert_eq!(added_notices_for(&events, 2, &joiner), 1);
    assert_eq!(added_notices_for(&events, 3, &joiner), 1);
    assert_eq!(added_notices_for(&events, 1, &joiner), 0);
    assert_eq!(added_notices_for(&events, 4, &joiner), 0);
}

#[test]
fn joined_room_of_a_player_that_is_gone() {
    let mut server = joined(&[2]);
    assert_eq!(
        server.handle_event(Event::PlayerJoinedRoom(1, 230), 0),
        Err(Error::PlayerError(1, ServerError::ServerFault(StateError::NotPresent(1))))
    );
}

#[test]
fn joined_room_events_follow_the_roster() {
    let a = player(1, Some(230));
    let b = player(2, Some(230));
    let c = player(3, Some(230));
    let roster = vec![&b, &a, &c];
    assert_eq!(
        joined_room_events(&a, 230, &roster),
        vec![
            Event::PacketSent(
                1,
                meta::server::Packet::JoinRoom {
                    room_id: 230,
                    players: vec![
                        b.duplicate().into_gist(),
                        a.duplicate().into_gist(),
                        c.duplicate().into_gist()
                    ],
                }
            ),
            Event::PacketSent(2, meta::server::Packet::AddedPlayer { player: a.duplicate().into_gist() }),
            Event::PacketSent(3, meta::server::Packet::AddedPlayer { player: a.duplicate().into_gist() }),
        ]
    );
    assert_eq!(
        joined_room_events(&a, 230, &Vec::new()),
        vec![Event::PacketSent(1, meta::server::Packet::JoinRoom { room_id: 230, players: vec![] })]
    );
}

#[test]
fn automaton_appends_the_answers() {
    let mut server = joined(&[1]);
    let mut out = vec![PacketOut { player_id: 9, packet: meta::server::Packet::Loaded }];
    assert_eq!(
        server.handle_pkt(
            PacketIn::Player { player_id: 1, packet: meta::client::Packet::GetMail, at_millis: 5 },
            &mut out
        ),
        Ok(())
    );
    assert_eq!(
        out,
        vec![
            PacketOut { player_id: 9, packet: meta::server::Packet::Loaded },
            PacketOut { player_id: 1, packet: meta::server::Packet::GetMail {} },
        ]
    );
    assert_eq!(
        server.handle_pkt(
            PacketIn::Player {
                player_id: 2,
                packet: meta::client::Packet::GetInventory,
                at_millis: 5
            },
            &mut out
        ),
        Err(ServerError::ClientFault(StateError::NotPresent(2)))
    );
    assert_eq!(out.len(), 2);
}

#[test]
fn packet_handler_stamps_the_time_rounded_to_the_second() {
    let mut server = Server::new();
    let mut out = Vec::new();
    let join = meta::client::Packet::JoinServer {
        penguin_id: 1,
        login_key: String::new(),
        language: String::new(),
    };
    server.handle_packet(1, join, 1999, &mut out).unwrap();
    assert!(matches!(
        &out[1],
        PacketOut {
            player_id: 1,
            packet: meta::server::Packet::LoadPlayer { penguin_standard_time: 1000, .. }
        }
    ));
}

#[test]
fn server_system_handles_events_on_the_store() {
    let mut store = Server::new();
    let system = system::server::Server;
    assert_eq!(
        system.on_event(&mut store, Event::PlayerConnected(1), 0),
        Ok(vec![Event::PacketSent(1, meta::server::Packet::Loaded)])
    );
    assert_eq!(
        system.on_event(&mut store, Event::PlayerDisconnected(1), 0),
        Err(Error::PlayerError(1, ServerError::ServerFault(StateError::NotPresent(1))))
    );
}
