use xt_gateway::datamodel::{PlayerGist, PlayerPuffleGist};
use xt_gateway::server::state::{Player, Server, StateError};

fn player(id: usize, room: Option<usize>) -> Player {
    Player { id, nickname: format!("p{}", id), room, x: 0, y: 0 }
}

fn ids(mut players: Vec<&Player>) -> Vec<usize> {
    players.sort_by_key(|p| p.id);
    players.iter().map(|p| p.id).collect()
}

#[test]
fn push_and_get_player() {
    let mut server = Server::new();
    assert!(!server.has_player(1));
    assert_eq!(server.push_player(player(1, None)), Ok(()));
    assert!(server.has_player(1));
    assert_eq!(server.get_player(1), &player(1, None));
}

#[test]
fn push_refuses_an_id_that_is_taken() {
    let mut server = Server::new();
    assert_eq!(server.push_player(player(1, Some(100))), Ok(()));
    let mut other = player(1, Some(200));
    other.nickname = "intruder".to_owned();
    assert_eq!(server.push_player(other), Err(StateError::AlreadyPresent(1)));
    assert_eq!(server.get_player(1), &player(1, Some(100)));
}

#[test]
fn pop_player_removes_once() {
    let mut server = Server::new();
    assert_eq!(server.pop_player(1), Err(StateError::NotPresent(1)));
    server.push_player(player(1, None)).unwrap();
    server.push_player(player(2, None)).unwrap();
    assert_eq!(server.pop_player(1), Ok(()));
    assert!(!server.has_player(1));
    assert!(server.has_player(2));
    assert_eq!(server.pop_player(1), Err(StateError::NotPresent(1)));
    assert_eq!(server.push_player(player(1, None)), Ok(()));
}

#[test]
fn get_mut_player_changes_in_place() {
    let mut server = Server::new();
    server.push_player(player(1, None)).unwrap();
    server.push_player(player(2, None)).unwrap();
    {
        let p = server.get_mut_player(1);
        p.room = Some(230);
        p.x = -5;
        p.y = 9;
    }
    assert_eq!(
        server.get_player(1),
        &Player { id: 1, nickname: "p1".to_owned(), room: Some(230), x: -5, y: 9 }
    );
    assert_eq!(server.get_player(2), &player(2, None));
}

#[test]
fn room_players_lists_the_room_only() {
    let mut server = Server::new();
    assert!(server.room_players(230).is_empty());
    server.push_player(player(1, Some(230))).unwrap();
    server.push_player(player(2, None)).unwrap();
    server.push_player(player(3, Some(100))).unwrap();
    server.push_player(player(4, Some(230))).unwrap();
    assert_eq!(ids(server.room_players(230)), vec![1, 4]);
    assert_eq!(ids(server.room_players(100)), vec![3]);
    assert!(server.room_players(7).is_empty());
    server.pop_player(1).unwrap();
    assert_eq!(ids(server.room_players(230)), vec![4]);
}

#[test]
fn gist_of_a_player() {
    let p = Player { id: 102, nickname: "kirill".to_owned(), room: Some(230), x: 395, y: -384 };
    assert_eq!(p.duplicate(), p);
    assert_eq!(
        p.into_gist(),
        PlayerGist {
            id: 102,
            nickname: "kirill".to_owned(),
            approval: false,
            color: 1,
            head: 429,
            face: 0,
            neck: 0,
            body: 0,
            hand: 0,
            feet: 0,
            flag: 0,
            photo: 0,
            x: 395,
            y: -384,
            frame: 1,
            member: true,
            membership_days: 9,
            avatar: 0,
            puffle_state: PlayerPuffleGist {},
        }
    );
}

#[test]
fn store_errors_in_words() {
    assert_eq!(StateError::AlreadyPresent(7).message(), "player already in server");
    assert_eq!(StateError::NotPresent(102).message(), "player 102 was not in server");
}

#[test]
fn store_is_well_formed_until_an_id_is_changed_behind_its_back() {
    let mut server = Server::new();
    assert!(server.is_well_formed());
    server.push_player(player(1, None)).unwrap();
    server.push_player(player(2, Some(230))).unwrap();
    assert!(server.is_well_formed());
    server.get_mut_player(1).id = 9;
    assert!(!server.is_well_formed());
    server.get_mut_player(1).id = 1;
    assert!(server.is_well_formed());
}

#[test]
fn shared_store_starts_without_players() {
    let shared = xt_gateway::server::state::ServerState::new();
    let other = shared.clone();
    {
        let mut store = shared.try_write().expect("nobody holds the lock");
        assert!(!store.has_player(1));
        store.push_player(player(1, None)).unwrap();
    }
    let store = other.try_read().expect("nobody holds the lock");
    assert!(store.has_player(1));
}
