//! The session store: every player that has joined, by id.

use std::collections::HashMap;
use std::collections::hash_map::Entry;
use std::ops::Deref;
use std::sync::Arc;
use tokio::sync::RwLock;
use vstd::prelude::*;
use vstd::string::StringExecFns;
use vstd::std_specs::hash::EntrySpecFns;
use vstd::std_specs::iter::IteratorSpec;
use vstd::std_specs::hash::OccupiedEntrySpecFns;
use crate::datamodel::{PlayerGist, PlayerGistView, PlayerPuffleGist, RoomId};
use crate::pkt::meta::PlayerId;
use crate::text::{decimal, push_decimal};

verus! {

broadcast use vstd::std_specs::hash::group_hash_axioms;

/// A player that has joined the server.
#[derive(Debug, Clone, PartialEq, Eq)]
pub struct Player {
    pub id: PlayerId,
    pub nickname: String,
    pub room: Option<RoomId>,
    pub x: isize,
    pub y: isize,
}

/// A `Player` as plain values.
pub struct PlayerView {
    pub id: PlayerId,
    pub nickname: Seq<char>,
    pub room: Option<RoomId>,
    pub x: isize,
    pub y: isize,
}

impl View for Player {
    type V = PlayerView;

    open spec fn view(&self) -> PlayerView {
        PlayerView { id: self.id, nickname: self.nickname@, room: self.room, x: self.x, y: self.y }
    }
}

impl PlayerView {
    /// What other clients are told of the player.
    pub open spec fn gist(self) -> PlayerGistView {
        PlayerGistView {
            id: self.id,
            nickname: self.nickname,
            approval: false,
            color: 1,
            head: 429,
            face: 0,
            neck: 0,
            body: 0,
            hand: 0,
            feet: 0,
            flag: 0,
            photo: 0,
            x: self.x,
            y: self.y,
            frame: 1,
            member: true,
            membership_days: 9,
            avatar: 0,
        }
    }
}

impl Player {
    /// A copy of the player.
    pub fn duplicate(&self) -> (out: Player)
        ensures
            out@ == self@,
    {
        Player {
            id: self.id,
            nickname: self.nickname.clone(),
            room: self.room,
            x: self.x,
            y: self.y,
        }
    }

    /// What other clients are told of the player.
    pub fn into_gist(self) -> (out: PlayerGist)
        ensures
            out@ == self@.gist(),
    {
        PlayerGist {
            id: self.id,
            nickname: self.nickname,
            approval: false,
            color: 1,
            head: 429,
            face: 0,
            neck: 0,
            body: 0,
            hand: 0,
            feet: 0,
            flag: 0,
            photo: 0,
            x: self.x,
            y: self.y,
            frame: 1,
            member: true,
            membership_days: 9,
            avatar: 0,
            puffle_state: PlayerPuffleGist {  },
        }
    }
}

/// Why the store refused a change.
#[derive(Debug, Clone, Copy, PartialEq, Eq)]
pub enum StateError {
    /// A player with this id is in the store already.
    AlreadyPresent(PlayerId),
    /// No player with this id is in the store.
    NotPresent(PlayerId),
}

impl StateError {
    /// The error in words.
    pub open spec fn text(self) -> Seq<char> {
        match self {
            StateError::AlreadyPresent(id) => "player already in server"@,
            StateError::NotPresent(id) => "player "@ + decimal(id as nat) + " was not in server"@,
        }
    }

    /// The error in words.
    pub fn message(&self) -> (out: String)
        ensures
            out@ == self.text(),
    {
        match self {
            StateError::AlreadyPresent(_) => String::from_str("player already in server"),
            StateError::NotPresent(id) => {
                let mut out = String::from_str("player ");
                push_decimal(&mut out, *id as u64);
                out.append(" was not in server");
                out
            },
        }
    }
}

/// The views of a sequence of players.
pub open spec fn player_views(v: Seq<&Player>) -> Seq<PlayerView> {
    Seq::new(v.len(), |i: int| v[i]@)
}

/// Whether `roster` lists the players of `state` that are in `room`: each of
/// them once, and no one else.
pub open spec fn is_roster(
    state: Map<PlayerId, PlayerView>,
    room: RoomId,
    roster: Seq<PlayerView>,
) -> bool {
    &&& forall|i: int|
        0 <= i < roster.len() ==> state.contains_key((#[trigger] roster[i]).id) && state[roster[i].id]
            == roster[i] && roster[i].room == Some(room)
    &&& forall|id: PlayerId|
        #[trigger] state.contains_key(id) && state[id].room == Some(room) ==> roster.contains(
            state[id],
        )
    &&& forall|i: int, j: int|
        0 <= i < j < roster.len() ==> (#[trigger] roster[i]).id != (#[trigger] roster[j]).id
}

/// All players, by id.
#[derive(Debug)]
pub struct Server {
    penguins: HashMap<PlayerId, Player>,
}

impl View for Server {
    type V = Map<PlayerId, PlayerView>;

    closed spec fn view(&self) -> Map<PlayerId, PlayerView> {
        self.penguins@.map_values(|p: Player| p@)
    }
}

/// Whether every player of the store is filed under its own id.
pub open spec fn filed_by_id(state: Map<PlayerId, PlayerView>) -> bool {
    forall|id: PlayerId| #[trigger] state.contains_key(id) ==> state[id].id == id
}

impl Server {
    /// A store without players.
    pub fn new() -> (out: Server)
        ensures
            out@ == Map::<PlayerId, PlayerView>::empty(),
    {
        let out = Server { penguins: HashMap::with_capacity(256) };
        assert(out@ =~= Map::<PlayerId, PlayerView>::empty());
        out
    }

    /// Whether every player is filed under its own id.
    pub open spec fn wf(&self) -> bool {
        filed_by_id(self@)
    }

    /// Whether every player is filed under its own id. This holds of a store
    /// whose players are changed through the store alone; whoever changes the
    /// id behind a reference that the store handed out can test it here.
    pub fn is_well_formed(&self) -> (out: bool)
        ensures
            out == self.wf(),
    {
        let ghost all = vstd::std_specs::hash::spec_hash_map_iter(&self.penguins).remaining();
        let ghost inner = self.penguins@;
        for pair in it: self.penguins.iter()
            invariant
                it.seq() == all,
                all == vstd::std_specs::hash::spec_hash_map_iter(&self.penguins).remaining(),
                inner == self.penguins@,
                forall|k: int| 0 <= k < it.index() ==> *(#[trigger] all[k]).0 == all[k].1.id,
        {
            let (id, player) = pair;
            if *id != player.id {
                proof {
                    let k = it.index();
                    assert(inner.contains_key(*all[k].0) && inner[*all[k].0] == *all[k].1);
                    assert(self@.contains_key(*id) && self@[*id].id != *id);
                }
                return false;
            }
        }
        proof {
            assert forall|id: PlayerId| #[trigger] self@.contains_key(id) implies self@[id].id
                == id by {
                assert(inner.contains_key(id));
                assert(all.contains((&id, &inner[id])));
                let k = choose|k: int| 0 <= k < all.len() && all[k] == (&id, &inner[id]);
                assert(*all[k].0 == all[k].1.id);
            }
        }
        true
    }

    /// Whether a player with this id is in the store.
    pub fn has_player(&self, player_id: PlayerId) -> (out: bool)
        ensures
            out == self@.contains_key(player_id),
    {
        self.penguins.contains_key(&player_id)
    }

    /// Files a player under its id. A player whose id is taken is refused, and
    /// the store stays as it is.
    pub fn push_player(&mut self, player: Player) -> (out: Result<(), StateError>)
        ensures
            match out {
                Ok(_) => !old(self)@.contains_key(player.id) && final(self)@ == old(self)@.insert(
                    player.id,
                    player@,
                ),
                Err(e) => old(self)@.contains_key(player.id) && final(self)@ == old(self)@ && e
                    == StateError::AlreadyPresent(player.id),
            },
            old(self).wf() ==> final(self).wf(),
    {
        if self.penguins.contains_key(&player.id) {
            return Err(StateError::AlreadyPresent(player.id));
        }
        let ghost id = player.id;
        let ghost view = player@;
        self.penguins.insert(player.id, player);
        assert(self@ =~= old(self)@.insert(id, view));
        Ok(())
    }

    /// The player with this id.
    pub fn get_player(&self, player_id: PlayerId) -> (out: &Player)
        requires
            self@.contains_key(player_id),
        ensures
            out@ == self@[player_id],
    {
        match self.penguins.get(&player_id) {
            Some(p) => p,
            None => vstd::pervasive::unreached(),
        }
    }

    /// The player with this id, to be changed in place. The store holds
    /// whatever the caller leaves behind the reference.
    pub fn get_mut_player(&mut self, player_id: PlayerId) -> (out: &mut Player)
        requires
            old(self)@.contains_key(player_id),
        ensures
            out@ == old(self)@[player_id],
            final(self)@ == old(self)@.insert(player_id, final(out)@),
    {
        match self.penguins.entry(player_id) {
            Entry::Occupied(e) => e.into_mut(),
            Entry::Vacant(_) => vstd::pervasive::unreached(),
        }
    }

    /// Takes the player with this id out of the store. Where there is none, the
    /// store stays as it is.
    pub fn pop_player(&mut self, player_id: PlayerId) -> (out: Result<(), StateError>)
        ensures
            match out {
                Ok(_) => old(self)@.contains_key(player_id) && final(self)@ == old(self)@.remove(
                    player_id,
                ),
                Err(e) => !old(self)@.contains_key(player_id) && final(self)@ == old(self)@ && e
                    == StateError::NotPresent(player_id),
            },
            old(self).wf() ==> final(self).wf(),
    {
        match self.penguins.remove(&player_id) {
            None => {
                assert(self@ =~= old(self)@);
                Err(StateError::NotPresent(player_id))
            },
            Some(_) => {
                assert(self@ =~= old(self)@.remove(player_id));
                Ok(())
            },
        }
    }

    /// The players that are in this room, each once, in no particular order.
    pub fn room_players(&self, room_id: RoomId) -> (out: Vec<&Player>)
        requires
            self.wf(),
        ensures
            is_roster(self@, room_id, player_views(out@)),
    {
        let mut out: Vec<&Player> = Vec::new();
        let ghost mut picked: Seq<int> = Seq::empty();
        let ghost all = vstd::std_specs::hash::spec_hash_map_iter(&self.penguins).remaining();
        for pair in it: self.penguins.iter()
            invariant
                it.seq() == all,
                picked.len() == out@.len(),
                forall|i: int|
                    0 <= i < picked.len() ==> 0 <= (#[trigger] picked[i]) < it.index() && *out@[i]
                        == *all[picked[i]].1 && all[picked[i]].1.room == Some(room_id),
                forall|i: int, j: int|
                    0 <= i < j < picked.len() ==> (#[trigger] picked[i]) < (#[trigger] picked[j]),
                forall|k: int|
                    0 <= k < it.index() && (#[trigger] all[k]).1.room == Some(room_id)
                        ==> picked.contains(k),
        {
            let ghost k = it.index();
            let (id, player) = pair;
            assert(pair == all[k]);
            if player.room == Some(room_id) {
                out.push(player);
                proof {
                    let before = picked;
                    picked = picked.push(k);
                    assert forall|m: int|
                        0 <= m < k + 1 && (#[trigger] all[m]).1.room == Some(room_id)
                    implies picked.contains(m) by {
                        if m < k {
                            assert(before.contains(m));
                            let w = choose|w: int| 0 <= w < before.len() && before[w] == m;
                            assert(picked[w] == m);
                        } else {
                            assert(picked[picked.len() - 1] == m);
                        }
                    }
                }
            }
        }
        proof {
            let state = self@;
            let inner = self.penguins@;
            let roster = player_views(out@);
            assert(all.len() == inner.dom().len());
            assert forall|i: int| 0 <= i < roster.len() implies state.contains_key(
                (#[trigger] roster[i]).id,
            ) && state[roster[i].id] == roster[i] && roster[i].room == Some(room_id) by {
                let k = picked[i];
                let key = *all[k].0;
                assert(inner.contains_key(key) && inner[key] == *all[k].1);
                assert(state.contains_key(key) && state[key] == inner[key]@);
                assert(roster[i] == out@[i]@);
            }
            assert forall|id: PlayerId| #[trigger]
                state.contains_key(id) && state[id].room == Some(room_id) implies roster.contains(
                state[id],
            ) by {
                assert(inner.contains_key(id));
                assert(all.contains((&id, &inner[id])));
                let k = choose|k: int| 0 <= k < all.len() && all[k] == (&id, &inner[id]);
                assert(all[k].1.room == Some(room_id));
                assert(picked.contains(k));
                let w = choose|w: int| 0 <= w < picked.len() && picked[w] == k;
                assert(roster[w] == state[id]);
            }
            assert forall|i: int, j: int| 0 <= i < j < roster.len() implies (#[trigger] roster[i]).id
                != (#[trigger] roster[j]).id by {
                let a = picked[i];
                let b = picked[j];
                assert(a < b);
                let ka = *all[a].0;
                let kb = *all[b].0;
                assert(inner.contains_key(ka) && inner[ka] == *all[a].1);
                assert(inner.contains_key(kb) && inner[kb] == *all[b].1);
                assert(state.contains_key(ka) && state[ka] == inner[ka]@);
                assert(state.contains_key(kb) && state[kb] == inner[kb]@);
                assert(roster[i] == out@[i]@ && roster[j] == out@[j]@);
                if roster[i].id == roster[j].id {
                    assert(ka == kb);
                    assert(all[a] == all[b]);
                    assert(false);
                }
            }
        }
        out
    }
}

/// `tokio::sync::RwLock`, a lock that lets many read or one write. Trusted
/// as a value that is carried and handed on; nothing inside it is looked at.
#[verifier::external_type_specification]
#[verifier::external_body]
#[verifier::reject_recursive_types(T)]
pub struct ExRwLock<T: ?Sized>(RwLock<T>);

/// The session store as the systems share it: one store behind a lock that
/// lets many read or one write.
#[derive(Clone, Debug)]
pub struct ServerState(Arc<RwLock<Server>>);

/// The players of the store that a lock was made around. What the lock holds
/// later is whatever those who took the lock have left in it.
pub uninterp spec fn made_around(lock: RwLock<Server>) -> Map<PlayerId, PlayerView>;

/// A lock around the store.
///
/// Trusted: stands for `tokio::sync::RwLock::new`, which puts its argument
/// behind the lock that it returns. The contract names that argument as what
/// the lock was made around, and claims nothing of what the lock holds later.
#[verifier::external_body]
fn guarded(server: Server) -> (out: RwLock<Server>)
    ensures
        made_around(out) == server@,
{
    RwLock::new(server)
}

impl ServerState {
    /// The lock that the store is behind, with the count of those who share
    /// it.
    pub closed spec fn lock(&self) -> Arc<RwLock<Server>> {
        self.0
    }

    /// The players that the shared store started with.
    pub open spec fn initial(&self) -> Map<PlayerId, PlayerView> {
        made_around(*self.lock())
    }

    /// A shared store that starts without players.
    pub fn new() -> (out: ServerState)
        ensures
            out.initial() == Map::<PlayerId, PlayerView>::empty(),
    {
        ServerState(Arc::new(guarded(Server::new())))
    }
}

impl Deref for ServerState {
    type Target = Arc<RwLock<Server>>;

    /// The lock that the store is behind.
    fn deref(&self) -> (out: &Self::Target)
        ensures
            *out == self.lock(),
    {
        &self.0
    }
}

} // verus!
