//! The players that are online: where each stands and what it does.
use crate::properties::{
    law_insert_keeps_ids_distinct,
    law_remove_forgets,
    law_same_players_keep_ids_distinct,
    same_players,
};
use vstd::prelude::*;

verus! {

/// The bits of the double -1.0, the position of a player that just entered a room.
pub const MINUS_ONE_BITS: u64 = 0xBFF0_0000_0000_0000;

/// Where a player is and what it does.
pub struct PlayerState {
    /// The room, empty when the player is in none.
    pub room: String,
    /// The position, as the bits of two doubles.
    pub position: (u64, u64),
    pub direction: i32,
    pub state: i32,
    pub action_tag: String,
}

impl PlayerState {
    /// A player that just logged in: in no room, at the origin, facing 4.
    pub fn new() -> (r: PlayerState)
        ensures
            r.room@ == Seq::<char>::empty(),
            r.position == (0u64, 0u64),
            r.direction == 4,
            r.state == 0,
            r.action_tag@ == Seq::<char>::empty(),
    {
        PlayerState {
            room: String::new(),
            position: (0, 0),
            direction: 4,
            state: 0,
            action_tag: String::new(),
        }
    }

    /// Puts the player into `room`, at (-1, -1), facing 4, in state 0, without action.
    pub fn enter_room(&mut self, room: &str)
        ensures
            final(self).room@ == room@,
            final(self).position == (MINUS_ONE_BITS, MINUS_ONE_BITS),
            final(self).direction == 4,
            final(self).state == 0,
            final(self).action_tag@ == Seq::<char>::empty(),
    {
        self.room = room.to_owned();
        self.position = (MINUS_ONE_BITS, MINUS_ONE_BITS);
        self.direction = 4;
        self.state = 0;
        self.action_tag = String::new();
    }

    /// Takes the player out of its room and gives the room back; a player in
    /// no room stays as it is.
    pub fn leave_room(&mut self) -> (r: Option<String>)
        ensures
            old(self).room@.len() == 0 ==> r is None && *final(self) == *old(self),
            old(self).room@.len() > 0 ==> (r matches Some(room) && room@ == old(self).room@
                && final(self).room@ == Seq::<char>::empty() && final(self).position == old(self).position && final(self).direction == old(self).direction && final(self).state
                == old(self).state && final(self).action_tag == old(self).action_tag),
    {
        if self.room.as_str().is_empty() {
            return None;
        }
        let room = self.room.clone();
        self.room = String::new();
        Some(room)
    }

    /// Records a move: position, direction, state and action tag.
    pub fn update(&mut self, x: u64, y: u64, direction: i32, state: i32, action_tag: String)
        ensures
            final(self).room == old(self).room,
            final(self).position == (x, y),
            final(self).direction == direction,
            final(self).state == state,
            final(self).action_tag == action_tag,
    {
        self.position = (x, y);
        self.direction = direction;
        self.state = state;
        self.action_tag = action_tag;
    }
}

/// The online players, by user id.
pub struct World {
    pub players: Vec<(String, PlayerState)>,
}

/// The position of the first player with user id `uid`, if any.
pub open spec fn uid_index(ps: Seq<(String, PlayerState)>, uid: Seq<char>) -> Option<int>
    decreases ps.len(),
{
    if ps.len() == 0 {
        None
    } else {
        match uid_index(ps.drop_last(), uid) {
            Some(i) => Some(i),
            None => if ps.last().0@ == uid {
                Some(ps.len() - 1)
            } else {
                None
            },
        }
    }
}

pub proof fn lemma_uid_index(ps: Seq<(String, PlayerState)>, uid: Seq<char>)
    ensures
        match uid_index(ps, uid) {
            Some(i) => 0 <= i < ps.len() && ps[i].0@ == uid && forall|j: int|
                0 <= j < i ==> ps[j].0@ != uid,
            None => forall|j: int| 0 <= j < ps.len() ==> ps[j].0@ != uid,
        },
    decreases ps.len(),
{
    if ps.len() > 0 {
        lemma_uid_index(ps.drop_last(), uid);
        assert(forall|j: int| 0 <= j < ps.len() - 1 ==> ps.drop_last()[j] == ps[j]);
    }
}

/// The user ids of the players in `room`, in order, leaving out `except`.
pub open spec fn members(ps: Seq<(String, PlayerState)>, room: Seq<char>, except: Option<Seq<char>>) -> Seq<Seq<char>>
    decreases ps.len(),
{
    if ps.len() == 0 {
        Seq::empty()
    } else {
        let before = members(ps.drop_last(), room, except);
        let (uid, p) = ps.last();
        if p.room@ == room && except != Some(uid@) {
            before.push(uid@)
        } else {
            before
        }
    }
}

/// No user id occurs twice.
pub open spec fn distinct_uids(ps: Seq<(String, PlayerState)>) -> bool {
    forall|i: int, j: int| 0 <= i < j < ps.len() ==> ps[i].0@ != ps[j].0@
}

/// The players `ps` with `uid` recorded in state `p`: its earlier record is
/// replaced in place, a new player comes last.
pub open spec fn world_insert(ps: Seq<(String, PlayerState)>, uid: String, p: PlayerState) -> Seq<(String, PlayerState)> {
    match uid_index(ps, uid@) {
        Some(i) => ps.update(i, (uid, p)),
        None => ps.push((uid, p)),
    }
}

/// The players `ps` without the player `uid`.
pub open spec fn world_remove(ps: Seq<(String, PlayerState)>, uid: Seq<char>) -> Seq<(String, PlayerState)> {
    match uid_index(ps, uid) {
        Some(i) => ps.remove(i),
        None => ps,
    }
}

/// The text of an optional string slice.
pub open spec fn opt_view(e: Option<&str>) -> Option<Seq<char>> {
    match e {
        Some(x) => Some(x@),
        None => None,
    }
}

impl World {
    /// No player online.
    pub fn new() -> (r: World)
        ensures
            r.players@.len() == 0,
            distinct_uids(r.players@),
    {
        World { players: Vec::new() }
    }

    fn position(&self, uid: &str) -> (r: Option<usize>)
        ensures
            match r {
                Some(i) => uid_index(self.players@, uid@) == Some(i as int) && i
                    < self.players@.len(),
                None => uid_index(self.players@, uid@) is None,
            },
    {
        proof {
            lemma_uid_index(self.players@, uid@);
        }
        let key = uid.to_owned();
        let n = self.players.len();
        let mut i: usize = 0;
        while i < n
            invariant
                n == self.players@.len(),
                0 <= i <= n,
                key@ == uid@,
                forall|j: int| 0 <= j < i ==> self.players@[j].0@ != uid@,
                match uid_index(self.players@, uid@) {
                    Some(x) => 0 <= x < n && self.players@[x].0@ == uid@ && forall|j: int|
                        0 <= j < x ==> self.players@[j].0@ != uid@,
                    None => forall|j: int| 0 <= j < n ==> self.players@[j].0@ != uid@,
                },
            decreases n - i,
        {
            if self.players[i].0 == key {
                return Some(i);
            }
            i = i + 1;
        }
        None
    }

    /// Whether the player `uid` is online.
    pub fn contains(&self, uid: &str) -> (r: bool)
        ensures
            r == uid_index(self.players@, uid@) is Some,
    {
        self.position(uid).is_some()
    }

    /// The state of the player `uid`.
    pub fn get(&self, uid: &str) -> (r: Option<&PlayerState>)
        ensures
            match uid_index(self.players@, uid@) {
                Some(i) => r == Some(&self.players@[i].1),
                None => r is None,
            },
    {
        match self.position(uid) {
            Some(i) => Some(&self.players[i].1),
            None => None,
        }
    }

    /// Records the player `uid` as online with state `p`, replacing what was
    /// recorded of it.
    pub fn insert(&mut self, uid: String, p: PlayerState)
        ensures
            final(self).players@ == world_insert(old(self).players@, uid, p),
            distinct_uids(old(self).players@) ==> distinct_uids(final(self).players@),
    {
        proof {
            if distinct_uids(self.players@) {
                law_insert_keeps_ids_distinct(self.players@, uid, p);
            }
        }
        match self.position(uid.as_str()) {
            Some(i) => {
                self.players.set(i, (uid, p));
            },
            None => {
                self.players.push((uid, p));
            },
        }
    }

    /// Forgets the player `uid`.
    pub fn remove(&mut self, uid: &str)
        ensures
            final(self).players@ == world_remove(old(self).players@, uid@),
            distinct_uids(old(self).players@) ==> distinct_uids(final(self).players@),
    {
        proof {
            if distinct_uids(self.players@) {
                law_remove_forgets(self.players@, uid@);
            }
        }
        match self.position(uid) {
            Some(i) => {
                self.players.remove(i);
            },
            None => {},
        }
    }

    /// Enters the player `uid` into `room` (see [`PlayerState::enter_room`]).
    /// Gives false, changing nothing, where the player is not online.
    pub fn enter_room(&mut self, uid: &str, room: &str) -> (r: bool)
        ensures
            r == uid_index(old(self).players@, uid@) is Some,
            match uid_index(old(self).players@, uid@) {
                Some(i) => final(self).players@.len() == old(self).players@.len()
                    && final(self).players@[i].0 == old(self).players@[i].0 && final(self).players@[i].1.room@ == room@ && final(self).players@[i].1.position == (
                    MINUS_ONE_BITS,
                    MINUS_ONE_BITS,
                ) && final(self).players@[i].1.direction == 4 && final(self).players@[i].1.state
                    == 0 && final(self).players@[i].1.action_tag@ == Seq::<char>::empty()
                    && forall|j: int|
                    0 <= j < old(self).players@.len() && j != i ==> final(self).players@[j]
                        == old(self).players@[j],
                None => final(self).players@ == old(self).players@,
            },
            distinct_uids(old(self).players@) ==> distinct_uids(final(self).players@),
    {
        let ghost before = self.players@;
        match self.position(uid) {
            Some(i) => {
                let mut entry = self.players.remove(i);
                entry.1.enter_room(room);
                self.players.insert(i, entry);
                proof {
                    if distinct_uids(before) {
                        assert(same_players(before, self.players@));
                        law_same_players_keep_ids_distinct(before, self.players@);
                    }
                }
                true
            },
            None => false,
        }
    }

    /// Takes the player `uid` out of its room (see [`PlayerState::leave_room`]).
    pub fn leave_room(&mut self, uid: &str) -> (r: Option<Option<String>>)
        ensures
            match uid_index(old(self).players@, uid@) {
                Some(i) => {
                    let p = old(self).players@[i].1;
                    &&& final(self).players@.len() == old(self).players@.len()
                    &&& final(self).players@[i].0 == old(self).players@[i].0
                    &&& forall|j: int|
                        0 <= j < old(self).players@.len() && j != i ==> final(self).players@[j]
                            == old(self).players@[j]
                    &&& if p.room@.len() == 0 {
                        r == Some(None::<String>) && final(self).players@[i].1 == p
                    } else {
                        r matches Some(Some(room)) && room@ == p.room@ && final(self).players@[i].1.room@ == Seq::<char>::empty()
                    }
                },
                None => r is None && final(self).players@ == old(self).players@,
            },
            distinct_uids(old(self).players@) ==> distinct_uids(final(self).players@),
    {
        let ghost before = self.players@;
        match self.position(uid) {
            Some(i) => {
                let mut entry = self.players.remove(i);
                let left = entry.1.leave_room();
                self.players.insert(i, entry);
                proof {
                    if distinct_uids(before) {
                        assert(same_players(before, self.players@));
                        law_same_players_keep_ids_distinct(before, self.players@);
                    }
                }
                Some(left)
            },
            None => None,
        }
    }

    /// Records a move of the player `uid` (see [`PlayerState::update`]).
    pub fn update(
        &mut self,
        uid: &str,
        x: u64,
        y: u64,
        direction: i32,
        state: i32,
        action_tag: String,
    ) -> (r: bool)
        ensures
            r == uid_index(old(self).players@, uid@) is Some,
            match uid_index(old(self).players@, uid@) {
                Some(i) => final(self).players@.len() == old(self).players@.len()
                    && final(self).players@[i].0 == old(self).players@[i].0 && final(self).players@[i].1.room == old(self).players@[i].1.room && final(self).players@[i].1.position
                    == (x, y) && final(self).players@[i].1.direction == direction && final(self).players@[i].1.state == state && final(self).players@[i].1.action_tag
                    == action_tag && forall|j: int|
                    0 <= j < old(self).players@.len() && j != i ==> final(self).players@[j]
                        == old(self).players@[j],
                None => final(self).players@ == old(self).players@,
            },
            distinct_uids(old(self).players@) ==> distinct_uids(final(self).players@),
    {
        let ghost before = self.players@;
        match self.position(uid) {
            Some(i) => {
                let mut entry = self.players.remove(i);
                entry.1.update(x, y, direction, state, action_tag);
                self.players.insert(i, entry);
                proof {
                    if distinct_uids(before) {
                        assert(same_players(before, self.players@));
                        law_same_players_keep_ids_distinct(before, self.players@);
                    }
                }
                true
            },
            None => false,
        }
    }

    /// The user ids of the players in `room`, leaving out `except`.
    pub fn members(&self, room: &str, except: Option<&str>) -> (r: Vec<String>)
        ensures
            r@.len() == members(self.players@, room@, opt_view(except)).len(),
            forall|i: int|
                0 <= i < r@.len() ==> #[trigger] r@[i]@ == members(
                    self.players@,
                    room@,
                    opt_view(except),
                )[i],
    {
        let ghost ex = opt_view(except);
        let target = room.to_owned();
        let skip: Option<String> = match except {
            Some(e) => Some(e.to_owned()),
            None => None,
        };
        let n = self.players.len();
        let mut out: Vec<String> = Vec::new();
        let mut i: usize = 0;
        while i < n
            invariant
                n == self.players@.len(),
                0 <= i <= n,
                target@ == room@,
                ex == opt_view(except),
                match skip {
                    Some(s) => ex == Some(s@),
                    None => ex is None,
                },
                out@.len() == members(self.players@.take(i as int), room@, ex).len(),
                forall|j: int|
                    0 <= j < out@.len() ==> #[trigger] out@[j]@ == members(
                        self.players@.take(i as int),
                        room@,
                        ex,
                    )[j],
            decreases n - i,
        {
            let ghost t = self.players@.take(i as int + 1);
            assert(t.drop_last() =~= self.players@.take(i as int));
            assert(t.last() == self.players@[i as int]);
            let in_room = self.players[i].1.room == target;
            let excluded = match &skip {
                Some(s) => self.players[i].0 == *s,
                None => false,
            };
            if in_room && !excluded {
                out.push(self.players[i].0.clone());
            }
            i = i + 1;
        }
        assert(self.players@.take(n as int) =~= self.players@);
        out
    }
}

} // verus!
