//! Rooms: which module a room belongs to, and entering, leaving, moving and
//! acting in a room, with the notices that the players in it receive.
use crate::modules::{
    as_object,
    as_str,
    f64_field,
    get_f64_field,
    get_i32_field,
    get_str_field,
    i32_field,
    message_text,
    reply,
    request_data,
    str_field,
    MISSING_FIELD,
    NOT_ONLINE,
};
use crate::text::{lemma_split_nonempty, split, split_chars};
use crate::value::{lemma_seq_model, obj_get, seq_model, str_value, Object, SpecValue, Value};
use crate::world::{distinct_uids, members, uid_index, PlayerState, World, MINUS_ONE_BITS};
use vstd::prelude::*;
use vstd::string::StringExecFns;

verus! {

/// The message type of the notice that a player entered a room.
pub const TYPE_JOINED: u8 = 16;

/// The message type of the notice that a player left a room.
pub const TYPE_LEFT: u8 = 17;

/// The error of a refresh for a player that is not online.
pub const REFRESH_ERROR: &'static str = "Can't refresh avatar";

/// The module prefix of a room, after the part of its name before the first
/// underscore: "h" for a house, "w" for work, "o" for anything else.
pub open spec fn prefix_spec(room: Seq<char>) -> Seq<char> {
    let first = split_chars(room, '_')[0];
    if first == "house"@ {
        "h"@
    } else if first == "work"@ {
        "w"@
    } else {
        "o"@
    }
}

/// The module prefix of a room (see [`prefix_spec`]).
pub fn get_prefix(room: &str) -> (r: &'static str)
    ensures
        r@ == prefix_spec(room@),
{
    let parts = split(room, '_');
    proof {
        lemma_split_nonempty(room@, '_');
    }
    if parts[0] == "house".to_owned() {
        "h"
    } else if parts[0] == "work".to_owned() {
        "w"
    } else {
        "o"
    }
}

/// The text `a` followed by `b`.
pub fn join_text(a: &str, b: &str) -> (r: String)
    ensures
        r@ == a@ + b@,
{
    let mut out = a.to_owned();
    out.append(b);
    out
}

/// The user ids of a list of strings.
pub open spec fn uids_view(v: Seq<String>) -> Seq<Seq<char>> {
    Seq::new(v.len(), |i: int| v[i]@)
}

/// Whether `after` is `before` with the player `uid` put into `room` as
/// [`PlayerState::enter_room`] does; a player that is not online changes nothing.
pub open spec fn entered(
    before: Seq<(String, PlayerState)>,
    after: Seq<(String, PlayerState)>,
    uid: Seq<char>,
    room: Seq<char>,
) -> bool {
    match uid_index(before, uid) {
        Some(i) => {
            &&& after.len() == before.len()
            &&& after[i].0 == before[i].0
            &&& after[i].1.room@ == room
            &&& after[i].1.position == (MINUS_ONE_BITS, MINUS_ONE_BITS)
            &&& after[i].1.direction == 4
            &&& after[i].1.state == 0
            &&& after[i].1.action_tag@ == Seq::<char>::empty()
            &&& forall|j: int| 0 <= j < before.len() && j != i ==> after[j] == before[j]
        },
        None => after == before,
    }
}

/// Puts the player `uid` into `room` and gives the players that the notices
/// of its arrival go to: everyone in the room, itself included.
pub fn join_room(world: &mut World, uid: &str, room: &str) -> (r: Result<Vec<String>, &'static str>)
    ensures
        entered(old(world).players@, final(world).players@, uid@, room@),
        uid_index(old(world).players@, uid@) is None ==> r == Err::<Vec<String>, &'static str>(NOT_ONLINE),
        uid_index(old(world).players@, uid@) is Some ==> (r matches Ok(recipients) && uids_view(recipients@)
            == members(final(world).players@, room@, None)),
        distinct_uids(old(world).players@) ==> distinct_uids(final(world).players@),
{
    if !world.enter_room(uid, room) {
        return Err(NOT_ONLINE);
    }
    let recipients = world.members(room, None);
    assert(uids_view(recipients@) =~= members(world.players@, room@, None));
    Ok(recipients)
}

/// The notice that a player entered `room`: "<prefix>.r.jn" with its description.
pub fn join_notice(room: &str, plr: Object) -> (r: Vec<Value>)
    ensures
        seq_model(r@) == seq![
            SpecValue::Str(prefix_spec(room@) + ".r.jn"@),
            SpecValue::Object(seq![("plr"@, SpecValue::Object(plr@))]),
        ],
{
    let ghost p = plr@;
    let command = join_text(get_prefix(room), ".r.jn");
    let mut data = Object::new();
    data.push_entry("plr", Value::Object(plr));
    assert(data@ =~= seq![("plr"@, SpecValue::Object(p))]);
    reply(command.as_str(), data)
}

/// The short notice that a player entered or left a room: the room and the player.
pub fn room_event(room: &str, uid: &str) -> (r: Vec<Value>)
    ensures
        seq_model(r@) == seq![SpecValue::Str(room@), SpecValue::Str(uid@)],
{
    let mut v: Vec<Value> = Vec::new();
    v.push(str_value(room));
    v.push(str_value(uid));
    proof {
        lemma_seq_model(v@);
        assert(seq_model(v@) =~= seq![SpecValue::Str(room@), SpecValue::Str(uid@)]);
    }
    v
}

/// Whether `after` is `before` with the player `uid` taken out of the room
/// `room` it was in: its room becomes empty, every other record stays.
pub open spec fn left_room(
    before: Seq<(String, PlayerState)>,
    after: Seq<(String, PlayerState)>,
    uid: Seq<char>,
    room: Seq<char>,
) -> bool {
    match uid_index(before, uid) {
        Some(i) => {
            &&& before[i].1.room@ == room
            &&& room.len() > 0
            &&& after.len() == before.len()
            &&& after[i].0 == before[i].0
            &&& after[i].1.room@ == Seq::<char>::empty()
            &&& forall|j: int| 0 <= j < before.len() && j != i ==> after[j] == before[j]
        },
        None => false,
    }
}

/// Takes the player `uid` out of its room. A player in no room stays as it
/// is (`None`); otherwise the room it left is given back with the players
/// that the notices of its leaving go to: those still in the room.
pub fn leave_room(world: &mut World, uid: &str) -> (r: Result<Option<(String, Vec<String>)>, &'static str>)
    ensures
        match uid_index(old(world).players@, uid@) {
            None => r == Err::<Option<(String, Vec<String>)>, &'static str>(NOT_ONLINE)
                && final(world).players@ == old(world).players@,
            Some(i) => {
                let p = old(world).players@[i].1;
                if p.room@.len() == 0 {
                    r matches Ok(None) && final(world).players@ == old(world).players@
                } else {
                    &&& left_room(old(world).players@, final(world).players@, uid@, p.room@)
                    &&& r matches Ok(Some((room, recipients)))
                    &&& room@ == p.room@
                    &&& uids_view(recipients@) == members(final(world).players@, p.room@, None)
                }
            },
        },
        distinct_uids(old(world).players@) ==> distinct_uids(final(world).players@),
{
    match world.leave_room(uid) {
        None => Err(NOT_ONLINE),
        Some(None) => Ok(None),
        Some(Some(room)) => {
            let recipients = world.members(room.as_str(), None);
            assert(uids_view(recipients@) =~= members(world.players@, room@, None));
            Ok(Some((room, recipients)))
        },
    }
}

/// The notice that the player `uid` left `room`: "<prefix>.r.lv" with its id.
pub fn leave_notice(room: &str, uid: &str) -> (r: Vec<Value>)
    ensures
        seq_model(r@) == seq![
            SpecValue::Str(prefix_spec(room@) + ".r.lv"@),
            SpecValue::Object(seq![("uid"@, SpecValue::Str(uid@))]),
        ],
{
    let command = join_text(get_prefix(room), ".r.lv");
    let mut data = Object::new();
    data.push_entry("uid", str_value(uid));
    reply(command.as_str(), data)
}

/// What a command inside a room asks for.
pub enum RoomCommand {
    /// "ra": show the player's description again to the room.
    RefreshAvatar,
    /// "u": the player moved.
    Update,
    /// "m": the player does something the room should see.
    Action,
}

/// The room command named by `segment`, the third piece of a command name.
pub open spec fn room_command_spec(segment: Seq<char>) -> Option<RoomCommand> {
    if segment == "ra"@ {
        Some(RoomCommand::RefreshAvatar)
    } else if segment == "u"@ {
        Some(RoomCommand::Update)
    } else if segment == "m"@ {
        Some(RoomCommand::Action)
    } else {
        None
    }
}

/// The room command named by `segment` (see [`room_command_spec`]).
pub fn room_command(segment: &str) -> (r: Option<RoomCommand>)
    ensures
        r == room_command_spec(segment@),
{
    let s = segment.to_owned();
    if s == "ra".to_owned() {
        Some(RoomCommand::RefreshAvatar)
    } else if s == "u".to_owned() {
        Some(RoomCommand::Update)
    } else if s == "m".to_owned() {
        Some(RoomCommand::Action)
    } else {
        None
    }
}

/// The room of the player `uid`, with the players that a refresh of its
/// description goes to: everyone in that room.
pub fn refresh_avatar(world: &World, uid: &str) -> (r: Result<(String, Vec<String>), &'static str>)
    ensures
        match uid_index(world.players@, uid@) {
            None => r == Err::<(String, Vec<String>), &'static str>(REFRESH_ERROR),
            Some(i) => r matches Ok((room, recipients)) && room@ == world.players@[i].1.room@
                && uids_view(recipients@) == members(world.players@, room@, None),
        },
{
    match world.get(uid) {
        None => Err(REFRESH_ERROR),
        Some(p) => {
            let room = p.room.clone();
            let recipients = world.members(room.as_str(), None);
            assert(uids_view(recipients@) =~= members(world.players@, room@, None));
            Ok((room, recipients))
        },
    }
}

/// The refreshed description of a player, for everyone in `room`: "<prefix>.r.ra".
pub fn refresh_notice(room: &str, plr: Object) -> (r: Vec<Value>)
    ensures
        seq_model(r@) == seq![
            SpecValue::Str(prefix_spec(room@) + ".r.ra"@),
            SpecValue::Object(seq![("plr"@, SpecValue::Object(plr@))]),
        ],
{
    let ghost p = plr@;
    let command = join_text(get_prefix(room), ".r.ra");
    let mut data = Object::new();
    data.push_entry("plr", Value::Object(plr));
    assert(data@ =~= seq![("plr"@, SpecValue::Object(p))]);
    reply(command.as_str(), data)
}

/// A message and the players it goes to.
pub struct Broadcast {
    pub message: Vec<Value>,
    pub recipients: Vec<String>,
}

/// A move read out of a room command: the room, the position (bits of two
/// doubles), direction, state and action tag.
pub struct Move {
    pub room: String,
    pub x: u64,
    pub y: u64,
    pub direction: i32,
    pub state: i32,
    pub action_tag: String,
}

/// The room of a room command, and whether its sender is `uid`: the room is
/// the first item, the sender is "uid" in the data, the third item.
pub open spec fn room_sender(m: Seq<SpecValue>, uid: Seq<char>) -> Result<(Seq<char>, bool), &'static str> {
    match as_object(m[2]) {
        Err(e) => Err(e),
        Ok(data) => match as_str(m[0]) {
            Err(e) => Err(e),
            Ok(room) => match str_field(data, "uid"@, MISSING_FIELD) {
                Err(e) => Err(e),
                Ok(sender) => Ok((room, sender == uid)),
            },
        },
    }
}

/// What a move command of `uid` says, with the first error in reading it:
/// the action tag is "" where the data has none; the vertical position is
/// read from "x", as the horizontal one is.
pub open spec fn move_spec(m: Seq<SpecValue>, uid: Seq<char>) -> Result<
    Option<(Seq<char>, u64, u64, i32, i32, Seq<char>)>,
    &'static str,
> {
    match room_sender(m, uid) {
        Err(e) => Err(e),
        Ok((room, own)) => if !own {
            Ok(None)
        } else {
            let data = as_object(m[2])->Ok_0;
            match (
                f64_field(data, "x"@, MISSING_FIELD),
                f64_field(data, "x"@, MISSING_FIELD),
                i32_field(data, "d"@, MISSING_FIELD),
                i32_field(data, "st"@, MISSING_FIELD),
            ) {
                (Err(e), _, _, _) => Err(e),
                (_, Err(e), _, _) => Err(e),
                (_, _, Err(e), _) => Err(e),
                (_, _, _, Err(e)) => Err(e),
                (Ok(x), Ok(y), Ok(d), Ok(st)) => match obj_get(data, "at"@) {
                    None => Ok(Some((room, x, y, d, st, Seq::<char>::empty()))),
                    Some(v) => match as_str(v) {
                        Err(e) => Err(e),
                        Ok(at) => Ok(Some((room, x, y, d, st, at))),
                    },
                },
            }
        },
    }
}

/// Reads a move command of `uid` (see [`move_spec`]).
pub fn read_move(uid: &str, msg: &Vec<Value>) -> (r: Result<Option<Move>, &'static str>)
    requires
        msg@.len() > 2,
    ensures
        match move_spec(seq_model(msg@), uid@) {
            Err(e) => r == Err::<Option<Move>, &'static str>(e),
            Ok(None) => r matches Ok(None),
            Ok(Some((room, x, y, d, st, at))) => r matches Ok(Some(mv)) && mv.room@ == room && mv.x
                == x && mv.y == y && mv.direction == d && mv.state == st && mv.action_tag@ == at,
        },
{
    let data = request_data(msg)?;
    let room = message_text(msg, 0)?;
    let sender = get_str_field(data, "uid", MISSING_FIELD)?;
    if sender != uid.to_owned() {
        return Ok(None);
    }
    let x = get_f64_field(data, "x", MISSING_FIELD)?;
    let y = get_f64_field(data, "x", MISSING_FIELD)?;
    let direction = get_i32_field(data, "d", MISSING_FIELD)?;
    let state = get_i32_field(data, "st", MISSING_FIELD)?;
    let action_tag = match data.get("at") {
        None => String::new(),
        Some(v) => v.get_string()?,
    };
    Ok(Some(Move { room, x, y, direction, state, action_tag }))
}

/// The second and third items of a room command, passed on as they are.
pub fn forwarded(msg: &Vec<Value>) -> (r: Vec<Value>)
    requires
        msg@.len() > 2,
    ensures
        seq_model(r@) == seq![seq_model(msg@)[1], seq_model(msg@)[2]],
{
    proof {
        lemma_seq_model(msg@);
    }
    let mut v: Vec<Value> = Vec::new();
    v.push(msg[1].copy());
    v.push(msg[2].copy());
    proof {
        lemma_seq_model(v@);
        assert(seq_model(v@) =~= seq![seq_model(msg@)[1], seq_model(msg@)[2]]);
    }
    v
}

/// A move of the player `uid`: records it and passes the command on to
/// the other players in the room the command names. A command whose sender
/// is not `uid` changes nothing and goes nowhere (`None`).
pub fn update_state(world: &mut World, uid: &str, msg: &Vec<Value>) -> (r: Result<Option<Broadcast>, &'static str>)
    requires
        msg@.len() > 2,
    ensures
        match move_spec(seq_model(msg@), uid@) {
            Err(e) => r == Err::<Option<Broadcast>, &'static str>(e) && final(world).players@
                == old(world).players@,
            Ok(None) => r matches Ok(None) && final(world).players@ == old(world).players@,
            Ok(Some((room, x, y, d, st, at))) => match uid_index(old(world).players@, uid@) {
                None => r == Err::<Option<Broadcast>, &'static str>(NOT_ONLINE)
                    && final(world).players@ == old(world).players@,
                Some(i) => {
                    &&& final(world).players@.len() == old(world).players@.len()
                    &&& final(world).players@[i].0 == old(world).players@[i].0
                    &&& final(world).players@[i].1.room == old(world).players@[i].1.room
                    &&& final(world).players@[i].1.position == (x, y)
                    &&& final(world).players@[i].1.direction == d
                    &&& final(world).players@[i].1.state == st
                    &&& final(world).players@[i].1.action_tag@ == at
                    &&& forall|j: int|
                        0 <= j < old(world).players@.len() && j != i ==> final(world).players@[j]
                            == old(world).players@[j]
                    &&& r matches Ok(Some(b))
                    &&& seq_model(b.message@) == seq![seq_model(msg@)[1], seq_model(msg@)[2]]
                    &&& uids_view(b.recipients@) == members(final(world).players@, room, Some(uid@))
                },
            },
        },
        distinct_uids(old(world).players@) ==> distinct_uids(final(world).players@),
{
    let mv = match read_move(uid, msg)? {
        None => {
            return Ok(None);
        },
        Some(mv) => mv,
    };
    let room = mv.room;
    if !world.update(uid, mv.x, mv.y, mv.direction, mv.state, mv.action_tag) {
        return Err(NOT_ONLINE);
    }
    let recipients = world.members(room.as_str(), Some(uid));
    assert(uids_view(recipients@) =~= members(world.players@, room@, Some(uid@)));
    Ok(Some(Broadcast { message: forwarded(msg), recipients }))
}

/// An action of the player `uid`: the command goes on to the other players
/// in the room it names. A command whose sender is not `uid` goes nowhere.
pub fn action(world: &World, uid: &str, msg: &Vec<Value>) -> (r: Result<Option<Broadcast>, &'static str>)
    requires
        msg@.len() > 2,
    ensures
        match room_sender(seq_model(msg@), uid@) {
            Err(e) => r == Err::<Option<Broadcast>, &'static str>(e),
            Ok((room, own)) => if !own {
                r matches Ok(None)
            } else {
                r matches Ok(Some(b)) && seq_model(b.message@) == seq![seq_model(msg@)[1], seq_model(msg@)[2]]
                    && uids_view(b.recipients@) == members(world.players@, room, Some(uid@))
            },
        },
{
    let data = request_data(msg)?;
    let room = message_text(msg, 0)?;
    let sender = get_str_field(data, "uid", MISSING_FIELD)?;
    if sender != uid.to_owned() {
        return Ok(None);
    }
    let recipients = world.members(room.as_str(), Some(uid));
    assert(uids_view(recipients@) =~= members(world.players@, room@, Some(uid@)));
    Ok(Some(Broadcast { message: forwarded(msg), recipients }))
}

} // verus!
