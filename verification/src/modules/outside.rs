//! The outside module ("o"): choosing a room of an outside location, and
//! what is in such a room.
use crate::modules::house::join3;
use crate::modules::location::uids_view;
use crate::modules::{
    as_object,
    as_str,
    get_str_field,
    message_text,
    reply,
    request_data,
    str_field,
    MISSING_FIELD,
    NOT_A_NUMBER,
};
use crate::text::{decimal, i32_to_string, parse_i32, parse_i32_spec};
use crate::value::{obj_get, seq_model, vec_value, Object, SpecValue, Value};
use crate::world::{members, World};
use vstd::prelude::*;

verus! {

/// The most players the room search lets into a room.
pub const PLAYER_LIMIT: usize = 15;

/// The outside module.
pub struct Outside {
    pub prefix: &'static str,
}

/// What an outside command asks for.
pub enum OutsideCommand {
    /// "gr": enter a room of a location.
    GetRoom,
    /// "r": something inside a room.
    Room,
}

/// The outside command named by the second piece of a command name.
pub open spec fn outside_command_spec(segment: Seq<char>) -> Option<OutsideCommand> {
    if segment == "gr"@ {
        Some(OutsideCommand::GetRoom)
    } else if segment == "r"@ {
        Some(OutsideCommand::Room)
    } else {
        None
    }
}

/// The location ("lid") and group ("gid") of a room request, and the room
/// number where the request names one ("rid", a string holding a number).
pub open spec fn outside_room_spec(m: Seq<SpecValue>) -> Result<(Seq<char>, Seq<char>, Option<i32>), &'static str> {
    match as_object(m[2]) {
        Err(e) => Err(e),
        Ok(data) => match (str_field(data, "lid"@, MISSING_FIELD), str_field(data, "gid"@, MISSING_FIELD)) {
            (Err(e), _) => Err(e),
            (_, Err(e)) => Err(e),
            (Ok(l), Ok(g)) => match obj_get(data, "rid"@) {
                None => Ok((l, g, None)),
                Some(v) => match as_str(v) {
                    Err(e) => Err(e),
                    Ok(t) => match parse_i32_spec(t) {
                        None => Err(NOT_A_NUMBER),
                        Some(num) => Ok((l, g, Some(num))),
                    },
                },
            },
        },
    }
}

/// The room a search settles on. It looks at the rooms "<lid>_<gid>_<n>"
/// for n = 1, 2, ... and stops at the first whose count is at most
/// [`PLAYER_LIMIT`], but the count carries over from one room to the next:
/// it settles on room 1 where that holds at most the limit; otherwise it
/// runs through the room numbers until the number overflows (`None`).
pub open spec fn pick_room_spec(ps: Seq<(String, crate::world::PlayerState)>, lid: Seq<char>, gid: Seq<char>) -> Option<Seq<char>> {
    let first = lid + "_"@ + gid + "_"@ + "1"@;
    if members(ps, first, None).len() <= PLAYER_LIMIT {
        Some(first)
    } else {
        None
    }
}

impl Outside {
    pub fn new() -> (r: Outside)
        ensures
            r.prefix@ == "o"@,
    {
        Outside { prefix: "o" }
    }

    /// The command named by the second piece of a command name.
    pub fn command(&self, segment: &str) -> (r: Option<OutsideCommand>)
        ensures
            r == outside_command_spec(segment@),
    {
        let s = segment.to_owned();
        if s == "gr".to_owned() {
            Some(OutsideCommand::GetRoom)
        } else if s == "r".to_owned() {
            Some(OutsideCommand::Room)
        } else {
            None
        }
    }

    /// Whether the third piece of a room command asks for the room
    /// information ("info"); any other room command is a room command of
    /// [`crate::modules::location`].
    pub fn is_room_info(&self, segment: &str) -> (r: bool)
        ensures
            r == (segment@ == "info"@),
    {
        segment.to_owned() == "info".to_owned()
    }

    /// Reads a room request (see [`outside_room_spec`]).
    pub fn room_request(&self, msg: &Vec<Value>) -> (r: Result<(String, String, Option<i32>), &'static str>)
        requires
            msg@.len() > 2,
        ensures
            match outside_room_spec(seq_model(msg@)) {
                Err(e) => r == Err::<(String, String, Option<i32>), &'static str>(e),
                Ok((l, g, num)) => r matches Ok((x, y, n)) && x@ == l && y@ == g && n == num,
            },
    {
        let data = request_data(msg)?;
        let lid = get_str_field(data, "lid", MISSING_FIELD)?;
        let gid = get_str_field(data, "gid", MISSING_FIELD)?;
        match data.get("rid") {
            None => Ok((lid, gid, None)),
            Some(v) => {
                let text = v.get_string()?;
                match parse_i32(text.as_str()) {
                    None => Err(NOT_A_NUMBER),
                    Some(num) => Ok((lid, gid, Some(num))),
                }
            },
        }
    }

    /// The room numbered `num`: "<lid>_<gid>_<num>".
    pub fn numbered_room(&self, lid: &str, gid: &str, num: i32) -> (r: String)
        ensures
            r@ == lid@ + "_"@ + gid@ + "_"@ + decimal(num as int),
    {
        let n = i32_to_string(num);
        join3(lid, gid, n.as_str())
    }

    /// The room a search settles on (see [`pick_room_spec`]).
    pub fn pick_room(&self, world: &World, lid: &str, gid: &str) -> (r: Option<String>)
        ensures
            match pick_room_spec(world.players@, lid@, gid@) {
                Some(room) => r matches Some(x) && x@ == room,
                None => r is None,
            },
    {
        let room = join3(lid, gid, "1");
        let players = world.members(room.as_str(), None);
        if players.len() <= PLAYER_LIMIT {
            Some(room)
        } else {
            None
        }
    }

    /// The answer to entering a room: "o.gr" with its name.
    pub fn room_reply(&self, room: String) -> (r: Vec<Value>)
        ensures
            seq_model(r@) == seq![
                SpecValue::Str("o.gr"@),
                SpecValue::Object(seq![("rid"@, SpecValue::Str(room@))]),
            ],
    {
        let mut data = Object::new();
        data.push_entry("rid", Value::String(room));
        reply("o.gr", data)
    }

    /// The room a room command is about (its first item), with the players
    /// in it whose descriptions go with the answer.
    pub fn room_info_request(&self, world: &World, msg: &Vec<Value>) -> (r: Result<(String, Vec<String>), &'static str>)
        requires
            msg@.len() > 0,
        ensures
            match as_str(seq_model(msg@)[0]) {
                Err(e) => r == Err::<(String, Vec<String>), &'static str>(e),
                Ok(room) => r matches Ok((x, ps)) && x@ == room && uids_view(ps@) == members(world.players@, room, None),
            },
    {
        let room = message_text(msg, 0)?;
        let players = world.members(room.as_str(), None);
        assert(uids_view(players@) =~= members(world.players@, room@, None));
        Ok((room, players))
    }

    /// The room information: "o.r.info" with the descriptions of the players
    /// in the room and no event.
    pub fn room_info(&self, rmmb: Vec<Value>) -> (r: Vec<Value>)
        ensures
            seq_model(r@) == seq![
                SpecValue::Str("o.r.info"@),
                SpecValue::Object(
                    seq![("rmmb"@, SpecValue::Vector(seq_model(rmmb@))), ("evn"@, SpecValue::Null)],
                ),
            ],
    {
        let ghost b = seq_model(rmmb@);
        let mut data = Object::new();
        data.push_entry("rmmb", vec_value(rmmb));
        data.push_entry("evn", Value::Null);
        assert(data@ =~= seq![("rmmb"@, SpecValue::Vector(b)), ("evn"@, SpecValue::Null)]);
        reply("o.r.info", data)
    }
}

} // verus!
