//! The house module ("h"): a player's own information, its rooms and the
//! rooms of houses.
use crate::modules::location::{join_text, uids_view};
use crate::modules::{
    as_object,
    bool_field,
    get_bool_field,
    get_str_field,
    insert_texts,
    pairs_view,
    put_texts,
    reply,
    request_data,
    str_field,
    StoreRead,
    KEY_NOT_FOUND,
    MISSING_FIELD,
};
use crate::text::{parse_i32, parse_i32_spec, split, split_chars};
use crate::value::{lemma_seq_model_push, obj_insert, seq_model, str_value, vec_value, Object, SpecValue, Value};
use crate::world::{members, World};
use vstd::prelude::*;

verus! {

/// The house module.
pub struct House {
    pub prefix: &'static str,
}

/// What a house command asks for.
pub enum HouseCommand {
    /// "minfo": the player's own information.
    MyInfo,
    /// "gr": enter a room of a house.
    GetRoom,
    /// "r": something inside a room.
    Room,
}

/// The house command named by the second piece of a command name.
pub open spec fn house_command_spec(segment: Seq<char>) -> Option<HouseCommand> {
    if segment == "minfo"@ {
        Some(HouseCommand::MyInfo)
    } else if segment == "gr"@ {
        Some(HouseCommand::GetRoom)
    } else if segment == "r"@ {
        Some(HouseCommand::Room)
    } else {
        None
    }
}

/// A furniture item as the store keeps it: its address ("<type>_<id>") and
/// its fields.
pub open spec fn stored_items_view(v: Seq<(String, Vec<(String, String)>)>) -> Seq<(Seq<char>, Seq<(Seq<char>, Seq<char>)>)> {
    Seq::new(v.len(), |i: int| (v[i].0@, pairs_view(v[i].1@)))
}

/// A furniture item of a room: its type and id out of its address, then
/// its fields as strings.
pub open spec fn room_item_spec(name: Seq<char>, fields: Seq<(Seq<char>, Seq<char>)>) -> StoreRead<Seq<(Seq<char>, SpecValue)>> {
    let parts = split_chars(name, '_');
    if parts.len() < 2 {
        StoreRead::Malformed
    } else {
        match parse_i32_spec(parts[1]) {
            None => StoreRead::NotANumber,
            Some(lid) => StoreRead::Found(
                insert_texts(seq![("tpid"@, SpecValue::Str(parts[0])), ("lid"@, SpecValue::I32(lid))], fields),
            ),
        }
    }
}

/// The furniture of a room, item by item; the first item that cannot be
/// read decides.
pub open spec fn room_items_spec(items: Seq<(Seq<char>, Seq<(Seq<char>, Seq<char>)>)>) -> StoreRead<Seq<SpecValue>>
    decreases items.len(),
{
    if items.len() == 0 {
        StoreRead::Found(Seq::empty())
    } else {
        match room_items_spec(items.drop_last()) {
            StoreRead::Found(before) => match room_item_spec(items.last().0, items.last().1) {
                StoreRead::Found(o) => StoreRead::Found(before.push(SpecValue::Object(o))),
                StoreRead::NotANumber => StoreRead::NotANumber,
                StoreRead::Malformed => StoreRead::Malformed,
            },
            StoreRead::NotANumber => StoreRead::NotANumber,
            StoreRead::Malformed => StoreRead::Malformed,
        }
    }
}

/// A room of a house, out of what the store keeps: its name and level
/// (`data`, name first) and its furniture. The room is 13 by 13.
pub open spec fn room_spec(
    room: Seq<char>,
    data: Seq<Seq<char>>,
    items: Seq<(Seq<char>, Seq<(Seq<char>, Seq<char>)>)>,
) -> StoreRead<Seq<(Seq<char>, SpecValue)>> {
    if data.len() < 2 {
        StoreRead::Malformed
    } else {
        match parse_i32_spec(data[1]) {
            None => StoreRead::NotANumber,
            Some(lev) => match room_items_spec(items) {
                StoreRead::Found(f) => StoreRead::Found(
                    seq![
                        ("w"@, SpecValue::I32(13)),
                        ("id"@, SpecValue::Str(room)),
                        ("lev"@, SpecValue::I32(lev)),
                        ("l"@, SpecValue::I32(13)),
                        ("nm"@, SpecValue::Str(data[0])),
                        ("f"@, SpecValue::Vector(f)),
                    ],
                ),
                StoreRead::NotANumber => StoreRead::NotANumber,
                StoreRead::Malformed => StoreRead::Malformed,
            },
        }
    }
}

/// The model of a room read.
pub open spec fn room_read_view(r: StoreRead<Object>) -> StoreRead<Seq<(Seq<char>, SpecValue)>> {
    match r {
        StoreRead::Found(o) => StoreRead::Found(o@),
        StoreRead::NotANumber => StoreRead::NotANumber,
        StoreRead::Malformed => StoreRead::Malformed,
    }
}

fn room_item(name: &String, fields: &Vec<(String, String)>) -> (r: StoreRead<Object>)
    ensures
        room_read_view(r) == room_item_spec(name@, pairs_view(fields@)),
{
    let parts = split(name.as_str(), '_');
    if parts.len() < 2 {
        return StoreRead::Malformed;
    }
    let lid = match parse_i32(parts[1].as_str()) {
        Some(x) => x,
        None => {
            return StoreRead::NotANumber;
        },
    };
    let mut out = Object::new();
    out.push_entry("tpid", Value::String(parts[0].clone()));
    out.push_entry("lid", Value::I32(lid));
    assert(out@ =~= seq![("tpid"@, SpecValue::Str(split_chars(name@, '_')[0])), ("lid"@, SpecValue::I32(lid))]);
    put_texts(&mut out, fields);
    StoreRead::Found(out)
}

/// A room of a house (see [`room_spec`]).
#[verifier::loop_isolation(false)]
pub fn get_room(room: &str, data: &Vec<String>, items: &Vec<(String, Vec<(String, String)>)>) -> (r: StoreRead<Object>)
    ensures
        room_read_view(r) == room_spec(room@, uids_view(data@), stored_items_view(items@)),
{
    let ghost d = uids_view(data@);
    let ghost s = stored_items_view(items@);
    if data.len() < 2 {
        return StoreRead::Malformed;
    }
    let lev = match parse_i32(data[1].as_str()) {
        Some(x) => x,
        None => {
            return StoreRead::NotANumber;
        },
    };
    let mut f: Vec<Value> = Vec::new();
    let n = items.len();
    let mut i: usize = 0;
    while i < n
        invariant
            n == items@.len(),
            s == stored_items_view(items@),
            0 <= i <= n,
            room_items_spec(s.take(i as int)) == StoreRead::Found(seq_model(f@)),
        decreases n - i,
    {
        assert(s.take(i as int + 1).drop_last() =~= s.take(i as int));
        assert(s.take(i as int + 1).last() == (items@[i as int].0@, pairs_view(items@[i as int].1@)));
        match room_item(&items[i].0, &items[i].1) {
            StoreRead::Found(o) => {
                let ghost before = f@;
                let ghost ov = Value::Object(o);
                proof {
                    lemma_seq_model_push(before, ov);
                }
                f.push(Value::Object(o));
            },
            StoreRead::NotANumber => {
                proof {
                    lemma_items_stop(s, i as int + 1);
                }
                return StoreRead::NotANumber;
            },
            StoreRead::Malformed => {
                proof {
                    lemma_items_stop(s, i as int + 1);
                }
                return StoreRead::Malformed;
            },
        }
        i = i + 1;
    }
    assert(s.take(n as int) =~= s);
    let ghost fm = seq_model(f@);
    let mut out = Object::new();
    out.push_entry("w", Value::I32(13));
    out.push_entry("id", str_value(room));
    out.push_entry("lev", Value::I32(lev));
    out.push_entry("l", Value::I32(13));
    out.push_entry("nm", Value::String(data[0].clone()));
    out.push_entry("f", vec_value(f));
    assert(out@ =~= room_spec(room@, d, s)->Found_0);
    StoreRead::Found(out)
}

/// Once the furniture read stops at an item, it stays stopped.
proof fn lemma_items_stop(s: Seq<(Seq<char>, Seq<(Seq<char>, Seq<char>)>)>, k: int)
    requires
        0 <= k <= s.len(),
        !(room_items_spec(s.take(k)) is Found),
    ensures
        room_items_spec(s) == room_items_spec(s.take(k)),
    decreases s.len() - k,
{
    if k < s.len() {
        assert(s.take(k + 1).drop_last() =~= s.take(k));
        lemma_items_stop(s, k + 1);
    } else {
        assert(s.take(k) =~= s);
    }
}

/// The description of the player entering its house with everything of
/// its own: resources, rooms, inventory and clothes collections.
pub open spec fn own_player_model(
    plr: Seq<(Seq<char>, SpecValue)>,
    res: Seq<(Seq<char>, SpecValue)>,
    rooms: Seq<SpecValue>,
    inv: Seq<(Seq<char>, SpecValue)>,
    cs: Seq<(Seq<char>, SpecValue)>,
) -> Seq<(Seq<char>, SpecValue)> {
    let hs = seq![("r"@, SpecValue::Vector(rooms)), ("lt"@, SpecValue::I32(0))];
    obj_insert(
        obj_insert(
            obj_insert(obj_insert(plr, "res"@, SpecValue::Object(res)), "hs"@, SpecValue::Object(hs)),
            "inv"@,
            SpecValue::Object(inv),
        ),
        "cs"@,
        SpecValue::Object(cs),
    )
}

/// What the room request of a house names: "lid", "gid" and "rid" in the
/// data, joined into the room name "<lid>_<gid>_<rid>".
pub open spec fn house_room_spec(m: Seq<SpecValue>) -> Result<Seq<char>, &'static str> {
    match as_object(m[2]) {
        Err(e) => Err(e),
        Ok(data) => match (
            str_field(data, "lid"@, KEY_NOT_FOUND),
            str_field(data, "gid"@, KEY_NOT_FOUND),
            str_field(data, "rid"@, KEY_NOT_FOUND),
        ) {
            (Err(e), _, _) => Err(e),
            (_, Err(e), _) => Err(e),
            (_, _, Err(e)) => Err(e),
            (Ok(l), Ok(g), Ok(r)) => Ok(l + "_"@ + g + "_"@ + r),
        },
    }
}

/// The house whose room is asked about ("uid") and the room ("rid"), with
/// the name of that room: "house_<uid>_<rid>".
pub open spec fn room_info_spec(m: Seq<SpecValue>) -> Result<(Seq<char>, Seq<char>, Seq<char>), &'static str> {
    match as_object(m[2]) {
        Err(e) => Err(e),
        Ok(data) => match (str_field(data, "uid"@, MISSING_FIELD), str_field(data, "rid"@, MISSING_FIELD)) {
            (Err(e), _) => Err(e),
            (_, Err(e)) => Err(e),
            (Ok(u), Ok(r)) => Ok((u, r, "house_"@ + u + "_"@ + r)),
        },
    }
}

/// The name "<a>_<b>_<c>".
pub fn join3(a: &str, b: &str, c: &str) -> (r: String)
    ensures
        r@ == a@ + "_"@ + b@ + "_"@ + c@,
{
    let first = join_text(a, "_");
    let second = join_text(first.as_str(), b);
    let third = join_text(second.as_str(), "_");
    join_text(third.as_str(), c)
}

impl House {
    pub fn new() -> (r: House)
        ensures
            r.prefix@ == "h"@,
    {
        House { prefix: "h" }
    }

    /// The command named by the second piece of a command name.
    pub fn command(&self, segment: &str) -> (r: Option<HouseCommand>)
        ensures
            r == house_command_spec(segment@),
    {
        let s = segment.to_owned();
        if s == "minfo".to_owned() {
            Some(HouseCommand::MyInfo)
        } else if s == "gr".to_owned() {
            Some(HouseCommand::GetRoom)
        } else if s == "r".to_owned() {
            Some(HouseCommand::Room)
        } else {
            None
        }
    }

    /// Whether the third piece of a room command asks for the room
    /// information ("info"); any other room command is a room command of
    /// [`crate::modules::location`].
    pub fn is_room_info(&self, segment: &str) -> (r: bool)
        ensures
            r == (segment@ == "info"@),
    {
        segment.to_owned() == "info".to_owned()
    }

    /// Whether the player asks only to learn that it is online ("onl" in the data).
    pub fn my_info_request(&self, msg: &Vec<Value>) -> (r: Result<bool, &'static str>)
        requires
            msg@.len() > 2,
        ensures
            r == (match as_object(seq_model(msg@)[2]) {
                Ok(data) => bool_field(data, "onl"@, MISSING_FIELD),
                Err(e) => Err(e),
            }),
    {
        let data = request_data(msg)?;
        get_bool_field(data, "onl", MISSING_FIELD)
    }

    /// The answer to a player that is online: "h.minfo" with success.
    pub fn my_info_online(&self) -> (r: Vec<Value>)
        ensures
            seq_model(r@) == seq![
                SpecValue::Str("h.minfo"@),
                SpecValue::Object(seq![("scs"@, SpecValue::Boolean(true))]),
            ],
    {
        let mut data = Object::new();
        data.push_entry("scs", Value::Boolean(true));
        reply("h.minfo", data)
    }

    /// The answer to a player without an avatar: "h.minfo" saying so.
    pub fn my_info_no_avatar(&self) -> (r: Vec<Value>)
        ensures
            seq_model(r@) == seq![
                SpecValue::Str("h.minfo"@),
                SpecValue::Object(seq![("has.avtr"@, SpecValue::Boolean(false))]),
            ],
    {
        let mut data = Object::new();
        data.push_entry("has.avtr", Value::Boolean(false));
        reply("h.minfo", data)
    }

    /// The answer to a player entering its house: "h.minfo" with its
    /// description and everything of its own (see [`own_player_model`]).
    pub fn my_info(&self, plr: Object, res: Object, rooms: Vec<Value>, inv: Object, cs: Object) -> (r: Vec<Value>)
        ensures
            seq_model(r@) == seq![
                SpecValue::Str("h.minfo"@),
                SpecValue::Object(
                    seq![
                        ("plr"@, SpecValue::Object(own_player_model(plr@, res@, seq_model(rooms@), inv@, cs@))),
                        ("tm"@, SpecValue::I32(1)),
                    ],
                ),
            ],
    {
        let ghost model = own_player_model(plr@, res@, seq_model(rooms@), inv@, cs@);
        let ghost rm = seq_model(rooms@);
        let mut plr = plr;
        plr.insert("res".to_owned(), Value::Object(res));
        let mut hs = Object::new();
        hs.push_entry("r", vec_value(rooms));
        hs.push_entry("lt", Value::I32(0));
        assert(hs@ =~= seq![("r"@, SpecValue::Vector(rm)), ("lt"@, SpecValue::I32(0))]);
        plr.insert("hs".to_owned(), Value::Object(hs));
        plr.insert("inv".to_owned(), Value::Object(inv));
        plr.insert("cs".to_owned(), Value::Object(cs));
        assert(plr@ == model);
        let mut data = Object::new();
        data.push_entry("plr", Value::Object(plr));
        data.push_entry("tm", Value::I32(1));
        assert(data@ =~= seq![("plr"@, SpecValue::Object(model)), ("tm"@, SpecValue::I32(1))]);
        reply("h.minfo", data)
    }

    /// The room a player asks to enter (see [`house_room_spec`]).
    pub fn room_request(&self, msg: &Vec<Value>) -> (r: Result<String, &'static str>)
        requires
            msg@.len() > 2,
        ensures
            match house_room_spec(seq_model(msg@)) {
                Err(e) => r == Err::<String, &'static str>(e),
                Ok(room) => r matches Ok(x) && x@ == room,
            },
    {
        let data = request_data(msg)?;
        let lid = get_str_field(data, "lid", KEY_NOT_FOUND)?;
        let gid = get_str_field(data, "gid", KEY_NOT_FOUND)?;
        let rid = get_str_field(data, "rid", KEY_NOT_FOUND)?;
        Ok(join3(lid.as_str(), gid.as_str(), rid.as_str()))
    }

    /// The answer to entering a room: "h.gr" with its name.
    pub fn room_reply(&self, room: String) -> (r: Vec<Value>)
        ensures
            seq_model(r@) == seq![
                SpecValue::Str("h.gr"@),
                SpecValue::Object(seq![("rid"@, SpecValue::Str(room@))]),
            ],
    {
        let mut data = Object::new();
        data.push_entry("rid", Value::String(room));
        reply("h.gr", data)
    }

    /// The room asked about (see [`room_info_spec`]), with the players in it
    /// whose descriptions go with the answer.
    pub fn room_info_request(&self, world: &World, msg: &Vec<Value>) -> (r: Result<(String, String, Vec<String>), &'static str>)
        requires
            msg@.len() > 2,
        ensures
            match room_info_spec(seq_model(msg@)) {
                Err(e) => r == Err::<(String, String, Vec<String>), &'static str>(e),
                Ok((u, rid, room)) => r matches Ok((x, y, ps)) && x@ == u && y@ == rid
                    && uids_view(ps@) == members(world.players@, room, None),
            },
    {
        let data = request_data(msg)?;
        let uid = get_str_field(data, "uid", MISSING_FIELD)?;
        let rid = get_str_field(data, "rid", MISSING_FIELD)?;
        let first = join_text("house_", uid.as_str());
        let second = join_text(first.as_str(), "_");
        let room = join_text(second.as_str(), rid.as_str());
        let players = world.members(room.as_str(), None);
        assert(uids_view(players@) =~= members(world.players@, room@, None));
        Ok((uid, rid, players))
    }

    /// The room information: "h.r.info" with the room, the descriptions of
    /// the players in it and no event.
    pub fn room_info(&self, rm: Object, rmmb: Vec<Value>) -> (r: Vec<Value>)
        ensures
            seq_model(r@) == seq![
                SpecValue::Str("h.r.info"@),
                SpecValue::Object(
                    seq![
                        ("rm"@, SpecValue::Object(rm@)),
                        ("rmmb"@, SpecValue::Vector(seq_model(rmmb@))),
                        ("evn"@, SpecValue::Null),
                    ],
                ),
            ],
    {
        let ghost a = rm@;
        let ghost b = seq_model(rmmb@);
        let mut data = Object::new();
        data.push_entry("rm", Value::Object(rm));
        data.push_entry("rmmb", vec_value(rmmb));
        data.push_entry("evn", Value::Null);
        assert(data@ =~= seq![
            ("rm"@, SpecValue::Object(a)),
            ("rmmb"@, SpecValue::Vector(b)),
            ("evn"@, SpecValue::Null),
        ]);
        reply("h.r.info", data)
    }
}

} // verus!
