//! The player module ("pl"): descriptions of players by id, and following a
//! player to where it is.
use crate::modules::{
    as_object,
    as_str,
    get_location,
    get_str_field,
    get_vector_field,
    location_model,
    reply,
    request_data,
    str_field,
    strings_view,
    vector_field,
    MISSING_FIELD,
};
use crate::value::{lemma_seq_model, seq_model, str_value, vec_value, Object, SpecValue, Value, CONVERT_ERROR};
use crate::world::{uid_index, World};
use vstd::prelude::*;

verus! {

/// The player module.
pub struct Player {
    pub prefix: &'static str,
}

/// What a player command asks for.
pub enum PlayerCommand {
    /// "gid": the descriptions of some players.
    PlayersById,
    /// "flw": where a player is.
    Follow,
}

/// The player command named by the second piece of a command name.
pub open spec fn player_command_spec(segment: Seq<char>) -> Option<PlayerCommand> {
    if segment == "gid"@ {
        Some(PlayerCommand::PlayersById)
    } else if segment == "flw"@ {
        Some(PlayerCommand::Follow)
    } else {
        None
    }
}

/// Whether every item is a string.
pub open spec fn all_strings(items: Seq<SpecValue>) -> bool {
    forall|i: int| 0 <= i < items.len() ==> #[trigger] items[i] is Str
}

/// The players asked for and the client's request id: "uids", a list of
/// strings, and "clid" in the data.
pub open spec fn players_request_spec(m: Seq<SpecValue>) -> Result<(Seq<Seq<char>>, Seq<char>), &'static str> {
    match as_object(m[2]) {
        Err(e) => Err(e),
        Ok(data) => match vector_field(data, "uids"@, MISSING_FIELD) {
            Err(e) => Err(e),
            Ok(items) => match str_field(data, "clid"@, MISSING_FIELD) {
                Err(e) => Err(e),
                Ok(clid) => if all_strings(items) {
                    Ok((Seq::new(items.len(), |i: int| items[i]->Str_0), clid))
                } else {
                    Err(CONVERT_ERROR)
                },
            },
        },
    }
}

impl Player {
    pub fn new() -> (r: Player)
        ensures
            r.prefix@ == "pl"@,
    {
        Player { prefix: "pl" }
    }

    /// The command named by the second piece of a command name.
    pub fn command(&self, segment: &str) -> (r: Option<PlayerCommand>)
        ensures
            r == player_command_spec(segment@),
    {
        let s = segment.to_owned();
        if s == "gid".to_owned() {
            Some(PlayerCommand::PlayersById)
        } else if s == "flw".to_owned() {
            Some(PlayerCommand::Follow)
        } else {
            None
        }
    }

    /// Reads a request for player descriptions (see [`players_request_spec`]).
    #[verifier::loop_isolation(false)]
    pub fn players_request(&self, msg: &Vec<Value>) -> (r: Result<(Vec<String>, String), &'static str>)
        requires
            msg@.len() > 2,
        ensures
            match players_request_spec(seq_model(msg@)) {
                Err(e) => r == Err::<(Vec<String>, String), &'static str>(e),
                Ok((uids, clid)) => r matches Ok((us, c)) && strings_view(us@) == uids && c@ == clid,
            },
    {
        let data = request_data(msg)?;
        let items = get_vector_field(data, "uids", MISSING_FIELD)?;
        let clid = get_str_field(data, "clid", MISSING_FIELD)?;
        proof {
            lemma_seq_model(items@);
        }
        let ghost m = seq_model(items@);
        let mut uids: Vec<String> = Vec::new();
        let n = items.len();
        let mut i: usize = 0;
        while i < n
            invariant
                n == items@.len(),
                m == seq_model(items@),
                m.len() == n,
                forall|j: int| 0 <= j < n ==> #[trigger] m[j] == items@[j]@,
                0 <= i <= n,
                uids@.len() == i,
                forall|j: int| 0 <= j < i ==> m[j] is Str,
                forall|j: int| 0 <= j < i ==> #[trigger] uids@[j]@ == m[j]->Str_0,
            decreases n - i,
        {
            assert(m[i as int] == items@[i as int]@);
            match items[i].get_string() {
                Ok(u) => {
                    uids.push(u);
                },
                Err(e) => {
                    assert(!all_strings(m));
                    return Err(e);
                },
            }
            i = i + 1;
        }
        assert(strings_view(uids@) =~= Seq::new(m.len(), |j: int| m[j]->Str_0));
        Ok((uids, clid))
    }

    /// The descriptions found, for the request `clid`: "pl.get".
    pub fn players_reply(&self, plrs: Vec<Value>, clid: String) -> (r: Vec<Value>)
        ensures
            seq_model(r@) == seq![
                SpecValue::Str("pl.get"@),
                SpecValue::Object(
                    seq![("plrs"@, SpecValue::Vector(seq_model(plrs@))), ("clid"@, SpecValue::Str(clid@))],
                ),
            ],
    {
        let ghost p = seq_model(plrs@);
        let mut data = Object::new();
        data.push_entry("plrs", vec_value(plrs));
        data.push_entry("clid", Value::String(clid));
        assert(data@ =~= seq![("plrs"@, SpecValue::Vector(p)), ("clid"@, SpecValue::Str(clid@))]);
        reply("pl.get", data)
    }

    /// Where the player named by "uid" in the data is: "pl.flw" with
    /// "success" and its location while it is online, "userOffline" and null
    /// otherwise.
    pub fn follow(&self, world: &World, msg: &Vec<Value>) -> (r: Result<Vec<Value>, &'static str>)
        requires
            msg@.len() > 2,
        ensures
            match as_object(seq_model(msg@)[2]) {
                Err(e) => r == Err::<Vec<Value>, &'static str>(e),
                Ok(data) => match str_field(data, "uid"@, MISSING_FIELD) {
                    Err(e) => r == Err::<Vec<Value>, &'static str>(e),
                    Ok(uid) => r matches Ok(v) && seq_model(v@) == seq![
                        SpecValue::Str("pl.flw"@),
                        SpecValue::Object(
                            match uid_index(world.players@, uid) {
                                Some(i) => seq![
                                    ("scs"@, SpecValue::Str("success"@)),
                                    ("locinfo"@, SpecValue::Object(location_model(world.players@[i].1))),
                                ],
                                None => seq![
                                    ("scs"@, SpecValue::Str("userOffline"@)),
                                    ("locinfo"@, SpecValue::Null),
                                ],
                            },
                        ),
                    ],
                },
            },
    {
        let data = request_data(msg)?;
        let uid = get_str_field(data, "uid", MISSING_FIELD)?;
        let locinfo = get_location(uid.as_str(), world);
        let scs = match &locinfo {
            Value::Object(_) => "success",
            _ => "userOffline",
        };
        let ghost l = locinfo@;
        let mut out = Object::new();
        out.push_entry("scs", str_value(scs));
        out.push_entry("locinfo", locinfo);
        assert(out@ =~= seq![("scs"@, SpecValue::Str(scs@)), ("locinfo"@, l)]);
        Ok(reply("pl.flw", out))
    }
}

} // verus!
