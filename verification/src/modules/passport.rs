//! The passport module ("psp"): a player's passport and the trophy it shows.
use crate::modules::{
    as_object,
    field,
    get_field,
    get_str_field,
    reply,
    request_data,
    str_field,
    strings_view,
    MISSING_FIELD,
};
use crate::value::{obj_insert, seq_model, Object, SpecValue, Value};
use vstd::prelude::*;

verus! {

/// The passport module.
pub struct Passport {
    pub prefix: &'static str,
}

/// What a passport command asks for.
pub enum PassportCommand {
    /// "psp": show a passport.
    Passport,
    /// "sttrph": choose the trophy to show.
    SetTrophy,
}

/// The passport command named by the second piece of a command name.
pub open spec fn passport_command_spec(segment: Seq<char>) -> Option<PassportCommand> {
    if segment == "psp"@ {
        Some(PassportCommand::Passport)
    } else if segment == "sttrph"@ {
        Some(PassportCommand::SetTrophy)
    } else {
        None
    }
}

/// One trophy in a passport: no rating, no cooldown, its id.
pub open spec fn trophy_model(trophy: Seq<char>) -> SpecValue {
    SpecValue::Object(
        seq![("trrt"@, SpecValue::I32(0)), ("trcd"@, SpecValue::I32(0)), ("trid"@, SpecValue::Str(trophy))],
    )
}

/// The trophies of a passport, keyed by id, entered one after the other.
pub open spec fn trophies_model(ts: Seq<Seq<char>>) -> Seq<(Seq<char>, SpecValue)>
    decreases ts.len(),
{
    if ts.len() == 0 {
        Seq::empty()
    } else {
        obj_insert(trophies_model(ts.drop_last()), ts.last(), trophy_model(ts.last()))
    }
}

/// The passport of `uid`: no relations, no achievements, every trophy of the game.
pub open spec fn passport_model(uid: Seq<char>, ts: Seq<Seq<char>>) -> Seq<(Seq<char>, SpecValue)> {
    seq![
        ("uid"@, SpecValue::Str(uid)),
        ("rel"@, SpecValue::Object(Seq::empty())),
        (
            "ach"@,
            SpecValue::Object(
                seq![("ac"@, SpecValue::Object(Seq::empty())), ("tr"@, SpecValue::Object(trophies_model(ts)))],
            ),
        ),
    ]
}

/// What choosing a trophy does to the store.
pub enum TrophyChoice {
    /// Show this trophy.
    Show(String),
    /// Show none.
    Hide,
}

impl Passport {
    pub fn new() -> (r: Passport)
        ensures
            r.prefix@ == "psp"@,
    {
        Passport { prefix: "psp" }
    }

    /// The command named by the second piece of a command name.
    pub fn command(&self, segment: &str) -> (r: Option<PassportCommand>)
        ensures
            r == passport_command_spec(segment@),
    {
        let s = segment.to_owned();
        if s == "psp".to_owned() {
            Some(PassportCommand::Passport)
        } else if s == "sttrph".to_owned() {
            Some(PassportCommand::SetTrophy)
        } else {
            None
        }
    }

    /// The passport asked for ("uid" in the data), listing `trophies`:
    /// "psp.psp".
    pub fn passport(&self, msg: &Vec<Value>, trophies: &Vec<String>) -> (r: Result<Vec<Value>, &'static str>)
        requires
            msg@.len() > 2,
        ensures
            match as_object(seq_model(msg@)[2]) {
                Err(e) => r == Err::<Vec<Value>, &'static str>(e),
                Ok(data) => match str_field(data, "uid"@, MISSING_FIELD) {
                    Err(e) => r == Err::<Vec<Value>, &'static str>(e),
                    Ok(uid) => r matches Ok(v) && seq_model(v@) == seq![
                        SpecValue::Str("psp.psp"@),
                        SpecValue::Object(
                            seq![("psp"@, SpecValue::Object(passport_model(uid, strings_view(trophies@))))],
                        ),
                    ],
                },
            },
    {
        let data = request_data(msg)?;
        let uid = get_str_field(data, "uid", MISSING_FIELD)?;
        let ghost ts = strings_view(trophies@);
        let mut tr = Object::new();
        let n = trophies.len();
        let mut i: usize = 0;
        while i < n
            invariant
                n == trophies@.len(),
                ts == strings_view(trophies@),
                0 <= i <= n,
                tr@ == trophies_model(ts.take(i as int)),
            decreases n - i,
        {
            let trophy = &trophies[i];
            let mut item = Object::new();
            item.push_entry("trrt", Value::I32(0));
            item.push_entry("trcd", Value::I32(0));
            item.push_entry("trid", Value::String(trophy.clone()));
            assert(item@ =~= trophy_model(trophy@)->Object_0);
            tr.insert(trophy.clone(), Value::Object(item));
            assert(ts.take(i as int + 1).drop_last() =~= ts.take(i as int));
            assert(ts.take(i as int + 1).last() == trophy@);
            i = i + 1;
        }
        assert(ts.take(n as int) =~= ts);
        let ghost t = tr@;
        let mut ach = Object::new();
        ach.push_entry("ac", Value::Object(Object::new()));
        ach.push_entry("tr", Value::Object(tr));
        assert(ach@ =~= seq![("ac"@, SpecValue::Object(Seq::empty())), ("tr"@, SpecValue::Object(trophies_model(ts)))]);
        let mut psp = Object::new();
        psp.push_entry("uid", Value::String(uid));
        psp.push_entry("rel", Value::Object(Object::new()));
        let ghost a = ach@;
        psp.push_entry("ach", Value::Object(ach));
        assert(psp@[1].1 =~= SpecValue::Object(Seq::empty()));
        assert(psp@ =~= passport_model(uid@, ts));
        let ghost p = psp@;
        let mut out = Object::new();
        out.push_entry("psp", Value::Object(psp));
        assert(out@ =~= seq![("psp"@, SpecValue::Object(p))]);
        Ok(reply("psp.psp", out))
    }

    /// The trophy chosen ("trid" in the data: a string shows it, anything
    /// else shows none), with the reply "psp.sttrph" echoing the choice.
    pub fn set_trophy(&self, msg: &Vec<Value>) -> (r: Result<(TrophyChoice, Vec<Value>), &'static str>)
        requires
            msg@.len() > 2,
        ensures
            match as_object(seq_model(msg@)[2]) {
                Err(e) => r == Err::<(TrophyChoice, Vec<Value>), &'static str>(e),
                Ok(data) => match field(data, "trid"@, MISSING_FIELD) {
                    Err(e) => r == Err::<(TrophyChoice, Vec<Value>), &'static str>(e),
                    Ok(t) => r matches Ok((choice, v)) && (match t {
                        SpecValue::Str(s) => choice matches TrophyChoice::Show(x) && x@ == s,
                        _ => choice is Hide,
                    }) && seq_model(v@) == seq![
                        SpecValue::Str("psp.sttrph"@),
                        SpecValue::Object(seq![("trid"@, t)]),
                    ],
                },
            },
    {
        let data = request_data(msg)?;
        let trid = get_field(data, "trid", MISSING_FIELD)?;
        let choice = match trid {
            Value::String(s) => TrophyChoice::Show(s.clone()),
            _ => TrophyChoice::Hide,
        };
        let ghost t = trid@;
        let mut out = Object::new();
        out.push_entry("trid", trid.copy());
        assert(out@ =~= seq![("trid"@, t)]);
        Ok((choice, reply("psp.sttrph", out)))
    }
}

} // verus!
