//! The game modules, and what they share: reading commands and describing players.
use crate::text::{split, split_chars, parse_i32, parse_i32_spec};
use crate::value::{
    obj_insert,
    Value,
    Object,
    SpecValue,
    seq_model,
    lemma_seq_model,
    obj_get,
    str_value,
    vec_value,
    opt_string,
    opt_string_model,
    CONVERT_ERROR,
};
use crate::world::{World, PlayerState, uid_index};
use vstd::prelude::*;

pub mod avatar;
pub mod billing;
pub mod campaign;
pub mod chat_decor;
pub mod component;
pub mod descriptor;
pub mod furniture;
pub mod house;
pub mod location;
pub mod notify;
pub mod outside;
pub mod passport;
pub mod player;

verus! {

/// The error of a handler whose request lacks a field it needs.
pub const MISSING_FIELD: &'static str = "err";

/// The error of a handler whose request lacks a field, in the handlers that
/// word it so.
pub const KEY_NOT_FOUND: &'static str = "key not found";

/// The error of a handler that changes the state of a player that is not online.
pub const NOT_ONLINE: &'static str = "Can't get mut";

/// The error of a handler that reads a number out of a text that is not one.
pub const NOT_A_NUMBER: &'static str = "invalid digit found in string";

/// The model of a value as the text it holds, or the conversion error.
pub open spec fn as_str(v: SpecValue) -> Result<Seq<char>, &'static str> {
    match v {
        SpecValue::Str(s) => Ok(s),
        _ => Err(CONVERT_ERROR),
    }
}

/// The model of a value as the entries it holds, or the conversion error.
pub open spec fn as_object(v: SpecValue) -> Result<Seq<(Seq<char>, SpecValue)>, &'static str> {
    match v {
        SpecValue::Object(m) => Ok(m),
        _ => Err(CONVERT_ERROR),
    }
}

/// The model of a value as the items it holds, or the conversion error.
pub open spec fn as_vector(v: SpecValue) -> Result<Seq<SpecValue>, &'static str> {
    match v {
        SpecValue::Vector(items) => Ok(items),
        _ => Err(CONVERT_ERROR),
    }
}

/// The model of a value as the number it holds, or the conversion error.
pub open spec fn as_i32(v: SpecValue) -> Result<i32, &'static str> {
    match v {
        SpecValue::I32(x) => Ok(x),
        _ => Err(CONVERT_ERROR),
    }
}

/// The model of a value as the truth value it holds, or the conversion error.
pub open spec fn as_bool(v: SpecValue) -> Result<bool, &'static str> {
    match v {
        SpecValue::Boolean(b) => Ok(b),
        _ => Err(CONVERT_ERROR),
    }
}

/// The model of a value as the double (its bits) it holds, or the conversion error.
pub open spec fn as_f64(v: SpecValue) -> Result<u64, &'static str> {
    match v {
        SpecValue::F64(x) => Ok(x),
        _ => Err(CONVERT_ERROR),
    }
}

/// The value under `k`, or the error `missing` where there is none.
pub open spec fn field(m: Seq<(Seq<char>, SpecValue)>, k: Seq<char>, missing: &'static str) -> Result<SpecValue, &'static str> {
    match obj_get(m, k) {
        Some(v) => Ok(v),
        None => Err(missing),
    }
}

/// The text under `k`: `missing` where there is none, the conversion error
/// where the value is not a string.
pub open spec fn str_field(m: Seq<(Seq<char>, SpecValue)>, k: Seq<char>, missing: &'static str) -> Result<Seq<char>, &'static str> {
    match field(m, k, missing) {
        Ok(v) => as_str(v),
        Err(e) => Err(e),
    }
}

/// The number under `k` (see [`str_field`]).
pub open spec fn i32_field(m: Seq<(Seq<char>, SpecValue)>, k: Seq<char>, missing: &'static str) -> Result<i32, &'static str> {
    match field(m, k, missing) {
        Ok(v) => as_i32(v),
        Err(e) => Err(e),
    }
}

/// The truth value under `k` (see [`str_field`]).
pub open spec fn bool_field(m: Seq<(Seq<char>, SpecValue)>, k: Seq<char>, missing: &'static str) -> Result<bool, &'static str> {
    match field(m, k, missing) {
        Ok(v) => as_bool(v),
        Err(e) => Err(e),
    }
}

/// The double under `k` (see [`str_field`]).
pub open spec fn f64_field(m: Seq<(Seq<char>, SpecValue)>, k: Seq<char>, missing: &'static str) -> Result<u64, &'static str> {
    match field(m, k, missing) {
        Ok(v) => as_f64(v),
        Err(e) => Err(e),
    }
}

/// The entries under `k` (see [`str_field`]).
pub open spec fn object_field(m: Seq<(Seq<char>, SpecValue)>, k: Seq<char>, missing: &'static str) -> Result<Seq<(Seq<char>, SpecValue)>, &'static str> {
    match field(m, k, missing) {
        Ok(v) => as_object(v),
        Err(e) => Err(e),
    }
}

/// The items under `k` (see [`str_field`]).
pub open spec fn vector_field(m: Seq<(Seq<char>, SpecValue)>, k: Seq<char>, missing: &'static str) -> Result<Seq<SpecValue>, &'static str> {
    match field(m, k, missing) {
        Ok(v) => as_vector(v),
        Err(e) => Err(e),
    }
}

/// The model of a result holding a string.
pub open spec fn str_result(r: Result<String, &'static str>) -> Result<Seq<char>, &'static str> {
    match r {
        Ok(s) => Ok(s@),
        Err(e) => Err(e),
    }
}

/// The model of a result holding an object.
pub open spec fn object_result(r: Result<&Object, &'static str>) -> Result<Seq<(Seq<char>, SpecValue)>, &'static str> {
    match r {
        Ok(o) => Ok(o@),
        Err(e) => Err(e),
    }
}

/// The model of a result holding a value.
pub open spec fn value_result(r: Result<&Value, &'static str>) -> Result<SpecValue, &'static str> {
    match r {
        Ok(v) => Ok(v@),
        Err(e) => Err(e),
    }
}

/// The model of a result holding a list of values.
pub open spec fn vector_result(r: Result<&Vec<Value>, &'static str>) -> Result<Seq<SpecValue>, &'static str> {
    match r {
        Ok(v) => Ok(seq_model(v@)),
        Err(e) => Err(e),
    }
}

/// The value under `key` in a request.
pub fn get_field<'a>(data: &'a Object, key: &str, missing: &'static str) -> (r: Result<&'a Value, &'static str>)
    ensures
        value_result(r) == field(data@, key@, missing),
{
    match data.get(key) {
        Some(v) => Ok(v),
        None => Err(missing),
    }
}

/// The text under `key` in a request.
pub fn get_str_field(data: &Object, key: &str, missing: &'static str) -> (r: Result<String, &'static str>)
    ensures
        str_result(r) == str_field(data@, key@, missing),
{
    match data.get(key) {
        Some(v) => v.get_string(),
        None => Err(missing),
    }
}

/// The number under `key` in a request.
pub fn get_i32_field(data: &Object, key: &str, missing: &'static str) -> (r: Result<i32, &'static str>)
    ensures
        r == i32_field(data@, key@, missing),
{
    match data.get(key) {
        Some(v) => v.get_i32(),
        None => Err(missing),
    }
}

/// The truth value under `key` in a request.
pub fn get_bool_field(data: &Object, key: &str, missing: &'static str) -> (r: Result<bool, &'static str>)
    ensures
        r == bool_field(data@, key@, missing),
{
    match data.get(key) {
        Some(v) => v.get_bool(),
        None => Err(missing),
    }
}

/// The double (its bits) under `key` in a request.
pub fn get_f64_field(data: &Object, key: &str, missing: &'static str) -> (r: Result<u64, &'static str>)
    ensures
        r == f64_field(data@, key@, missing),
{
    match data.get(key) {
        Some(v) => v.get_f64(),
        None => Err(missing),
    }
}

/// The object under `key` in a request.
pub fn get_object_field<'a>(data: &'a Object, key: &str, missing: &'static str) -> (r: Result<&'a Object, &'static str>)
    ensures
        object_result(r) == object_field(data@, key@, missing),
{
    match data.get(key) {
        Some(v) => v.get_object(),
        None => Err(missing),
    }
}

/// The list under `key` in a request.
pub fn get_vector_field<'a>(data: &'a Object, key: &str, missing: &'static str) -> (r: Result<&'a Vec<Value>, &'static str>)
    ensures
        vector_result(r) == vector_field(data@, key@, missing),
{
    match data.get(key) {
        Some(v) => v.get_vector(),
        None => Err(missing),
    }
}

/// The data of a command: its third item, which must be an object.
pub fn request_data(msg: &Vec<Value>) -> (r: Result<&Object, &'static str>)
    requires
        msg@.len() > 2,
    ensures
        object_result(r) == as_object(seq_model(msg@)[2]),
{
    proof {
        lemma_seq_model(msg@);
    }
    msg[2].get_object()
}

/// The text of item `i` of a message.
pub fn message_text(msg: &Vec<Value>, i: usize) -> (r: Result<String, &'static str>)
    requires
        i < msg@.len(),
    ensures
        str_result(r) == as_str(seq_model(msg@)[i as int]),
{
    proof {
        lemma_seq_model(msg@);
    }
    msg[i].get_string()
}

/// A message of two items: the command name and one object.
pub fn reply(command: &str, data: Object) -> (r: Vec<Value>)
    ensures
        seq_model(r@) == seq![SpecValue::Str(command@), SpecValue::Object(data@)],
{
    let ghost d = data@;
    let mut v: Vec<Value> = Vec::new();
    v.push(str_value(command));
    v.push(Value::Object(data));
    proof {
        lemma_seq_model(v@);
        assert(seq_model(v@) =~= seq![SpecValue::Str(command@), SpecValue::Object(d)]);
    }
    v
}

/// What reading a record of the store gives.
pub enum StoreRead<T> {
    /// The record.
    Found(T),
    /// A field that should hold a number does not: reading fails with [`NOT_A_NUMBER`].
    NotANumber,
    /// A field is missing, which the server does not survive.
    Malformed,
}

/// The views of a list of text pairs.
pub open spec fn pairs_view(p: Seq<(String, String)>) -> Seq<(Seq<char>, Seq<char>)> {
    Seq::new(p.len(), |j: int| (p[j].0@, p[j].1@))
}

/// The entries `m` with the text pairs `fields` entered one after the other
/// as strings, each replacing an entry of the same key.
pub open spec fn insert_texts(m: Seq<(Seq<char>, SpecValue)>, fields: Seq<(Seq<char>, Seq<char>)>) -> Seq<(Seq<char>, SpecValue)>
    decreases fields.len(),
{
    if fields.len() == 0 {
        m
    } else {
        obj_insert(insert_texts(m, fields.drop_last()), fields.last().0, SpecValue::Str(fields.last().1))
    }
}

/// Enters the text pairs `fields` into `out` as strings (see [`insert_texts`]).
pub fn put_texts(out: &mut Object, fields: &Vec<(String, String)>)
    ensures
        final(out)@ == insert_texts(old(out)@, pairs_view(fields@)),
{
    let ghost start = out@;
    let ghost f = pairs_view(fields@);
    let n = fields.len();
    let mut i: usize = 0;
    while i < n
        invariant
            n == fields@.len(),
            f == pairs_view(fields@),
            0 <= i <= n,
            out@ == insert_texts(start, f.take(i as int)),
        decreases n - i,
    {
        assert(f.take(i as int + 1).drop_last() =~= f.take(i as int));
        assert(f.take(i as int + 1).last() == (fields@[i as int].0@, fields@[i as int].1@));
        out.insert(fields[i].0.clone(), Value::String(fields[i].1.clone()));
        i = i + 1;
    }
    assert(f.take(n as int) =~= f);
}

/// The piece of a command name that a handler looks at.
pub enum Route {
    /// The piece.
    Segment(String),
    /// The command item is not a string: the handler fails with this error.
    Refused(&'static str),
    /// The command item or the piece is missing, which the server does not survive.
    Malformed,
}

/// The piece number `index` of the command name, the second item of a
/// message, split at dots ("h.r.info" has the pieces "h", "r" and "info").
pub fn command_segment(msg: &Vec<Value>, index: usize) -> (r: Route)
    ensures
        ({
            let m = seq_model(msg@);
            if m.len() < 2 {
                r is Malformed
            } else if !(m[1] is Str) {
                r == Route::Refused(CONVERT_ERROR)
            } else if index >= split_chars(m[1]->Str_0, '.').len() {
                r is Malformed
            } else {
                r matches Route::Segment(p) && p@ == split_chars(m[1]->Str_0, '.')[index as int]
            }
        }),
{
    proof {
        lemma_seq_model(msg@);
    }
    if msg.len() < 2 {
        return Route::Malformed;
    }
    let command = match msg[1].get_string() {
        Ok(c) => c,
        Err(e) => {
            return Route::Refused(e);
        },
    };
    let mut parts = split(command.as_str(), '.');
    if index < parts.len() {
        Route::Segment(parts.swap_remove(index))
    } else {
        Route::Malformed
    }
}

/// The location information of a player ("locinfo").
pub open spec fn location_model(p: PlayerState) -> Seq<(Seq<char>, SpecValue)> {
    seq![
        ("x"@, SpecValue::F64(p.position.0)),
        ("y"@, SpecValue::F64(p.position.1)),
        ("d"@, SpecValue::I32(p.direction)),
        ("st"@, SpecValue::I32(p.state)),
        ("at"@, SpecValue::Str(p.action_tag@)),
        ("l"@, SpecValue::Str(p.room@)),
        ("pl"@, SpecValue::Str(""@)),
        ("s"@, SpecValue::Str("127.0.0.1"@)),
        ("shlc"@, SpecValue::Boolean(true)),
    ]
}

/// Where the player `uid` is: its location information while online, null otherwise.
pub fn get_location(uid: &str, player_data: &World) -> (r: Value)
    ensures
        match uid_index(player_data.players@, uid@) {
            Some(i) => r@ == SpecValue::Object(location_model(player_data.players@[i].1)),
            None => r@ == SpecValue::Null,
        },
{
    match player_data.get(uid) {
        Some(v) => {
            let mut locinfo = Object::new();
            locinfo.push_entry("x", Value::F64(v.position.0));
            locinfo.push_entry("y", Value::F64(v.position.1));
            locinfo.push_entry("d", Value::I32(v.direction));
            locinfo.push_entry("st", Value::I32(v.state));
            locinfo.push_entry("at", Value::String(v.action_tag.clone()));
            locinfo.push_entry("l", Value::String(v.room.clone()));
            locinfo.push_entry("pl", str_value(""));
            locinfo.push_entry("s", str_value("127.0.0.1"));
            locinfo.push_entry("shlc", Value::Boolean(true));
            assert(locinfo@ =~= location_model(*v));
            Value::Object(locinfo)
        },
        None => Value::Null,
    }
}

/// The chat decoration of a player ("chtdcm"): its bubble and text colour, or
/// null where it has none.
pub fn get_chat_decor(bubble: Option<String>, text_color: Option<String>) -> (r: Value)
    ensures
        r@ == SpecValue::Object(
            seq![
                ("bdc"@, opt_string_model(bubble)),
                ("tcl"@, opt_string_model(text_color)),
                ("spks"@, SpecValue::Null),
            ],
        ),
{
    let ghost b = opt_string_model(bubble);
    let ghost t = opt_string_model(text_color);
    let mut chtdc = Object::new();
    chtdc.push_entry("bdc", opt_string(bubble));
    chtdc.push_entry("tcl", opt_string(text_color));
    chtdc.push_entry("spks", Value::Null);
    assert(chtdc@ =~= seq![("bdc"@, b), ("tcl"@, t), ("spks"@, SpecValue::Null)]);
    Value::Object(chtdc)
}

/// The personal animations part of the city information: none, and no time stamp.
pub open spec fn animations_model() -> Seq<(Seq<char>, SpecValue)> {
    seq![("amn"@, SpecValue::Vector(Seq::empty())), ("crst"@, SpecValue::I32(0))]
}

/// The city information of a player ("ci"): experience, clothes rating,
/// house rating, last visit time and trophy from the store; every other
/// field has its fixed value.
pub open spec fn city_info_model(exp: i32, crt: i32, hrt: i32, lvt: i32, trid: SpecValue) -> Seq<(Seq<char>, SpecValue)> {
    seq![
            ("exp"@, SpecValue::I32(exp)),
            ("crt"@, SpecValue::I32(crt)),
            ("hrt"@, SpecValue::I32(hrt)),
            ("fexp"@, SpecValue::I32(0)),
            ("gdc"@, SpecValue::I32(0)),
            ("lgt"@, SpecValue::I32(0)),
            ("vip"@, SpecValue::Boolean(true)),
            ("vexp"@, SpecValue::I32(0)),
            ("vsexp"@, SpecValue::I32(0)),
            ("vsact"@, SpecValue::Boolean(true)),
            ("vret"@, SpecValue::I32(0)),
            ("vfgc"@, SpecValue::I32(0)),
            ("ceid"@, SpecValue::I32(0)),
            ("cmid"@, SpecValue::I32(0)),
            ("dr"@, SpecValue::Boolean(true)),
            ("spp"@, SpecValue::I32(0)),
            ("tts"@, SpecValue::Null),
            ("eml"@, SpecValue::Null),
            ("ys"@, SpecValue::I32(0)),
            ("ysct"@, SpecValue::I32(0)),
            ("fak"@, SpecValue::Null),
            ("shcr"@, SpecValue::Boolean(true)),
            ("gtrfrd"@, SpecValue::I32(0)),
            ("strfrd"@, SpecValue::I32(0)),
            ("rtrtm"@, SpecValue::I32(0)),
            ("kyktid"@, SpecValue::Null),
            ("actrt"@, SpecValue::I32(0)),
            ("compid"@, SpecValue::I32(0)),
            ("actrp"@, SpecValue::I32(0)),
            ("actrd"@, SpecValue::I32(0)),
            ("shousd"@, SpecValue::Boolean(false)),
            ("rpt"@, SpecValue::I32(0)),
            ("as"@, SpecValue::Null),
            ("lvt"@, SpecValue::I32(lvt)),
            ("lrnt"@, SpecValue::I32(0)),
            ("lwts"@, SpecValue::I32(0)),
            ("skid"@, SpecValue::Null),
            ("skrt"@, SpecValue::I32(0)),
            ("bcld"@, SpecValue::I32(0)),
            ("trid"@, trid),
            ("trcd"@, SpecValue::I32(0)),
            ("sbid"@, SpecValue::Null),
            ("sbrt"@, SpecValue::I32(0)),
            ("plcmt"@, SpecValue::Object(Seq::empty())),
            ("pamns"@, SpecValue::Object(animations_model()))
    ]
}

/// The city information of a player (see [`city_info_model`]).
#[verifier::spinoff_prover]
#[verifier::rlimit(50)]
pub fn get_city_info(exp: i32, crt: i32, hrt: i32, lvt: i32, trid: Option<String>) -> (r: Object)
    ensures
        r@ == city_info_model(exp, crt, hrt, lvt, opt_string_model(trid)),
{
    let ghost t = opt_string_model(trid);
    let mut pamns = Object::new();
    pamns.push_entry("amn", vec_value(Vec::new()));
    pamns.push_entry("crst", Value::I32(0));
    assert(pamns@ =~= animations_model());
    let mut o = Object::new();
    o.push_entry("exp", Value::I32(exp));
    o.push_entry("crt", Value::I32(crt));
    o.push_entry("hrt", Value::I32(hrt));
    o.push_entry("fexp", Value::I32(0));
    o.push_entry("gdc", Value::I32(0));
    o.push_entry("lgt", Value::I32(0));
    o.push_entry("vip", Value::Boolean(true));
    o.push_entry("vexp", Value::I32(0));
    o.push_entry("vsexp", Value::I32(0));
    o.push_entry("vsact", Value::Boolean(true));
    o.push_entry("vret", Value::I32(0));
    o.push_entry("vfgc", Value::I32(0));
    o.push_entry("ceid", Value::I32(0));
    o.push_entry("cmid", Value::I32(0));
    o.push_entry("dr", Value::Boolean(true));
    o.push_entry("spp", Value::I32(0));
    o.push_entry("tts", Value::Null);
    o.push_entry("eml", Value::Null);
    o.push_entry("ys", Value::I32(0));
    o.push_entry("ysct", Value::I32(0));
    o.push_entry("fak", Value::Null);
    o.push_entry("shcr", Value::Boolean(true));
    o.push_entry("gtrfrd", Value::I32(0));
    o.push_entry("strfrd", Value::I32(0));
    o.push_entry("rtrtm", Value::I32(0));
    o.push_entry("kyktid", Value::Null);
    o.push_entry("actrt", Value::I32(0));
    o.push_entry("compid", Value::I32(0));
    o.push_entry("actrp", Value::I32(0));
    o.push_entry("actrd", Value::I32(0));
    o.push_entry("shousd", Value::Boolean(false));
    o.push_entry("rpt", Value::I32(0));
    o.push_entry("as", Value::Null);
    o.push_entry("lvt", Value::I32(lvt));
    o.push_entry("lrnt", Value::I32(0));
    o.push_entry("lwts", Value::I32(0));
    o.push_entry("skid", Value::Null);
    o.push_entry("skrt", Value::I32(0));
    o.push_entry("bcld", Value::I32(0));
    o.push_entry("trid", opt_string(trid));
    o.push_entry("trcd", Value::I32(0));
    o.push_entry("sbid", Value::Null);
    o.push_entry("sbrt", Value::I32(0));
    o.push_entry("plcmt", Value::Object(Object::new()));
    o.push_entry("pamns", Value::Object(pamns));
    assert(o@ =~= city_info_model(exp, crt, hrt, lvt, t));
    o
}

/// One profession of a player: its name, level 20 and no progress.
pub open spec fn profession_model(name: Seq<char>) -> SpecValue {
    SpecValue::Object(
        seq![("tp"@, SpecValue::Str(name)), ("l"@, SpecValue::I32(20)), ("pgs"@, SpecValue::I32(0))],
    )
}

fn profession(name: &str) -> (r: Value)
    ensures
        r@ == profession_model(name@),
{
    let mut out = Object::new();
    out.push_entry("tp", str_value(name));
    out.push_entry("l", Value::I32(20));
    out.push_entry("pgs", Value::I32(0));
    assert(out@ =~= seq![("tp"@, SpecValue::Str(name@)), ("l"@, SpecValue::I32(20)), ("pgs"@, SpecValue::I32(0))]);
    Value::Object(out)
}

/// The professions part of a player ("pf").
pub open spec fn professions_model() -> Seq<(Seq<char>, SpecValue)> {
    seq![
        (
            "pf"@,
            SpecValue::Object(
                seq![
                    ("jntr"@, profession_model("jntr"@)),
                    ("phtghr"@, profession_model("phtghr"@)),
                    ("grdnr"@, profession_model("grdnr"@)),
                    ("vsgst"@, profession_model("vsgst"@)),
                ],
            ),
        ),
    ]
}

/// The description of a player ("plr"): user id, appearance, clothes,
/// location, chat decoration, role, professions and city information.
pub open spec fn player_model(
    uid: Seq<char>,
    apprnc: Seq<(Seq<char>, SpecValue)>,
    clths: Seq<(Seq<char>, SpecValue)>,
    locinfo: SpecValue,
    chtdcm: SpecValue,
    role: i32,
    ci: Seq<(Seq<char>, SpecValue)>,
) -> Seq<(Seq<char>, SpecValue)> {
    seq![
        ("uid"@, SpecValue::Str(uid)),
        ("apprnc"@, SpecValue::Object(apprnc)),
        ("clths"@, SpecValue::Object(clths)),
        ("locinfo"@, locinfo),
        ("chtdcm"@, chtdcm),
        ("usrinf"@, SpecValue::Object(seq![("rl"@, SpecValue::I32(role))])),
        ("pf"@, SpecValue::Object(professions_model())),
        ("ci"@, SpecValue::Object(ci)),
    ]
}

/// The description of a player (see [`player_model`]).
pub fn get_plr(
    uid: &str,
    apprnc: Object,
    clths: Object,
    locinfo: Value,
    chtdcm: Value,
    role: i32,
    ci: Object,
) -> (r: Object)
    ensures
        r@ == player_model(uid@, apprnc@, clths@, locinfo@, chtdcm@, role, ci@),
{
    let ghost (a, c, l, d, i) = (apprnc@, clths@, locinfo@, chtdcm@, ci@);
    let mut usrinf = Object::new();
    usrinf.push_entry("rl", Value::I32(role));
    let mut professions = Object::new();
    professions.push_entry("jntr", profession("jntr"));
    professions.push_entry("phtghr", profession("phtghr"));
    professions.push_entry("grdnr", profession("grdnr"));
    professions.push_entry("vsgst", profession("vsgst"));
    assert(professions@ =~= seq![
        ("jntr"@, profession_model("jntr"@)),
        ("phtghr"@, profession_model("phtghr"@)),
        ("grdnr"@, profession_model("grdnr"@)),
        ("vsgst"@, profession_model("vsgst"@)),
    ]);
    let mut pf = Object::new();
    pf.push_entry("pf", Value::Object(professions));
    assert(pf@ =~= professions_model());
    let mut plr = Object::new();
    plr.push_entry("uid", str_value(uid));
    plr.push_entry("apprnc", Value::Object(apprnc));
    plr.push_entry("clths", Value::Object(clths));
    plr.push_entry("locinfo", locinfo);
    plr.push_entry("chtdcm", chtdcm);
    plr.push_entry("usrinf", Value::Object(usrinf));
    plr.push_entry("pf", Value::Object(pf));
    plr.push_entry("ci", Value::Object(ci));
    assert(plr@ =~= player_model(uid@, a, c, l, d, role, i));
    plr
}

/// The keys under which the appearance keeps its fields: name, name change
/// time, gender, skin colour, then the types and colours of hair, brows,
/// eyes, face feature, face art, strass, mouth, shadow, rouge, piercing and
/// beard.
pub open spec fn appearance_keys() -> Seq<Seq<char>> {
    seq![
        "n"@, "nct"@, "g"@, "sc"@, "ht"@, "hc"@, "brt"@, "brc"@, "et"@, "ec"@, "fft"@, "fat"@,
        "fac"@, "ss"@, "ssc"@, "mt"@, "mc"@, "sh"@, "shc"@, "rg"@, "rc"@, "pt"@, "pc"@, "bt"@,
        "bc"@,
    ]
}

/// The key of appearance field `i`.
pub open spec fn appearance_key_spec(i: int) -> Seq<char> {
    appearance_keys()[i]
}

/// The key of appearance field `i` (see [`appearance_key_spec`]).
pub fn appearance_key(i: usize) -> (r: &'static str)
    requires
        i < 25,
    ensures
        r@ == appearance_key_spec(i as int),
{
    match i {
        0 => "n",
        1 => "nct",
        2 => "g",
        3 => "sc",
        4 => "ht",
        5 => "hc",
        6 => "brt",
        7 => "brc",
        8 => "et",
        9 => "ec",
        10 => "fft",
        11 => "fat",
        12 => "fac",
        13 => "ss",
        14 => "ssc",
        15 => "mt",
        16 => "mc",
        17 => "sh",
        18 => "shc",
        19 => "rg",
        20 => "rc",
        21 => "pt",
        22 => "pc",
        23 => "bt",
        24 => "bc",
        _ => "bc",
    }
}

/// An appearance read from the store.
pub enum Appearance {
    /// The player has no appearance (no avatar yet).
    Absent,
    /// The appearance.
    Found(Object),
    /// A number field is not a number: reading fails.
    Invalid,
    /// The stored list is cut short, which the server does not survive.
    Truncated,
}

/// Reading the number fields from field `i` on: nothing wrong (`None`), a
/// missing field first (`Some(true)`) or a field that is not a number first
/// (`Some(false)`).
pub open spec fn appearance_scan(f: Seq<Seq<char>>, i: int) -> Option<bool>
    decreases 25 - i,
{
    if i >= 25 {
        None
    } else if i >= f.len() {
        Some(true)
    } else if parse_i32_spec(f[i]) is None {
        Some(false)
    } else {
        appearance_scan(f, i + 1)
    }
}

/// The first `k` fields of the appearance stored as `f`: the name, then numbers.
pub open spec fn appearance_entries(f: Seq<Seq<char>>, k: int) -> Seq<(Seq<char>, SpecValue)>
    decreases k,
{
    if k <= 0 {
        Seq::empty()
    } else if k == 1 {
        seq![("n"@, SpecValue::Str(f[0]))]
    } else {
        appearance_entries(f, k - 1).push(
            (appearance_key_spec(k - 1), SpecValue::I32(parse_i32_spec(f[k - 1]).unwrap())),
        )
    }
}

/// The views of a sequence of strings.
pub open spec fn strings_view(v: Seq<String>) -> Seq<Seq<char>> {
    Seq::new(v.len(), |i: int| v[i]@)
}

/// The appearance of a player from the list the store keeps: the name, then
/// 24 numbers in the order of [`appearance_key_spec`].
pub fn get_appearance(fields: &Vec<String>) -> (r: Appearance)
    ensures
        ({
            let f = strings_view(fields@);
            if f.len() == 0 {
                r is Absent
            } else {
                match appearance_scan(f, 1) {
                    Some(true) => r is Truncated,
                    Some(false) => r is Invalid,
                    None => r matches Appearance::Found(o) && o@ == appearance_entries(f, 25),
                }
            }
        }),
{
    let ghost f = strings_view(fields@);
    if fields.len() == 0 {
        return Appearance::Absent;
    }
    let mut out = Object::new();
    out.push_entry("n", Value::String(fields[0].clone()));
    assert(out@ =~= appearance_entries(f, 1));
    let mut i: usize = 1;
    while i < 25
        invariant
            f == strings_view(fields@),
            f.len() >= 1,
            1 <= i <= 25,
            out@ == appearance_entries(f, i as int),
            appearance_scan(f, 1) == appearance_scan(f, i as int),
        decreases 25 - i,
    {
        if i >= fields.len() {
            return Appearance::Truncated;
        }
        assert(f[i as int] == fields@[i as int]@);
        match parse_i32(fields[i].as_str()) {
            Some(x) => {
                out.push_entry(appearance_key(i), Value::I32(x));
            },
            None => {
                return Appearance::Invalid;
            },
        }
        i = i + 1;
    }
    Appearance::Found(out)
}

/// The fields of an appearance sent by the client, in the order the store
/// keeps them: the name, then the 24 numbers; `None` where a field is missing
/// or of the wrong kind, which the server does not survive.
pub open spec fn appearance_record_spec(a: Seq<(Seq<char>, SpecValue)>) -> Option<(Seq<char>, Seq<i32>)> {
    if !(obj_get(a, "n"@) matches Some(SpecValue::Str(_))) {
        None
    } else if forall|i: int| 1 <= i < 25 ==> (obj_get(a, #[trigger] appearance_key_spec(i)) matches Some(SpecValue::I32(_))) {
        Some((obj_get(a, "n"@).unwrap()->Str_0, Seq::new(24, |i: int| obj_get(a, appearance_key_spec(i + 1)).unwrap()->I32_0)))
    } else {
        None
    }
}

/// The fields of an appearance sent by the client (see [`appearance_record_spec`]).
pub fn appearance_record(apprnc: &Object) -> (r: Option<(String, Vec<i32>)>)
    ensures
        match appearance_record_spec(apprnc@) {
            Some((n, xs)) => r matches Some((name, values)) && name@ == n && values@ == xs,
            None => r is None,
        },
{
    let name = match apprnc.get("n") {
        Some(v) => match v.get_string() {
            Ok(s) => s,
            Err(_) => {
                return None;
            },
        },
        None => {
            return None;
        },
    };
    let mut values: Vec<i32> = Vec::new();
    let mut i: usize = 1;
    while i < 25
        invariant
            1 <= i <= 25,
            values@.len() == i - 1,
            obj_get(apprnc@, "n"@) matches Some(SpecValue::Str(_)),
            forall|j: int| 1 <= j < i ==> (obj_get(apprnc@, #[trigger] appearance_key_spec(j)) matches Some(SpecValue::I32(_))),
            forall|j: int| 0 <= j < i - 1 ==> values@[j] == obj_get(apprnc@, appearance_key_spec(j + 1)).unwrap()->I32_0,
        decreases 25 - i,
    {
        let key = appearance_key(i);
        match apprnc.get(key) {
            Some(v) => match v.get_i32() {
                Ok(x) => {
                    values.push(x);
                },
                Err(_) => {
                    return None;
                },
            },
            None => {
                return None;
            },
        }
        i = i + 1;
    }
    assert(values@ =~= Seq::new(24, |j: int| obj_get(apprnc@, appearance_key_spec(j + 1)).unwrap()->I32_0));
    Some((name, values))
}


} // verus!
