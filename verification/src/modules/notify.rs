//! The notices that tell a player its resources, an item count, its chat
//! decoration or its city information changed.
use crate::modules::reply;
use crate::value::{seq_model, str_value, Object, SpecValue, Value};
use vstd::prelude::*;

verus! {

/// The resources of a player: silver, gold, energy and no emeralds.
pub open spec fn res_model(silver: i32, gold: i32, energy: i32) -> Seq<(Seq<char>, SpecValue)> {
    seq![
        ("slvr"@, SpecValue::I32(silver)),
        ("gld"@, SpecValue::I32(gold)),
        ("enrg"@, SpecValue::I32(energy)),
        ("emd"@, SpecValue::I32(0)),
    ]
}

/// The resources of a player (see [`res_model`]).
pub fn get_res(silver: i32, gold: i32, energy: i32) -> (r: Object)
    ensures
        r@ == res_model(silver, gold, energy),
{
    let mut res = Object::new();
    res.push_entry("slvr", Value::I32(silver));
    res.push_entry("gld", Value::I32(gold));
    res.push_entry("enrg", Value::I32(energy));
    res.push_entry("emd", Value::I32(0));
    assert(res@ =~= res_model(silver, gold, energy));
    res
}

/// The notice of new resources: "ntf.res".
pub fn update_resources(res: Object) -> (r: Vec<Value>)
    ensures
        seq_model(r@) == seq![
            SpecValue::Str("ntf.res"@),
            SpecValue::Object(seq![("res"@, SpecValue::Object(res@))]),
        ],
{
    let ghost m = res@;
    let mut data = Object::new();
    data.push_entry("res", Value::Object(res));
    assert(data@ =~= seq![("res"@, SpecValue::Object(m))]);
    reply("ntf.res", data)
}

/// An inventory entry as a notice shows it: count, no location, type.
pub open spec fn item_model(item: Seq<char>, count: i32) -> Seq<(Seq<char>, SpecValue)> {
    seq![("c"@, SpecValue::I32(count)), ("lid"@, SpecValue::Str(""@)), ("tid"@, SpecValue::Str(item))]
}

/// The notice that the player now has `count` of `item`: "ntf.inv".
pub fn update_item(item: &str, count: i32) -> (r: Vec<Value>)
    ensures
        seq_model(r@) == seq![
            SpecValue::Str("ntf.inv"@),
            SpecValue::Object(seq![("it"@, SpecValue::Object(item_model(item@, count)))]),
        ],
{
    let mut it = Object::new();
    it.push_entry("c", Value::I32(count));
    it.push_entry("lid", str_value(""));
    it.push_entry("tid", str_value(item));
    assert(it@ =~= item_model(item@, count));
    let mut data = Object::new();
    data.push_entry("it", Value::Object(it));
    assert(data@ =~= seq![("it"@, SpecValue::Object(item_model(item@, count)))]);
    reply("ntf.inv", data)
}

/// The notice of a new chat decoration: "ntf.chtdcm".
pub fn update_chat_decor(chtdc: Value) -> (r: Vec<Value>)
    ensures
        seq_model(r@) == seq![
            SpecValue::Str("ntf.chtdcm"@),
            SpecValue::Object(seq![("chtdc"@, chtdc@)]),
        ],
{
    let ghost m = chtdc@;
    let mut data = Object::new();
    data.push_entry("chtdc", chtdc);
    assert(data@ =~= seq![("chtdc"@, m)]);
    reply("ntf.chtdcm", data)
}

/// The notice of new city information: "ntf.ci".
pub fn update_city_info(ci: Object) -> (r: Vec<Value>)
    ensures
        seq_model(r@) == seq![
            SpecValue::Str("ntf.ci"@),
            SpecValue::Object(seq![("ci"@, SpecValue::Object(ci@))]),
        ],
{
    let ghost m = ci@;
    let mut data = Object::new();
    data.push_entry("ci", Value::Object(ci));
    assert(data@ =~= seq![("ci"@, SpecValue::Object(m))]);
    reply("ntf.ci", data)
}

} // verus!
