//! The campaigns a player is shown after entering its house: professions,
//! chat decorations and the chat decoration shop.
use crate::modules::reply;
use crate::value::{lemma_seq_model, seq_model, str_value, vec_value, Object, SpecValue, Value};
use vstd::prelude::*;

verus! {

/// Whether the professions campaign runs.
pub const PROFESSIONS: bool = true;

/// Whether the chat decoration campaigns run.
pub const CHAT_DECOR: bool = true;

/// One entry of a campaign: no score, no gold, no silver, its campaign, its
/// type and its id.
pub open spec fn campaign_item_model(cid: i32, tid: Seq<char>, id: i32) -> SpecValue {
    SpecValue::Object(
        seq![
            ("sc"@, SpecValue::I32(0)),
            ("gl"@, SpecValue::I32(0)),
            ("si"@, SpecValue::I32(0)),
            ("cid"@, SpecValue::I32(cid)),
            ("tid"@, SpecValue::Str(tid)),
            ("id"@, SpecValue::I32(id)),
        ],
    )
}

/// A running campaign of type 9 with its id, end date and entries.
pub open spec fn campaign_model(id: i32, ed: i64, items: Seq<SpecValue>) -> SpecValue {
    SpecValue::Object(
        seq![
            ("st"@, SpecValue::I32(1)),
            ("v"@, SpecValue::I32(1)),
            ("id"@, SpecValue::I32(id)),
            ("iu"@, SpecValue::Str(""@)),
            ("tp"@, SpecValue::I32(9)),
            ("ed"@, SpecValue::Date(ed)),
            ("cil"@, SpecValue::Vector(items)),
        ],
    )
}

/// The professions campaign (114): one entry for the campaign and one per profession.
pub open spec fn professions_campaign_model() -> SpecValue {
    campaign_model(
        114,
        1440622800000,
        seq![
            campaign_item_model(114, "professions"@, 1110),
            campaign_item_model(114, "grdnr"@, 1111),
            campaign_item_model(114, "jntr"@, 1112),
            campaign_item_model(114, "vsgst"@, 1577),
            campaign_item_model(114, "phtghr"@, 1578),
        ],
    )
}

/// The chat decoration campaign (449).
pub open spec fn chat_decor_campaign_model() -> SpecValue {
    campaign_model(449, 1522616400000, seq![campaign_item_model(449, "chatDecor"@, 4095)])
}

/// The chat decoration shop campaign (457).
pub open spec fn chat_decor_shop_campaign_model() -> SpecValue {
    campaign_model(457, 1530133200000, seq![campaign_item_model(457, "chatDecorShop"@, 4220)])
}

fn campaign_item(cid: i32, tid: &str, id: i32) -> (r: Value)
    ensures
        r@ == campaign_item_model(cid, tid@, id),
{
    let mut item = Object::new();
    item.push_entry("sc", Value::I32(0));
    item.push_entry("gl", Value::I32(0));
    item.push_entry("si", Value::I32(0));
    item.push_entry("cid", Value::I32(cid));
    item.push_entry("tid", str_value(tid));
    item.push_entry("id", Value::I32(id));
    assert(item@ =~= campaign_item_model(cid, tid@, id)->Object_0);
    Value::Object(item)
}

fn campaign(id: i32, ed: i64, items: Vec<Value>) -> (r: Value)
    ensures
        r@ == campaign_model(id, ed, seq_model(items@)),
{
    let ghost m = seq_model(items@);
    let mut out = Object::new();
    out.push_entry("st", Value::I32(1));
    out.push_entry("v", Value::I32(1));
    out.push_entry("id", Value::I32(id));
    out.push_entry("iu", str_value(""));
    out.push_entry("tp", Value::I32(9));
    out.push_entry("ed", Value::Date(ed));
    out.push_entry("cil", vec_value(items));
    assert(out@ =~= campaign_model(id, ed, m)->Object_0);
    Value::Object(out)
}

/// The professions campaign (see [`professions_campaign_model`]).
pub fn professions_campaign() -> (r: Value)
    ensures
        r@ == professions_campaign_model(),
{
    let mut cil: Vec<Value> = Vec::new();
    cil.push(campaign_item(114, "professions", 1110));
    cil.push(campaign_item(114, "grdnr", 1111));
    cil.push(campaign_item(114, "jntr", 1112));
    cil.push(campaign_item(114, "vsgst", 1577));
    cil.push(campaign_item(114, "phtghr", 1578));
    proof {
        lemma_seq_model(cil@);
        assert(seq_model(cil@) =~= seq![
            campaign_item_model(114, "professions"@, 1110),
            campaign_item_model(114, "grdnr"@, 1111),
            campaign_item_model(114, "jntr"@, 1112),
            campaign_item_model(114, "vsgst"@, 1577),
            campaign_item_model(114, "phtghr"@, 1578),
        ]);
    }
    campaign(114, 1440622800000, cil)
}

/// The chat decoration campaign (see [`chat_decor_campaign_model`]).
pub fn chat_decor_campaign() -> (r: Value)
    ensures
        r@ == chat_decor_campaign_model(),
{
    let mut cil: Vec<Value> = Vec::new();
    cil.push(campaign_item(449, "chatDecor", 4095));
    proof {
        lemma_seq_model(cil@);
        assert(seq_model(cil@) =~= seq![campaign_item_model(449, "chatDecor"@, 4095)]);
    }
    campaign(449, 1522616400000, cil)
}

/// The chat decoration shop campaign (see [`chat_decor_shop_campaign_model`]).
pub fn chat_decor_shop_campaign() -> (r: Value)
    ensures
        r@ == chat_decor_shop_campaign_model(),
{
    let mut cil: Vec<Value> = Vec::new();
    cil.push(campaign_item(457, "chatDecorShop", 4220));
    proof {
        lemma_seq_model(cil@);
        assert(seq_model(cil@) =~= seq![campaign_item_model(457, "chatDecorShop"@, 4220)]);
    }
    campaign(457, 1530133200000, cil)
}

/// The campaigns that run, in order: professions, then the two chat
/// decoration ones.
pub open spec fn campaigns_model() -> Seq<SpecValue> {
    seq![professions_campaign_model(), chat_decor_campaign_model(), chat_decor_shop_campaign_model()]
}

/// The message listing the running campaigns: "cm.new".
pub fn new() -> (r: Vec<Value>)
    ensures
        seq_model(r@) == seq![
            SpecValue::Str("cm.new"@),
            SpecValue::Object(seq![("campaigns"@, SpecValue::Vector(campaigns_model()))]),
        ],
{
    let mut campaigns: Vec<Value> = Vec::new();
    if PROFESSIONS {
        campaigns.push(professions_campaign());
    }
    if CHAT_DECOR {
        campaigns.push(chat_decor_campaign());
        campaigns.push(chat_decor_shop_campaign());
    }
    proof {
        lemma_seq_model(campaigns@);
        assert(seq_model(campaigns@) =~= campaigns_model());
    }
    let mut data = Object::new();
    data.push_entry("campaigns", vec_value(campaigns));
    assert(data@ =~= seq![("campaigns"@, SpecValue::Vector(campaigns_model()))]);
    reply("cm.new", data)
}

} // verus!
