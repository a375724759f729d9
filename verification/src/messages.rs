//! Fixed replies that the server sends on its own.
use crate::value::{Value, Object, SpecValue, seq_model, str_value, lemma_seq_model};
use vstd::prelude::*;

verus! {

/// The reply to a login with a wrong key: code 5, a text and an empty object.
pub fn wrong_pass() -> (r: Vec<Value>)
    ensures
        seq_model(r@) == seq![
            SpecValue::I32(5),
            SpecValue::Str("Key is invalid"@),
            SpecValue::Object(Seq::empty()),
        ],
{
    let mut v: Vec<Value> = Vec::new();
    v.push(Value::I32(5));
    v.push(str_value("Key is invalid"));
    v.push(Value::Object(Object::new()));
    proof {
        lemma_seq_model(v@);
    }
    assert(seq_model(v@) =~= seq![
        SpecValue::I32(5),
        SpecValue::Str("Key is invalid"@),
        SpecValue::Object(Seq::empty()),
    ]);
    v
}

/// The reply to a second login of the same player: code 6, a text and an empty object.
pub fn already_joined() -> (r: Vec<Value>)
    ensures
        seq_model(r@) == seq![
            SpecValue::I32(6),
            SpecValue::Str("Reconnecting"@),
            SpecValue::Object(Seq::empty()),
        ],
{
    let mut v: Vec<Value> = Vec::new();
    v.push(Value::I32(6));
    v.push(str_value("Reconnecting"));
    v.push(Value::Object(Object::new()));
    proof {
        lemma_seq_model(v@);
    }
    assert(seq_model(v@) =~= seq![
        SpecValue::I32(6),
        SpecValue::Str("Reconnecting"@),
        SpecValue::Object(Seq::empty()),
    ]);
    v
}

/// The notice to a player pushed out by another login: code 6 and an empty object.
pub fn kick_join() -> (r: Vec<Value>)
    ensures
        seq_model(r@) == seq![SpecValue::I32(6), SpecValue::Object(Seq::empty())],
{
    let mut v: Vec<Value> = Vec::new();
    v.push(Value::I32(6));
    v.push(Value::Object(Object::new()));
    proof {
        lemma_seq_model(v@);
    }
    assert(seq_model(v@) =~= seq![SpecValue::I32(6), SpecValue::Object(Seq::empty())]);
    v
}

} // verus!
