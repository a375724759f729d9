//! The chat decoration module ("chtdc"): choosing the bubble and text colour
//! of one's chat messages, buying them where needed.
use crate::modules::{
    as_object,
    bool_field,
    field,
    get_bool_field,
    get_field,
    get_object_field,
    object_field,
    reply,
    request_data,
    MISSING_FIELD,
};
use crate::parser::{item_index, Catalog, Item};
use crate::value::{seq_model, Object, SpecValue, Value};
use vstd::prelude::*;

verus! {

/// The chat decoration module.
pub struct ChatDecor {
    pub prefix: &'static str,
}

/// What the player chose for one part of its chat decoration.
pub enum DecorChoice {
    /// This decoration, bought first where the player has none.
    Wear(String),
    /// No decoration.
    TakeOff,
}

/// One part of the chat decoration that a save changes: the key of the
/// choice in the request, and the name under which the player's choice is kept.
pub struct DecorPart {
    pub key: &'static str,
    pub store_key: &'static str,
}

/// What a save does with one part.
pub enum DecorAction {
    /// Keep this decoration as the part's.
    Put(String),
    /// Buy this decoration, then keep it; where it cannot be bought, the save
    /// ends there, with no reply.
    Buy(String),
    /// Keep no decoration for the part.
    Clear,
}

/// A save of the chat decoration: whether the bubble and the text colour
/// change ("chtnwbd", "chtnwtc"), and the new decoration ("chtdc").
pub open spec fn decor_request_spec(m: Seq<SpecValue>) -> Result<(bool, bool, Seq<(Seq<char>, SpecValue)>), &'static str> {
    match as_object(m[2]) {
        Err(e) => Err(e),
        Ok(data) => match bool_field(data, "chtnwbd"@, MISSING_FIELD) {
            Err(e) => Err(e),
            Ok(b) => match bool_field(data, "chtnwtc"@, MISSING_FIELD) {
                Err(e) => Err(e),
                Ok(t) => match object_field(data, "chtdc"@, MISSING_FIELD) {
                    Err(e) => Err(e),
                    Ok(d) => Ok((b, t, d)),
                },
            },
        },
    }
}

/// What buying the decoration `tpid` costs, given the gold and silver the
/// player has: nothing is bought (`None`) where the game has no such item
/// or the player cannot pay its price.
pub open spec fn decor_price_spec(items: Seq<Item>, tpid: Seq<char>, gold: i32, silver: i32) -> Option<(i32, i32)> {
    match item_index(items, tpid) {
        None => None,
        Some(i) => if items[i].gold > gold || items[i].silver > silver {
            None
        } else {
            Some((items[i].gold, items[i].silver))
        },
    }
}

impl ChatDecor {
    pub fn new() -> (r: ChatDecor)
        ensures
            r.prefix@ == "chtdc"@,
    {
        ChatDecor { prefix: "chtdc" }
    }

    /// Whether the second piece of a command name asks to save the
    /// decoration ("schtm").
    pub fn is_save(&self, segment: &str) -> (r: bool)
        ensures
            r == (segment@ == "schtm"@),
    {
        segment.to_owned() == "schtm".to_owned()
    }

    /// Reads a save of the chat decoration (see [`decor_request_spec`]).
    pub fn decor_request<'a>(&self, msg: &'a Vec<Value>) -> (r: Result<(bool, bool, &'a Object), &'static str>)
        requires
            msg@.len() > 2,
        ensures
            match decor_request_spec(seq_model(msg@)) {
                Err(e) => r == Err::<(bool, bool, &Object), &'static str>(e),
                Ok((b, t, d)) => r matches Ok((x, y, o)) && x == b && y == t && o@ == d,
            },
    {
        let data = request_data(msg)?;
        let bubble = get_bool_field(data, "chtnwbd", MISSING_FIELD)?;
        let text_color = get_bool_field(data, "chtnwtc", MISSING_FIELD)?;
        let chat_decor = get_object_field(data, "chtdc", MISSING_FIELD)?;
        Ok((bubble, text_color, chat_decor))
    }

    /// The choice for one part of the decoration, under `key` ("bdc" for the
    /// bubble, "tcl" for the text colour): a string is worn, anything else
    /// means none.
    pub fn decor_choice(&self, chat_decor: &Object, key: &str) -> (r: Result<DecorChoice, &'static str>)
        ensures
            match field(chat_decor@, key@, MISSING_FIELD) {
                Err(e) => r == Err::<DecorChoice, &'static str>(e),
                Ok(SpecValue::Str(s)) => r matches Ok(DecorChoice::Wear(x)) && x@ == s,
                Ok(_) => r matches Ok(DecorChoice::TakeOff),
            },
    {
        match get_field(chat_decor, key, MISSING_FIELD)? {
            Value::String(s) => Ok(DecorChoice::Wear(s.clone())),
            _ => Ok(DecorChoice::TakeOff),
        }
    }

    /// The parts that a save changes, in the order they are applied: the
    /// bubble ("bdc", kept as "bubble") where `new_bubble`, then the text
    /// colour ("tcl", kept as "text_color") where `new_text_color`.
    pub fn decor_parts(&self, new_bubble: bool, new_text_color: bool) -> (r: Vec<DecorPart>)
        ensures
            r@.len() == (if new_bubble { 1int } else { 0int }) + (if new_text_color { 1int } else { 0int }),
            new_bubble ==> r@[0].key@ == "bdc"@ && r@[0].store_key@ == "bubble"@,
            new_text_color ==> r@[r@.len() - 1].key@ == "tcl"@ && r@[r@.len() - 1].store_key@ == "text_color"@,
    {
        let mut parts: Vec<DecorPart> = Vec::new();
        if new_bubble {
            parts.push(DecorPart { key: "bdc", store_key: "bubble" });
        }
        if new_text_color {
            parts.push(DecorPart { key: "tcl", store_key: "text_color" });
        }
        parts
    }

    /// What a save does with a part whose choice is `choice`: a decoration
    /// the player owns is kept, one it does not own is bought first, and no
    /// decoration clears the part. `owned` is only read for a decoration.
    pub fn decor_action(&self, choice: DecorChoice, owned: bool) -> (r: DecorAction)
        ensures
            match choice {
                DecorChoice::Wear(v) => if owned {
                    r == DecorAction::Put(v)
                } else {
                    r == DecorAction::Buy(v)
                },
                DecorChoice::TakeOff => r is Clear,
            },
    {
        match choice {
            DecorChoice::Wear(v) => if owned {
                DecorAction::Put(v)
            } else {
                DecorAction::Buy(v)
            },
            DecorChoice::TakeOff => DecorAction::Clear,
        }
    }

    /// The gold and silver that buying the decoration `tpid` takes (see
    /// [`decor_price_spec`]).
    pub fn buy_decor(&self, catalog: &Catalog, tpid: &str, gold: i32, silver: i32) -> (r: Option<(i32, i32)>)
        ensures
            r == decor_price_spec(catalog.items@, tpid@, gold, silver),
    {
        match catalog.get(tpid) {
            None => None,
            Some(item) => if item.gold > gold || item.silver > silver {
                None
            } else {
                Some((item.gold, item.silver))
            },
        }
    }

    /// The reply to a save: "chtdc.schtm" with no data.
    pub fn saved_reply(&self) -> (r: Vec<Value>)
        ensures
            seq_model(r@) == seq![SpecValue::Str("chtdc.schtm"@), SpecValue::Object(Seq::empty())],
    {
        reply("chtdc.schtm", Object::new())
    }
}

} // verus!
