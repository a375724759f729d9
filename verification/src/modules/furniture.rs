//! The furniture module ("frn"): placing, moving and removing furniture in
//! the rooms of a house, buying furniture and renaming rooms.
use crate::modules::location::{join_text, uids_view};
use crate::modules::{
    as_object,
    as_str,
    f64_field,
    get_f64_field,
    get_i32_field,
    get_str_field,
    get_vector_field,
    i32_field,
    message_text,
    reply,
    request_data,
    str_field,
    vector_field,
    MISSING_FIELD,
};
use crate::parser::{item_index, Catalog, Item};
use crate::text::{decimal, i32_to_string, split, split_chars};
use crate::value::{obj_get, obj_insert, seq_model, Object, SpecValue, Value};
use vstd::prelude::*;

verus! {

/// The bits of the double 13.0, where the second half of a wall stands.
pub const THIRTEEN_BITS: u64 = 0x402A_0000_0000_0000;

/// The furniture module.
pub struct Furniture {
    pub prefix: &'static str,
}

/// What a furniture command asks for.
pub enum FurnitureCommand {
    /// "save": apply changes to the furniture of a room.
    Save,
    /// "buy": buy furniture.
    Buy,
    /// "rnmrm": rename a room.
    RenameRoom,
}

/// The furniture command named by the second piece of a command name.
pub open spec fn furniture_command_spec(segment: Seq<char>) -> Option<FurnitureCommand> {
    if segment == "save"@ {
        Some(FurnitureCommand::Save)
    } else if segment == "buy"@ {
        Some(FurnitureCommand::Buy)
    } else if segment == "rnmrm"@ {
        Some(FurnitureCommand::RenameRoom)
    } else {
        None
    }
}

/// A change to the furniture of a room.
pub enum FurnitureOp {
    /// Type 0: place an item from the inventory.
    Add,
    /// Type 1: move an item, or place it where the room lacks it.
    Update,
    /// Type 2: take an item back into the inventory.
    Remove,
}

/// The change of type `t`; other types are passed over.
pub open spec fn furniture_op_spec(t: i32) -> Option<FurnitureOp> {
    if t == 0 {
        Some(FurnitureOp::Add)
    } else if t == 1 {
        Some(FurnitureOp::Update)
    } else if t == 2 {
        Some(FurnitureOp::Remove)
    } else {
        None
    }
}

/// A save request.
pub enum SaveRequest<'a> {
    /// The room (the third piece of the room name, the first item, split at
    /// underscores) and the changes ("f" in the data).
    Save(String, &'a Vec<Value>),
    /// The request is refused with this error.
    Refused(&'static str),
    /// The room name has fewer than three pieces, which the server does not survive.
    Malformed,
}

/// Where a furniture item stands, as the store keeps it.
pub struct FurnitureRecord {
    /// "<type>_<id>".
    pub address: String,
    /// The position, as the bits of three doubles.
    pub position: (u64, u64, u64),
    pub direction: i32,
    /// The room the item leads to, for a door.
    pub rid: Option<String>,
}

/// The items a placement puts into the room, in order.
pub struct Placements {
    pub items: Vec<Object>,
    /// Whether the id of the second half of a wall does not fit, which the
    /// server does not survive after placing `items`.
    pub overflow: bool,
}

/// What buying furniture does.
pub enum Purchase {
    /// The game has no such furniture.
    NotForSale,
    /// The player cannot pay.
    Refused,
    /// Add `gold` to the gold and `silver` to the silver, then give the items.
    Pay { gold: i32, silver: i32 },
    /// A price does not fit, which the server does not survive; where
    /// `taken` holds a number, that is first added to the gold.
    Overflow { taken: Option<i32> },
}

/// The type of furniture an address ("<type>_<id>") names.
pub open spec fn address_type(name: Seq<char>) -> Seq<char> {
    split_chars(name, '_')[0]
}

/// Whether the catalogue files the type `tpid` under `category`.
pub open spec fn in_category(items: Seq<Item>, tpid: Seq<char>, category: Seq<char>) -> bool {
    match item_index(items, tpid) {
        Some(i) => items[i].category@ == category,
        None => false,
    }
}

/// Whether some entry of `taken` is of type `tpid`.
pub open spec fn type_taken(taken: Seq<(Seq<char>, Seq<char>)>, tpid: Seq<char>) -> bool {
    exists|j: int| 0 <= j < taken.len() && #[trigger] taken[j].1 == tpid
}

/// The items of a room that a new item of `category` replaces: going
/// through the room's items in order, the first item of each type that the
/// catalogue files under the same category, with its type.
pub open spec fn replaced_spec(items: Seq<Item>, category: Seq<char>, names: Seq<Seq<char>>) -> Seq<(Seq<char>, Seq<char>)>
    decreases names.len(),
{
    if names.len() == 0 {
        Seq::empty()
    } else {
        let before = replaced_spec(items, category, names.drop_last());
        let tpid = address_type(names.last());
        if in_category(items, tpid, category) && !type_taken(before, tpid) {
            before.push((names.last(), tpid))
        } else {
            before
        }
    }
}

/// A placed item at the origin, turned to `d`.
pub open spec fn placed(item: Seq<(Seq<char>, SpecValue)>, d: i32) -> Seq<(Seq<char>, SpecValue)> {
    obj_insert(
        obj_insert(
            obj_insert(obj_insert(item, "x"@, SpecValue::F64(0)), "y"@, SpecValue::F64(0)),
            "z"@,
            SpecValue::F64(0),
        ),
        "d"@,
        SpecValue::I32(d),
    )
}

/// What placing `item` of `category` with id `oid` puts into the room: a
/// wall ("1") comes in two halves, the second at x = 13, turned to 5, with
/// the next id; a floor ("4") is one item turned to 5; anything else
/// places nothing. The flag tells that the next id does not fit.
pub open spec fn placements_spec(item: Seq<(Seq<char>, SpecValue)>, category: Seq<char>, oid: i32) -> (Seq<Seq<(Seq<char>, SpecValue)>>, bool) {
    if category == "1"@ {
        let first = placed(item, 3);
        if oid == i32::MAX {
            (seq![first], true)
        } else {
            let second = obj_insert(
                obj_insert(obj_insert(first, "x"@, SpecValue::F64(THIRTEEN_BITS)), "d"@, SpecValue::I32(5)),
                "oid"@,
                SpecValue::I32((oid + 1) as i32),
            );
            (seq![first, second], false)
        }
    } else if category == "4"@ {
        (seq![placed(item, 5)], false)
    } else {
        (Seq::empty(), false)
    }
}

/// The type ("tpid") and id ("oid") of a furniture change.
pub open spec fn item_key_spec(item: Seq<(Seq<char>, SpecValue)>) -> Result<(Seq<char>, i32), &'static str> {
    match (str_field(item, "tpid"@, MISSING_FIELD), i32_field(item, "oid"@, MISSING_FIELD)) {
        (Err(e), _) => Err(e),
        (_, Err(e)) => Err(e),
        (Ok(t), Ok(o)) => Ok((t, o)),
    }
}

/// Where a furniture change puts its item: type and id, position ("x",
/// "y", "z"), direction ("d") and, where `with_rid` and the change has one,
/// the room a door leads to ("rid").
pub open spec fn record_spec(item: Seq<(Seq<char>, SpecValue)>, with_rid: bool) -> Result<
    (Seq<char>, (u64, u64, u64), i32, Option<Seq<char>>),
    &'static str,
> {
    match item_key_spec(item) {
        Err(e) => Err(e),
        Ok((t, o)) => match (
            f64_field(item, "x"@, MISSING_FIELD),
            f64_field(item, "y"@, MISSING_FIELD),
            f64_field(item, "z"@, MISSING_FIELD),
            i32_field(item, "d"@, MISSING_FIELD),
        ) {
            (Err(e), _, _, _) => Err(e),
            (_, Err(e), _, _) => Err(e),
            (_, _, Err(e), _) => Err(e),
            (_, _, _, Err(e)) => Err(e),
            (Ok(x), Ok(y), Ok(z), Ok(d)) => {
                let address = t + "_"@ + decimal(o as int);
                if with_rid && obj_get(item, "rid"@) is Some {
                    match as_str(obj_get(item, "rid"@).unwrap()) {
                        Err(e) => Err(e),
                        Ok(rid) => Ok((address, (x, y, z), d, Some(rid))),
                    }
                } else {
                    Ok((address, (x, y, z), d, None))
                }
            },
        },
    }
}

/// What buying `count` of the furniture `item` does while holding `gold`
/// and `silver`. The gold price is checked first; the silver price is only
/// worked out where the gold suffices.
pub open spec fn purchase_spec(item: Item, count: i32, gold: i32, silver: i32) -> Purchase {
    let g = item.gold * count;
    let s = item.silver * count;
    if g < i32::MIN || g > i32::MAX {
        Purchase::Overflow { taken: None }
    } else if g > gold {
        Purchase::Refused
    } else if s < i32::MIN || s > i32::MAX {
        Purchase::Overflow { taken: None }
    } else if s > silver {
        Purchase::Refused
    } else if item.gold == i32::MIN || g == i32::MIN {
        Purchase::Overflow { taken: None }
    } else if item.silver == i32::MIN || s == i32::MIN {
        Purchase::Overflow { taken: Some((-g) as i32) }
    } else {
        Purchase::Pay { gold: (-g) as i32, silver: (-s) as i32 }
    }
}

/// The text of a furniture address: "<tpid>_<oid>".
pub fn item_address(tpid: &str, oid: i32) -> (r: String)
    ensures
        r@ == tpid@ + "_"@ + decimal(oid as int),
{
    let head = join_text(tpid, "_");
    let n = i32_to_string(oid);
    join_text(head.as_str(), n.as_str())
}

fn set_f64(item: &mut Object, key: &str, bits: u64)
    ensures
        final(item)@ == obj_insert(old(item)@, key@, SpecValue::F64(bits)),
{
    item.insert(key.to_owned(), Value::F64(bits));
}

fn set_i32(item: &mut Object, key: &str, x: i32)
    ensures
        final(item)@ == obj_insert(old(item)@, key@, SpecValue::I32(x)),
{
    item.insert(key.to_owned(), Value::I32(x));
}

impl Furniture {
    pub fn new() -> (r: Furniture)
        ensures
            r.prefix@ == "frn"@,
    {
        Furniture { prefix: "frn" }
    }

    /// The command named by the second piece of a command name.
    pub fn command(&self, segment: &str) -> (r: Option<FurnitureCommand>)
        ensures
            r == furniture_command_spec(segment@),
    {
        let s = segment.to_owned();
        if s == "save".to_owned() {
            Some(FurnitureCommand::Save)
        } else if s == "buy".to_owned() {
            Some(FurnitureCommand::Buy)
        } else if s == "rnmrm".to_owned() {
            Some(FurnitureCommand::RenameRoom)
        } else {
            None
        }
    }

    /// Reads a save request (see [`SaveRequest`]); errors come in the order
    /// the request is read: the room name, its pieces, the data, the changes.
    pub fn save_request<'a>(&self, msg: &'a Vec<Value>) -> (r: SaveRequest<'a>)
        requires
            msg@.len() > 2,
        ensures
            ({
                let m = seq_model(msg@);
                match as_str(m[0]) {
                    Err(e) => r == SaveRequest::Refused(e),
                    Ok(name) => if split_chars(name, '_').len() < 3 {
                        r is Malformed
                    } else {
                        match as_object(m[2]) {
                            Err(e) => r == SaveRequest::Refused(e),
                            Ok(data) => match vector_field(data, "f"@, MISSING_FIELD) {
                                Err(e) => r == SaveRequest::Refused(e),
                                Ok(items) => r matches SaveRequest::Save(room, v) && room@
                                    == split_chars(name, '_')[2] && seq_model(v@) == items,
                            },
                        }
                    },
                }
            }),
    {
        let name = match message_text(msg, 0) {
            Ok(n) => n,
            Err(e) => {
                return SaveRequest::Refused(e);
            },
        };
        let mut parts = split(name.as_str(), '_');
        if parts.len() < 3 {
            return SaveRequest::Malformed;
        }
        let room = parts.swap_remove(2);
        let data = match request_data(msg) {
            Ok(d) => d,
            Err(e) => {
                return SaveRequest::Refused(e);
            },
        };
        match get_vector_field(data, "f", MISSING_FIELD) {
            Ok(items) => SaveRequest::Save(room, items),
            Err(e) => SaveRequest::Refused(e),
        }
    }

    /// A change of a save request: an object whose type ("t") names the
    /// change; changes of other types are passed over (`None`).
    pub fn furniture_op<'a>(&self, change: &'a Value) -> (r: Result<Option<(FurnitureOp, &'a Object)>, &'static str>)
        ensures
            match as_object(change@) {
                Err(e) => r == Err::<Option<(FurnitureOp, &Object)>, &'static str>(e),
                Ok(item) => match i32_field(item, "t"@, MISSING_FIELD) {
                    Err(e) => r == Err::<Option<(FurnitureOp, &Object)>, &'static str>(e),
                    Ok(t) => match furniture_op_spec(t) {
                        None => r matches Ok(None),
                        Some(op) => r matches Ok(Some((o, x))) && o == op && x@ == item,
                    },
                },
            },
    {
        let item = change.get_object()?;
        let t = get_i32_field(item, "t", MISSING_FIELD)?;
        if t == 0 {
            Ok(Some((FurnitureOp::Add, item)))
        } else if t == 1 {
            Ok(Some((FurnitureOp::Update, item)))
        } else if t == 2 {
            Ok(Some((FurnitureOp::Remove, item)))
        } else {
            Ok(None)
        }
    }

    /// The type and id of a furniture change (see [`item_key_spec`]).
    pub fn item_key(&self, item: &Object) -> (r: Result<(String, i32), &'static str>)
        ensures
            match item_key_spec(item@) {
                Err(e) => r == Err::<(String, i32), &'static str>(e),
                Ok((t, o)) => r matches Ok((x, y)) && x@ == t && y == o,
            },
    {
        let tpid = get_str_field(item, "tpid", MISSING_FIELD)?;
        let oid = get_i32_field(item, "oid", MISSING_FIELD)?;
        Ok((tpid, oid))
    }

    /// The category of a furniture type that is placed in a room: where the
    /// catalogue has no item `tpid`, the change is dropped (`None`) before
    /// anything is taken from the inventory.
    pub fn add_category(&self, catalog: &Catalog, tpid: &str) -> (r: Option<String>)
        ensures
            match item_index(catalog.items@, tpid@) {
                None => r is None,
                Some(i) => r matches Some(c) && c@ == catalog.items@[i].category@,
            },
    {
        match catalog.get(tpid) {
            None => None,
            Some(item) => Some(item.category.clone()),
        }
    }

    /// The items of a room that a new item of `category` replaces (see
    /// [`replaced_spec`]), each with its type.
    pub fn replaced_items(&self, catalog: &Catalog, category: &str, names: &Vec<String>) -> (r: Vec<(String, String)>)
        ensures
            pairs_of(r@) == replaced_spec(catalog.items@, category@, uids_view(names@)),
    {
        let ghost ns = uids_view(names@);
        let mut out: Vec<(String, String)> = Vec::new();
        let n = names.len();
        let mut i: usize = 0;
        while i < n
            invariant
                n == names@.len(),
                ns == uids_view(names@),
                0 <= i <= n,
                pairs_of(out@) == replaced_spec(catalog.items@, category@, ns.take(i as int)),
            decreases n - i,
        {
            assert(ns.take(i as int + 1).drop_last() =~= ns.take(i as int));
            assert(ns.take(i as int + 1).last() == names@[i as int]@);
            let mut parts = split(names[i].as_str(), '_');
            proof {
                crate::text::lemma_split_nonempty(names@[i as int]@, '_');
            }
            let tpid = parts.swap_remove(0);
            let same = match catalog.get(tpid.as_str()) {
                Some(item) => item.category == category.to_owned(),
                None => false,
            };
            if same {
                let mut taken = false;
                let mut j: usize = 0;
                while j < out.len()
                    invariant
                        0 <= j <= out@.len(),
                        taken == exists|k: int| 0 <= k < j && #[trigger] out@[k].1@ == tpid@,
                    decreases out@.len() - j,
                {
                    if out[j].1 == tpid {
                        taken = true;
                    }
                    j = j + 1;
                }
                proof {
                    let before = pairs_of(out@);
                    if taken {
                        let k = choose|k: int| 0 <= k < out@.len() && #[trigger] out@[k].1@ == tpid@;
                        assert(before[k].1 == tpid@);
                    } else {
                        assert forall|k: int| 0 <= k < before.len() implies #[trigger] before[k].1 != tpid@ by {
                            assert(out@[k].1@ != tpid@);
                        }
                    }
                }
                if !taken {
                    let ghost before = out@;
                    out.push((names[i].clone(), tpid));
                    assert(pairs_of(out@) =~= pairs_of(before).push((names@[i as int]@, address_type(names@[i as int]@))));
                }
            }
            i = i + 1;
        }
        assert(ns.take(n as int) =~= ns);
        out
    }

    /// What placing `item` of `category` with id `oid` puts into the room
    /// (see [`placements_spec`]).
    pub fn placements(&self, item: &Object, category: &str, oid: i32) -> (r: Placements)
        ensures
            objects_of(r.items@) == placements_spec(item@, category@, oid).0,
            r.overflow == placements_spec(item@, category@, oid).1,
    {
        let mut base = item.copy();
        set_f64(&mut base, "x", 0);
        set_f64(&mut base, "y", 0);
        set_f64(&mut base, "z", 0);
        let mut items: Vec<Object> = Vec::new();
        if category.to_owned() == "1".to_owned() {
            let mut first = base;
            set_i32(&mut first, "d", 3);
            let ghost f = first@;
            items.push(first.copy());
            if oid == i32::MAX {
                assert(objects_of(items@) =~= seq![f]);
                return Placements { items, overflow: true };
            }
            let mut second = first;
            set_f64(&mut second, "x", THIRTEEN_BITS);
            set_i32(&mut second, "d", 5);
            set_i32(&mut second, "oid", oid + 1);
            items.push(second);
            assert(objects_of(items@) =~= placements_spec(item@, category@, oid).0);
            Placements { items, overflow: false }
        } else if category.to_owned() == "4".to_owned() {
            let mut only = base;
            set_i32(&mut only, "d", 5);
            items.push(only);
            assert(objects_of(items@) =~= placements_spec(item@, category@, oid).0);
            Placements { items, overflow: false }
        } else {
            assert(objects_of(items@) =~= Seq::<Seq<(Seq<char>, SpecValue)>>::empty());
            Placements { items, overflow: false }
        }
    }

    /// Where a placed item stands (see [`record_spec`], with the door's room).
    pub fn placement_record(&self, item: &Object) -> (r: Result<FurnitureRecord, &'static str>)
        ensures
            record_matches(r, record_spec(item@, true)),
    {
        self.record(item, true)
    }

    /// Where a moved item stands (see [`record_spec`], without the door's room).
    pub fn move_record(&self, item: &Object) -> (r: Result<FurnitureRecord, &'static str>)
        ensures
            record_matches(r, record_spec(item@, false)),
    {
        self.record(item, false)
    }

    fn record(&self, item: &Object, with_rid: bool) -> (r: Result<FurnitureRecord, &'static str>)
        ensures
            record_matches(r, record_spec(item@, with_rid)),
    {
        let (tpid, oid) = self.item_key(item)?;
        let x = get_f64_field(item, "x", MISSING_FIELD)?;
        let y = get_f64_field(item, "y", MISSING_FIELD)?;
        let z = get_f64_field(item, "z", MISSING_FIELD)?;
        let direction = get_i32_field(item, "d", MISSING_FIELD)?;
        let address = item_address(tpid.as_str(), oid);
        let rid = if with_rid && item.contains_key("rid") {
            match item.get("rid") {
                Some(v) => Some(v.get_string()?),
                None => None,
            }
        } else {
            None
        };
        Ok(FurnitureRecord { address, position: (x, y, z), direction, rid })
    }

    /// The furniture and count of a purchase: "tpid" and "cnt" in the data.
    pub fn buy_request(&self, msg: &Vec<Value>) -> (r: Result<(String, i32), &'static str>)
        requires
            msg@.len() > 2,
        ensures
            match as_object(seq_model(msg@)[2]) {
                Err(e) => r == Err::<(String, i32), &'static str>(e),
                Ok(data) => match (str_field(data, "tpid"@, MISSING_FIELD), i32_field(data, "cnt"@, MISSING_FIELD)) {
                    (Err(e), _) => r == Err::<(String, i32), &'static str>(e),
                    (_, Err(e)) => r == Err::<(String, i32), &'static str>(e),
                    (Ok(t), Ok(c)) => r matches Ok((x, y)) && x@ == t && y == c,
                },
            },
    {
        let data = request_data(msg)?;
        let tpid = get_str_field(data, "tpid", MISSING_FIELD)?;
        let count = get_i32_field(data, "cnt", MISSING_FIELD)?;
        Ok((tpid, count))
    }

    /// What buying `count` of `tpid` does (see [`purchase_spec`]).
    pub fn buy(&self, catalog: &Catalog, tpid: &str, count: i32, gold: i32, silver: i32) -> (r: Purchase)
        ensures
            match item_index(catalog.items@, tpid@) {
                None => r is NotForSale,
                Some(i) => r == purchase_spec(catalog.items@[i], count, gold, silver),
            },
    {
        let item = match catalog.get(tpid) {
            Some(it) => it,
            None => {
                return Purchase::NotForSale;
            },
        };
        let g = match item.gold.checked_mul(count) {
            Some(g) => g,
            None => {
                return Purchase::Overflow { taken: None };
            },
        };
        if g > gold {
            return Purchase::Refused;
        }
        let s = match item.silver.checked_mul(count) {
            Some(s) => s,
            None => {
                return Purchase::Overflow { taken: None };
            },
        };
        if s > silver {
            return Purchase::Refused;
        }
        if item.gold == i32::MIN || g == i32::MIN {
            return Purchase::Overflow { taken: None };
        }
        if item.silver == i32::MIN || s == i32::MIN {
            return Purchase::Overflow { taken: Some(-g) };
        }
        Purchase::Pay { gold: -g, silver: -s }
    }

    /// The room and its new name of a rename: "id" and "nm" in the data.
    pub fn rename_request(&self, msg: &Vec<Value>) -> (r: Result<(String, String), &'static str>)
        requires
            msg@.len() > 2,
        ensures
            match as_object(seq_model(msg@)[2]) {
                Err(e) => r == Err::<(String, String), &'static str>(e),
                Ok(data) => match (str_field(data, "id"@, MISSING_FIELD), str_field(data, "nm"@, MISSING_FIELD)) {
                    (Err(e), _) => r == Err::<(String, String), &'static str>(e),
                    (_, Err(e)) => r == Err::<(String, String), &'static str>(e),
                    (Ok(a), Ok(b)) => r matches Ok((x, y)) && x@ == a && y@ == b,
                },
            },
    {
        let data = request_data(msg)?;
        let id = get_str_field(data, "id", MISSING_FIELD)?;
        let name = get_str_field(data, "nm", MISSING_FIELD)?;
        Ok((id, name))
    }

    /// Whether the player's rooms include `id`.
    pub fn has_room(&self, rooms: &Vec<String>, id: &str) -> (r: bool)
        ensures
            r == uids_view(rooms@).contains(id@),
    {
        let key = id.to_owned();
        let n = rooms.len();
        let mut i: usize = 0;
        while i < n
            invariant
                n == rooms@.len(),
                0 <= i <= n,
                key@ == id@,
                forall|j: int| 0 <= j < i ==> rooms@[j]@ != id@,
            decreases n - i,
        {
            if rooms[i] == key {
                assert(uids_view(rooms@)[i as int] == id@);
                return true;
            }
            i = i + 1;
        }
        assert forall|j: int| 0 <= j < uids_view(rooms@).len() implies uids_view(rooms@)[j] != id@ by {
            assert(uids_view(rooms@)[j] == rooms@[j]@);
        }
        false
    }

    /// The answer to a rename: "frn.rnmrm" with the room and its new name.
    pub fn rename_reply(&self, id: String, name: String) -> (r: Vec<Value>)
        ensures
            seq_model(r@) == seq![
                SpecValue::Str("frn.rnmrm"@),
                SpecValue::Object(seq![("id"@, SpecValue::Str(id@)), ("nm"@, SpecValue::Str(name@))]),
            ],
    {
        let ghost (a, b) = (id@, name@);
        let mut data = Object::new();
        data.push_entry("id", Value::String(id));
        data.push_entry("nm", Value::String(name));
        assert(data@ =~= seq![("id"@, SpecValue::Str(a)), ("nm"@, SpecValue::Str(b))]);
        reply("frn.rnmrm", data)
    }

    /// The answer to a save: "frn.save" with the inventory, the city
    /// information and the room as they now are.
    pub fn save_reply(&self, inv: Object, ci: Object, hs: Object) -> (r: Vec<Value>)
        ensures
            seq_model(r@) == seq![
                SpecValue::Str("frn.save"@),
                SpecValue::Object(
                    seq![
                        ("inv"@, SpecValue::Object(inv@)),
                        ("ci"@, SpecValue::Object(ci@)),
                        ("hs"@, SpecValue::Object(hs@)),
                    ],
                ),
            ],
    {
        let ghost (a, b, c) = (inv@, ci@, hs@);
        let mut data = Object::new();
        data.push_entry("inv", Value::Object(inv));
        data.push_entry("ci", Value::Object(ci));
        data.push_entry("hs", Value::Object(hs));
        assert(data@ =~= seq![
            ("inv"@, SpecValue::Object(a)),
            ("ci"@, SpecValue::Object(b)),
            ("hs"@, SpecValue::Object(c)),
        ]);
        reply("frn.save", data)
    }
}

/// The views of a list of text pairs.
pub open spec fn pairs_of(v: Seq<(String, String)>) -> Seq<(Seq<char>, Seq<char>)> {
    Seq::new(v.len(), |i: int| (v[i].0@, v[i].1@))
}

/// The models of a list of objects.
pub open spec fn objects_of(v: Seq<Object>) -> Seq<Seq<(Seq<char>, SpecValue)>> {
    Seq::new(v.len(), |i: int| v[i]@)
}

/// Whether a read record is what [`record_spec`] says.
pub open spec fn record_matches(
    r: Result<FurnitureRecord, &'static str>,
    s: Result<(Seq<char>, (u64, u64, u64), i32, Option<Seq<char>>), &'static str>,
) -> bool {
    match s {
        Err(e) => r == Err::<FurnitureRecord, &'static str>(e),
        Ok((address, position, d, rid)) => r matches Ok(rec) && rec.address@ == address && rec.position
            == position && rec.direction == d && match rid {
            Some(x) => rec.rid matches Some(y) && y@ == x,
            None => rec.rid is None,
        },
    }
}

} // verus!
