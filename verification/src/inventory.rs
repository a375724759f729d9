//! A player's inventory: what it owns and in what number, the clothes it
//! wears, and its clothes collections.
use crate::modules::location::{join_text, uids_view};
use crate::modules::StoreRead;
use crate::parser::{item_index, Catalog, Item};
use crate::text::{lemma_split_nonempty, parse_i32, parse_i32_spec, split, split_chars};
use crate::value::{lemma_seq_model_push, seq_model, str_value, vec_value, Object, SpecValue, Value};
use vstd::prelude::*;

verus! {

/// The error of a clothes check that meets a cloth the game does not know.
pub const UNKNOWN_CLOTH: &'static str = "err";

/// The inventory type of clothes, which a player owns at most once.
pub const CLOTHES_TYPE: &'static str = "cls";

/// Whether two clothes cannot be worn together: they share a category, or a
/// conflict pair names their categories, in either order.
pub open spec fn conflict_spec(cat1: Seq<char>, cat2: Seq<char>, conflicts: Seq<(Seq<char>, Seq<char>)>) -> bool {
    cat1 == cat2 || exists|j: int|
        0 <= j < conflicts.len() && ((#[trigger] conflicts[j]).0 == cat1 && conflicts[j].1 == cat2 || conflicts[j].1
            == cat1 && conflicts[j].0 == cat2)
}

/// The views of a list of category pairs.
pub open spec fn conflicts_view(c: Seq<(String, String)>) -> Seq<(Seq<char>, Seq<char>)> {
    Seq::new(c.len(), |j: int| (c[j].0@, c[j].1@))
}

/// Whether `cloth1` and `cloth2` cannot be worn together (see [`conflict_spec`]).
pub fn has_confict(cloth1: &Item, cloth2: &Item, conflicts: &Vec<(String, String)>) -> (r: bool)
    ensures
        r == conflict_spec(cloth1.category@, cloth2.category@, conflicts_view(conflicts@)),
{
    let ghost cs = conflicts_view(conflicts@);
    if cloth1.category == cloth2.category {
        return true;
    }
    let n = conflicts.len();
    let mut i: usize = 0;
    while i < n
        invariant
            n == conflicts@.len(),
            cs == conflicts_view(conflicts@),
            0 <= i <= n,
            cloth1.category@ != cloth2.category@,
            forall|j: int|
                0 <= j < i ==> !((#[trigger] cs[j]).0 == cloth1.category@ && cs[j].1 == cloth2.category@
                    || cs[j].1 == cloth1.category@ && cs[j].0 == cloth2.category@),
        decreases n - i,
    {
        let pair = &conflicts[i];
        assert(cs[i as int] == (pair.0@, pair.1@));
        if pair.0 == cloth1.category && pair.1 == cloth2.category {
            return true;
        } else if pair.1 == cloth1.category && pair.0 == cloth2.category {
            return true;
        }
        i = i + 1;
    }
    false
}

/// What a check of the worn clothes against a new cloth removes.
pub struct ConflictCheck {
    /// The worn clothes to take off, in order.
    pub removed: Vec<String>,
    /// The check stopped at a cloth the game does not know, with this error.
    pub error: Option<&'static str>,
}

/// The type of cloth an inventory name ("<type>" or "<type>_<id>") names.
pub open spec fn cloth_type(name: Seq<char>) -> Seq<char> {
    split_chars(name, '_')[0]
}

/// The worn clothes that conflict with `cloth`, in order, and whether a worn
/// cloth unknown to the game stopped the check there.
pub open spec fn conflicts_scan(
    clothes: Seq<Item>,
    cloth: Item,
    worn: Seq<Seq<char>>,
    conflicts: Seq<(Seq<char>, Seq<char>)>,
) -> (Seq<Seq<char>>, bool)
    decreases worn.len(),
{
    if worn.len() == 0 {
        (Seq::empty(), false)
    } else {
        let (before, stopped) = conflicts_scan(clothes, cloth, worn.drop_last(), conflicts);
        if stopped {
            (before, true)
        } else {
            match item_index(clothes, cloth_type(worn.last())) {
                None => (before, true),
                Some(i) => if conflict_spec(cloth.category@, clothes[i].category@, conflicts) {
                    (before.push(worn.last()), false)
                } else {
                    (before, false)
                },
            }
        }
    }
}

/// Checks the worn clothes against the cloth `item` about to be worn: the
/// cloth must be known (else nothing is removed and the check fails), and
/// each worn cloth that conflicts with it comes off (see [`conflicts_scan`]).
#[verifier::loop_isolation(false)]
pub fn check_conflicts(clothes: &Catalog, item: &str, worn: &Vec<String>, conflicts: &Vec<(String, String)>) -> (r: ConflictCheck)
    ensures
        match item_index(clothes.items@, cloth_type(item@)) {
            None => uids_view(r.removed@) == Seq::<Seq<char>>::empty() && r.error == Some(UNKNOWN_CLOTH),
            Some(c) => {
                let (removed, stopped) = conflicts_scan(
                    clothes.items@,
                    clothes.items@[c],
                    uids_view(worn@),
                    conflicts_view(conflicts@),
                );
                &&& uids_view(r.removed@) == removed
                &&& r.error == (if stopped {
                    Some(UNKNOWN_CLOTH)
                } else {
                    None::<&'static str>
                })
            },
        },
{
    let mut parts = split(item, '_');
    proof {
        lemma_split_nonempty(item@, '_');
    }
    let tpid = parts.swap_remove(0);
    let mut removed: Vec<String> = Vec::new();
    let cloth = match clothes.get(tpid.as_str()) {
        Some(c) => c,
        None => {
            assert(uids_view(removed@) =~= Seq::<Seq<char>>::empty());
            return ConflictCheck { removed, error: Some(UNKNOWN_CLOTH) };
        },
    };
    let ghost ws = uids_view(worn@);
    let ghost cs = conflicts_view(conflicts@);
    let n = worn.len();
    let mut i: usize = 0;
    while i < n
        invariant
            n == worn@.len(),
            ws == uids_view(worn@),
            cs == conflicts_view(conflicts@),
            0 <= i <= n,
            conflicts_scan(clothes.items@, *cloth, ws.take(i as int), cs) == (uids_view(removed@), false),
        decreases n - i,
    {
        assert(ws.take(i as int + 1).drop_last() =~= ws.take(i as int));
        assert(ws.take(i as int + 1).last() == worn@[i as int]@);
        let mut wparts = split(worn[i].as_str(), '_');
        proof {
            lemma_split_nonempty(worn@[i as int]@, '_');
        }
        let wtype = wparts.swap_remove(0);
        match clothes.get(wtype.as_str()) {
            None => {
                proof {
                    lemma_scan_stop(clothes.items@, *cloth, ws, cs, i as int + 1);
                }
                return ConflictCheck { removed, error: Some(UNKNOWN_CLOTH) };
            },
            Some(w) => {
                if has_confict(cloth, w, conflicts) {
                    let ghost before = removed@;
                    removed.push(worn[i].clone());
                    assert(uids_view(removed@) =~= uids_view(before).push(worn@[i as int]@));
                }
            },
        }
        i = i + 1;
    }
    assert(ws.take(n as int) =~= ws);
    ConflictCheck { removed, error: None }
}

/// Once the check stops, it stays stopped with what it had removed.
proof fn lemma_scan_stop(clothes: Seq<Item>, cloth: Item, ws: Seq<Seq<char>>, cs: Seq<(Seq<char>, Seq<char>)>, k: int)
    requires
        0 <= k <= ws.len(),
        conflicts_scan(clothes, cloth, ws.take(k), cs).1,
    ensures
        conflicts_scan(clothes, cloth, ws, cs) == conflicts_scan(clothes, cloth, ws.take(k), cs),
    decreases ws.len() - k,
{
    if k < ws.len() {
        assert(ws.take(k + 1).drop_last() =~= ws.take(k));
        lemma_scan_stop(clothes, cloth, ws, cs, k + 1);
    } else {
        assert(ws.take(k) =~= ws);
    }
}

/// What adding `count` of an item to an inventory does.
pub enum AddPlan {
    /// Clothes are owned at most once: nothing changes.
    Unchanged,
    /// The item is there: its count becomes this.
    SetCount(i32),
    /// The item is new: it is entered with its type and `count`.
    Create,
    /// The new count does not fit, which the server does not survive.
    Overflow,
}

/// What adding `count` of an item of inventory type `kind` does, where the
/// player has `have` of it (`None`: none at all).
pub open spec fn add_plan_spec(have: Option<i32>, kind: Seq<char>, count: i32) -> AddPlan {
    match have {
        None => AddPlan::Create,
        Some(v) => if kind == CLOTHES_TYPE@ {
            AddPlan::Unchanged
        } else if v + count < i32::MIN || v + count > i32::MAX {
            AddPlan::Overflow
        } else {
            AddPlan::SetCount((v + count) as i32)
        },
    }
}

/// What adding items does (see [`add_plan_spec`]).
pub fn add_item(have: Option<i32>, kind: &str, count: i32) -> (r: AddPlan)
    ensures
        r == add_plan_spec(have, kind@, count),
{
    match have {
        None => AddPlan::Create,
        Some(v) => if kind.to_owned() == CLOTHES_TYPE.to_owned() {
            AddPlan::Unchanged
        } else {
            match v.checked_add(count) {
                Some(c) => AddPlan::SetCount(c),
                None => AddPlan::Overflow,
            }
        },
    }
}

/// What taking `count` of an item from an inventory does.
pub enum TakePlan {
    /// The player has fewer: nothing is taken.
    Refused,
    /// Exactly all are taken: the item leaves the inventory.
    Remove,
    /// Some are taken: the count becomes this.
    SetCount(i32),
    /// The new count does not fit, which the server does not survive.
    Overflow,
}

/// What taking `count` of an item does where the player has `have` of it.
pub open spec fn take_plan_spec(have: Option<i32>, count: i32) -> TakePlan {
    match have {
        None => TakePlan::Refused,
        Some(v) => if v < count {
            TakePlan::Refused
        } else if v - count > i32::MAX {
            TakePlan::Overflow
        } else if v - count == 0 {
            TakePlan::Remove
        } else {
            TakePlan::SetCount((v - count) as i32)
        },
    }
}

/// What taking items does (see [`take_plan_spec`]); the items were taken
/// unless the plan is [`TakePlan::Refused`].
pub fn take_item(have: Option<i32>, count: i32) -> (r: TakePlan)
    ensures
        r == take_plan_spec(have, count),
{
    match have {
        None => TakePlan::Refused,
        Some(v) => if v < count {
            TakePlan::Refused
        } else {
            match v.checked_sub(count) {
                None => TakePlan::Overflow,
                Some(0) => TakePlan::Remove,
                Some(c) => TakePlan::SetCount(c),
            }
        },
    }
}

/// A worn cloth as the description of a player shows it: its type, and its
/// colour id where the name has one ("<type>_<id>"), null otherwise.
pub open spec fn worn_model(name: Seq<char>) -> SpecValue {
    let parts = split_chars(name, '_');
    SpecValue::Object(
        seq![
            ("tpid"@, SpecValue::Str(parts[0])),
            ("clid"@, if parts.len() == 2 {
                SpecValue::Str(parts[1])
            } else {
                SpecValue::Null
            }),
        ],
    )
}

/// The clothes worn (see [`worn_model`]), under "clths".
pub fn get_clths(worn: &Vec<String>) -> (r: Object)
    ensures
        r@ == seq![
            (
                "clths"@,
                SpecValue::Vector(Seq::new(worn@.len(), |i: int| worn_model(worn@[i]@))),
            ),
        ],
{
    let mut out_vec: Vec<Value> = Vec::new();
    let n = worn.len();
    let mut i: usize = 0;
    while i < n
        invariant
            n == worn@.len(),
            0 <= i <= n,
            seq_model(out_vec@) == Seq::new(i as nat, |j: int| worn_model(worn@[j]@)),
        decreases n - i,
    {
        let parts = split(worn[i].as_str(), '_');
        proof {
            lemma_split_nonempty(worn@[i as int]@, '_');
        }
        let mut item = Object::new();
        item.push_entry("tpid", Value::String(parts[0].clone()));
        if parts.len() == 2 {
            item.push_entry("clid", Value::String(parts[1].clone()));
        } else {
            item.push_entry("clid", Value::Null);
        }
        assert(Value::Object(item)@ == worn_model(worn@[i as int]@)) by {
            assert(item@ =~= worn_model(worn@[i as int]@)->Object_0);
        }
        let ghost before = out_vec@;
        let ghost iv = Value::Object(item);
        proof {
            lemma_seq_model_push(before, iv);
        }
        out_vec.push(Value::Object(item));
        assert(seq_model(out_vec@) =~= Seq::new(i as nat + 1, |j: int| worn_model(worn@[j]@)));
        i = i + 1;
    }
    let ghost m = seq_model(out_vec@);
    let mut out = Object::new();
    out.push_entry("clths", vec_value(out_vec));
    assert(out@ =~= seq![("clths"@, SpecValue::Vector(m))]);
    out
}

/// A cloth of a collection as the collections show it: "<type>_<id>"
/// where its name has exactly those two pieces, its type otherwise.
pub open spec fn collection_entry(name: Seq<char>) -> Seq<char> {
    let parts = split_chars(name, '_');
    if parts.len() == 2 {
        parts[0] + "_"@ + parts[1]
    } else {
        parts[0]
    }
}

/// A collection of clothes: its entries, its type and no name.
pub open spec fn collection_model(collection: Seq<char>, clothes: Seq<Seq<char>>) -> Seq<(Seq<char>, SpecValue)> {
    seq![
        ("cct"@, SpecValue::Vector(Seq::new(clothes.len(), |i: int| SpecValue::Str(collection_entry(clothes[i]))))),
        ("ctp"@, SpecValue::Str(collection)),
        ("cn"@, SpecValue::Str(""@)),
    ]
}

/// The collection `collection` holding `clothes` (see [`collection_model`]).
pub fn get_collection(collection: &str, clothes: &Vec<String>) -> (r: Object)
    ensures
        r@ == collection_model(collection@, uids_view(clothes@)),
{
    let ghost cs = uids_view(clothes@);
    let mut cct: Vec<Value> = Vec::new();
    let n = clothes.len();
    let mut i: usize = 0;
    while i < n
        invariant
            n == clothes@.len(),
            cs == uids_view(clothes@),
            0 <= i <= n,
            seq_model(cct@) == Seq::new(i as nat, |j: int| SpecValue::Str(collection_entry(cs[j]))),
        decreases n - i,
    {
        let parts = split(clothes[i].as_str(), '_');
        proof {
            lemma_split_nonempty(clothes@[i as int]@, '_');
        }
        let entry = if parts.len() == 2 {
            let head = join_text(parts[0].as_str(), "_");
            join_text(head.as_str(), parts[1].as_str())
        } else {
            parts[0].clone()
        };
        assert(entry@ == collection_entry(cs[i as int]));
        let ghost before = cct@;
        let ghost ev = Value::String(entry);
        proof {
            lemma_seq_model_push(before, ev);
        }
        cct.push(Value::String(entry));
        assert(seq_model(cct@) =~= Seq::new(i as nat + 1, |j: int| SpecValue::Str(collection_entry(cs[j]))));
        i = i + 1;
    }
    let ghost m = seq_model(cct@);
    let mut out = Object::new();
    out.push_entry("cct", vec_value(cct));
    out.push_entry("ctp", str_value(collection));
    out.push_entry("cn", str_value(""));
    assert(out@ =~= collection_model(collection@, cs));
    out
}

/// The collections of clothes every player has, in order.
pub open spec fn collections_spec() -> Seq<Seq<char>> {
    seq!["casual"@, "club"@, "official"@, "swimwear"@, "underdress"@]
}

/// The collections of clothes every player has (see [`collections_spec`]).
pub fn collections() -> (r: Vec<&'static str>)
    ensures
        r@.len() == 5,
        forall|i: int| 0 <= i < 5 ==> #[trigger] r@[i]@ == collections_spec()[i],
{
    let v = vec!["casual", "club", "official", "swimwear", "underdress"];
    v
}

/// All collections of a player, with the one it wears (see [`collections_spec`]).
pub open spec fn all_collections_model(sets: Seq<Seq<Seq<char>>>, current: Seq<char>) -> Seq<(Seq<char>, SpecValue)> {
    seq![
        ("cc"@, SpecValue::Str(current)),
        (
            "ccltns"@,
            SpecValue::Object(
                Seq::new(5, |i: int| (collections_spec()[i], SpecValue::Object(collection_model(collections_spec()[i], sets[i])))),
            ),
        ),
    ]
}

/// The views of the clothes of each collection.
pub open spec fn sets_view(sets: Seq<Vec<String>>) -> Seq<Seq<Seq<char>>> {
    Seq::new(sets.len(), |i: int| uids_view(sets[i]@))
}

/// All collections of a player: `sets` holds the clothes of each of the
/// collections of [`collections_spec`], in that order; `current` is the
/// one it wears.
pub fn get_all_collections(sets: &Vec<Vec<String>>, current: String) -> (r: Object)
    requires
        sets@.len() == 5,
    ensures
        r@ == all_collections_model(sets_view(sets@), current@),
{
    let ghost sv = sets_view(sets@);
    let names = collections();
    let mut ccltns = Object::new();
    let mut i: usize = 0;
    while i < 5
        invariant
            sets@.len() == 5,
            sv == sets_view(sets@),
            names@.len() == 5,
            forall|k: int| 0 <= k < 5 ==> #[trigger] names@[k]@ == collections_spec()[k],
            0 <= i <= 5,
            ccltns@ == Seq::new(i as nat, |j: int| (collections_spec()[j], SpecValue::Object(collection_model(collections_spec()[j], sv[j])))),
        decreases 5 - i,
    {
        let c = get_collection(names[i], &sets[i]);
        assert(c@ == collection_model(collections_spec()[i as int], sv[i as int]));
        ccltns.push_entry(names[i], Value::Object(c));
        assert(ccltns@ =~= Seq::new(i as nat + 1, |j: int| (collections_spec()[j], SpecValue::Object(collection_model(collections_spec()[j], sv[j])))));
        i = i + 1;
    }
    let ghost cm = ccltns@;
    let mut data = Object::new();
    data.push_entry("cc", Value::String(current));
    data.push_entry("ccltns", Value::Object(ccltns));
    assert(data@ =~= all_collections_model(sv, current@));
    data
}

/// An inventory entry: its count, type and id ("" where the name has none).
pub open spec fn inv_entry_model(name: Seq<char>, count: i32) -> SpecValue {
    let parts = split_chars(name, '_');
    SpecValue::Object(
        seq![
            ("c"@, SpecValue::I32(count)),
            ("tid"@, SpecValue::Str(parts[0])),
            ("iid"@, SpecValue::Str(if parts.len() == 2 {
                parts[1]
            } else {
                ""@
            })),
        ],
    )
}

/// The kinds of inventory, in the order the inventory lists them.
pub open spec fn kinds_spec() -> Seq<Seq<char>> {
    seq!["frn"@, "act"@, "gm"@, "lt"@, "cls"@]
}

/// The position of an inventory type among [`kinds_spec`].
pub open spec fn kind_index(kind: Seq<char>) -> Option<int> {
    if kind == "frn"@ {
        Some(0)
    } else if kind == "act"@ {
        Some(1)
    } else if kind == "gm"@ {
        Some(2)
    } else if kind == "lt"@ {
        Some(3)
    } else if kind == "cls"@ {
        Some(4)
    } else {
        None
    }
}

/// The entries of an inventory by kind, out of its items (name and stored
/// record: type, count) read in order: a record without a count cannot be
/// read, nor one of an unknown type; worn clothes are left out.
pub open spec fn inventory_spec(items: Seq<(Seq<char>, Seq<Seq<char>>)>, worn: Seq<Seq<char>>) -> StoreRead<Seq<Seq<SpecValue>>>
    decreases items.len(),
{
    if items.len() == 0 {
        StoreRead::Found(seq![Seq::empty(), Seq::empty(), Seq::empty(), Seq::empty(), Seq::empty()])
    } else {
        match inventory_spec(items.drop_last(), worn) {
            StoreRead::Found(lists) => {
                let (name, record) = items.last();
                if record.len() < 2 {
                    StoreRead::Malformed
                } else {
                    match parse_i32_spec(record[1]) {
                        None => StoreRead::NotANumber,
                        Some(count) => match kind_index(record[0]) {
                            None => StoreRead::Malformed,
                            Some(k) => if k == 4 && worn.contains(name) {
                                StoreRead::Found(lists)
                            } else {
                                StoreRead::Found(lists.update(k, lists[k].push(inv_entry_model(name, count))))
                            },
                        },
                    }
                }
            },
            StoreRead::NotANumber => StoreRead::NotANumber,
            StoreRead::Malformed => StoreRead::Malformed,
        }
    }
}

/// The inventory as the client receives it: under "c", one object per kind
/// with its id and entries.
pub open spec fn inventory_model(lists: Seq<Seq<SpecValue>>) -> Seq<(Seq<char>, SpecValue)> {
    seq![
        (
            "c"@,
            SpecValue::Object(
                Seq::new(5, |k: int| (kinds_spec()[k], SpecValue::Object(seq![("id"@, SpecValue::Str(kinds_spec()[k])), ("it"@, SpecValue::Vector(lists[k]))]))),
            ),
        ),
    ]
}

/// The views of stored inventory records.
pub open spec fn records_view(items: Seq<(String, Vec<String>)>) -> Seq<(Seq<char>, Seq<Seq<char>>)> {
    Seq::new(items.len(), |i: int| (items[i].0@, uids_view(items[i].1@)))
}

/// The model of an inventory read.
pub open spec fn inventory_read_view(r: StoreRead<Object>) -> StoreRead<Seq<(Seq<char>, SpecValue)>> {
    match r {
        StoreRead::Found(o) => StoreRead::Found(o@),
        StoreRead::NotANumber => StoreRead::NotANumber,
        StoreRead::Malformed => StoreRead::Malformed,
    }
}

fn contains_name(names: &Vec<String>, name: &String) -> (r: bool)
    ensures
        r == uids_view(names@).contains(name@),
{
    let n = names.len();
    let mut i: usize = 0;
    while i < n
        invariant
            n == names@.len(),
            0 <= i <= n,
            forall|j: int| 0 <= j < i ==> names@[j]@ != name@,
        decreases n - i,
    {
        if names[i] == *name {
            assert(uids_view(names@)[i as int] == name@);
            return true;
        }
        i = i + 1;
    }
    assert forall|j: int| 0 <= j < uids_view(names@).len() implies uids_view(names@)[j] != name@ by {
        assert(uids_view(names@)[j] == names@[j]@);
    }
    false
}

fn kind_of(kind: &String) -> (r: Option<usize>)
    ensures
        match kind_index(kind@) {
            Some(k) => r == Some(k as usize),
            None => r is None,
        },
{
    if *kind == "frn".to_owned() {
        Some(0)
    } else if *kind == "act".to_owned() {
        Some(1)
    } else if *kind == "gm".to_owned() {
        Some(2)
    } else if *kind == "lt".to_owned() {
        Some(3)
    } else if *kind == "cls".to_owned() {
        Some(4)
    } else {
        None
    }
}

fn inv_entry(name: &String, count: i32) -> (r: Value)
    ensures
        r@ == inv_entry_model(name@, count),
{
    let parts = split(name.as_str(), '_');
    proof {
        lemma_split_nonempty(name@, '_');
    }
    let mut out = Object::new();
    out.push_entry("c", Value::I32(count));
    out.push_entry("tid", Value::String(parts[0].clone()));
    if parts.len() == 2 {
        out.push_entry("iid", Value::String(parts[1].clone()));
    } else {
        out.push_entry("iid", str_value(""));
    }
    assert(out@ =~= inv_entry_model(name@, count)->Object_0);
    Value::Object(out)
}

/// The inventory of a player (see [`inventory_spec`] and
/// [`inventory_model`]), out of its items and the clothes it wears.
#[verifier::loop_isolation(false)]
pub fn get(items: &Vec<(String, Vec<String>)>, worn: &Vec<String>) -> (r: StoreRead<Object>)
    ensures
        inventory_read_view(r) == (match inventory_spec(records_view(items@), uids_view(worn@)) {
            StoreRead::Found(lists) => StoreRead::Found(inventory_model(lists)),
            StoreRead::NotANumber => StoreRead::NotANumber,
            StoreRead::Malformed => StoreRead::Malformed,
        }),
{
    let ghost rs = records_view(items@);
    let ghost ws = uids_view(worn@);
    let mut lists: Vec<Vec<Value>> = vec![Vec::new(), Vec::new(), Vec::new(), Vec::new(), Vec::new()];
    assert(lists_view(lists@) =~= seq![Seq::<SpecValue>::empty(), Seq::empty(), Seq::empty(), Seq::empty(), Seq::empty()]);
    let n = items.len();
    let mut i: usize = 0;
    while i < n
        invariant
            n == items@.len(),
            rs == records_view(items@),
            ws == uids_view(worn@),
            0 <= i <= n,
            lists@.len() == 5,
            inventory_spec(rs.take(i as int), ws) == StoreRead::Found(lists_view(lists@)),
        decreases n - i,
    {
        assert(rs.take(i as int + 1).drop_last() =~= rs.take(i as int));
        assert(rs.take(i as int + 1).last() == (items@[i as int].0@, uids_view(items@[i as int].1@)));
        let name = &items[i].0;
        let record = &items[i].1;
        if record.len() < 2 {
            proof {
                lemma_inventory_stop(rs, ws, i as int + 1);
            }
            return StoreRead::Malformed;
        }
        let count = match parse_i32(record[1].as_str()) {
            Some(c) => c,
            None => {
                proof {
                    lemma_inventory_stop(rs, ws, i as int + 1);
                }
                return StoreRead::NotANumber;
            },
        };
        let k = match kind_of(&record[0]) {
            Some(k) => k,
            None => {
                proof {
                    lemma_inventory_stop(rs, ws, i as int + 1);
                }
                return StoreRead::Malformed;
            },
        };
        if k == 4 && contains_name(worn, name) {
        } else {
            let entry = inv_entry(name, count);
            let ghost before = lists_view(lists@);
            let ghost ev = entry;
            let mut list = lists.remove(k);
            proof {
                lemma_seq_model_push(list@, ev);
            }
            list.push(entry);
            lists.insert(k, list);
            assert(lists_view(lists@) =~= before.update(k as int, before[k as int].push(ev@)));
        }
        i = i + 1;
    }
    assert(rs.take(n as int) =~= rs);
    let ghost ls = lists_view(lists@);
    let names = kinds();
    let mut c = Object::new();
    let mut k: usize = 0;
    while k < 5
        invariant
            lists@.len() == 5,
            forall|j: int| k <= j < 5 ==> #[trigger] seq_model(lists@[j]@) == ls[j],
            ls.len() == 5,
            names@.len() == 5,
            forall|j: int| 0 <= j < 5 ==> #[trigger] names@[j]@ == kinds_spec()[j],
            0 <= k <= 5,
            c@ == Seq::new(k as nat, |j: int| (kinds_spec()[j], SpecValue::Object(seq![("id"@, SpecValue::Str(kinds_spec()[j])), ("it"@, SpecValue::Vector(ls[j]))]))),
        decreases 5 - k,
    {
        let list = lists.remove(k);
        lists.insert(k, Vec::new());
        let ghost lv = seq_model(list@);
        assert(lv == ls[k as int]);
        let mut kind = Object::new();
        kind.push_entry("id", str_value(names[k]));
        kind.push_entry("it", vec_value(list));
        assert(kind@ =~= seq![("id"@, SpecValue::Str(kinds_spec()[k as int])), ("it"@, SpecValue::Vector(ls[k as int]))]);
        c.push_entry(names[k], Value::Object(kind));
        assert(c@ =~= Seq::new(k as nat + 1, |j: int| (kinds_spec()[j], SpecValue::Object(seq![("id"@, SpecValue::Str(kinds_spec()[j])), ("it"@, SpecValue::Vector(ls[j]))]))));
        k = k + 1;
    }
    let ghost cm = c@;
    let mut out = Object::new();
    out.push_entry("c", Value::Object(c));
    assert(out@ =~= inventory_model(ls));
    StoreRead::Found(out)
}

/// The kinds of inventory (see [`kinds_spec`]).
pub fn kinds() -> (r: Vec<&'static str>)
    ensures
        r@.len() == 5,
        forall|i: int| 0 <= i < 5 ==> #[trigger] r@[i]@ == kinds_spec()[i],
{
    vec!["frn", "act", "gm", "lt", "cls"]
}

/// The models of the entry lists of an inventory.
pub open spec fn lists_view(lists: Seq<Vec<Value>>) -> Seq<Seq<SpecValue>> {
    Seq::new(lists.len(), |k: int| seq_model(lists[k]@))
}

/// Once reading the inventory stops, it stays stopped.
proof fn lemma_inventory_stop(rs: Seq<(Seq<char>, Seq<Seq<char>>)>, ws: Seq<Seq<char>>, k: int)
    requires
        0 <= k <= rs.len(),
        !(inventory_spec(rs.take(k), ws) is Found),
    ensures
        inventory_spec(rs, ws) == inventory_spec(rs.take(k), ws),
    decreases rs.len() - k,
{
    if k < rs.len() {
        assert(rs.take(k + 1).drop_last() =~= rs.take(k));
        lemma_inventory_stop(rs, ws, k + 1);
    } else {
        assert(rs.take(k) =~= rs);
    }
}

} // verus!
