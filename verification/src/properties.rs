//! What holds of the game across its operations: the online players keep
//! distinct ids, rooms hold whoever entered them, stores give back what was
//! put in, and no purchase spends money the player does not have.
use crate::inventory::{inv_entry_model, inventory_spec, kind_index, kinds_spec, add_plan_spec, conflict_spec, take_plan_spec, AddPlan, TakePlan, CLOTHES_TYPE};
use crate::modules::billing::{pack_amount_spec, silver_exchange_spec, SilverExchange};
use crate::modules::avatar::starter_clothes_spec;
use crate::modules::chat_decor::decor_price_spec;
use crate::modules::furniture::{placed, placements_spec, THIRTEEN_BITS, address_type, in_category, purchase_spec, replaced_spec, type_taken, Purchase};
use crate::modules::location::{entered, left_room, prefix_spec};
use crate::modules::outside::{pick_room_spec, PLAYER_LIMIT};
use crate::parser::{
    catalog_insert,
    catalog_scan,
    item_index,
    lemma_item_index,
    model_index,
    Item,
    ItemModel,
    XmlNodeModel,
};
use crate::world::{
    distinct_uids,
    lemma_uid_index,
    members,
    uid_index,
    world_insert,
    world_remove,
    PlayerState,
};
use crate::modules::house::{room_item_spec, room_items_spec, room_spec};
use crate::modules::{insert_texts, StoreRead, appearance_entries, appearance_key_spec, appearance_record_spec, appearance_scan};
use crate::text::{split_chars, all_digits, decimal, digits, digits_value, parse_i32_spec};
use crate::value::{distinct_keys, key_index, lemma_key_index, obj_get, obj_insert, SpecValue};
use vstd::prelude::*;

verus! {

/// A player whose record stands at `i` is listed among the members of its
/// room, unless it is the one left out.
proof fn lemma_members_contains(ps: Seq<(String, PlayerState)>, room: Seq<char>, except: Option<Seq<char>>, i: int)
    requires
        0 <= i < ps.len(),
        ps[i].1.room@ == room,
        except != Some(ps[i].0@),
    ensures
        members(ps, room, except).contains(ps[i].0@),
    decreases ps.len(),
{
    if i < ps.len() - 1 {
        lemma_members_contains(ps.drop_last(), room, except, i);
        let before = members(ps.drop_last(), room, except);
        let k = choose|k: int| 0 <= k < before.len() && before[k] == ps[i].0@;
        if ps.last().1.room@ == room && except != Some(ps.last().0@) {
            assert(members(ps, room, except)[k] == ps[i].0@);
        }
    } else {
        let before = members(ps.drop_last(), room, except);
        assert(members(ps, room, except)[before.len() as int] == ps[i].0@);
    }
}

/// Every member listed for a room is the id of a record in that room.
proof fn lemma_members_listed(ps: Seq<(String, PlayerState)>, room: Seq<char>, except: Option<Seq<char>>, u: Seq<char>)
    requires
        members(ps, room, except).contains(u),
    ensures
        exists|i: int| 0 <= i < ps.len() && ps[i].0@ == u && ps[i].1.room@ == room,
    decreases ps.len(),
{
    if ps.len() > 0 {
        let before = members(ps.drop_last(), room, except);
        if before.contains(u) {
            lemma_members_listed(ps.drop_last(), room, except, u);
            let i = choose|i: int| 0 <= i < ps.drop_last().len() && ps.drop_last()[i].0@ == u && ps.drop_last()[i].1.room@ == room;
            assert(ps[i] == ps.drop_last()[i]);
        } else {
            let k = choose|k: int| 0 <= k < members(ps, room, except).len() && members(ps, room, except)[k] == u;
            assert(k == before.len());
            assert(ps[ps.len() - 1].0@ == u);
        }
    }
}

/// Whether `after` lists the same players as `before`, in the same order.
pub open spec fn same_players(before: Seq<(String, PlayerState)>, after: Seq<(String, PlayerState)>) -> bool {
    after.len() == before.len() && forall|j: int| 0 <= j < before.len() ==> #[trigger] after[j].0 == before[j].0
}

/// Moving, entering and leaving change no one's id: where the same players
/// stay listed, their ids stay distinct.
pub proof fn law_same_players_keep_ids_distinct(before: Seq<(String, PlayerState)>, after: Seq<(String, PlayerState)>)
    requires
        distinct_uids(before),
        same_players(before, after),
    ensures
        distinct_uids(after),
{
    assert forall|a: int, b: int| 0 <= a < b < after.len() implies after[a].0@ != after[b].0@ by {
        assert(after[a].0 == before[a].0);
        assert(after[b].0 == before[b].0);
    }
}

/// Recording a player keeps the ids of the online players distinct, and the
/// record is found again under its id.
pub proof fn law_insert_keeps_ids_distinct(ps: Seq<(String, PlayerState)>, uid: String, p: PlayerState)
    requires
        distinct_uids(ps),
    ensures
        distinct_uids(world_insert(ps, uid, p)),
        uid_index(world_insert(ps, uid, p), uid@) matches Some(i) && world_insert(ps, uid, p)[i] == (uid, p),
{
    lemma_uid_index(ps, uid@);
    let after = world_insert(ps, uid, p);
    lemma_uid_index(after, uid@);
    match uid_index(ps, uid@) {
        Some(i) => {
            assert(after[i].0@ == uid@);
        },
        None => {
            assert(after[ps.len() as int].0@ == uid@);
        },
    }
}

/// Forgetting a player keeps the ids distinct, and the player is no longer found.
pub proof fn law_remove_forgets(ps: Seq<(String, PlayerState)>, uid: Seq<char>)
    requires
        distinct_uids(ps),
    ensures
        distinct_uids(world_remove(ps, uid)),
        uid_index(world_remove(ps, uid), uid) is None,
{
    lemma_uid_index(ps, uid);
    let after = world_remove(ps, uid);
    lemma_uid_index(after, uid);
    match uid_index(ps, uid) {
        Some(i) => {
            assert forall|a: int, b: int| 0 <= a < b < after.len() implies after[a].0@ != after[b].0@ by {
                let x = if a < i { a } else { a + 1 };
                let y = if b < i { b } else { b + 1 };
                assert(after[a] == ps[x]);
                assert(after[b] == ps[y]);
            }
            assert forall|j: int| 0 <= j < after.len() implies after[j].0@ != uid by {
                let x = if j < i { j } else { j + 1 };
                assert(after[j] == ps[x]);
            }
        },
        None => {},
    }
}

/// A player that enters a room keeps its id, the ids stay distinct, and the
/// player is among those the room's notices go to.
pub proof fn law_entered_is_member(
    before: Seq<(String, PlayerState)>,
    after: Seq<(String, PlayerState)>,
    uid: Seq<char>,
    room: Seq<char>,
)
    requires
        distinct_uids(before),
        uid_index(before, uid) is Some,
        entered(before, after, uid, room),
    ensures
        distinct_uids(after),
        uid_index(after, uid) == uid_index(before, uid),
        members(after, room, None).contains(uid),
{
    lemma_uid_index(before, uid);
    let i = uid_index(before, uid).unwrap();
    assert forall|a: int, b: int| 0 <= a < b < after.len() implies after[a].0@ != after[b].0@ by {
        assert(after[a].0 == before[a].0);
        assert(after[b].0 == before[b].0);
    }
    lemma_uid_index(after, uid);
    assert(forall|j: int| 0 <= j < i ==> after[j] == before[j]);
    lemma_members_contains(after, room, None, i);
}

/// A player that leaves a room keeps its id, the ids stay distinct, and it
/// is no longer among those the room's notices go to.
pub proof fn law_left_is_not_member(
    before: Seq<(String, PlayerState)>,
    after: Seq<(String, PlayerState)>,
    uid: Seq<char>,
    room: Seq<char>,
)
    requires
        distinct_uids(before),
        left_room(before, after, uid, room),
    ensures
        distinct_uids(after),
        !members(after, room, None).contains(uid),
{
    lemma_uid_index(before, uid);
    let i = uid_index(before, uid).unwrap();
    assert forall|a: int, b: int| 0 <= a < b < after.len() implies after[a].0@ != after[b].0@ by {
        assert(after[a].0 == before[a].0);
        assert(after[b].0 == before[b].0);
    }
    if members(after, room, None).contains(uid) {
        lemma_members_listed(after, room, None, uid);
        let j = choose|j: int| 0 <= j < after.len() && after[j].0@ == uid && after[j].1.room@ == room;
        if j == i {
            assert(after[i].1.room@.len() == 0);
        } else {
            assert(after[j] == before[j]);
        }
    }
}

/// An item entered into a catalogue is found again under its name, and the
/// names stay distinct.
pub proof fn law_catalog_insert_get(items: Seq<Item>, item: Item)
    requires
        forall|a: int, b: int| 0 <= a < b < items.len() ==> items[a].name@ != items[b].name@,
    ensures
        item_index(catalog_insert(items, item), item.name@) matches Some(i) && catalog_insert(items, item)[i] == item,
        forall|a: int, b: int|
            0 <= a < b < catalog_insert(items, item).len() ==> catalog_insert(items, item)[a].name@ != catalog_insert(
                items,
                item,
            )[b].name@,
{
    lemma_item_index(items, item.name@);
    let after = catalog_insert(items, item);
    lemma_item_index(after, item.name@);
    match item_index(items, item.name@) {
        Some(i) => {
            assert(after[i].name@ == item.name@);
        },
        None => {
            assert(after[items.len() as int].name@ == item.name@);
        },
    }
}

/// No two item models share a name.
pub open spec fn distinct_names(ms: Seq<ItemModel>) -> bool {
    forall|a: int, b: int| 0 <= a < b < ms.len() ==> ms[a].name != ms[b].name
}

proof fn lemma_model_index(ms: Seq<ItemModel>, name: Seq<char>)
    ensures
        match model_index(ms, name) {
            Some(i) => 0 <= i < ms.len() && ms[i].name == name,
            None => forall|j: int| 0 <= j < ms.len() ==> ms[j].name != name,
        },
    decreases ms.len(),
{
    if ms.len() > 0 {
        lemma_model_index(ms.drop_last(), name);
        assert(forall|j: int| 0 <= j < ms.len() - 1 ==> ms.drop_last()[j] == ms[j]);
    }
}

/// Reading a catalogue file keeps the names of a catalogue distinct: each
/// item replaces the one of its name.
pub proof fn law_scan_keeps_names_distinct(nodes: Seq<XmlNodeModel>, n: int, start: Seq<ItemModel>)
    requires
        distinct_names(start),
    ensures
        catalog_scan(nodes, n, start) matches Some(c) ==> distinct_names(c),
    decreases n,
{
    if n > 0 {
        law_scan_keeps_names_distinct(nodes, n - 1, start);
        match catalog_scan(nodes, n - 1, start) {
            Some(c) => {
                match crate::parser::item_entry(nodes, n - 1) {
                    Some(it) => {
                        lemma_model_index(c, it.name);
                    },
                    None => {},
                }
            },
            None => {},
        }
    }
}

/// Taking back what was just added leaves the count as it was: the item
/// leaves the inventory where it had none. Clothes are not counted.
pub proof fn law_take_undoes_add(have: Option<i32>, kind: Seq<char>, count: i32)
    requires
        kind != CLOTHES_TYPE@,
        count >= 0,
        have matches Some(v) ==> v >= 0 && v + count <= i32::MAX,
    ensures
        match have {
            None => add_plan_spec(have, kind, count) is Create && take_plan_spec(Some(count), count) is Remove,
            Some(v) => add_plan_spec(have, kind, count) == AddPlan::SetCount((v + count) as i32)
                && take_plan_spec(Some((v + count) as i32), count) == (if v == 0 {
                TakePlan::Remove
            } else {
                TakePlan::SetCount(v)
            }),
        },
{
}

/// Two clothes conflict whichever is worn first.
pub proof fn law_conflict_symmetric(cat1: Seq<char>, cat2: Seq<char>, conflicts: Seq<(Seq<char>, Seq<char>)>)
    ensures
        conflict_spec(cat1, cat2, conflicts) == conflict_spec(cat2, cat1, conflicts),
{
    if conflict_spec(cat1, cat2, conflicts) && cat1 != cat2 {
        let j = choose|j: int|
            0 <= j < conflicts.len() && ((#[trigger] conflicts[j]).0 == cat1 && conflicts[j].1 == cat2 || conflicts[j].1
                == cat1 && conflicts[j].0 == cat2);
        assert(conflicts[j].0 == cat2 && conflicts[j].1 == cat1 || conflicts[j].1 == cat2 && conflicts[j].0 == cat1);
    }
    if conflict_spec(cat2, cat1, conflicts) && cat1 != cat2 {
        let j = choose|j: int|
            0 <= j < conflicts.len() && ((#[trigger] conflicts[j]).0 == cat2 && conflicts[j].1 == cat1 || conflicts[j].1
                == cat2 && conflicts[j].0 == cat1);
        assert(conflicts[j].0 == cat1 && conflicts[j].1 == cat2 || conflicts[j].1 == cat1 && conflicts[j].0 == cat2);
    }
}

/// Changing gold into silver never takes more gold than the player has, and
/// gives a hundred silver for each gold taken.
pub proof fn law_exchange_keeps_gold(amount: i32, gold: i32)
    ensures
        silver_exchange_spec(amount, gold) matches SilverExchange::Exchange { gold_change, silver } ==> gold
            + gold_change >= 0 || amount < 0,
        silver_exchange_spec(amount, gold) matches SilverExchange::Exchange { gold_change, silver } ==> silver
            == -100 * gold_change && gold_change == -amount,
{
}

/// Buying a chat decoration never costs more gold or silver than the player has.
pub proof fn law_decor_affordable(items: Seq<Item>, tpid: Seq<char>, gold: i32, silver: i32)
    ensures
        decor_price_spec(items, tpid, gold, silver) matches Some((g, s)) ==> g <= gold && s <= silver,
{
}

/// Buying furniture never costs more gold or silver than the player has:
/// what it adds leaves both at least where they would be after paying the
/// full price.
pub proof fn law_purchase_affordable(item: Item, count: i32, gold: i32, silver: i32)
    ensures
        purchase_spec(item, count, gold, silver) matches Purchase::Pay { gold: g, silver: s } ==> gold + g >= 0 || gold
            < 0,
        purchase_spec(item, count, gold, silver) matches Purchase::Pay { gold: g, silver: s } ==> g == -(item.gold
            * count) && s == -(item.silver * count) && item.gold * count <= gold && item.silver * count <= silver,
{
}

/// Whether the replaced items `r` are all of `category`, of pairwise
/// different types, and each an item of `names` with its type.
pub open spec fn replaced_ok(items: Seq<Item>, category: Seq<char>, names: Seq<Seq<char>>, r: Seq<(Seq<char>, Seq<char>)>) -> bool {
    &&& forall|a: int| 0 <= a < r.len() ==> #[trigger] in_category(items, r[a].1, category)
    &&& forall|a: int| 0 <= a < r.len() ==> #[trigger] names.contains(r[a].0) && r[a].1 == address_type(r[a].0)
    &&& forall|a: int, b: int| #![trigger r[a], r[b]] 0 <= a < b < r.len() ==> r[a].1 != r[b].1
}

/// The items a new piece of furniture replaces are all of its category, of
/// pairwise different types, and each is an item of the room.
pub proof fn law_replaced_items(items: Seq<Item>, category: Seq<char>, names: Seq<Seq<char>>)
    ensures
        replaced_ok(items, category, names, replaced_spec(items, category, names)),
    decreases names.len(),
{
    if names.len() > 0 {
        law_replaced_items(items, category, names.drop_last());
        let before = replaced_spec(items, category, names.drop_last());
        let r = replaced_spec(items, category, names);
        assert forall|a: int| 0 <= a < before.len() implies #[trigger] names.contains(before[a].0) by {
            assert(names.drop_last().contains(before[a].0));
            let k = choose|k: int| 0 <= k < names.drop_last().len() && names.drop_last()[k] == before[a].0;
            assert(names[k] == before[a].0);
        }
        let t = address_type(names.last());
        if in_category(items, t, category) && !type_taken(before, t) {
            assert(r == before.push((names.last(), t)));
            assert forall|a: int| 0 <= a < before.len() implies before[a].1 != t by {
                if before[a].1 == t {
                    assert(type_taken(before, t));
                }
            }
            assert forall|a: int| 0 <= a < r.len() implies #[trigger] in_category(items, r[a].1, category) by {
                if a < before.len() {
                    assert(r[a] == before[a]);
                }
            }
            assert forall|a: int| 0 <= a < r.len() implies #[trigger] names.contains(r[a].0) && r[a].1 == address_type(r[a].0) by {
                if a < before.len() {
                    assert(r[a] == before[a]);
                    assert(names.drop_last().contains(before[a].0));
                    assert(names.contains(before[a].0));
                } else {
                    assert(names[names.len() - 1] == r[a].0);
                }
            }
            assert forall|a: int, b: int| 0 <= a < b < r.len() implies r[a].1 != r[b].1 by {
                assert(r[a] == before[a]);
                if b < before.len() {
                    assert(r[b] == before[b]);
                }
            }
            assert(replaced_ok(items, category, names, r));
        } else {
            assert(r == before);
            assert forall|a: int| 0 <= a < r.len() implies #[trigger] names.contains(r[a].0) && r[a].1 == address_type(r[a].0) by {
                assert(names.drop_last().contains(before[a].0));
                assert(names.contains(before[a].0));
            }
            assert forall|a: int| 0 <= a < r.len() implies #[trigger] in_category(items, r[a].1, category) by {
                assert(in_category(items, before[a].1, category));
            }
            assert forall|a: int, b: int| 0 <= a < b < r.len() implies r[a].1 != r[b].1 by {
                assert(before[a].1 != before[b].1);
            }
            assert(replaced_ok(items, category, names, r));
        }
    }
}

/// The room a search settles on holds at most [`PLAYER_LIMIT`] players.
pub proof fn law_picked_room_has_space(ps: Seq<(String, PlayerState)>, lid: Seq<char>, gid: Seq<char>)
    ensures
        pick_room_spec(ps, lid, gid) matches Some(room) ==> members(ps, room, None).len() <= PLAYER_LIMIT,
{
}

proof fn lemma_digits(m: nat)
    ensures
        digits(m).len() > 0,
        all_digits(digits(m)),
        digits_value(digits(m)) == m,
        '0' <= digits(m)[0] <= '9',
    decreases m,
{
    if m >= 10 {
        lemma_digits(m / 10);
        let d = digits(m / 10);
        let c = ((m % 10 + 48) as char);
        assert(digits(m) == d.push(c));
        assert(d.push(c).drop_last() =~= d);
        assert forall|i: int| 0 <= i < d.push(c).len() implies '0' <= #[trigger] d.push(c)[i] <= '9' by {
            if i < d.len() {
                assert(d.push(c)[i] == d[i]);
            }
        }
        assert(d.push(c)[0] == d[0]);
        assert(c as int == m % 10 + 48);
        assert(digits_value(d.push(c)) == digits_value(d) * 10 + (c as int - 48));
        assert((m / 10) * 10 + m % 10 == m);
    } else {
        let c = ((m + 48) as char);
        assert(digits(m) == seq![c]);
        assert(seq![c].drop_last() =~= Seq::<char>::empty());
        assert(c as int == m + 48);
        assert(digits_value(seq![c]) == digits_value(Seq::<char>::empty()) * 10 + (c as int - 48));
    }
}

/// A number written out in decimal reads back as the same number: the
/// store keeps numbers as text.
pub proof fn law_number_text_roundtrip(n: i32)
    ensures
        parse_i32_spec(decimal(n as int)) == Some(n),
{
    let s = decimal(n as int);
    if n < 0 {
        let m = (-(n as int)) as nat;
        lemma_digits(m);
        assert(s[0] == '-');
        assert(s.drop_first() =~= digits(m));
    } else {
        lemma_digits(n as nat);
        assert(s == digits(n as nat));
    }
}

/// The text fields an appearance is stored as: its name, then its numbers
/// in decimal.
pub open spec fn stored_fields(name: Seq<char>, xs: Seq<i32>) -> Seq<Seq<char>> {
    seq![name] + Seq::new(xs.len(), |i: int| decimal(xs[i] as int))
}

/// The appearance that the stored fields of `name` and `xs` read back as:
/// the name under "n", then each number under its key.
pub open spec fn appearance_of(name: Seq<char>, xs: Seq<i32>, k: int) -> Seq<(Seq<char>, SpecValue)> {
    Seq::new(
        k as nat,
        |i: int|
            if i == 0 {
                ("n"@, SpecValue::Str(name))
            } else {
                (appearance_key_spec(i), SpecValue::I32(xs[i - 1]))
            },
    )
}

/// An appearance saved to the store reads back with every field it was
/// saved with, in the store's order.
pub proof fn law_appearance_roundtrip(name: Seq<char>, xs: Seq<i32>)
    requires
        xs.len() == 24,
    ensures
        appearance_scan(stored_fields(name, xs), 1) is None,
        appearance_entries(stored_fields(name, xs), 25) == appearance_of(name, xs, 25),
{
    let f = stored_fields(name, xs);
    assert forall|i: int| 1 <= i < 25 implies parse_i32_spec(#[trigger] f[i]) == Some(xs[i - 1]) by {
        assert(f[i] == decimal(xs[i - 1] as int));
        law_number_text_roundtrip(xs[i - 1]);
    }
    lemma_scan_clear(f, 1);
    lemma_entries_of(name, xs, 25);
}

/// An appearance sent by the client, once saved in the store's order, reads
/// back with every one of its 25 keys bound to the value it was sent with.
pub proof fn law_appearance_object_roundtrip(a: Seq<(Seq<char>, SpecValue)>)
    requires
        appearance_record_spec(a) is Some,
    ensures
        ({
            let (name, xs) = appearance_record_spec(a)->Some_0;
            let back = appearance_entries(stored_fields(name, xs), 25);
            &&& appearance_scan(stored_fields(name, xs), 1) is None
            &&& back.len() == 25
            &&& forall|i: int|
                0 <= i < 25 ==> #[trigger] back[i] == (appearance_key_spec(i), obj_get(a, appearance_key_spec(i))->Some_0)
        }),
{
    let (name, xs) = appearance_record_spec(a)->Some_0;
    law_appearance_roundtrip(name, xs);
    let back = appearance_entries(stored_fields(name, xs), 25);
    assert(appearance_key_spec(0) == "n"@);
    assert forall|i: int| 0 <= i < 25 implies #[trigger] back[i] == (appearance_key_spec(i), obj_get(a, appearance_key_spec(i))->Some_0) by {
        if i >= 1 {
            assert(obj_get(a, appearance_key_spec(i)) matches Some(SpecValue::I32(_)));
        }
    }
}

proof fn lemma_scan_clear(f: Seq<Seq<char>>, i: int)
    requires
        f.len() == 25,
        1 <= i,
        forall|j: int| 1 <= j < 25 ==> parse_i32_spec(#[trigger] f[j]) is Some,
    ensures
        appearance_scan(f, i) is None,
    decreases 25 - i,
{
    if i < 25 {
        assert(parse_i32_spec(f[i]) is Some);
        lemma_scan_clear(f, i + 1);
    }
}

proof fn lemma_entries_of(name: Seq<char>, xs: Seq<i32>, k: int)
    requires
        xs.len() == 24,
        0 <= k <= 25,
        forall|j: int| 1 <= j < 25 ==> parse_i32_spec(#[trigger] stored_fields(name, xs)[j]) == Some(xs[j - 1]),
    ensures
        appearance_entries(stored_fields(name, xs), k) == appearance_of(name, xs, k),
    decreases k,
{
    let f = stored_fields(name, xs);
    if k == 1 {
        assert(f[0] == name);
        assert(appearance_entries(f, 1) =~= appearance_of(name, xs, 1));
    } else if k > 1 {
        lemma_entries_of(name, xs, k - 1);
        assert(parse_i32_spec(f[k - 1]) == Some(xs[k - 2]));
        assert(appearance_entries(f, k) =~= appearance_of(name, xs, k));
    } else {
        assert(appearance_entries(f, k) =~= appearance_of(name, xs, k));
    }
}

/// Text after the second piece does not change the first piece.
proof fn lemma_split_first_kept(p: Seq<char>, s: Seq<char>, sep: char)
    requires
        split_chars(p, sep).len() >= 2,
    ensures
        split_chars(p + s, sep).len() >= 2,
        split_chars(p + s, sep)[0] == split_chars(p, sep)[0],
    decreases s.len(),
{
    if s.len() == 0 {
        assert(p + s =~= p);
    } else {
        lemma_split_first_kept(p, s.drop_last(), sep);
        assert((p + s).drop_last() =~= p + s.drop_last());
    }
}

/// Text without the separator is one piece.
proof fn lemma_split_whole(w: Seq<char>, sep: char)
    requires
        forall|i: int| 0 <= i < w.len() ==> w[i] != sep,
    ensures
        split_chars(w, sep) == seq![w],
    decreases w.len(),
{
    if w.len() == 0 {
        assert(w =~= Seq::<char>::empty());
    } else {
        lemma_split_whole(w.drop_last(), sep);
        assert(w.drop_last().push(w.last()) =~= w);
        assert(seq![w.drop_last()].update(0, w) =~= seq![w]);
    }
}

/// A word followed by the separator: the word, then an empty piece.
proof fn lemma_split_word(w: Seq<char>, sep: char)
    requires
        forall|i: int| 0 <= i < w.len() ==> w[i] != sep,
    ensures
        split_chars(w.push(sep), sep) == seq![w, Seq::<char>::empty()],
{
    lemma_split_whole(w, sep);
    assert(w.push(sep).drop_last() =~= w);
    assert(seq![w].push(Seq::<char>::empty()) =~= seq![w, Seq::<char>::empty()]);
}

/// Every room whose name starts with "house_" belongs to the house module,
/// whose prefix is "h".
pub proof fn law_house_rooms_route_to_house(s: Seq<char>)
    ensures
        prefix_spec("house_"@ + s) == "h"@,
{
    reveal_strlit("house_");
    reveal_strlit("house");
    let w = "house"@;
    assert("house_"@ =~= w.push('_'));
    lemma_split_word(w, '_');
    lemma_split_first_kept("house_"@, s, '_');
}

/// Every room whose name starts with "work_" belongs to the work prefix "w".
pub proof fn law_work_rooms_route_to_work(s: Seq<char>)
    ensures
        prefix_spec("work_"@ + s) == "w"@,
{
    reveal_strlit("work_");
    reveal_strlit("work");
    reveal_strlit("house");
    let w = "work"@;
    assert("work_"@ =~= w.push('_'));
    lemma_split_word(w, '_');
    lemma_split_first_kept("work_"@, s, '_');
    assert(w.len() != "house"@.len());
}

/// Every other room, whose name before its first underscore is neither
/// "house" nor "work", belongs to the outside module, whose prefix is "o".
pub proof fn law_other_rooms_route_outside(room: Seq<char>)
    requires
        split_chars(room, '_')[0] != "house"@,
        split_chars(room, '_')[0] != "work"@,
    ensures
        prefix_spec(room) == "o"@,
{
}

/// Every gold pack of the price list credits its listed amount, bonus
/// included, never less than the pack's own number; any other pack credits
/// nothing.
pub proof fn law_pack_amounts(pack: Seq<char>)
    ensures
        pack_amount_spec("pack10"@) == 10,
        pack_amount_spec("pack30"@) == 32,
        pack_amount_spec("pack50"@) == 55,
        pack_amount_spec("pack100"@) == 120,
        pack_amount_spec("pack200"@) == 260,
        pack_amount_spec("pack500"@) == 700,
        pack_amount_spec("pack1000"@) == 1450,
        pack_amount_spec("pack1500"@) == 2200,
        pack_amount_spec("pack2500"@) == 4000,
        pack_amount_spec("pack5000"@) == 7000,
        pack_amount_spec("pack9999"@) == 13999,
        pack_amount_spec(pack) >= 0,
        pack_amount_spec(pack) > 0 ==> seq![
            "pack10"@, "pack30"@, "pack50"@, "pack100"@, "pack200"@, "pack500"@, "pack1000"@,
            "pack1500"@, "pack2500"@, "pack5000"@, "pack9999"@,
        ].contains(pack),
{
    reveal_strlit("pack10");
    reveal_strlit("pack30");
    reveal_strlit("pack50");
    reveal_strlit("pack100");
    reveal_strlit("pack200");
    reveal_strlit("pack500");
    reveal_strlit("pack1000");
    reveal_strlit("pack1500");
    reveal_strlit("pack2500");
    reveal_strlit("pack5000");
    reveal_strlit("pack9999");
    assert("pack30"@[4] != "pack10"@[4]);
    assert("pack50"@[4] != "pack10"@[4]);
    assert("pack50"@[4] != "pack30"@[4]);
    assert("pack200"@[4] != "pack100"@[4]);
    assert("pack500"@[4] != "pack100"@[4]);
    assert("pack500"@[4] != "pack200"@[4]);
    assert("pack1500"@[5] != "pack1000"@[5]);
    assert("pack2500"@[4] != "pack1000"@[4]);
    assert("pack2500"@[4] != "pack1500"@[4]);
    assert("pack5000"@[4] != "pack1000"@[4]);
    assert("pack5000"@[4] != "pack1500"@[4]);
    assert("pack5000"@[4] != "pack2500"@[4]);
    assert("pack9999"@[4] != "pack1000"@[4]);
    assert("pack9999"@[4] != "pack1500"@[4]);
    assert("pack9999"@[4] != "pack2500"@[4]);
    assert("pack9999"@[4] != "pack5000"@[4]);
    assert("pack100"@.len() != "pack10"@.len());
    assert("pack100"@.len() != "pack30"@.len());
    assert("pack100"@.len() != "pack50"@.len());
    assert("pack200"@.len() != "pack10"@.len());
    assert("pack200"@.len() != "pack30"@.len());
    assert("pack200"@.len() != "pack50"@.len());
    assert("pack500"@.len() != "pack10"@.len());
    assert("pack500"@.len() != "pack30"@.len());
    assert("pack500"@.len() != "pack50"@.len());
    assert("pack1000"@.len() != "pack10"@.len());
    assert("pack1000"@.len() != "pack30"@.len());
    assert("pack1000"@.len() != "pack50"@.len());
    assert("pack1000"@.len() != "pack100"@.len());
    assert("pack1000"@.len() != "pack200"@.len());
    assert("pack1000"@.len() != "pack500"@.len());
    assert("pack1500"@.len() != "pack10"@.len());
    assert("pack1500"@.len() != "pack30"@.len());
    assert("pack1500"@.len() != "pack50"@.len());
    assert("pack1500"@.len() != "pack100"@.len());
    assert("pack1500"@.len() != "pack200"@.len());
    assert("pack1500"@.len() != "pack500"@.len());
    assert("pack2500"@.len() != "pack10"@.len());
    assert("pack2500"@.len() != "pack30"@.len());
    assert("pack2500"@.len() != "pack50"@.len());
    assert("pack2500"@.len() != "pack100"@.len());
    assert("pack2500"@.len() != "pack200"@.len());
    assert("pack2500"@.len() != "pack500"@.len());
    assert("pack5000"@.len() != "pack10"@.len());
    assert("pack5000"@.len() != "pack30"@.len());
    assert("pack5000"@.len() != "pack50"@.len());
    assert("pack5000"@.len() != "pack100"@.len());
    assert("pack5000"@.len() != "pack200"@.len());
    assert("pack5000"@.len() != "pack500"@.len());
    assert("pack9999"@.len() != "pack10"@.len());
    assert("pack9999"@.len() != "pack30"@.len());
    assert("pack9999"@.len() != "pack50"@.len());
    assert("pack9999"@.len() != "pack100"@.len());
    assert("pack9999"@.len() != "pack200"@.len());
    assert("pack9999"@.len() != "pack500"@.len());
    let list = seq![
        "pack10"@, "pack30"@, "pack50"@, "pack100"@, "pack200"@, "pack500"@, "pack1000"@,
        "pack1500"@, "pack2500"@, "pack5000"@, "pack9999"@,
    ];
    if pack_amount_spec(pack) > 0 {
        if pack == "pack10"@ {
            assert(list[0] == pack);
        } else if pack == "pack30"@ {
            assert(list[1] == pack);
        } else if pack == "pack50"@ {
            assert(list[2] == pack);
        } else if pack == "pack100"@ {
            assert(list[3] == pack);
        } else if pack == "pack200"@ {
            assert(list[4] == pack);
        } else if pack == "pack500"@ {
            assert(list[5] == pack);
        } else if pack == "pack1000"@ {
            assert(list[6] == pack);
        } else if pack == "pack1500"@ {
            assert(list[7] == pack);
        } else if pack == "pack2500"@ {
            assert(list[8] == pack);
        } else if pack == "pack5000"@ {
            assert(list[9] == pack);
        } else {
            assert(list[10] == pack);
        }
    }
}

/// A new avatar gets a fixed outfit by gender: a boy owns boyUnderdress1 and
/// wears boyShoes8, boyPants10 and boyShirt14; a girl owns girlUnderdress1
/// and girlUnderdress2 and wears girlShoes14, girlPants9 and girlShirt12;
/// there is none for any other gender.
pub proof fn law_starter_outfits(gender: i32)
    ensures
        starter_clothes_spec(1) == Some(
            (seq!["boyUnderdress1"@], seq!["boyShoes8"@, "boyPants10"@, "boyShirt14"@]),
        ),
        starter_clothes_spec(2) == Some(
            (seq!["girlUnderdress1"@, "girlUnderdress2"@], seq!["girlShoes14"@, "girlPants9"@, "girlShirt12"@]),
        ),
        gender != 1 && gender != 2 ==> starter_clothes_spec(gender) is None,
{
}

/// An item stored with a known type is listed in the group of that type:
/// the group at the position of a type carries the type as its id, and
/// every listed type has a position.
pub proof fn law_items_grouped_by_their_type(kind: Seq<char>)
    ensures
        kind_index(kind) matches Some(k) ==> 0 <= k < kinds_spec().len() && kinds_spec()[k] == kind,
        kinds_spec().contains(kind) ==> kind_index(kind) is Some,
        kind_index("frn"@) is Some && kind_index("act"@) is Some && kind_index("gm"@) is Some
            && kind_index("lt"@) is Some && kind_index("cls"@) is Some,
{
    reveal_strlit("frn");
    reveal_strlit("act");
    reveal_strlit("gm");
    reveal_strlit("lt");
    reveal_strlit("cls");
    if kinds_spec().contains(kind) {
        let k = choose|k: int| 0 <= k < kinds_spec().len() && kinds_spec()[k] == kind;
        assert(k == 0 || k == 1 || k == 2 || k == 3 || k == 4);
    }
}

/// The room search settles on room 1 of the location and group exactly
/// when that room holds at most 15 players, and on no other room.
pub proof fn law_first_room_with_space_is_picked(ps: Seq<(String, PlayerState)>, lid: Seq<char>, gid: Seq<char>)
    ensures
        (pick_room_spec(ps, lid, gid) == Some(lid + "_"@ + gid + "_"@ + "1"@)) == (members(
            ps,
            lid + "_"@ + gid + "_"@ + "1"@,
            None,
        ).len() <= 15),
        pick_room_spec(ps, lid, gid) is Some ==> pick_room_spec(ps, lid, gid) == Some(lid + "_"@ + gid + "_"@ + "1"@),
{
}

/// Binding a key leaves every other key as it was.
proof fn lemma_insert_other(m: Seq<(Seq<char>, SpecValue)>, k: Seq<char>, v: SpecValue, other: Seq<char>)
    requires
        other != k,
    ensures
        obj_get(obj_insert(m, k, v), other) == obj_get(m, other),
{
    let r = obj_insert(m, k, v);
    lemma_key_index(m, other);
    lemma_key_index(r, other);
    lemma_key_index(m, k);
    assert(r.len() >= m.len());
    assert forall|j: int| 0 <= j < r.len() implies ((#[trigger] r[j]).0 == other) == (j < m.len() && m[j].0 == other) by {
        match key_index(m, k) {
            Some(a) => {
                if j != a {
                    assert(r[j] == m[j]);
                }
            },
            None => {
                if j < m.len() {
                    assert(r[j] == m[j]);
                }
            },
        }
    }
    match key_index(m, other) {
        Some(a) => {
            assert(r[a].0 == other);
            match key_index(r, other) {
                Some(b) => {
                    assert(b == a);
                    assert(r[a] == m[a]) by {
                        if key_index(m, k) is Some {
                            assert(key_index(m, k)->Some_0 != a);
                        }
                    }
                },
                None => {},
            }
        },
        None => {
            if key_index(r, other) is Some {
                let b = key_index(r, other)->Some_0;
                assert(r[b].0 == other);
            }
        },
    }
}

/// Text fields that do not name a key leave that key as it was.
proof fn lemma_texts_keep(m: Seq<(Seq<char>, SpecValue)>, fields: Seq<(Seq<char>, Seq<char>)>, k: Seq<char>)
    requires
        forall|j: int| 0 <= j < fields.len() ==> #[trigger] fields[j].0 != k,
    ensures
        obj_get(insert_texts(m, fields), k) == obj_get(m, k),
    decreases fields.len(),
{
    if fields.len() > 0 {
        assert(forall|j: int| 0 <= j < fields.len() - 1 ==> fields.drop_last()[j] == fields[j]);
        lemma_texts_keep(m, fields.drop_last(), k);
        assert(fields[fields.len() - 1].0 != k);
        lemma_insert_other(insert_texts(m, fields.drop_last()), fields.last().0, SpecValue::Str(fields.last().1), k);
    }
}

/// A furniture read gives one entry per stored item, in order, each the
/// reading of that item.
proof fn lemma_room_items(items: Seq<(Seq<char>, Seq<(Seq<char>, Seq<char>)>)>)
    ensures
        room_items_spec(items) matches StoreRead::Found(f) ==> f.len() == items.len() && forall|i: int|
            0 <= i < items.len() ==> #[trigger] room_item_spec(items[i].0, items[i].1) is Found && f[i]
                == SpecValue::Object(room_item_spec(items[i].0, items[i].1)->Found_0),
    decreases items.len(),
{
    if items.len() > 0 {
        let rest = items.drop_last();
        lemma_room_items(rest);
        assert(forall|i: int| 0 <= i < rest.len() ==> rest[i] == items[i]);
    }
}

/// Binding a key makes it give the new value.
proof fn lemma_insert_same(m: Seq<(Seq<char>, SpecValue)>, k: Seq<char>, v: SpecValue)
    ensures
        obj_get(obj_insert(m, k, v), k) == Some(v),
{
    let r = obj_insert(m, k, v);
    lemma_key_index(m, k);
    lemma_key_index(r, k);
    match key_index(m, k) {
        Some(a) => {
            assert(r[a].0 == k);
            assert(forall|j: int| 0 <= j < a ==> r[j] == m[j]);
        },
        None => {
            assert(r[m.len() as int].0 == k);
            assert(forall|j: int| 0 <= j < m.len() ==> r[j] == m[j]);
        },
    }
}

/// Under distinct keys, each entry is what its key gives.
proof fn lemma_get_distinct(m: Seq<(Seq<char>, SpecValue)>, i: int)
    requires
        distinct_keys(m),
        0 <= i < m.len(),
    ensures
        obj_get(m, m[i].0) == Some(m[i].1),
{
    lemma_key_index(m, m[i].0);
}

/// Text fields with distinct names each give their text.
proof fn lemma_texts_found(m: Seq<(Seq<char>, SpecValue)>, fields: Seq<(Seq<char>, Seq<char>)>, j: int)
    requires
        forall|a: int, b: int| 0 <= a < b < fields.len() ==> fields[a].0 != fields[b].0,
        0 <= j < fields.len(),
    ensures
        obj_get(insert_texts(m, fields), fields[j].0) == Some(SpecValue::Str(fields[j].1)),
    decreases fields.len(),
{
    let rest = fields.drop_last();
    let last = fields.last();
    if j == fields.len() - 1 {
        lemma_insert_same(insert_texts(m, rest), last.0, SpecValue::Str(last.1));
    } else {
        assert(forall|a: int| 0 <= a < rest.len() ==> rest[a] == fields[a]);
        lemma_texts_found(m, rest, j);
        assert(fields[j].0 != last.0);
        lemma_insert_other(insert_texts(m, rest), last.0, SpecValue::Str(last.1), fields[j].0);
    }
}

/// A furniture read succeeds where every stored address reads.
proof fn lemma_room_items_found(items: Seq<(Seq<char>, Seq<(Seq<char>, Seq<char>)>)>)
    requires
        forall|i: int| 0 <= i < items.len() ==> #[trigger] room_item_spec(items[i].0, items[i].1) is Found,
    ensures
        room_items_spec(items) is Found,
    decreases items.len(),
{
    if items.len() > 0 {
        let rest = items.drop_last();
        assert(forall|i: int| 0 <= i < rest.len() ==> rest[i] == items[i]);
        assert forall|i: int| 0 <= i < rest.len() implies #[trigger] room_item_spec(rest[i].0, rest[i].1) is Found by {
            assert(rest[i] == items[i]);
        }
        lemma_room_items_found(rest);
        assert(room_item_spec(items[items.len() - 1].0, items[items.len() - 1].1) is Found);
    }
}

/// A house room reads whenever its record holds a name and a numeric level
/// and each stored furniture address is "<type>_<number>".
pub proof fn law_room_reads_when_stored_well(
    room: Seq<char>,
    data: Seq<Seq<char>>,
    items: Seq<(Seq<char>, Seq<(Seq<char>, Seq<char>)>)>,
)
    requires
        data.len() >= 2,
        parse_i32_spec(data[1]) is Some,
        forall|i: int| 0 <= i < items.len() ==> split_chars(#[trigger] items[i].0, '_').len() >= 2
            && parse_i32_spec(split_chars(items[i].0, '_')[1]) is Some,
    ensures
        room_spec(room, data, items) is Found,
{
    assert forall|i: int| 0 <= i < items.len() implies #[trigger] room_item_spec(items[i].0, items[i].1) is Found by {
        assert(split_chars(items[i].0, '_').len() >= 2);
    }
    lemma_room_items_found(items);
}

/// A house room that reads is 13 by 13, carries its id, its stored name and
/// level, and lists under "f" every furniture item stored for it, in order:
/// one entry per stored address "<type>_<id>", carrying that type under
/// "tpid", that id under "lid" (where the item's own fields do not rebind
/// those keys), and each of the item's fields as text.
pub proof fn law_room_lists_every_item(
    room: Seq<char>,
    data: Seq<Seq<char>>,
    items: Seq<(Seq<char>, Seq<(Seq<char>, Seq<char>)>)>,
)
    requires
        room_spec(room, data, items) is Found,
    ensures
        ({
            let o = room_spec(room, data, items)->Found_0;
            &&& obj_get(o, "w"@) == Some(SpecValue::I32(13))
            &&& obj_get(o, "l"@) == Some(SpecValue::I32(13))
            &&& obj_get(o, "id"@) == Some(SpecValue::Str(room))
            &&& obj_get(o, "nm"@) == Some(SpecValue::Str(data[0]))
            &&& obj_get(o, "lev"@) == Some(SpecValue::I32(parse_i32_spec(data[1])->Some_0))
            &&& obj_get(o, "f"@) matches Some(SpecValue::Vector(f))
            &&& obj_get(o, "f"@)->Some_0->Vector_0.len() == items.len()
            &&& forall|i: int| 0 <= i < items.len() ==> {
                let f = obj_get(o, "f"@)->Some_0->Vector_0;
                let parts = split_chars(#[trigger] items[i].0, '_');
                let fields = items[i].1;
                &&& parts.len() >= 2
                &&& parse_i32_spec(parts[1]) is Some
                &&& f[i] is Object
                &&& (forall|j: int| 0 <= j < fields.len() ==> fields[j].0 != "tpid"@ && fields[j].0 != "lid"@)
                    ==> obj_get(f[i]->Object_0, "tpid"@) == Some(SpecValue::Str(parts[0]))
                        && obj_get(f[i]->Object_0, "lid"@) == Some(SpecValue::I32(parse_i32_spec(parts[1])->Some_0))
                &&& (forall|a: int, b: int| 0 <= a < b < fields.len() ==> fields[a].0 != fields[b].0)
                    ==> forall|j: int| 0 <= j < fields.len() ==> obj_get(f[i]->Object_0, #[trigger] fields[j].0)
                        == Some(SpecValue::Str(fields[j].1))
            }
        }),
{
    reveal_strlit("w");
    reveal_strlit("id");
    reveal_strlit("lev");
    reveal_strlit("l");
    reveal_strlit("nm");
    reveal_strlit("f");
    reveal_strlit("tpid");
    reveal_strlit("lid");
    lemma_room_items(items);
    let o = room_spec(room, data, items)->Found_0;
    let f = room_items_spec(items)->Found_0;
    assert("w"@ != "id"@) by { assert("w"@.len() != "id"@.len()); }
    assert("w"@ != "lev"@) by { assert("w"@.len() != "lev"@.len()); }
    assert("w"@ != "l"@) by { assert("w"@[0] != "l"@[0]); }
    assert("w"@ != "nm"@) by { assert("w"@.len() != "nm"@.len()); }
    assert("w"@ != "f"@) by { assert("w"@[0] != "f"@[0]); }
    assert("id"@ != "lev"@) by { assert("id"@.len() != "lev"@.len()); }
    assert("id"@ != "l"@) by { assert("id"@.len() != "l"@.len()); }
    assert("id"@ != "nm"@) by { assert("id"@[0] != "nm"@[0]); }
    assert("id"@ != "f"@) by { assert("id"@.len() != "f"@.len()); }
    assert("lev"@ != "l"@) by { assert("lev"@.len() != "l"@.len()); }
    assert("lev"@ != "nm"@) by { assert("lev"@.len() != "nm"@.len()); }
    assert("lev"@ != "f"@) by { assert("lev"@.len() != "f"@.len()); }
    assert("l"@ != "nm"@) by { assert("l"@.len() != "nm"@.len()); }
    assert("l"@ != "f"@) by { assert("l"@[0] != "f"@[0]); }
    assert("nm"@ != "f"@) by { assert("nm"@.len() != "f"@.len()); }
    assert(distinct_keys(o));
    lemma_get_distinct(o, 0);
    lemma_get_distinct(o, 1);
    lemma_get_distinct(o, 2);
    lemma_get_distinct(o, 3);
    lemma_get_distinct(o, 4);
    lemma_get_distinct(o, 5);
    assert("tpid"@.len() != "lid"@.len());
    assert forall|i: int| 0 <= i < items.len() implies {
        let parts = split_chars(#[trigger] items[i].0, '_');
        let fields = items[i].1;
        &&& parts.len() >= 2
        &&& parse_i32_spec(parts[1]) is Some
        &&& f[i] is Object
        &&& (forall|j: int| 0 <= j < fields.len() ==> fields[j].0 != "tpid"@ && fields[j].0 != "lid"@)
            ==> obj_get(f[i]->Object_0, "tpid"@) == Some(SpecValue::Str(parts[0]))
                && obj_get(f[i]->Object_0, "lid"@) == Some(SpecValue::I32(parse_i32_spec(parts[1])->Some_0))
        &&& (forall|a: int, b: int| 0 <= a < b < fields.len() ==> fields[a].0 != fields[b].0)
            ==> forall|j: int| 0 <= j < fields.len() ==> obj_get(f[i]->Object_0, #[trigger] fields[j].0)
                == Some(SpecValue::Str(fields[j].1))
    } by {
        let parts = split_chars(items[i].0, '_');
        let fields = items[i].1;
        assert(room_item_spec(items[i].0, items[i].1) is Found);
        assert(parts.len() >= 2 && parse_i32_spec(parts[1]) is Some);
        let lid = parse_i32_spec(parts[1])->Some_0;
        let base = seq![("tpid"@, SpecValue::Str(parts[0])), ("lid"@, SpecValue::I32(lid))];
        assert(f[i] == SpecValue::Object(insert_texts(base, fields)));
        if forall|j: int| 0 <= j < fields.len() ==> fields[j].0 != "tpid"@ && fields[j].0 != "lid"@ {
            lemma_texts_keep(base, fields, "tpid"@);
            lemma_texts_keep(base, fields, "lid"@);
            assert(distinct_keys(base));
            lemma_get_distinct(base, 0);
            lemma_get_distinct(base, 1);
        }
        if forall|a: int, b: int| 0 <= a < b < fields.len() ==> fields[a].0 != fields[b].0 {
            assert forall|j: int| 0 <= j < fields.len() implies obj_get(f[i]->Object_0, #[trigger] fields[j].0)
                == Some(SpecValue::Str(fields[j].1)) by {
                lemma_texts_found(base, fields, j);
            }
        }
    }
}

/// Offering gold for silver is refused exactly when the player has less gold
/// than it offers; an offer it can pay whose hundredfold fits takes that
/// gold and gives a hundred silver for each.
pub proof fn law_exchange_when_affordable(amount: i32, gold: i32)
    ensures
        (silver_exchange_spec(amount, gold) is Refused) == (amount > gold),
        amount <= gold && i32::MIN < amount * 100 <= i32::MAX ==> silver_exchange_spec(amount, gold)
            == (SilverExchange::Exchange { gold_change: (-amount) as i32, silver: (amount * 100) as i32 }),
{
}

/// Placing a wall gives two halves: the first turned to 3, the second at
/// x = 13.0, turned to 5, with the next id. Placing a floor gives one item
/// turned to 5. Any other category places nothing. Every placed item keeps
/// the fields of the change it comes from, but for position and direction
/// (and the id of the second half).
pub proof fn law_placements(item: Seq<(Seq<char>, SpecValue)>, category: Seq<char>, oid: i32, k: Seq<char>)
    ensures
        category == "1"@ && oid < i32::MAX ==> ({
            let (ps, overflow) = placements_spec(item, category, oid);
            &&& !overflow
            &&& ps.len() == 2
            &&& obj_get(ps[0], "d"@) == Some(SpecValue::I32(3))
            &&& obj_get(ps[0], "x"@) == Some(SpecValue::F64(0))
            &&& obj_get(ps[1], "d"@) == Some(SpecValue::I32(5))
            &&& obj_get(ps[1], "x"@) == Some(SpecValue::F64(0x402A_0000_0000_0000u64))
            &&& obj_get(ps[1], "oid"@) == Some(SpecValue::I32((oid + 1) as i32))
        }),
        category == "4"@ ==> ({
            let (ps, overflow) = placements_spec(item, category, oid);
            &&& !overflow
            &&& ps.len() == 1
            &&& obj_get(ps[0], "d"@) == Some(SpecValue::I32(5))
            &&& obj_get(ps[0], "x"@) == Some(SpecValue::F64(0))
        }),
        category != "1"@ && category != "4"@ ==> placements_spec(item, category, oid).0.len() == 0,
        (category == "1"@ || category == "4"@) && k != "x"@ && k != "y"@ && k != "z"@ && k != "d"@ && k != "oid"@
            ==> forall|i: int| 0 <= i < placements_spec(item, category, oid).0.len() ==> obj_get(
                #[trigger] placements_spec(item, category, oid).0[i],
                k,
            ) == obj_get(item, k),
{
    reveal_strlit("x");
    reveal_strlit("y");
    reveal_strlit("z");
    reveal_strlit("d");
    reveal_strlit("oid");
    reveal_strlit("1");
    reveal_strlit("4");
    assert("1"@ != "4"@) by { assert("1"@[0] != "4"@[0]); }
    assert("x"@ != "y"@) by { assert("x"@[0] != "y"@[0]); }
    assert("x"@ != "z"@) by { assert("x"@[0] != "z"@[0]); }
    assert("x"@ != "d"@) by { assert("x"@[0] != "d"@[0]); }
    assert("y"@ != "d"@) by { assert("y"@[0] != "d"@[0]); }
    assert("z"@ != "d"@) by { assert("z"@[0] != "d"@[0]); }
    assert("oid"@ != "d"@) by { assert("oid"@.len() != "d"@.len()); }
    assert("oid"@ != "x"@) by { assert("oid"@.len() != "x"@.len()); }
    let d3 = placed(item, 3);
    let d5 = placed(item, 5);
    let a0 = obj_insert(item, "x"@, SpecValue::F64(0));
    let a1 = obj_insert(a0, "y"@, SpecValue::F64(0));
    let a2 = obj_insert(a1, "z"@, SpecValue::F64(0));
    lemma_insert_same(item, "x"@, SpecValue::F64(0));
    lemma_insert_other(a0, "y"@, SpecValue::F64(0), "x"@);
    lemma_insert_other(a1, "z"@, SpecValue::F64(0), "x"@);
    lemma_insert_same(a2, "d"@, SpecValue::I32(3));
    lemma_insert_same(a2, "d"@, SpecValue::I32(5));
    lemma_insert_other(a2, "d"@, SpecValue::I32(3), "x"@);
    lemma_insert_other(a2, "d"@, SpecValue::I32(5), "x"@);
    if k != "x"@ && k != "y"@ && k != "z"@ && k != "d"@ && k != "oid"@ {
        lemma_insert_other(item, "x"@, SpecValue::F64(0), k);
        lemma_insert_other(a0, "y"@, SpecValue::F64(0), k);
        lemma_insert_other(a1, "z"@, SpecValue::F64(0), k);
        lemma_insert_other(a2, "d"@, SpecValue::I32(3), k);
        lemma_insert_other(a2, "d"@, SpecValue::I32(5), k);
    }
    if category == "1"@ && oid < i32::MAX {
        let b0 = obj_insert(d3, "x"@, SpecValue::F64(THIRTEEN_BITS));
        let b1 = obj_insert(b0, "d"@, SpecValue::I32(5));
        let v = SpecValue::I32((oid + 1) as i32);
        lemma_insert_same(d3, "x"@, SpecValue::F64(THIRTEEN_BITS));
        lemma_insert_other(b0, "d"@, SpecValue::I32(5), "x"@);
        lemma_insert_other(b1, "oid"@, v, "x"@);
        lemma_insert_same(b0, "d"@, SpecValue::I32(5));
        lemma_insert_other(b1, "oid"@, v, "d"@);
        lemma_insert_same(b1, "oid"@, v);
        if k != "x"@ && k != "y"@ && k != "z"@ && k != "d"@ && k != "oid"@ {
            lemma_insert_other(d3, "x"@, SpecValue::F64(THIRTEEN_BITS), k);
            lemma_insert_other(b0, "d"@, SpecValue::I32(5), k);
            lemma_insert_other(b1, "oid"@, v, k);
        }
    }
}

/// Whether the stored item `item` (name and record: type, count) is listed:
/// every item but the clothes that are worn.
pub open spec fn listed_item(item: (Seq<char>, Seq<Seq<char>>), worn: Seq<Seq<char>>) -> bool {
    !(item.1[0] == "cls"@ && worn.contains(item.0))
}

/// The entry that the stored item `item` is listed as.
pub open spec fn entry_of(item: (Seq<char>, Seq<Seq<char>>)) -> SpecValue {
    inv_entry_model(item.0, parse_i32_spec(item.1[1])->Some_0)
}

/// An inventory that reads lists every stored item, but the worn clothes,
/// in the group of its type, and nothing else: each entry of the group at
/// the position of a type is the entry of a stored item of that type.
pub proof fn law_inventory_groups_by_type(items: Seq<(Seq<char>, Seq<Seq<char>>)>, worn: Seq<Seq<char>>)
    requires
        inventory_spec(items, worn) is Found,
    ensures
        ({
            let lists = inventory_spec(items, worn)->Found_0;
            &&& lists.len() == 5
            &&& forall|i: int| 0 <= i < items.len() ==> {
                let item = #[trigger] items[i];
                &&& item.1.len() >= 2
                &&& parse_i32_spec(item.1[1]) is Some
                &&& kind_index(item.1[0]) is Some
                &&& listed_item(item, worn) ==> lists[kind_index(item.1[0])->Some_0].contains(entry_of(item))
            }
            &&& forall|k: int, j: int| 0 <= k < 5 && 0 <= j < lists[k].len() ==> exists|i: int|
                0 <= i < items.len() && kind_index(items[i].1[0]) == Some(k) && #[trigger] lists[k][j]
                    == entry_of(items[i])
        }),
    decreases items.len(),
{
    reveal_strlit("frn");
    reveal_strlit("act");
    reveal_strlit("gm");
    reveal_strlit("lt");
    reveal_strlit("cls");
    if items.len() == 0 {
        return;
    }
    let rest = items.drop_last();
    let last = items.last();
    let n = items.len() - 1;
    assert(forall|i: int| 0 <= i < rest.len() ==> rest[i] == items[i]);
    law_inventory_groups_by_type(rest, worn);
    let before = inventory_spec(rest, worn)->Found_0;
    let lists = inventory_spec(items, worn)->Found_0;
    let k = kind_index(last.1[0])->Some_0;
    assert(0 <= k < 5);
    assert((k == 4) == (last.1[0] == "cls"@)) by {
        assert("cls"@[0] != "frn"@[0] && "cls"@[0] != "act"@[0] && "cls"@.len() != "gm"@.len()
            && "cls"@.len() != "lt"@.len());
    }
    let skipped = k == 4 && worn.contains(last.0);
    if skipped {
        assert(lists == before);
    } else {
        assert(lists == before.update(k, before[k].push(entry_of(last))));
    }
    assert forall|i: int| 0 <= i < items.len() implies {
        let item = #[trigger] items[i];
        &&& item.1.len() >= 2
        &&& parse_i32_spec(item.1[1]) is Some
        &&& kind_index(item.1[0]) is Some
        &&& listed_item(item, worn) ==> lists[kind_index(item.1[0])->Some_0].contains(entry_of(item))
    } by {
        if i < n {
            assert(rest[i] == items[i]);
            let item = items[i];
            let m = kind_index(item.1[0])->Some_0;
            if listed_item(item, worn) {
                let e = entry_of(item);
                assert(before[m].contains(e));
                let x = choose|x: int| 0 <= x < before[m].len() && before[m][x] == e;
                if !skipped && m == k {
                    assert(lists[m][x] == e);
                } else {
                    assert(lists[m] == before[m]);
                }
            }
        } else {
            if listed_item(last, worn) {
                assert(!skipped);
                assert(lists[k][before[k].len() as int] == entry_of(last));
            }
        }
    }
    assert forall|kk: int, j: int| 0 <= kk < 5 && 0 <= j < lists[kk].len() implies exists|i: int|
        0 <= i < items.len() && kind_index(items[i].1[0]) == Some(kk) && #[trigger] lists[kk][j]
            == entry_of(items[i]) by {
        if !skipped && kk == k && j == before[k].len() {
            assert(lists[kk][j] == entry_of(items[n]));
        } else {
            assert(j < before[kk].len());
            assert(lists[kk][j] == before[kk][j]);
            let i = choose|i: int| 0 <= i < rest.len() && kind_index(rest[i].1[0]) == Some(kk) && #[trigger] before[kk][j]
                == entry_of(rest[i]);
            assert(rest[i] == items[i]);
        }
    }
}

/// A house room record without a name and level cannot be read; one whose
/// level is not a number fails with the number error.
pub proof fn law_room_record_failures(
    room: Seq<char>,
    data: Seq<Seq<char>>,
    items: Seq<(Seq<char>, Seq<(Seq<char>, Seq<char>)>)>,
)
    ensures
        data.len() < 2 ==> room_spec(room, data, items) is Malformed,
        data.len() >= 2 && parse_i32_spec(data[1]) is None ==> room_spec(room, data, items) is NotANumber,
{
}

} // verus!
