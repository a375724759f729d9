//! The game's item catalogues: clothes, furniture and the like, each item
//! with its category and prices, read out of the game's XML files.
use crate::modules::pairs_view;
use crate::text::{parse_i32, parse_i32_spec};
use vstd::prelude::*;

verus! {

/// An item of a catalogue.
pub struct Item {
    pub name: String,
    pub category: String,
    pub gold: i32,
    pub silver: i32,
    pub rating: i32,
}

/// A catalogue: items by name; `insert` keeps the names distinct.
pub struct Catalog {
    pub items: Vec<Item>,
}

/// The position of the item named `name`, if any.
pub open spec fn item_index(items: Seq<Item>, name: Seq<char>) -> Option<int>
    decreases items.len(),
{
    if items.len() == 0 {
        None
    } else {
        match item_index(items.drop_last(), name) {
            Some(i) => Some(i),
            None => if items.last().name@ == name {
                Some(items.len() - 1)
            } else {
                None
            },
        }
    }
}

pub proof fn lemma_item_index(items: Seq<Item>, name: Seq<char>)
    ensures
        match item_index(items, name) {
            Some(i) => 0 <= i < items.len() && items[i].name@ == name && forall|j: int|
                0 <= j < i ==> items[j].name@ != name,
            None => forall|j: int| 0 <= j < items.len() ==> items[j].name@ != name,
        },
    decreases items.len(),
{
    if items.len() > 0 {
        lemma_item_index(items.drop_last(), name);
        assert(forall|j: int| 0 <= j < items.len() - 1 ==> items.drop_last()[j] == items[j]);
    }
}

/// No two items of `items` share a name.
pub open spec fn distinct_item_names(items: Seq<Item>) -> bool {
    forall|a: int, b: int| 0 <= a < b < items.len() ==> items[a].name@ != items[b].name@
}

/// The catalogue `items` with `item` entered: it replaces the item of the
/// same name, or comes last.
pub open spec fn catalog_insert(items: Seq<Item>, item: Item) -> Seq<Item> {
    match item_index(items, item.name@) {
        Some(i) => items.update(i, item),
        None => items.push(item),
    }
}

impl Catalog {
    /// An empty catalogue.
    pub fn new() -> (r: Catalog)
        ensures
            r.items@ == Seq::<Item>::empty(),
            distinct_item_names(r.items@),
    {
        Catalog { items: Vec::new() }
    }

    fn position(&self, name: &str) -> (r: Option<usize>)
        ensures
            match r {
                Some(i) => item_index(self.items@, name@) == Some(i as int) && i < self.items@.len(),
                None => item_index(self.items@, name@) is None,
            },
    {
        proof {
            lemma_item_index(self.items@, name@);
        }
        let key = name.to_owned();
        let n = self.items.len();
        let mut i: usize = 0;
        while i < n
            invariant
                n == self.items@.len(),
                0 <= i <= n,
                key@ == name@,
                forall|j: int| 0 <= j < i ==> self.items@[j].name@ != name@,
                match item_index(self.items@, name@) {
                    Some(x) => 0 <= x < n && self.items@[x].name@ == name@ && forall|j: int|
                        0 <= j < x ==> self.items@[j].name@ != name@,
                    None => forall|j: int| 0 <= j < n ==> self.items@[j].name@ != name@,
                },
            decreases n - i,
        {
            if self.items[i].name == key {
                return Some(i);
            }
            i = i + 1;
        }
        None
    }

    /// The item named `name`.
    pub fn get(&self, name: &str) -> (r: Option<&Item>)
        ensures
            match item_index(self.items@, name@) {
                Some(i) => r == Some(&self.items@[i]),
                None => r is None,
            },
    {
        match self.position(name) {
            Some(i) => Some(&self.items[i]),
            None => None,
        }
    }

    /// Whether an item is named `name`.
    pub fn contains_key(&self, name: &str) -> (r: bool)
        ensures
            r == item_index(self.items@, name@) is Some,
    {
        self.position(name).is_some()
    }

    /// Enters `item`, replacing the item of the same name.
    pub fn insert(&mut self, item: Item)
        ensures
            final(self).items@ == catalog_insert(old(self).items@, item),
                distinct_item_names(old(self).items@) ==> distinct_item_names(final(self).items@),
    {
        proof {
            lemma_item_index(self.items@, item.name@);
        }
        match self.position(item.name.as_str()) {
            Some(i) => {
                self.items.set(i, item);
            },
            None => {
                self.items.push(item);
            },
        }
    }
}

/// The model of an item.
pub struct ItemModel {
    pub name: Seq<char>,
    pub category: Seq<char>,
    pub gold: i32,
    pub silver: i32,
    pub rating: i32,
}

impl View for Item {
    type V = ItemModel;

    open spec fn view(&self) -> ItemModel {
        ItemModel {
            name: self.name@,
            category: self.category@,
            gold: self.gold,
            silver: self.silver,
            rating: self.rating,
        }
    }
}

/// The models of a list of items.
pub open spec fn items_view(items: Seq<Item>) -> Seq<ItemModel> {
    Seq::new(items.len(), |i: int| items[i]@)
}

/// The position of the item model named `name`, if any.
pub open spec fn model_index(ms: Seq<ItemModel>, name: Seq<char>) -> Option<int>
    decreases ms.len(),
{
    if ms.len() == 0 {
        None
    } else {
        match model_index(ms.drop_last(), name) {
            Some(i) => Some(i),
            None => if ms.last().name == name {
                Some(ms.len() - 1)
            } else {
                None
            },
        }
    }
}

/// The item models `ms` with `m` entered: it replaces the model of the same
/// name, or comes last.
pub open spec fn model_insert(ms: Seq<ItemModel>, m: ItemModel) -> Seq<ItemModel> {
    match model_index(ms, m.name) {
        Some(i) => ms.update(i, m),
        None => ms.push(m),
    }
}

proof fn lemma_model_index(items: Seq<Item>, name: Seq<char>)
    ensures
        model_index(items_view(items), name) == item_index(items, name),
    decreases items.len(),
{
    if items.len() > 0 {
        lemma_model_index(items.drop_last(), name);
        assert(items_view(items).drop_last() =~= items_view(items.drop_last()));
    }
}

proof fn lemma_insert_view(items: Seq<Item>, item: Item)
    ensures
        items_view(catalog_insert(items, item)) == model_insert(items_view(items), item@),
{
    lemma_model_index(items, item.name@);
    lemma_item_index(items, item.name@);
    match item_index(items, item.name@) {
        Some(i) => {
            assert(items_view(items.update(i, item)) =~= items_view(items).update(i, item@));
        },
        None => {
            assert(items_view(items.push(item)) =~= items_view(items).push(item@));
        },
    }
}

/// A node of an XML document: how deep it lies (the document itself at 1,
/// its root element at 2), whether it is an element, its tag name (empty
/// for other nodes) and its attributes, by local name, in order.
pub struct XmlNode {
    pub depth: usize,
    pub element: bool,
    pub name: String,
    pub attributes: Vec<(String, String)>,
}

/// The model of an XML node.
pub struct XmlNodeModel {
    pub depth: nat,
    pub element: bool,
    pub name: Seq<char>,
    pub attributes: Seq<(Seq<char>, Seq<char>)>,
}

impl View for XmlNode {
    type V = XmlNodeModel;

    open spec fn view(&self) -> XmlNodeModel {
        XmlNodeModel {
            depth: self.depth as nat,
            element: self.element,
            name: self.name@,
            attributes: pairs_view(self.attributes@),
        }
    }
}

/// The models of a list of XML nodes.
pub open spec fn nodes_view(v: Seq<XmlNode>) -> Seq<XmlNodeModel> {
    Seq::new(v.len(), |i: int| v[i]@)
}

/// The nodes of the XML document `text`, in document order, where
/// `roxmltree` accepts it.
pub uninterp spec fn xml_document(text: Seq<char>) -> Option<Seq<XmlNodeModel>>;

/// Calls `roxmltree::Document::parse` on `text` and lists every node of the
/// document it gives, from the document node on, as `descendants` walks
/// them, each with the number of nodes from it up to the document node
/// (`ancestors`, itself included), whether it is an element, its tag's
/// local name and its attributes' local names and values. The contract
/// names that list and says nothing of its shape.
#[verifier::external_body]
fn xml_nodes(text: &str) -> (r: Option<Vec<XmlNode>>)
    ensures
        match r {
            Some(v) => xml_document(text@) == Some(nodes_view(v@)),
            None => xml_document(text@) is None,
        },
{
    let doc = roxmltree::Document::parse(text).ok()?;
    let mut out = Vec::new();
    for n in doc.root().descendants() {
        let attributes = n.attributes().map(|a| (a.name().to_owned(), a.value().to_owned())).collect();
        let name = n.tag_name().name().to_owned();
        out.push(XmlNode { depth: n.ancestors().count(), element: n.is_element(), name, attributes });
    }
    Some(out)
}

/// The value of the first attribute named `name`.
pub open spec fn attr(attrs: Seq<(Seq<char>, Seq<char>)>, name: Seq<char>) -> Option<Seq<char>>
    decreases attrs.len(),
{
    if attrs.len() == 0 {
        None
    } else if attrs[0].0 == name {
        Some(attrs[0].1)
    } else {
        attr(attrs.drop_first(), name)
    }
}

/// The position of the last node before position `k` that lies at depth `d`.
pub open spec fn last_at(nodes: Seq<XmlNodeModel>, k: int, d: nat) -> Option<int>
    decreases k,
{
    if k <= 0 {
        None
    } else if nodes[k - 1].depth == d {
        Some(k - 1)
    } else {
        last_at(nodes, k - 1, d)
    }
}

/// Whether node `k` lies where a listing shows it: one level below the
/// node before it at most, and the first node at depth 1.
pub open spec fn placed_well(nodes: Seq<XmlNodeModel>, k: int) -> bool {
    &&& 1 <= nodes[k].depth
    &&& nodes[k].depth <= (if k == 0 {
        1
    } else {
        nodes[k - 1].depth + 1
    })
}

/// Whether the node at position `k` is an element called `tag`.
pub open spec fn is_tag(nodes: Seq<XmlNodeModel>, k: int, tag: Seq<char>) -> bool {
    nodes[k].element && nodes[k].name == tag
}

/// Whether the node at position `a`, if any, is a "category" element.
pub open spec fn category_at(nodes: Seq<XmlNodeModel>, a: Option<int>) -> bool {
    match a {
        Some(j) => is_tag(nodes, j, "category"@),
        None => false,
    }
}

/// Whether every ancestor of node `k` from depth 4 on is a "category"
/// element: the nesting through which a catalogue file lists its items
/// (the children of the root element hold them at depth 3).
pub open spec fn in_categories(nodes: Seq<XmlNodeModel>, k: int) -> bool {
    forall|l: nat|
        4 <= l < nodes[k].depth ==> category_at(nodes, #[trigger] last_at(nodes, k, l))
}

/// Whether node `k` is an item the catalogue lists: an "item" element in
/// a category.
pub open spec fn is_listed_item(nodes: Seq<XmlNodeModel>, k: int) -> bool {
    is_tag(nodes, k, "item"@) && nodes[k].depth >= 4 && in_categories(nodes, k)
}

/// The category an item of category `id` falls in: the floor categories
/// ("intFloor", "flrSPCategory") are category "4".
pub open spec fn category_of(id: Seq<char>) -> Seq<char> {
    if id == "intFloor"@ || id == "flrSPCategory"@ {
        "4"@
    } else {
        id
    }
}

/// A number attribute: 0 where there is none, `None` where it is not a number.
pub open spec fn number_attr(attrs: Seq<(Seq<char>, Seq<char>)>, name: Seq<char>) -> Option<i32> {
    match attr(attrs, name) {
        None => Some(0),
        Some(t) => parse_i32_spec(t),
    }
}

/// The item that node `k` lists: its "id", the "id" of its category (the
/// node it lies in), and its "gold", "silver" and "rating"; `None` where an
/// id is missing or a number is not one, which the server does not survive.
pub open spec fn item_entry(nodes: Seq<XmlNodeModel>, k: int) -> Option<ItemModel> {
    let node = nodes[k];
    let parent = nodes[last_at(nodes, k, (node.depth - 1) as nat).unwrap()];
    match (
        attr(node.attributes, "id"@),
        attr(parent.attributes, "id"@),
        number_attr(node.attributes, "gold"@),
        number_attr(node.attributes, "silver"@),
        number_attr(node.attributes, "rating"@),
    ) {
        (Some(name), Some(cat), Some(gold), Some(silver), Some(rating)) => Some(
            ItemModel { name, category: category_of(cat), gold, silver, rating },
        ),
        _ => None,
    }
}

/// The catalogue `start` with the items of the first `n` nodes entered in
/// order; `None` where a node lies out of place or an item cannot be read.
pub open spec fn catalog_scan(nodes: Seq<XmlNodeModel>, n: int, start: Seq<ItemModel>) -> Option<Seq<ItemModel>>
    decreases n,
{
    if n <= 0 {
        Some(start)
    } else {
        match catalog_scan(nodes, n - 1, start) {
            None => None,
            Some(c) => if !placed_well(nodes, n - 1) {
                None
            } else if is_listed_item(nodes, n - 1) {
                match item_entry(nodes, n - 1) {
                    None => None,
                    Some(it) => Some(model_insert(c, it)),
                }
            } else {
                Some(c)
            },
        }
    }
}

/// Whether the levels `4..=l` of the nodes before `i` all end in a "category" element.
pub open spec fn chain_ok(nodes: Seq<XmlNodeModel>, i: int, l: nat) -> bool {
    forall|m: nat| 4 <= m <= l ==> category_at(nodes, #[trigger] last_at(nodes, i, m))
}

proof fn lemma_last_at_step(nodes: Seq<XmlNodeModel>, i: int, l: nat)
    requires
        0 <= i < nodes.len(),
    ensures
        last_at(nodes, i + 1, l) == (if nodes[i].depth == l {
            Some(i)
        } else {
            last_at(nodes, i, l)
        }),
{
}

proof fn lemma_chain_step(nodes: Seq<XmlNodeModel>, i: int, l: nat)
    requires
        0 <= i < nodes.len(),
        l < nodes[i].depth,
    ensures
        chain_ok(nodes, i + 1, l) == chain_ok(nodes, i, l),
{
    assert forall|m: nat| 4 <= m <= l implies last_at(nodes, i + 1, m) == last_at(nodes, i, m) by {
        lemma_last_at_step(nodes, i, m);
    }
    if chain_ok(nodes, i, l) {
        assert forall|m: nat| 4 <= m <= l implies category_at(nodes, #[trigger] last_at(nodes, i + 1, m)) by {
            assert(last_at(nodes, i + 1, m) == last_at(nodes, i, m));
        }
    }
    if chain_ok(nodes, i + 1, l) {
        assert forall|m: nat| 4 <= m <= l implies category_at(nodes, #[trigger] last_at(nodes, i, m)) by {
            assert(last_at(nodes, i + 1, m) == last_at(nodes, i, m));
        }
    }
}

proof fn lemma_chain_here(nodes: Seq<XmlNodeModel>, i: int)
    requires
        0 <= i < nodes.len(),
        nodes[i].depth >= 4,
    ensures
        chain_ok(nodes, i + 1, nodes[i].depth) == (chain_ok(nodes, i, (nodes[i].depth - 1) as nat) && is_tag(nodes, i, "category"@)),
{
    let d = nodes[i].depth;
    lemma_last_at_step(nodes, i, d);
    lemma_chain_step(nodes, i, (d - 1) as nat);
    if chain_ok(nodes, i + 1, d) {
        assert(category_at(nodes, last_at(nodes, i + 1, d)));
        assert forall|m: nat| 4 <= m <= (d - 1) as nat implies category_at(nodes, #[trigger] last_at(nodes, i + 1, m)) by {
        }
    }
    if chain_ok(nodes, i, (d - 1) as nat) && is_tag(nodes, i, "category"@) {
        assert forall|m: nat| 4 <= m <= d implies category_at(nodes, #[trigger] last_at(nodes, i + 1, m)) by {
            if m < d {
                assert(chain_ok(nodes, i + 1, (d - 1) as nat));
            }
        }
    }
}

proof fn lemma_chain_categories(nodes: Seq<XmlNodeModel>, i: int)
    requires
        0 <= i < nodes.len(),
        nodes[i].depth >= 1,
    ensures
        chain_ok(nodes, i, (nodes[i].depth - 1) as nat) == in_categories(nodes, i),
{
    let d = nodes[i].depth;
    if chain_ok(nodes, i, (d - 1) as nat) {
        assert forall|l: nat| 4 <= l < d implies category_at(nodes, #[trigger] last_at(nodes, i, l)) by {
        }
    }
    if in_categories(nodes, i) {
        assert forall|m: nat| 4 <= m <= (d - 1) as nat implies category_at(nodes, #[trigger] last_at(nodes, i, m)) by {
        }
    }
}

/// Once the scan fails, it stays failed.
proof fn lemma_scan_stop(nodes: Seq<XmlNodeModel>, k: int, start: Seq<ItemModel>)
    requires
        0 <= k <= nodes.len(),
        catalog_scan(nodes, k, start) is None,
    ensures
        catalog_scan(nodes, nodes.len() as int, start) is None,
    decreases nodes.len() - k,
{
    if k < nodes.len() {
        lemma_scan_stop(nodes, k + 1, start);
    }
}

fn attribute<'a>(attrs: &'a Vec<(String, String)>, name: &str) -> (r: Option<&'a String>)
    ensures
        match attr(pairs_view(attrs@), name@) {
            Some(v) => r matches Some(x) && x@ == v,
            None => r is None,
        },
{
    let ghost ps = pairs_view(attrs@);
    let key = name.to_owned();
    let n = attrs.len();
    let mut i: usize = 0;
    assert(ps.skip(0) =~= ps);
    while i < n
        invariant
            n == attrs@.len(),
            ps == pairs_view(attrs@),
            key@ == name@,
            0 <= i <= n,
            attr(ps, name@) == attr(ps.skip(i as int), name@),
        decreases n - i,
    {
        let ghost rest = ps.skip(i as int);
        assert(rest[0] == (attrs@[i as int].0@, attrs@[i as int].1@));
        assert(rest.drop_first() =~= ps.skip(i as int + 1));
        if attrs[i].0 == key {
            return Some(&attrs[i].1);
        }
        i = i + 1;
    }
    assert(ps.skip(n as int).len() == 0);
    None
}

fn number_attribute(attrs: &Vec<(String, String)>, name: &str) -> (r: Option<i32>)
    ensures
        r == number_attr(pairs_view(attrs@), name@),
{
    match attribute(attrs, name) {
        None => Some(0),
        Some(t) => parse_i32(t.as_str()),
    }
}

/// Enters the items that the XML nodes `nodes` list into `catalog` (see
/// [`catalog_scan`]); false where a node lies out of place or an item
/// cannot be read, which the server does not survive.
pub fn read_catalog(nodes: &Vec<XmlNode>, catalog: &mut Catalog) -> (r: bool)
    ensures
        r == catalog_scan(nodes_view(nodes@), nodes@.len() as int, items_view(old(catalog).items@)) is Some,
        r ==> items_view(final(catalog).items@) == catalog_scan(
            nodes_view(nodes@),
            nodes@.len() as int,
            items_view(old(catalog).items@),
        ).unwrap(),
{
    let ghost nv = nodes_view(nodes@);
    let ghost start = items_view(catalog.items@);
    let mut path: Vec<usize> = Vec::new();
    let mut chain: Vec<bool> = Vec::new();
    let n = nodes.len();
    let mut i: usize = 0;
    while i < n
        invariant
            n == nodes@.len(),
            nv == nodes_view(nodes@),
            0 <= i <= n,
            path@.len() == chain@.len(),
            i == 0 ==> path@.len() == 0,
            i > 0 ==> path@.len() == nv[i - 1].depth,
            forall|l: int| 0 <= l < path@.len() ==> last_at(nv, i as int, (l + 1) as nat) == Some(#[trigger] path@[l] as int),
            forall|l: int| 0 <= l < path@.len() ==> path@[l] < i,
            forall|l: int| 0 <= l < chain@.len() ==> #[trigger] chain@[l] == chain_ok(nv, i as int, (l + 1) as nat),
            catalog_scan(nv, i as int, start) == Some(items_view(catalog.items@)),
            start == items_view(old(catalog).items@),
        decreases n - i,
    {
        let node = &nodes[i];
        assert(nv[i as int] == node@);
        let d = node.depth;
        if d < 1 || d - 1 > path.len() {
            assert(!placed_well(nv, i as int));
            proof {
                lemma_scan_stop(nv, i as int + 1, start);
            }
            return false;
        }
        path.truncate(d - 1);
        chain.truncate(d - 1);
        let in_chain = d < 5 || chain[d - 2];
        proof {
            lemma_chain_categories(nv, i as int);
            if d < 5 {
                assert(chain_ok(nv, i as int, (d - 1) as nat));
            } else {
                assert(chain@[d - 2] == chain_ok(nv, i as int, (d - 1) as nat));
            }
        }
        let is_item = node.element && node.name == "item".to_owned() && d >= 4 && in_chain;
        if is_item {
            let parent = &nodes[path[d - 2]];
            assert(nv[path@[d - 2] as int] == parent@);
            let name = attribute(&node.attributes, "id");
            let cat = attribute(&parent.attributes, "id");
            let gold = number_attribute(&node.attributes, "gold");
            let silver = number_attribute(&node.attributes, "silver");
            let rating = number_attribute(&node.attributes, "rating");
            match (name, cat, gold, silver, rating) {
                (Some(name), Some(cat), Some(gold), Some(silver), Some(rating)) => {
                    let category = if *cat == "intFloor".to_owned() || *cat == "flrSPCategory".to_owned() {
                        "4".to_owned()
                    } else {
                        cat.clone()
                    };
                    let item = Item { name: name.clone(), category, gold, silver, rating };
                    proof {
                        lemma_insert_view(catalog.items@, item);
                    }
                    catalog.insert(item);
                },
                _ => {
                    proof {
                        lemma_scan_stop(nv, i as int + 1, start);
                    }
                    return false;
                },
            }
        }
        let here = d < 4 || (chain[d - 2] && node.element && node.name == "category".to_owned());
        proof {
            if d >= 4 {
                lemma_chain_here(nv, i as int);
                assert(chain@[d - 2] == chain_ok(nv, i as int, (d - 1) as nat));
            } else {
                assert(chain_ok(nv, i as int + 1, d as nat));
            }
            assert forall|l: int| 0 <= l < d - 1 implies #[trigger] chain@[l] == chain_ok(nv, i as int + 1, (l + 1) as nat) by {
                lemma_chain_step(nv, i as int, (l + 1) as nat);
            }
            assert forall|l: int| 0 <= l < d - 1 implies last_at(nv, i as int + 1, (l + 1) as nat) == Some(#[trigger] path@[l] as int) by {
                lemma_last_at_step(nv, i as int, (l + 1) as nat);
            }
            lemma_last_at_step(nv, i as int, d as nat);
        }
        path.push(i);
        chain.push(here);
        i = i + 1;
    }
    true
}

/// What entering the items of the XML document `text` into a catalogue
/// holding `start` gives; `None` where the document cannot be parsed or
/// read (see [`catalog_scan`]).
pub open spec fn document_scan(text: Seq<char>, start: Seq<ItemModel>) -> Option<Seq<ItemModel>> {
    match xml_document(text) {
        None => None,
        Some(nv) => catalog_scan(nv, nv.len() as int, start),
    }
}

/// Enters the items of the XML document `text` into `catalog` (see
/// [`document_scan`]); false where that fails, which the server does not
/// survive.
pub fn parse_catalog(text: &str, catalog: &mut Catalog) -> (r: bool)
    ensures
        r == document_scan(text@, items_view(old(catalog).items@)) is Some,
        r ==> items_view(final(catalog).items@) == document_scan(text@, items_view(old(catalog).items@)).unwrap(),
{
    match xml_nodes(text) {
        None => false,
        Some(nodes) => read_catalog(&nodes, catalog),
    }
}

/// The clothes of one gender, out of its clothes file.
pub fn parse_clothes(text: &str) -> (r: Option<Catalog>)
    ensures
        match document_scan(text@, Seq::empty()) {
            Some(ms) => r matches Some(c) && items_view(c.items@) == ms,
            None => r is None,
        },
{
    let mut out = Catalog::new();
    assert(items_view(out.items@) =~= Seq::<ItemModel>::empty());
    if parse_catalog(text, &mut out) {
        Some(out)
    } else {
        None
    }
}

/// The clothes of both genders, out of the boys' and the girls' clothes
/// files: "boy" and "girl" with their catalogues.
pub fn parse_all_clothes(boy: &str, girl: &str) -> (r: Option<Vec<(String, Catalog)>>)
    ensures
        match (document_scan(boy@, Seq::empty()), document_scan(girl@, Seq::empty())) {
            (Some(b), Some(g)) => r matches Some(v) && v@.len() == 2 && v@[0].0@ == "boy"@ && items_view(v@[0].1.items@) == b
                && v@[1].0@ == "girl"@ && items_view(v@[1].1.items@) == g,
            _ => r is None,
        },
{
    let boys = parse_clothes(boy)?;
    let girls = parse_clothes(girl)?;
    let mut out: Vec<(String, Catalog)> = Vec::new();
    out.push(("boy".to_owned(), boys));
    out.push(("girl".to_owned(), girls));
    Some(out)
}

/// The furniture files, in the order their items are entered.
pub open spec fn furniture_files_spec() -> Seq<Seq<char>> {
    seq!["furniture"@, "kitchen"@, "bathroom"@, "decor"@, "roomLayout"@]
}

/// The furniture files (see [`furniture_files_spec`]).
pub fn furniture_files() -> (r: Vec<&'static str>)
    ensures
        r@.len() == 5,
        forall|i: int| 0 <= i < 5 ==> #[trigger] r@[i]@ == furniture_files_spec()[i],
{
    vec!["furniture", "kitchen", "bathroom", "decor", "roomLayout"]
}

/// The items of the documents `texts` entered one document after the other.
pub open spec fn documents_scan(texts: Seq<Seq<char>>) -> Option<Seq<ItemModel>>
    decreases texts.len(),
{
    if texts.len() == 0 {
        Some(Seq::empty())
    } else {
        match documents_scan(texts.drop_last()) {
            None => None,
            Some(c) => document_scan(texts.last(), c),
        }
    }
}

/// The views of a list of texts.
pub open spec fn texts_view(v: Seq<String>) -> Seq<Seq<char>> {
    Seq::new(v.len(), |i: int| v[i]@)
}

/// The furniture of the game, out of the texts of its files (see
/// [`furniture_files`]), all in one catalogue.
pub fn parse_furniture(texts: &Vec<String>) -> (r: Option<Catalog>)
    ensures
        match documents_scan(texts_view(texts@)) {
            Some(ms) => r matches Some(c) && items_view(c.items@) == ms,
            None => r is None,
        },
{
    let ghost ts = texts_view(texts@);
    let mut out = Catalog::new();
    assert(items_view(out.items@) =~= Seq::<ItemModel>::empty());
    let n = texts.len();
    let mut i: usize = 0;
    while i < n
        invariant
            n == texts@.len(),
            ts == texts_view(texts@),
            0 <= i <= n,
            documents_scan(ts.take(i as int)) == Some(items_view(out.items@)),
        decreases n - i,
    {
        assert(ts.take(i as int + 1).drop_last() =~= ts.take(i as int));
        assert(ts.take(i as int + 1).last() == texts@[i as int]@);
        if !parse_catalog(texts[i].as_str(), &mut out) {
            proof {
                lemma_documents_stop(ts, i as int + 1);
            }
            return None;
        }
        i = i + 1;
    }
    assert(ts.take(n as int) =~= ts);
    Some(out)
}

proof fn lemma_documents_stop(ts: Seq<Seq<char>>, k: int)
    requires
        0 <= k <= ts.len(),
        documents_scan(ts.take(k)) is None,
    ensures
        documents_scan(ts) is None,
    decreases ts.len() - k,
{
    if k < ts.len() {
        assert(ts.take(k + 1).drop_last() =~= ts.take(k));
        lemma_documents_stop(ts, k + 1);
    } else {
        assert(ts.take(k) =~= ts);
    }
}

/// The trophies of the game: the ids of the elements in the root element
/// of its trophies file, in order; `None` where one has no id, which the
/// server does not survive.
pub open spec fn trophies_scan(nodes: Seq<XmlNodeModel>, n: int) -> Option<Seq<Seq<char>>>
    decreases n,
{
    if n <= 0 {
        Some(Seq::empty())
    } else {
        match trophies_scan(nodes, n - 1) {
            None => None,
            Some(ts) => if nodes[n - 1].depth == 3 && nodes[n - 1].element {
                match attr(nodes[n - 1].attributes, "id"@) {
                    None => None,
                    Some(t) => Some(ts.push(t)),
                }
            } else {
                Some(ts)
            },
        }
    }
}

/// The trophies of the game out of its trophies file (see [`trophies_scan`]).
pub fn parse_trophies(text: &str) -> (r: Option<Vec<String>>)
    ensures
        match xml_document(text@) {
            None => r is None,
            Some(nv) => match trophies_scan(nv, nv.len() as int) {
                Some(ts) => r matches Some(v) && texts_view(v@) == ts,
                None => r is None,
            },
        },
{
    let nodes = xml_nodes(text)?;
    let ghost nv = nodes_view(nodes@);
    let mut out: Vec<String> = Vec::new();
    let n = nodes.len();
    let mut i: usize = 0;
    while i < n
        invariant
            n == nodes@.len(),
            nv == nodes_view(nodes@),
            0 <= i <= n,
            trophies_scan(nv, i as int) == Some(texts_view(out@)),
            xml_document(text@) == Some(nv),
        decreases n - i,
    {
        let node = &nodes[i];
        assert(nv[i as int] == node@);
        if node.depth == 3 && node.element {
            match attribute(&node.attributes, "id") {
                None => {
                    proof {
                        lemma_trophies_stop(nv, i as int + 1);
                    }
                    return None;
                },
                Some(t) => {
                    let ghost before = out@;
                    out.push(t.clone());
                    assert(texts_view(out@) =~= texts_view(before).push(t@));
                },
            }
        }
        i = i + 1;
    }
    Some(out)
}

proof fn lemma_trophies_stop(nodes: Seq<XmlNodeModel>, k: int)
    requires
        0 <= k <= nodes.len(),
        trophies_scan(nodes, k) is None,
    ensures
        trophies_scan(nodes, nodes.len() as int) is None,
    decreases nodes.len() - k,
{
    if k < nodes.len() {
        lemma_trophies_stop(nodes, k + 1);
    }
}

} // verus!
