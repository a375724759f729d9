//! The values that travel in game messages, and their mathematical model.
use vstd::prelude::*;

verus! {

/// The error text of every failed conversion of a [`Value`].
pub const CONVERT_ERROR: &'static str = "Can't convert";

/// A value carried by the game protocol.
#[derive(Debug, PartialEq)]
pub enum Value {
    Null,
    Boolean(bool),
    String(String),
    U8(u8),
    I32(i32),
    I64(i64),
    /// A double, held as its IEEE-754 bit pattern.
    F64(u64),
    /// A time stamp in milliseconds; the wire format has no encoding for it.
    Date(i64),
    Vector(Vec<Value>),
    Object(Object),
}

/// A map from strings to values in insertion order; `insert` keeps its keys distinct.
#[derive(Debug, PartialEq)]
pub struct Object {
    pub entries: Vec<(String, Value)>,
}

/// The mathematical model of a [`Value`]: strings are character sequences,
/// vectors are sequences and objects are sequences of key/value pairs.
pub enum SpecValue {
    Null,
    Boolean(bool),
    Str(Seq<char>),
    U8(u8),
    I32(i32),
    I64(i64),
    F64(u64),
    Date(i64),
    Vector(Seq<SpecValue>),
    Object(Seq<(Seq<char>, SpecValue)>),
}

/// The model of a value.
pub open spec fn value_model(v: Value) -> SpecValue
    decreases v,
{
    match v {
        Value::Null => SpecValue::Null,
        Value::Boolean(b) => SpecValue::Boolean(b),
        Value::String(s) => SpecValue::Str(s@),
        Value::U8(x) => SpecValue::U8(x),
        Value::I32(x) => SpecValue::I32(x),
        Value::I64(x) => SpecValue::I64(x),
        Value::F64(x) => SpecValue::F64(x),
        Value::Date(x) => SpecValue::Date(x),
        Value::Vector(items) => SpecValue::Vector(seq_model(items@)),
        Value::Object(o) => SpecValue::Object(entries_model(o.entries@)),
    }
}

/// The models of a sequence of values.
pub open spec fn seq_model(s: Seq<Value>) -> Seq<SpecValue>
    decreases s,
{
    if s.len() == 0 {
        Seq::empty()
    } else {
        seq_model(s.drop_last()).push(value_model(s.last()))
    }
}

/// The models of a sequence of object entries.
pub open spec fn entries_model(s: Seq<(String, Value)>) -> Seq<(Seq<char>, SpecValue)>
    decreases s,
{
    if s.len() == 0 {
        Seq::empty()
    } else {
        entries_model(s.drop_last()).push((s.last().0@, value_model(s.last().1)))
    }
}

impl View for Value {
    type V = SpecValue;

    open spec fn view(&self) -> SpecValue {
        value_model(*self)
    }
}

impl View for Object {
    type V = Seq<(Seq<char>, SpecValue)>;

    open spec fn view(&self) -> Seq<(Seq<char>, SpecValue)> {
        entries_model(self.entries@)
    }
}

pub proof fn lemma_seq_model(s: Seq<Value>)
    ensures
        seq_model(s).len() == s.len(),
        forall|i: int| 0 <= i < s.len() ==> #[trigger] seq_model(s)[i] == value_model(s[i]),
    decreases s.len(),
{
    if s.len() > 0 {
        lemma_seq_model(s.drop_last());
    }
}

/// The model of a list grown by one value.
pub proof fn lemma_seq_model_push(s: Seq<Value>, v: Value)
    ensures
        seq_model(s.push(v)) == seq_model(s).push(value_model(v)),
{
    assert(s.push(v).drop_last() =~= s);
}

pub proof fn lemma_entries_model(s: Seq<(String, Value)>)
    ensures
        entries_model(s).len() == s.len(),
        forall|i: int|
            0 <= i < s.len() ==> #[trigger] entries_model(s)[i] == (s[i].0@, value_model(s[i].1)),
    decreases s.len(),
{
    if s.len() > 0 {
        lemma_entries_model(s.drop_last());
    }
}

/// The position of the first entry with key `k`, if any.
pub open spec fn key_index(m: Seq<(Seq<char>, SpecValue)>, k: Seq<char>) -> Option<int>
    decreases m.len(),
{
    if m.len() == 0 {
        None
    } else {
        match key_index(m.drop_last(), k) {
            Some(i) => Some(i),
            None => if m.last().0 == k {
                Some(m.len() - 1)
            } else {
                None
            },
        }
    }
}

/// The value stored under `k`, if any.
pub open spec fn obj_get(m: Seq<(Seq<char>, SpecValue)>, k: Seq<char>) -> Option<SpecValue> {
    match key_index(m, k) {
        Some(i) => Some(m[i].1),
        None => None,
    }
}

/// The map `m` with `k` bound to `v`: an existing binding of `k` is replaced in
/// place, a new key goes to the end.
pub open spec fn obj_insert(m: Seq<(Seq<char>, SpecValue)>, k: Seq<char>, v: SpecValue) -> Seq<
    (Seq<char>, SpecValue),
> {
    match key_index(m, k) {
        Some(i) => m.update(i, (k, v)),
        None => m.push((k, v)),
    }
}

/// The map built by inserting the given pairs one after the other into an empty map.
pub open spec fn obj_from(pairs: Seq<(Seq<char>, SpecValue)>) -> Seq<(Seq<char>, SpecValue)>
    decreases pairs.len(),
{
    if pairs.len() == 0 {
        Seq::empty()
    } else {
        obj_insert(obj_from(pairs.drop_last()), pairs.last().0, pairs.last().1)
    }
}

/// No key occurs twice.
pub open spec fn distinct_keys(m: Seq<(Seq<char>, SpecValue)>) -> bool {
    forall|i: int, j: int| 0 <= i < j < m.len() ==> m[i].0 != m[j].0
}

pub proof fn lemma_key_index(m: Seq<(Seq<char>, SpecValue)>, k: Seq<char>)
    ensures
        match key_index(m, k) {
            Some(i) => 0 <= i < m.len() && m[i].0 == k && forall|j: int|
                0 <= j < i ==> m[j].0 != k,
            None => forall|j: int| 0 <= j < m.len() ==> m[j].0 != k,
        },
    decreases m.len(),
{
    if m.len() > 0 {
        lemma_key_index(m.drop_last(), k);
        assert(forall|j: int| 0 <= j < m.len() - 1 ==> m.drop_last()[j] == m[j]);
    }
}

/// Inserting keeps the keys distinct.
pub proof fn lemma_insert_distinct(m: Seq<(Seq<char>, SpecValue)>, k: Seq<char>, v: SpecValue)
    requires
        distinct_keys(m),
    ensures
        distinct_keys(obj_insert(m, k, v)),
        obj_get(obj_insert(m, k, v), k) == Some(v),
{
    lemma_key_index(m, k);
    let r = obj_insert(m, k, v);
    lemma_key_index(r, k);
    match key_index(m, k) {
        Some(i) => {
            assert(r[i].0 == k);
        },
        None => {
            assert(r[m.len() as int].0 == k);
        },
    }
}

impl Object {
    /// An empty object.
    pub fn new() -> (r: Object)
        ensures
            r@ == Seq::<(Seq<char>, SpecValue)>::empty(),
            distinct_keys(r@),
    {
        Object { entries: Vec::new() }
    }

    /// The number of entries.
    pub fn len(&self) -> (r: usize)
        ensures
            r == self@.len(),
    {
        proof {
            lemma_entries_model(self.entries@);
        }
        self.entries.len()
    }

    /// The position of the entry whose key is `key`.
    fn position(&self, key: &String) -> (r: Option<usize>)
        ensures
            match r {
                Some(i) => key_index(self@, key@) == Some(i as int) && i < self.entries@.len(),
                None => key_index(self@, key@) is None,
            },
    {
        proof {
            lemma_entries_model(self.entries@);
            lemma_key_index(self@, key@);
        }
        let n = self.entries.len();
        let mut i: usize = 0;
        while i < n
            invariant
                n == self.entries@.len(),
                0 <= i <= n,
                entries_model(self.entries@).len() == n,
                forall|j: int|
                    0 <= j < n ==> #[trigger] entries_model(self.entries@)[j] == (
                        self.entries@[j].0@,
                        value_model(self.entries@[j].1),
                    ),
                forall|j: int| 0 <= j < i ==> self@[j].0 != key@,
                match key_index(self@, key@) {
                    Some(x) => 0 <= x < n && self@[x].0 == key@ && forall|j: int|
                        0 <= j < x ==> self@[j].0 != key@,
                    None => forall|j: int| 0 <= j < n ==> self@[j].0 != key@,
                },
            decreases n - i,
        {
            if self.entries[i].0 == *key {
                assert(self@[i as int].0 == key@);
                return Some(i);
            }
            i = i + 1;
        }
        None
    }

    /// The value stored under `key`.
    pub fn get(&self, key: &str) -> (r: Option<&Value>)
        ensures
            match r {
                Some(v) => obj_get(self@, key@) == Some(v@),
                None => obj_get(self@, key@) is None,
            },
    {
        let k = key.to_owned();
        proof {
            lemma_entries_model(self.entries@);
        }
        match self.position(&k) {
            Some(i) => {
                assert(self@[i as int] == (self.entries@[i as int].0@, value_model(self.entries@[i as int].1)));
                Some(&self.entries[i].1)
            },
            None => None,
        }
    }

    /// Whether `key` is bound.
    pub fn contains_key(&self, key: &str) -> (r: bool)
        ensures
            r == obj_get(self@, key@) is Some,
    {
        let k = key.to_owned();
        self.position(&k).is_some()
    }

    /// Binds `key` to `value`, replacing an earlier binding of `key`.
    pub fn insert(&mut self, key: String, value: Value)
        ensures
            final(self)@ == obj_insert(old(self)@, key@, value@),
            distinct_keys(old(self)@) ==> distinct_keys(final(self)@),
    {
        proof {
            lemma_entries_model(self.entries@);
            if distinct_keys(self@) {
                lemma_insert_distinct(self@, key@, value@);
            }
        }
        match self.position(&key) {
            Some(i) => {
                let ghost k = key@;
                let ghost v = value@;
                self.entries[i] = (key, value);
                proof {
                    lemma_entries_model(self.entries@);
                    assert(self@ =~= old(self)@.update(i as int, (k, v)));
                }
            },
            None => {
                let ghost k = key@;
                let ghost v = value@;
                self.entries.push((key, value));
                proof {
                    lemma_entries_model(self.entries@);
                    assert(self@ =~= old(self)@.push((k, v)));
                }
            },
        }
    }
}

/// A string value holding a copy of `s`.
pub fn str_value(s: &str) -> (r: Value)
    ensures
        r@ == SpecValue::Str(s@),
{
    Value::String(s.to_owned())
}

/// A vector value holding the given items.
pub fn vec_value(items: Vec<Value>) -> (r: Value)
    ensures
        r@ == SpecValue::Vector(seq_model(items@)),
{
    Value::Vector(items)
}

/// The model of an optional string: the string, or null.
pub open spec fn opt_string_model(o: Option<String>) -> SpecValue {
    match o {
        Some(s) => SpecValue::Str(s@),
        None => SpecValue::Null,
    }
}

/// An optional string as a value: the string, or null.
pub fn opt_string(o: Option<String>) -> (r: Value)
    ensures
        r@ == opt_string_model(o),
{
    match o {
        Some(s) => Value::String(s),
        None => Value::Null,
    }
}

impl Object {
    /// Appends an entry under a key that the object does not hold yet.
    pub(crate) fn push_entry(&mut self, key: &str, value: Value)
        ensures
            final(self)@ == old(self)@.push((key@, value@)),
    {
        let ghost v = value@;
        self.entries.push((key.to_owned(), value));
        proof {
            lemma_entries_model(self.entries@);
            lemma_entries_model(old(self).entries@);
            assert(self@ =~= old(self)@.push((key@, v)));
        }
    }
}

impl Value {
    /// The items of a vector.
    pub fn get_vector(&self) -> (r: Result<&Vec<Value>, &'static str>)
        ensures
            r is Ok <==> self is Vector,
            r matches Ok(items) ==> *self == Value::Vector(*items),
            r matches Err(e) ==> e == CONVERT_ERROR,
    {
        if let Value::Vector(v) = self {
            Ok(v)
        } else {
            Err(CONVERT_ERROR)
        }
    }

    /// The number in a `U8` value.
    pub fn get_u8(&self) -> (r: Result<u8, &'static str>)
        ensures
            r is Ok <==> self is U8,
            r matches Ok(x) ==> *self == Value::U8(x),
            r matches Err(e) ==> e == CONVERT_ERROR,
    {
        if let Value::U8(v) = self {
            Ok(*v)
        } else {
            Err(CONVERT_ERROR)
        }
    }

    /// The number in an `I32` value.
    pub fn get_i32(&self) -> (r: Result<i32, &'static str>)
        ensures
            r is Ok <==> self is I32,
            r matches Ok(x) ==> *self == Value::I32(x),
            r matches Err(e) ==> e == CONVERT_ERROR,
    {
        if let Value::I32(v) = self {
            Ok(*v)
        } else {
            Err(CONVERT_ERROR)
        }
    }

    /// The bits of an `F64` value.
    pub fn get_f64(&self) -> (r: Result<u64, &'static str>)
        ensures
            r is Ok <==> self is F64,
            r matches Ok(x) ==> *self == Value::F64(x),
            r matches Err(e) ==> e == CONVERT_ERROR,
    {
        if let Value::F64(v) = self {
            Ok(*v)
        } else {
            Err(CONVERT_ERROR)
        }
    }

    /// The truth value of a `Boolean` value.
    pub fn get_bool(&self) -> (r: Result<bool, &'static str>)
        ensures
            r is Ok <==> self is Boolean,
            r matches Ok(x) ==> *self == Value::Boolean(x),
            r matches Err(e) ==> e == CONVERT_ERROR,
    {
        if let Value::Boolean(v) = self {
            Ok(*v)
        } else {
            Err(CONVERT_ERROR)
        }
    }

    /// A copy of the text of a `String` value.
    pub fn get_string(&self) -> (r: Result<String, &'static str>)
        ensures
            r is Ok <==> self is String,
            r matches Ok(s) ==> self@ == SpecValue::Str(s@),
            r matches Err(e) ==> e == CONVERT_ERROR,
    {
        if let Value::String(v) = self {
            Ok(v.clone())
        } else {
            Err(CONVERT_ERROR)
        }
    }

    /// The map of an `Object` value.
    pub fn get_object(&self) -> (r: Result<&Object, &'static str>)
        ensures
            r is Ok <==> self is Object,
            r matches Ok(o) ==> self@ == SpecValue::Object(o@),
            r matches Err(e) ==> e == CONVERT_ERROR,
    {
        if let Value::Object(v) = self {
            Ok(v)
        } else {
            Err(CONVERT_ERROR)
        }
    }
}

impl Value {
    /// A copy of the value, down to the last nested item.
    pub fn copy(&self) -> (r: Value)
        ensures
            r@ == self@,
        decreases self,
    {
        match self {
            Value::Null => Value::Null,
            Value::Boolean(b) => Value::Boolean(*b),
            Value::String(s) => Value::String(s.clone()),
            Value::U8(x) => Value::U8(*x),
            Value::I32(x) => Value::I32(*x),
            Value::I64(x) => Value::I64(*x),
            Value::F64(x) => Value::F64(*x),
            Value::Date(x) => Value::Date(*x),
            Value::Vector(items) => Value::Vector(copy_items(items)),
            Value::Object(o) => Value::Object(Object { entries: copy_entries(&o.entries) }),
        }
    }
}

/// Copies of a list of values.
pub fn copy_items(items: &Vec<Value>) -> (r: Vec<Value>)
    ensures
        seq_model(r@) == seq_model(items@),
    decreases items,
{
    proof {
        lemma_seq_model(items@);
    }
    let mut out: Vec<Value> = Vec::new();
    let n = items.len();
    let mut i: usize = 0;
    while i < n
        invariant
            n == items@.len(),
            0 <= i <= n,
            out@.len() == i,
            forall|j: int| 0 <= j < i ==> #[trigger] out@[j]@ == items@[j]@,
        decreases n - i,
    {
        assert(decreases_to!(items => items@[i as int]));
        out.push(items[i].copy());
        i = i + 1;
    }
    proof {
        lemma_seq_model(out@);
        assert forall|j: int| 0 <= j < n implies seq_model(out@)[j] == seq_model(items@)[j] by {
            assert(out@[j]@ == items@[j]@);
        }
        assert(seq_model(out@) =~= seq_model(items@));
    }
    out
}

/// Copies of a list of object entries.
pub fn copy_entries(entries: &Vec<(String, Value)>) -> (r: Vec<(String, Value)>)
    ensures
        entries_model(r@) == entries_model(entries@),
    decreases entries,
{
    proof {
        lemma_entries_model(entries@);
    }
    let mut out: Vec<(String, Value)> = Vec::new();
    let n = entries.len();
    let mut i: usize = 0;
    while i < n
        invariant
            n == entries@.len(),
            0 <= i <= n,
            out@.len() == i,
            forall|j: int| 0 <= j < i ==> #[trigger] out@[j].0@ == entries@[j].0@ && out@[j].1@ == entries@[j].1@,
        decreases n - i,
    {
        assert(decreases_to!(entries => entries@[i as int].1));
        let v = entries[i].1.copy();
        out.push((entries[i].0.clone(), v));
        i = i + 1;
    }
    proof {
        lemma_entries_model(out@);
        assert forall|j: int| 0 <= j < n implies entries_model(out@)[j] == entries_model(entries@)[j] by {
            assert(out@[j].0@ == entries@[j].0@ && out@[j].1@ == entries@[j].1@);
        }
        assert(entries_model(out@) =~= entries_model(entries@));
    }
    out
}

impl Object {
    /// A copy of the object.
    pub fn copy(&self) -> (r: Object)
        ensures
            r@ == self@,
    {
        Object { entries: copy_entries(&self.entries) }
    }
}

} // verus!
