//! Serialisation of values into the binary wire format.
//!
//! Every value starts with a one-byte tag: 0 null, 1 boolean, 2 i32, 3 i64,
//! 4 double, 5 string, 6 object, 7 vector. Numbers are big-endian. A string is
//! the length of its UTF-8 bytes in 7-bit groups (low group first, high bit
//! set on every group but the last) followed by those bytes. Vectors and
//! objects carry their element count as an i32.
use crate::value::{Value, Object, SpecValue, value_model, seq_model, entries_model, lemma_seq_model, lemma_entries_model};
use vstd::prelude::*;

verus! {

/// The four bytes of `w`, most significant first.
pub open spec fn be32(w: u32) -> Seq<u8> {
    seq![(w >> 24u32) as u8, (w >> 16u32) as u8, (w >> 8u32) as u8, w as u8]
}

/// The eight bytes of `w`, most significant first.
pub open spec fn be64(w: u64) -> Seq<u8> {
    seq![
        (w >> 56u64) as u8,
        (w >> 48u64) as u8,
        (w >> 40u64) as u8,
        (w >> 32u64) as u8,
        (w >> 24u64) as u8,
        (w >> 16u64) as u8,
        (w >> 8u64) as u8,
        w as u8,
    ]
}

/// The length prefix of a string: `n` in 7-bit groups, low group first. The
/// loop that writes it stops as soon as bits 7 to 31 of what is left are
/// clear.
pub open spec fn varint(n: nat) -> Seq<u8>
    decreases n,
{
    if n % 0x1_0000_0000 < 128 {
        seq![(n % 128) as u8]
    } else {
        seq![(n % 128 + 128) as u8] + varint(n / 128)
    }
}

/// A string as the wire carries it, without tag.
pub open spec fn enc_str(s: Seq<char>) -> Seq<u8> {
    varint(vstd::utf8::encode_utf8(s).len()) + vstd::utf8::encode_utf8(s)
}

/// The count field of a vector or object with `n` elements.
pub open spec fn enc_count(n: nat) -> Seq<u8> {
    be32(n as i32 as u32)
}

/// The encoding of a value with its tag, or `None` where the value holds a
/// `U8` or a `Date`, which the format cannot carry.
pub open spec fn enc_value(v: SpecValue) -> Option<Seq<u8>>
    decreases v,
{
    match v {
        SpecValue::Null => Some(seq![0u8]),
        SpecValue::Boolean(b) => Some(seq![1u8, if b { 1u8 } else { 0u8 }]),
        SpecValue::I32(x) => Some(seq![2u8] + be32(x as u32)),
        SpecValue::I64(x) => Some(seq![3u8] + be64(x as u64)),
        SpecValue::F64(x) => Some(seq![4u8] + be64(x)),
        SpecValue::Str(s) => Some(seq![5u8] + enc_str(s)),
        SpecValue::Object(m) => match enc_fields(m) {
            Some(b) => Some(seq![6u8] + enc_count(m.len()) + b),
            None => None,
        },
        SpecValue::Vector(items) => match enc_items(items) {
            Some(b) => Some(seq![7u8] + enc_count(items.len()) + b),
            None => None,
        },
        SpecValue::U8(_) => None,
        SpecValue::Date(_) => None,
    }
}

/// The encodings of a sequence of values, one after the other.
pub open spec fn enc_items(s: Seq<SpecValue>) -> Option<Seq<u8>>
    decreases s,
{
    if s.len() == 0 {
        Some(Seq::empty())
    } else {
        match (enc_items(s.drop_last()), enc_value(s.last())) {
            (Some(a), Some(b)) => Some(a + b),
            _ => None,
        }
    }
}

/// The encodings of object entries: each key as an untagged string, then its value.
pub open spec fn enc_fields(m: Seq<(Seq<char>, SpecValue)>) -> Option<Seq<u8>>
    decreases m,
{
    if m.len() == 0 {
        Some(Seq::empty())
    } else {
        match (enc_fields(m.drop_last()), enc_value(m.last().1)) {
            (Some(a), Some(b)) => Some(a + enc_str(m.last().0) + b),
            _ => None,
        }
    }
}

/// Whether every value inside `v` (not `v` itself) can be encoded.
pub open spec fn inner_encodable(v: SpecValue) -> bool {
    match v {
        SpecValue::Vector(items) => enc_items(items) is Some,
        SpecValue::Object(m) => enc_fields(m) is Some,
        _ => true,
    }
}

/// The body of a message: its type byte, the item count and the items.
pub open spec fn enc_message(items: Seq<SpecValue>, type_: u8) -> Option<Seq<u8>> {
    match enc_items(items) {
        Some(b) => Some(seq![type_] + enc_count(items.len()) + b),
        None => None,
    }
}

/// The error of `encode_value` on a value that the format cannot carry.
pub const TYPE_NOT_FOUND: &'static str = "Type not found";

/// Appends the four bytes of `w`, most significant first.
pub fn put_u32(out: &mut Vec<u8>, w: u32)
    ensures
        final(out)@ == old(out)@ + be32(w),
{
    out.push((w >> 24u32) as u8);
    out.push((w >> 16u32) as u8);
    out.push((w >> 8u32) as u8);
    out.push(w as u8);
    assert(final(out)@ =~= old(out)@ + be32(w));
}

/// Appends the eight bytes of `w`, most significant first.
pub fn put_u64(out: &mut Vec<u8>, w: u64)
    ensures
        final(out)@ == old(out)@ + be64(w),
{
    out.push((w >> 56u64) as u8);
    out.push((w >> 48u64) as u8);
    out.push((w >> 40u64) as u8);
    out.push((w >> 32u64) as u8);
    out.push((w >> 24u64) as u8);
    out.push((w >> 16u64) as u8);
    out.push((w >> 8u64) as u8);
    out.push(w as u8);
    assert(final(out)@ =~= old(out)@ + be64(w));
}

/// Appends all of `src` to `out`.
pub fn put_slice(out: &mut Vec<u8>, src: &[u8])
    ensures
        final(out)@ == old(out)@ + src@,
{
    let n = src.len();
    let mut i: usize = 0;
    while i < n
        invariant
            n == src@.len(),
            0 <= i <= n,
            out@ == old(out)@ + src@.take(i as int),
        decreases n - i,
    {
        out.push(src[i]);
        assert(src@.take(i as int + 1) =~= src@.take(i as int).push(src@[i as int]));
        i = i + 1;
    }
    assert(src@.take(n as int) =~= src@);
}

/// The encoding of the null value.
pub fn encode_none() -> (r: Vec<u8>)
    ensures
        Some(r@) == enc_value(SpecValue::Null),
{
    let mut out: Vec<u8> = Vec::new();
    out.push(0);
    assert(out@ =~= seq![0u8]);
    out
}

/// The encoding of a boolean.
pub fn encode_boolean(item: bool) -> (r: Vec<u8>)
    ensures
        Some(r@) == enc_value(SpecValue::Boolean(item)),
{
    let mut out: Vec<u8> = Vec::new();
    out.push(1);
    out.push(if item { 1u8 } else { 0u8 });
    assert(out@ =~= seq![1u8, if item { 1u8 } else { 0u8 }]);
    out
}

/// The encoding of an i32.
pub fn encode_int32(item: i32) -> (r: Vec<u8>)
    ensures
        Some(r@) == enc_value(SpecValue::I32(item)),
{
    let mut out: Vec<u8> = Vec::new();
    out.push(2);
    put_u32(&mut out, item as u32);
    assert(out@ =~= seq![2u8] + be32(item as u32));
    out
}

/// The encoding of an i64.
pub fn encode_int64(item: i64) -> (r: Vec<u8>)
    ensures
        Some(r@) == enc_value(SpecValue::I64(item)),
{
    let mut out: Vec<u8> = Vec::new();
    out.push(3);
    put_u64(&mut out, item as u64);
    assert(out@ =~= seq![3u8] + be64(item as u64));
    out
}

/// The encoding of a double given by its IEEE-754 bits.
pub fn encode_float(item: u64) -> (r: Vec<u8>)
    ensures
        Some(r@) == enc_value(SpecValue::F64(item)),
{
    let mut out: Vec<u8> = Vec::new();
    out.push(4);
    put_u64(&mut out, item);
    assert(out@ =~= seq![4u8] + be64(item));
    out
}

/// Appends the length prefix of a string whose UTF-8 form has `len` bytes.
fn put_varint(out: &mut Vec<u8>, len: usize)
    ensures
        final(out)@ == old(out)@ + varint(len as nat),
{
    let mut length: u64 = len as u64;
    assert(varint(len as nat) == varint(length as nat));
    while length & 0xFFFF_FF80u64 != 0
        invariant
            out@ + varint(length as nat) == old(out)@ + varint(len as nat),
        decreases length,
    {
        let ghost l = length;
        assert((l & 0xFFFF_FF80u64 != 0) == (l % 0x1_0000_0000 >= 128)) by (bit_vector);
        assert(((l & 127u64) | 128u64) == l % 128 + 128) by (bit_vector);
        assert(l >> 7u64 == l / 128) by (bit_vector);
        assert(l >> 7u64 < l) by (bit_vector)
            requires
                l & 0xFFFF_FF80u64 != 0,
        ;
        let byte: u8 = ((length & 127u64) | 128u64) as u8;
        out.push(byte);
        length = length >> 7u64;
        assert(varint(l as nat) == seq![(l % 128 + 128) as u8] + varint(length as nat));
        assert(out@ + varint(length as nat) =~= old(out)@ + varint(len as nat));
    }
    let ghost l = length;
    assert((l & 0xFFFF_FF80u64 != 0) == (l % 0x1_0000_0000 >= 128)) by (bit_vector);
    assert((l & 127u64) == l % 128) by (bit_vector);
    out.push((length & 127u64) as u8);
    assert(varint(l as nat) == seq![(l % 128) as u8]);
    assert(out@ =~= old(out)@ + varint(len as nat));
}

/// Appends a string without tag: its length prefix and its UTF-8 bytes.
fn put_string(out: &mut Vec<u8>, item: &String)
    ensures
        final(out)@ == old(out)@ + enc_str(item@),
{
    let bytes: &[u8] = item.as_str().as_bytes();
    put_varint(out, bytes.len());
    put_slice(out, bytes);
    assert(final(out)@ =~= old(out)@ + enc_str(item@));
}

/// The encoding of a string; the tag is left out where the string is an object key.
pub fn encode_string(item: &String, for_obj: bool) -> (r: Vec<u8>)
    ensures
        r@ == (if for_obj {
            Seq::<u8>::empty()
        } else {
            seq![5u8]
        }) + enc_str(item@),
{
    let mut out: Vec<u8> = Vec::new();
    if !for_obj {
        out.push(5);
    }
    put_string(&mut out, item);
    assert(out@ =~= (if for_obj {
        Seq::<u8>::empty()
    } else {
        seq![5u8]
    }) + enc_str(item@));
    out
}

/// Appends the encoding of a value whose inner values are all encodable.
fn put_value(out: &mut Vec<u8>, item: &Value) -> (ok: bool)
    requires
        inner_encodable(item@),
    ensures
        ok == enc_value(item@) is Some,
        ok ==> final(out)@ == old(out)@ + enc_value(item@).unwrap(),
        !ok ==> final(out)@ == old(out)@,
    decreases *item, 2nat,
{
    match item {
        Value::Null => {
            out.push(0);
            assert(final(out)@ =~= old(out)@ + seq![0u8]);
            true
        },
        Value::Boolean(b) => {
            out.push(1);
            out.push(if *b { 1u8 } else { 0u8 });
            assert(final(out)@ =~= old(out)@ + seq![1u8, if *b { 1u8 } else { 0u8 }]);
            true
        },
        Value::I32(x) => {
            out.push(2);
            put_u32(out, *x as u32);
            assert(final(out)@ =~= old(out)@ + (seq![2u8] + be32(*x as u32)));
            true
        },
        Value::I64(x) => {
            out.push(3);
            put_u64(out, *x as u64);
            assert(final(out)@ =~= old(out)@ + (seq![3u8] + be64(*x as u64)));
            true
        },
        Value::F64(x) => {
            out.push(4);
            put_u64(out, *x);
            assert(final(out)@ =~= old(out)@ + (seq![4u8] + be64(*x)));
            true
        },
        Value::String(s) => {
            out.push(5);
            put_string(out, s);
            assert(final(out)@ =~= old(out)@ + (seq![5u8] + enc_str(s@)));
            true
        },
        Value::Object(o) => {
            put_object(out, o);
            assert(item@ == SpecValue::Object(o@));
            assert(final(out)@ =~= old(out)@ + (seq![6u8] + enc_count(o@.len()) + enc_fields(
                o@,
            ).unwrap()));
            true
        },
        Value::Vector(v) => {
            put_vector(out, v);
            proof {
                lemma_seq_model(v@);
            }
            assert(item@ == SpecValue::Vector(seq_model(v@)));
            assert(final(out)@ =~= old(out)@ + (seq![7u8] + enc_count(seq_model(v@).len())
                + enc_items(seq_model(v@)).unwrap()));
            true
        },
        Value::U8(_) => false,
        Value::Date(_) => false,
    }
}

/// Appends the encoding of an object whose values are all encodable.
fn put_object(out: &mut Vec<u8>, data: &Object)
    requires
        enc_fields(data@) is Some,
    ensures
        final(out)@ == old(out)@ + seq![6u8] + enc_count(data@.len()) + enc_fields(data@).unwrap(),
    decreases *data, 1nat,
{
    proof {
        lemma_entries_model(data.entries@);
    }
    out.push(6);
    let n = data.entries.len();
    put_u32(out, n as i32 as u32);
    let ghost head = old(out)@ + seq![6u8] + enc_count(data@.len());
    assert(out@ =~= head);
    let mut i: usize = 0;
    while i < n
        invariant
            n == data.entries@.len(),
            n == data@.len(),
            0 <= i <= n,
            enc_fields(data@) is Some,
            forall|j: int|
                0 <= j < n ==> #[trigger] data@[j] == (
                    data.entries@[j].0@,
                    value_model(data.entries@[j].1),
                ),
            enc_fields(data@.take(i as int)) is Some,
            out@ == head + enc_fields(data@.take(i as int)).unwrap(),
        decreases n - i,
    {
        proof {
            lemma_fields_prefix(data@, i as int + 1);
            assert(data@.take(i as int + 1).drop_last() =~= data@.take(i as int));
            assert(data@.take(i as int + 1).last() == data@[i as int]);
        }
        let entry = &data.entries[i];
        put_string(out, &entry.0);
        proof {
            assert(decreases_to!(*data => data.entries));
            assert(decreases_to!(data.entries => data.entries@));
            assert(decreases_to!(data.entries@ => data.entries@[i as int]));
            assert(decreases_to!(data.entries@[i as int] => data.entries@[i as int].1));
        }
        let ok = put_value(out, &entry.1);
        assert(ok);
        assert(out@ =~= head + enc_fields(data@.take(i as int + 1)).unwrap());
        i = i + 1;
    }
    assert(data@.take(n as int) =~= data@);
}

/// Appends the encoding of a vector whose items are all encodable.
fn put_vector(out: &mut Vec<u8>, data: &Vec<Value>)
    requires
        enc_items(seq_model(data@)) is Some,
    ensures
        final(out)@ == old(out)@ + seq![7u8] + enc_count(data@.len()) + enc_items(
            seq_model(data@),
        ).unwrap(),
    decreases *data, 1nat,
{
    proof {
        lemma_seq_model(data@);
    }
    out.push(7);
    put_items(out, data);
    assert(final(out)@ =~= old(out)@ + seq![7u8] + enc_count(data@.len()) + enc_items(
        seq_model(data@),
    ).unwrap());
}

/// Appends the item count and the encodings of items that are all encodable.
fn put_items(out: &mut Vec<u8>, data: &Vec<Value>)
    requires
        enc_items(seq_model(data@)) is Some,
    ensures
        final(out)@ == old(out)@ + enc_count(data@.len()) + enc_items(seq_model(data@)).unwrap(),
    decreases *data, 0nat,
{
    proof {
        lemma_seq_model(data@);
    }
    let ghost m = seq_model(data@);
    let n = data.len();
    put_u32(out, n as i32 as u32);
    let ghost head = old(out)@ + enc_count(data@.len());
    assert(out@ =~= head);
    let mut i: usize = 0;
    while i < n
        invariant
            n == data@.len(),
            m.len() == n,
            m == seq_model(data@),
            0 <= i <= n,
            enc_items(m) is Some,
            forall|j: int| 0 <= j < n ==> #[trigger] m[j] == value_model(data@[j]),
            enc_items(m.take(i as int)) is Some,
            out@ == head + enc_items(m.take(i as int)).unwrap(),
        decreases n - i,
    {
        proof {
            lemma_items_prefix(m, i as int + 1);
            assert(m.take(i as int + 1).drop_last() =~= m.take(i as int));
            assert(m.take(i as int + 1).last() == m[i as int]);
            assert(decreases_to!(*data => data@));
            assert(decreases_to!(data@ => data@[i as int]));
        }
        let ok = put_value(out, &data[i]);
        assert(ok);
        assert(out@ =~= head + enc_items(m.take(i as int + 1)).unwrap());
        i = i + 1;
    }
    assert(m.take(n as int) =~= m);
}

/// A prefix of encodable items is encodable.
pub proof fn lemma_items_prefix(s: Seq<SpecValue>, k: int)
    requires
        enc_items(s) is Some,
        0 <= k <= s.len(),
    ensures
        enc_items(s.take(k)) is Some,
        k > 0 ==> enc_value(s[k - 1]) is Some,
    decreases s.len(),
{
    if k < s.len() {
        lemma_items_prefix(s.drop_last(), k);
        assert(s.drop_last().take(k) =~= s.take(k));
        if k > 0 {
            assert(s.drop_last()[k - 1] == s[k - 1]);
        }
    } else {
        assert(s.take(k) =~= s);
        if k > 0 {
            assert(s.last() == s[k - 1]);
        }
    }
}

/// A prefix of encodable fields is encodable.
pub proof fn lemma_fields_prefix(m: Seq<(Seq<char>, SpecValue)>, k: int)
    requires
        enc_fields(m) is Some,
        0 <= k <= m.len(),
    ensures
        enc_fields(m.take(k)) is Some,
        k > 0 ==> enc_value(m[k - 1].1) is Some,
    decreases m.len(),
{
    if k < m.len() {
        lemma_fields_prefix(m.drop_last(), k);
        assert(m.drop_last().take(k) =~= m.take(k));
        if k > 0 {
            assert(m.drop_last()[k - 1] == m[k - 1]);
        }
    } else {
        assert(m.take(k) =~= m);
        if k > 0 {
            assert(m.last() == m[k - 1]);
        }
    }
}

/// The encoding of a value. Values that the format cannot carry are refused;
/// the values inside `item` must all be encodable.
pub fn encode_value(item: &Value) -> (r: Result<Vec<u8>, &'static str>)
    requires
        inner_encodable(item@),
    ensures
        match enc_value(item@) {
            Some(b) => r matches Ok(x) && x@ == b,
            None => r == Err::<Vec<u8>, &'static str>(TYPE_NOT_FOUND),
        },
{
    let mut out: Vec<u8> = Vec::new();
    if put_value(&mut out, item) {
        assert(out@ =~= enc_value(item@).unwrap());
        Ok(out)
    } else {
        Err(TYPE_NOT_FOUND)
    }
}

/// The encoding of an object (tag 6) whose values are all encodable.
pub fn encode_object(data: &Object) -> (r: Vec<u8>)
    requires
        enc_fields(data@) is Some,
    ensures
        Some(r@) == enc_value(SpecValue::Object(data@)),
{
    let mut out: Vec<u8> = Vec::new();
    put_object(&mut out, data);
    assert(out@ =~= seq![6u8] + enc_count(data@.len()) + enc_fields(data@).unwrap());
    out
}

/// The encoding of a vector (tag 7) whose items are all encodable.
pub fn encode_vector(data: &Vec<Value>) -> (r: Vec<u8>)
    requires
        enc_items(seq_model(data@)) is Some,
    ensures
        Some(r@) == enc_value(SpecValue::Vector(seq_model(data@))),
{
    proof {
        lemma_seq_model(data@);
    }
    let mut out: Vec<u8> = Vec::new();
    put_vector(&mut out, data);
    assert(out@ =~= seq![7u8] + enc_count(data@.len()) + enc_items(seq_model(data@)).unwrap());
    out
}

/// The body of a message: the type byte, the item count and the encoded items,
/// all of which must be encodable.
pub fn encode(data: &Vec<Value>, type_: u8) -> (r: Result<Vec<u8>, &'static str>)
    requires
        enc_items(seq_model(data@)) is Some,
    ensures
        r matches Ok(b) && Some(b@) == enc_message(seq_model(data@), type_),
{
    proof {
        lemma_seq_model(data@);
    }
    let mut out: Vec<u8> = Vec::new();
    out.push(type_);
    put_items(&mut out, data);
    assert(out@ =~= seq![type_] + enc_count(seq_model(data@).len()) + enc_items(
        seq_model(data@),
    ).unwrap());
    Ok(out)
}

/// A list of values can be encoded exactly when each of them can.
pub proof fn lemma_items_some(s: Seq<SpecValue>)
    ensures
        enc_items(s) is Some <==> forall|i: int| 0 <= i < s.len() ==> enc_value(#[trigger] s[i]) is Some,
    decreases s.len(),
{
    if s.len() > 0 {
        lemma_items_some(s.drop_last());
        assert(forall|i: int| 0 <= i < s.len() - 1 ==> s.drop_last()[i] == s[i]);
    }
}

/// Object entries can be encoded exactly when each of their values can.
pub proof fn lemma_fields_some(m: Seq<(Seq<char>, SpecValue)>)
    ensures
        enc_fields(m) is Some <==> forall|i: int| 0 <= i < m.len() ==> enc_value(#[trigger] m[i].1) is Some,
    decreases m.len(),
{
    if m.len() > 0 {
        lemma_fields_some(m.drop_last());
        assert(forall|i: int| 0 <= i < m.len() - 1 ==> m.drop_last()[i] == m[i]);
    }
}

/// Whether the format can carry `v`: no `U8` or `Date` anywhere in it.
pub fn is_encodable(v: &Value) -> (r: bool)
    ensures
        r == enc_value(v@) is Some,
    decreases v,
{
    match v {
        Value::U8(_) => false,
        Value::Date(_) => false,
        Value::Vector(items) => items_encodable(items),
        Value::Object(o) => entries_encodable(&o.entries),
        _ => true,
    }
}

/// Whether the format can carry each of `items`.
pub fn items_encodable(items: &Vec<Value>) -> (r: bool)
    ensures
        r == enc_items(seq_model(items@)) is Some,
    decreases items,
{
    proof {
        lemma_seq_model(items@);
        lemma_items_some(seq_model(items@));
    }
    let n = items.len();
    let mut i: usize = 0;
    while i < n
        invariant
            n == items@.len(),
            0 <= i <= n,
            seq_model(items@).len() == n,
            forall|j: int| 0 <= j < n ==> #[trigger] seq_model(items@)[j] == items@[j]@,
            forall|j: int| 0 <= j < i ==> enc_value(#[trigger] seq_model(items@)[j]) is Some,
        decreases n - i,
    {
        assert(decreases_to!(items => items@[i as int]));
        if !is_encodable(&items[i]) {
            proof {
                lemma_items_some(seq_model(items@));
            }
            assert(enc_value(seq_model(items@)[i as int]) is None);
            return false;
        }
        i = i + 1;
    }
    true
}

/// Whether the format can carry the value of each entry.
pub fn entries_encodable(entries: &Vec<(String, Value)>) -> (r: bool)
    ensures
        r == enc_fields(entries_model(entries@)) is Some,
    decreases entries,
{
    proof {
        lemma_entries_model(entries@);
        lemma_fields_some(entries_model(entries@));
    }
    let ghost m = entries_model(entries@);
    let n = entries.len();
    let mut i: usize = 0;
    while i < n
        invariant
            n == entries@.len(),
            m == entries_model(entries@),
            0 <= i <= n,
            m.len() == n,
            forall|j: int| 0 <= j < n ==> #[trigger] m[j] == (entries@[j].0@, entries@[j].1@),
            forall|j: int| 0 <= j < i ==> enc_value(#[trigger] m[j].1) is Some,
        decreases n - i,
    {
        assert(decreases_to!(entries => entries@[i as int].1));
        if !is_encodable(&entries[i].1) {
            proof {
                lemma_fields_some(m);
            }
            assert(enc_value(m[i as int].1) is None);
            return false;
        }
        i = i + 1;
    }
    true
}

} // verus!
