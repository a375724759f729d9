//! Laws of the wire format: what the decoder gives back of what the encoder wrote.
use crate::checksum::crc32_ieee;
use crate::decoder::{
    parse_len_from,
    parse_str,
    parse_value,
    parse_items,
    parse_fields,
    parse_vector,
    spec_decode,
    from_be32,
    from_be64,
    has_checksum,
    type_key,
    msg_key,
};
use crate::encoder::{varint, be32, be64, enc_str, enc_count, enc_value, enc_items, enc_fields, enc_message};
use crate::errors::DecodeError;
use crate::framing::{FrameStep, frame_mask, spec_frame, spec_next_frame};
use crate::value::{SpecValue, obj_insert, distinct_keys, lemma_key_index};
use vstd::prelude::*;

verus! {

proof fn lemma_len_group_0(u: u32, v: i32, b: u8)
    requires
        v == (u % 1) as i32,
        b == (u / 1 % 128 + 128) as u8,
    ensures
        b & 128u8 != 0,
        (v + (((b as i32) & 127i32) << 0u32)) as i32 == (u % 128) as i32,
{
    assert(b & 128u8 != 0 && (v + (((b as i32) & 127i32) << 0u32)) as i32 == (u % 128) as i32)
        by (bit_vector)
        requires
            v == (u % 1) as i32,
            b == (u / 1 % 128 + 128) as u8,
    ;
}

proof fn lemma_len_group_7(u: u32, v: i32, b: u8)
    requires
        v == (u % 128) as i32,
        b == (u / 128 % 128 + 128) as u8,
    ensures
        b & 128u8 != 0,
        (v + (((b as i32) & 127i32) << 7u32)) as i32 == (u % 16384) as i32,
{
    assert(b & 128u8 != 0 && (v + (((b as i32) & 127i32) << 7u32)) as i32 == (u % 16384) as i32)
        by (bit_vector)
        requires
            v == (u % 128) as i32,
            b == (u / 128 % 128 + 128) as u8,
    ;
}

proof fn lemma_len_group_14(u: u32, v: i32, b: u8)
    requires
        v == (u % 16384) as i32,
        b == (u / 16384 % 128 + 128) as u8,
    ensures
        b & 128u8 != 0,
        (v + (((b as i32) & 127i32) << 14u32)) as i32 == (u % 2097152) as i32,
{
    assert(b & 128u8 != 0 && (v + (((b as i32) & 127i32) << 14u32)) as i32 == (u % 2097152) as i32)
        by (bit_vector)
        requires
            v == (u % 16384) as i32,
            b == (u / 16384 % 128 + 128) as u8,
    ;
}

proof fn lemma_len_group_21(u: u32, v: i32, b: u8)
    requires
        v == (u % 2097152) as i32,
        b == (u / 2097152 % 128 + 128) as u8,
    ensures
        b & 128u8 != 0,
        (v + (((b as i32) & 127i32) << 21u32)) as i32 == (u % 268435456) as i32,
{
    assert(b & 128u8 != 0 && (v + (((b as i32) & 127i32) << 21u32)) as i32 == (u % 268435456) as i32)
        by (bit_vector)
        requires
            v == (u % 2097152) as i32,
            b == (u / 2097152 % 128 + 128) as u8,
    ;
}

proof fn lemma_len_last_0(u: u32, v: i32, b: u8)
    requires
        v == (u % 1) as i32,
        b == (u / 1 % 128) as u8,
        u < 128,
    ensures
        b & 128u8 == 0,
        (v | ((b as i32) << 0u32)) as i32 == u as i32,
{
    assert(b & 128u8 == 0 && (v | ((b as i32) << 0u32)) as i32 == u as i32) by (bit_vector)
        requires
            v == (u % 1) as i32,
            b == (u / 1 % 128) as u8,
            u < 128,
    ;
}

proof fn lemma_len_last_7(u: u32, v: i32, b: u8)
    requires
        v == (u % 128) as i32,
        b == (u / 128 % 128) as u8,
        u < 16384,
    ensures
        b & 128u8 == 0,
        (v | ((b as i32) << 7u32)) as i32 == u as i32,
{
    assert(b & 128u8 == 0 && (v | ((b as i32) << 7u32)) as i32 == u as i32) by (bit_vector)
        requires
            v == (u % 128) as i32,
            b == (u / 128 % 128) as u8,
            u < 16384,
    ;
}

proof fn lemma_len_last_14(u: u32, v: i32, b: u8)
    requires
        v == (u % 16384) as i32,
        b == (u / 16384 % 128) as u8,
        u < 2097152,
    ensures
        b & 128u8 == 0,
        (v | ((b as i32) << 14u32)) as i32 == u as i32,
{
    assert(b & 128u8 == 0 && (v | ((b as i32) << 14u32)) as i32 == u as i32) by (bit_vector)
        requires
            v == (u % 16384) as i32,
            b == (u / 16384 % 128) as u8,
            u < 2097152,
    ;
}

proof fn lemma_len_last_21(u: u32, v: i32, b: u8)
    requires
        v == (u % 2097152) as i32,
        b == (u / 2097152 % 128) as u8,
        u < 268435456,
    ensures
        b & 128u8 == 0,
        (v | ((b as i32) << 21u32)) as i32 == u as i32,
{
    assert(b & 128u8 == 0 && (v | ((b as i32) << 21u32)) as i32 == u as i32) by (bit_vector)
        requires
            v == (u % 2097152) as i32,
            b == (u / 2097152 % 128) as u8,
            u < 268435456,
    ;
}

proof fn lemma_len_last_28(u: u32, v: i32, b: u8)
    requires
        v == (u % 268435456) as i32,
        b == (u / 268435456 % 128) as u8,
        u < 2147483648,
    ensures
        b & 128u8 == 0,
        (v | ((b as i32) << 28u32)) as i32 == u as i32,
{
    assert(b & 128u8 == 0 && (v | ((b as i32) << 28u32)) as i32 == u as i32) by (bit_vector)
        requires
            v == (u % 268435456) as i32,
            b == (u / 268435456 % 128) as u8,
            u < 2147483648,
    ;
}

/// A length prefix written for `n < 2^31` reads back as `n`, taking all of its bytes.
pub proof fn lemma_varint_roundtrip(n: nat, rest: Seq<u8>)
    requires
        n < 0x8000_0000,
    ensures
        parse_len_from(varint(n) + rest, 0, 0, 0) == Ok::<(i32, int), DecodeError>(
            (n as i32, varint(n).len() as int),
        ),
        1 <= varint(n).len() <= 5,
{
    let u = n as u32;
    let s = varint(n) + rest;
    assert(0i32 == (u % 1) as i32) by (bit_vector);
    if n < 0x80 {
        let b0 = (u / 1 % 128) as u8;
        assert(varint(n / 1) == seq![b0]);
        assert(varint(n) =~= seq![b0]);
        assert(s[0] == b0);
        let v0 = 0i32;
        lemma_len_last_0(u, v0, b0);
        assert(parse_len_from(s, 0, v0, 0) == Ok::<(i32, int), DecodeError>(((v0 | ((b0 as i32) << 0u32)) as i32, 1)));
    } else if n < 0x4000 {
        let b0 = (u / 1 % 128 + 128) as u8;
        let b1 = (u / 128 % 128) as u8;
        assert(varint(n / 128) == seq![b1]);
        assert(n / 1 / 128 == n / 128);
        assert(varint(n / 1) == seq![b0] + varint(n / 128));
        assert(varint(n) =~= seq![b0, b1]);
        assert(s[0] == b0);
        assert(s[1] == b1);
        let v0 = 0i32;
        lemma_len_group_0(u, v0, b0);
        let v1 = (v0 + (((b0 as i32) & 127i32) << 0u32)) as i32;
        lemma_len_last_7(u, v1, b1);
        assert(parse_len_from(s, 1, v1, 7) == Ok::<(i32, int), DecodeError>(((v1 | ((b1 as i32) << 7u32)) as i32, 2)));
        assert(parse_len_from(s, 0, v0, 0) == parse_len_from(s, 1, v1, 7));
    } else if n < 0x200000 {
        let b0 = (u / 1 % 128 + 128) as u8;
        let b1 = (u / 128 % 128 + 128) as u8;
        let b2 = (u / 16384 % 128) as u8;
        assert(varint(n / 16384) == seq![b2]);
        assert(n / 128 / 128 == n / 16384);
        assert(varint(n / 128) == seq![b1] + varint(n / 16384));
        assert(n / 1 / 128 == n / 128);
        assert(varint(n / 1) == seq![b0] + varint(n / 128));
        assert(varint(n) =~= seq![b0, b1, b2]);
        assert(s[0] == b0);
        assert(s[1] == b1);
        assert(s[2] == b2);
        let v0 = 0i32;
        lemma_len_group_0(u, v0, b0);
        let v1 = (v0 + (((b0 as i32) & 127i32) << 0u32)) as i32;
        lemma_len_group_7(u, v1, b1);
        let v2 = (v1 + (((b1 as i32) & 127i32) << 7u32)) as i32;
        lemma_len_last_14(u, v2, b2);
        assert(parse_len_from(s, 2, v2, 14) == Ok::<(i32, int), DecodeError>(((v2 | ((b2 as i32) << 14u32)) as i32, 3)));
        assert(parse_len_from(s, 1, v1, 7) == parse_len_from(s, 2, v2, 14));
        assert(parse_len_from(s, 0, v0, 0) == parse_len_from(s, 1, v1, 7));
    } else if n < 0x10000000 {
        let b0 = (u / 1 % 128 + 128) as u8;
        let b1 = (u / 128 % 128 + 128) as u8;
        let b2 = (u / 16384 % 128 + 128) as u8;
        let b3 = (u / 2097152 % 128) as u8;
        assert(varint(n / 2097152) == seq![b3]);
        assert(n / 16384 / 128 == n / 2097152);
        assert(varint(n / 16384) == seq![b2] + varint(n / 2097152));
        assert(n / 128 / 128 == n / 16384);
        assert(varint(n / 128) == seq![b1] + varint(n / 16384));
        assert(n / 1 / 128 == n / 128);
        assert(varint(n / 1) == seq![b0] + varint(n / 128));
        assert(varint(n) =~= seq![b0, b1, b2, b3]);
        assert(s[0] == b0);
        assert(s[1] == b1);
        assert(s[2] == b2);
        assert(s[3] == b3);
        let v0 = 0i32;
        lemma_len_group_0(u, v0, b0);
        let v1 = (v0 + (((b0 as i32) & 127i32) << 0u32)) as i32;
        lemma_len_group_7(u, v1, b1);
        let v2 = (v1 + (((b1 as i32) & 127i32) << 7u32)) as i32;
        lemma_len_group_14(u, v2, b2);
        let v3 = (v2 + (((b2 as i32) & 127i32) << 14u32)) as i32;
        lemma_len_last_21(u, v3, b3);
        assert(parse_len_from(s, 3, v3, 21) == Ok::<(i32, int), DecodeError>(((v3 | ((b3 as i32) << 21u32)) as i32, 4)));
        assert(parse_len_from(s, 2, v2, 14) == parse_len_from(s, 3, v3, 21));
        assert(parse_len_from(s, 1, v1, 7) == parse_len_from(s, 2, v2, 14));
        assert(parse_len_from(s, 0, v0, 0) == parse_len_from(s, 1, v1, 7));
    } else {
        let b0 = (u / 1 % 128 + 128) as u8;
        let b1 = (u / 128 % 128 + 128) as u8;
        let b2 = (u / 16384 % 128 + 128) as u8;
        let b3 = (u / 2097152 % 128 + 128) as u8;
        let b4 = (u / 268435456 % 128) as u8;
        assert(varint(n / 268435456) == seq![b4]);
        assert(n / 2097152 / 128 == n / 268435456);
        assert(varint(n / 2097152) == seq![b3] + varint(n / 268435456));
        assert(n / 16384 / 128 == n / 2097152);
        assert(varint(n / 16384) == seq![b2] + varint(n / 2097152));
        assert(n / 128 / 128 == n / 16384);
        assert(varint(n / 128) == seq![b1] + varint(n / 16384));
        assert(n / 1 / 128 == n / 128);
        assert(varint(n / 1) == seq![b0] + varint(n / 128));
        assert(varint(n) =~= seq![b0, b1, b2, b3, b4]);
        assert(s[0] == b0);
        assert(s[1] == b1);
        assert(s[2] == b2);
        assert(s[3] == b3);
        assert(s[4] == b4);
        let v0 = 0i32;
        lemma_len_group_0(u, v0, b0);
        let v1 = (v0 + (((b0 as i32) & 127i32) << 0u32)) as i32;
        lemma_len_group_7(u, v1, b1);
        let v2 = (v1 + (((b1 as i32) & 127i32) << 7u32)) as i32;
        lemma_len_group_14(u, v2, b2);
        let v3 = (v2 + (((b2 as i32) & 127i32) << 14u32)) as i32;
        lemma_len_group_21(u, v3, b3);
        let v4 = (v3 + (((b3 as i32) & 127i32) << 21u32)) as i32;
        lemma_len_last_28(u, v4, b4);
        assert(parse_len_from(s, 4, v4, 28) == Ok::<(i32, int), DecodeError>(((v4 | ((b4 as i32) << 28u32)) as i32, 5)));
        assert(parse_len_from(s, 3, v3, 21) == parse_len_from(s, 4, v4, 28));
        assert(parse_len_from(s, 2, v2, 14) == parse_len_from(s, 3, v3, 21));
        assert(parse_len_from(s, 1, v1, 7) == parse_len_from(s, 2, v2, 14));
        assert(parse_len_from(s, 0, v0, 0) == parse_len_from(s, 1, v1, 7));
    }
}

/// A string whose UTF-8 form is short enough for its length to read back.
pub open spec fn wf_str(s: Seq<char>) -> bool {
    vstd::utf8::encode_utf8(s).len() < 0x8000_0000
}

/// A value that the wire format carries faithfully: it holds no `U8` and no
/// `Date`, its strings are shorter than 2^31 bytes, its vectors and objects
/// have at most `i32::MAX` elements, and no object repeats a key.
pub open spec fn wf_value(v: SpecValue) -> bool
    decreases v,
{
    match v {
        SpecValue::U8(_) => false,
        SpecValue::Date(_) => false,
        SpecValue::Str(s) => wf_str(s),
        SpecValue::Vector(items) => items.len() <= i32::MAX && wf_items(items),
        SpecValue::Object(m) => m.len() <= i32::MAX && distinct_keys(m) && wf_fields(m),
        _ => true,
    }
}

/// Every item is carried faithfully.
pub open spec fn wf_items(s: Seq<SpecValue>) -> bool
    decreases s,
{
    s.len() == 0 || (wf_items(s.drop_last()) && wf_value(s.last()))
}

/// Every key and value is carried faithfully.
pub open spec fn wf_fields(m: Seq<(Seq<char>, SpecValue)>) -> bool
    decreases m,
{
    m.len() == 0 || (wf_fields(m.drop_last()) && wf_str(m.last().0) && wf_value(m.last().1))
}

proof fn lemma_be32(w: u32)
    ensures
        from_be32(be32(w)) == w,
{
    let b = be32(w);
    assert(b[0] == (w >> 24u32) as u8 && b[1] == (w >> 16u32) as u8 && b[2] == (w >> 8u32) as u8
        && b[3] == w as u8);
    assert(((((w >> 24u32) as u8) as u32) << 24u32) | ((((w >> 16u32) as u8) as u32) << 16u32) | ((
    ((w >> 8u32) as u8) as u32) << 8u32) | ((w as u8) as u32) == w) by (bit_vector);
}

proof fn lemma_be64(w: u64)
    ensures
        from_be64(be64(w)) == w,
{
    let b = be64(w);
    assert(b[0] == (w >> 56u64) as u8 && b[1] == (w >> 48u64) as u8 && b[2] == (w >> 40u64) as u8
        && b[3] == (w >> 32u64) as u8 && b[4] == (w >> 24u64) as u8 && b[5] == (w >> 16u64) as u8
        && b[6] == (w >> 8u64) as u8 && b[7] == w as u8);
    assert(((((w >> 56u64) as u8) as u64) << 56u64) | ((((w >> 48u64) as u8) as u64) << 48u64) | ((
    ((w >> 40u64) as u8) as u64) << 40u64) | ((((w >> 32u64) as u8) as u64) << 32u64) | ((((w
        >> 24u64) as u8) as u64) << 24u64) | ((((w >> 16u64) as u8) as u64) << 16u64) | ((((w
        >> 8u64) as u8) as u64) << 8u64) | ((w as u8) as u64) == w) by (bit_vector);
}

proof fn lemma_count(n: nat)
    requires
        n <= i32::MAX,
    ensures
        from_be32(enc_count(n)) as i32 as int == n,
{
    let x = n as i32;
    lemma_be32(x as u32);
    assert((x as u32) as i32 == x) by (bit_vector);
}

/// A string written without tag reads back, taking all of its bytes.
pub proof fn lemma_str_roundtrip(t: Seq<char>, rest: Seq<u8>)
    requires
        wf_str(t),
    ensures
        parse_str(enc_str(t) + rest) == Ok::<(Seq<char>, int), DecodeError>(
            (t, enc_str(t).len() as int),
        ),
{
    let e = vstd::utf8::encode_utf8(t);
    let n = e.len();
    lemma_varint_roundtrip(n, e + rest);
    let s = enc_str(t) + rest;
    assert(s =~= varint(n) + (e + rest));
    let k = varint(n).len() as int;
    assert(s.subrange(k, k + n) =~= e);
    vstd::utf8::encode_utf8_valid_utf8(t);
    vstd::utf8::encode_utf8_decode_utf8(t);
}

/// What the encoder writes of a value, the decoder reads back whole, whatever follows.
pub proof fn lemma_value_roundtrip(v: SpecValue, rest: Seq<u8>)
    requires
        wf_value(v),
    ensures
        enc_value(v) is Some,
        parse_value(enc_value(v).unwrap() + rest) == Ok::<(SpecValue, int), DecodeError>(
            (v, enc_value(v).unwrap().len() as int),
        ),
    decreases v,
{
    match v {
        SpecValue::Object(m) => {
            lemma_fields_roundtrip(m, rest);
            lemma_object_roundtrip(m, rest);
        },
        SpecValue::Vector(items) => {
            lemma_items_roundtrip(items, rest);
            lemma_vector_roundtrip(items, rest);
        },
        _ => {
            lemma_scalar_roundtrip(v, rest);
        },
    }
}

/// The round trip of a value that holds no other value.
proof fn lemma_scalar_roundtrip(v: SpecValue, rest: Seq<u8>)
    requires
        wf_value(v),
        !(v is Object),
        !(v is Vector),
    ensures
        enc_value(v) is Some,
        parse_value(enc_value(v).unwrap() + rest) == Ok::<(SpecValue, int), DecodeError>(
            (v, enc_value(v).unwrap().len() as int),
        ),
{
    match v {
        SpecValue::Null => {
            let s = seq![0u8] + rest;
            assert(s[0] == 0);
        },
        SpecValue::Boolean(b) => {
            let s = seq![1u8, if b { 1u8 } else { 0u8 }] + rest;
            assert(s[0] == 1 && s[1] == if b { 1u8 } else { 0u8 });
        },
        SpecValue::I32(x) => {
            let s = seq![2u8] + be32(x as u32) + rest;
            assert(s.subrange(1, 5) =~= be32(x as u32));
            lemma_be32(x as u32);
            assert((x as u32) as i32 == x) by (bit_vector);
            assert(s[0] == 2);
        },
        SpecValue::I64(x) => {
            let s = seq![3u8] + be64(x as u64) + rest;
            assert(s.subrange(1, 9) =~= be64(x as u64));
            lemma_be64(x as u64);
            assert((x as u64) as i64 == x) by (bit_vector);
            assert(s[0] == 3);
        },
        SpecValue::F64(x) => {
            let s = seq![4u8] + be64(x) + rest;
            assert(s.subrange(1, 9) =~= be64(x));
            lemma_be64(x);
            assert(s[0] == 4);
        },
        SpecValue::Str(t) => {
            let s = seq![5u8] + enc_str(t) + rest;
            assert(s.skip(1) =~= enc_str(t) + rest);
            lemma_str_roundtrip(t, rest);
            assert(s[0] == 5);
        },
        _ => {},
    }
}

/// The round trip of an object, given that of its entries.
proof fn lemma_object_roundtrip(m: Seq<(Seq<char>, SpecValue)>, rest: Seq<u8>)
    requires
        m.len() <= i32::MAX,
        enc_fields(m) is Some,
        parse_fields(enc_fields(m).unwrap() + rest, m.len() as int) == Ok::<
            (Seq<(Seq<char>, SpecValue)>, int),
            DecodeError,
        >((m, enc_fields(m).unwrap().len() as int)),
    ensures
        enc_value(SpecValue::Object(m)) is Some,
        parse_value(enc_value(SpecValue::Object(m)).unwrap() + rest) == Ok::<
            (SpecValue, int),
            DecodeError,
        >((SpecValue::Object(m), enc_value(SpecValue::Object(m)).unwrap().len() as int)),
{
    let f = enc_fields(m).unwrap();
    let s = seq![6u8] + enc_count(m.len()) + f + rest;
    assert(s.subrange(1, 5) =~= enc_count(m.len()));
    assert(s.skip(5) =~= f + rest);
    lemma_count(m.len());
    assert(s[0] == 6);
    assert(enc_value(SpecValue::Object(m)).unwrap() + rest =~= s);
}

/// The round trip of a vector, given that of its items.
proof fn lemma_vector_roundtrip(items: Seq<SpecValue>, rest: Seq<u8>)
    requires
        items.len() <= i32::MAX,
        enc_items(items) is Some,
        parse_items(enc_items(items).unwrap() + rest, items.len() as int) == Ok::<
            (Seq<SpecValue>, int),
            DecodeError,
        >((items, enc_items(items).unwrap().len() as int)),
    ensures
        enc_value(SpecValue::Vector(items)) is Some,
        parse_value(enc_value(SpecValue::Vector(items)).unwrap() + rest) == Ok::<
            (SpecValue, int),
            DecodeError,
        >((SpecValue::Vector(items), enc_value(SpecValue::Vector(items)).unwrap().len() as int)),
{
    let f = enc_items(items).unwrap();
    let s = seq![7u8] + enc_count(items.len()) + f + rest;
    assert(s.subrange(1, 5) =~= enc_count(items.len()));
    assert(s.skip(5) =~= f + rest);
    lemma_count(items.len());
    assert(s[0] == 7);
    assert(enc_value(SpecValue::Vector(items)).unwrap() + rest =~= s);
}

/// What the encoder writes of a sequence of values reads back as the same
/// sequence, taking all of its bytes.
pub proof fn lemma_items_roundtrip(items: Seq<SpecValue>, rest: Seq<u8>)
    requires
        wf_items(items),
    ensures
        enc_items(items) is Some,
        parse_items(enc_items(items).unwrap() + rest, items.len() as int) == Ok::<
            (Seq<SpecValue>, int),
            DecodeError,
        >((items, enc_items(items).unwrap().len() as int)),
    decreases items,
{
    if items.len() > 0 {
        let init = items.drop_last();
        let last = items.last();
        lemma_value_roundtrip(last, rest);
        let b = enc_value(last).unwrap();
        lemma_items_roundtrip(init, b + rest);
        let a = enc_items(init).unwrap();
        let s = enc_items(items).unwrap() + rest;
        assert(s =~= a + (b + rest));
        assert(s.skip(a.len() as int) =~= b + rest);
        assert(init.push(last) =~= items);
        assert(enc_items(items) == Some(a + b));
        assert(parse_items(s, items.len() - 1) == Ok::<(Seq<SpecValue>, int), DecodeError>(
            (init, a.len() as int),
        ));
    } else {
        assert(enc_items(items).unwrap() == Seq::<u8>::empty());
        assert(items =~= Seq::<SpecValue>::empty());
    }
}

/// What the encoder writes of object entries with distinct keys reads back as
/// the same entries, taking all of their bytes.
#[verifier::rlimit(40)]
pub proof fn lemma_fields_roundtrip(m: Seq<(Seq<char>, SpecValue)>, rest: Seq<u8>)
    requires
        wf_fields(m),
        distinct_keys(m),
    ensures
        enc_fields(m) is Some,
        parse_fields(enc_fields(m).unwrap() + rest, m.len() as int) == Ok::<
            (Seq<(Seq<char>, SpecValue)>, int),
            DecodeError,
        >((m, enc_fields(m).unwrap().len() as int)),
    decreases m,
{
    if m.len() > 0 {
        let init = m.drop_last();
        let (key, last) = m.last();
        lemma_value_roundtrip(last, rest);
        let b = enc_value(last).unwrap();
        let c = enc_str(key);
        lemma_str_roundtrip(key, b + rest);
        assert(distinct_keys(init));
        lemma_fields_roundtrip(init, c + b + rest);
        let a = enc_fields(init).unwrap();
        let s = enc_fields(m).unwrap() + rest;
        assert(s =~= a + (c + b + rest));
        assert(s.skip(a.len() as int) =~= c + (b + rest));
        assert(s.skip((a.len() + c.len()) as int) =~= b + rest);
        lemma_key_index(init, key);
        assert forall|j: int| 0 <= j < init.len() implies init[j].0 != key by {
            assert(m[j].0 != m[m.len() - 1].0);
        }
        assert(obj_insert(init, key, last) =~= m);
        assert(enc_fields(m) == Some(a + c + b));
        assert(parse_fields(s, m.len() - 1) == Ok::<
            (Seq<(Seq<char>, SpecValue)>, int),
            DecodeError,
        >((init, a.len() as int)));
    } else {
        assert(enc_fields(m).unwrap() == Seq::<u8>::empty());
        assert(m =~= Seq::<(Seq<char>, SpecValue)>::empty());
    }
}

/// The bytes a client sends for a message: the mask, where the mask asks for
/// one the CRC-32 of the rest, then the message number, the body and anything after.
pub open spec fn client_message(mask: u8, tail: Seq<u8>) -> Seq<u8> {
    if has_checksum(mask) {
        seq![mask] + be32(crc32_ieee(tail)) + tail
    } else {
        seq![mask] + tail
    }
}

/// A vector body written by the encoder reads back as its items.
proof fn lemma_vector_body(items: Seq<SpecValue>, rest: Seq<u8>)
    requires
        items.len() <= i32::MAX,
        wf_items(items),
    ensures
        enc_items(items) is Some,
        parse_vector(enc_count(items.len()) + enc_items(items).unwrap() + rest) matches Ok(
            (vs, _),
        ) && vs == items,
{
    lemma_items_roundtrip(items, rest);
    lemma_count(items.len());
    let f = enc_items(items).unwrap();
    let v = enc_count(items.len()) + f + rest;
    assert(v.subrange(0, 4) =~= enc_count(items.len()));
    assert(v.skip(4) =~= f + rest);
}

/// A message whose body the encoder wrote decodes to its type and its items,
/// with or without checksum, whatever message number it carries and whatever follows.
pub proof fn lemma_message_roundtrip(
    mask: u8,
    number: Seq<u8>,
    items: Seq<SpecValue>,
    type_: u8,
    rest: Seq<u8>,
)
    requires
        number.len() == 4,
        items.len() <= i32::MAX,
        wf_items(items),
    ensures
        enc_message(items, type_) is Some,
        spec_decode(client_message(mask, number + enc_message(items, type_).unwrap() + rest))
            == Ok::<Seq<(Seq<char>, SpecValue)>, DecodeError>(
            obj_insert(
                obj_insert(Seq::empty(), type_key(), SpecValue::U8(type_)),
                msg_key(),
                SpecValue::Vector(items),
            ),
        ),
{
    lemma_vector_body(items, rest);
    let f = enc_items(items).unwrap();
    let body = enc_message(items, type_).unwrap();
    assert(body == seq![type_] + enc_count(items.len()) + f);
    let tail = number + body + rest;
    let data = client_message(mask, tail);
    let h: int = if has_checksum(mask) {
        5
    } else {
        1
    };
    assert(data.skip(h) =~= tail);
    if has_checksum(mask) {
        assert(data.subrange(1, 5) =~= be32(crc32_ieee(tail)));
        lemma_be32(crc32_ieee(tail));
    }
    assert(data[0] == mask);
    assert(data[h + 4] == type_);
    assert(data.skip(h + 5) =~= enc_count(items.len()) + f + rest);
}

/// The reader finds in a frame that the server wrote exactly the mask,
/// checksum and body that went into it, whatever follows the frame.
pub proof fn lemma_frame_roundtrip(data: Seq<u8>, checksummed: bool, rest: Seq<u8>)
    requires
        data.len() + 5 <= i32::MAX,
    ensures
        ({
            let h: int = if checksummed {
                5
            } else {
                1
            };
            let f = spec_frame(data, checksummed) + rest;
            &&& spec_next_frame(f, 0) == FrameStep::Frame(4, (4 + h + data.len()) as usize)
            &&& f.subrange(4, 4 + h + data.len()) == seq![frame_mask(checksummed)] + (
            if checksummed {
                be32(crc32_ieee(data))
            } else {
                Seq::<u8>::empty()
            }) + data
        }),
{
    let h: int = if checksummed {
        5
    } else {
        1
    };
    let x = (data.len() + h) as i32;
    lemma_be32(x as u32);
    assert((x as u32) as i32 == x) by (bit_vector);
    let f = spec_frame(data, checksummed) + rest;
    assert(f.subrange(0, 4) =~= be32(x as u32));
    assert(f.subrange(4, 4 + h + data.len()) =~= seq![frame_mask(checksummed)] + (
    if checksummed {
        be32(crc32_ieee(data))
    } else {
        Seq::<u8>::empty()
    }) + data);
}

} // verus!
