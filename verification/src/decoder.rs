//! Deserialisation of incoming client messages.
//!
//! A client message starts with a mask byte; where bit 3 of the mask is set,
//! a big-endian CRC-32 of everything after it follows. Then come four bytes
//! of message number (skipped), the message type byte and a vector body: an
//! i32 item count and the items, each in the format of [`crate::encoder`].
use crate::checksum::{crc32, crc32_ieee};
use crate::errors::{DecodeError, WrongChecksum};
use crate::text::string_from_utf8;
use crate::value::{
    Value,
    Object,
    SpecValue,
    obj_insert,
    lemma_seq_model,
    seq_model,
};
use vstd::prelude::*;

verus! {

/// The big-endian number in the first four bytes of `b`.
pub open spec fn from_be32(b: Seq<u8>) -> u32 {
    ((b[0] as u32) << 24u32) | ((b[1] as u32) << 16u32) | ((b[2] as u32) << 8u32) | (b[3] as u32)
}

/// The big-endian number in the first eight bytes of `b`.
pub open spec fn from_be64(b: Seq<u8>) -> u64 {
    ((b[0] as u64) << 56u64) | ((b[1] as u64) << 48u64) | ((b[2] as u64) << 40u64) | ((
    b[3] as u64) << 32u64) | ((b[4] as u64) << 24u64) | ((b[5] as u64) << 16u64) | ((
    b[6] as u64) << 8u64) | (b[7] as u64)
}

/// Reads a string length prefix from position `pos` on, given the value
/// gathered so far and the shift of the next 7-bit group. Gives the length
/// and the position after the prefix.
pub open spec fn parse_len_from(s: Seq<u8>, pos: int, value: i32, shift: u32) -> Result<
    (i32, int),
    DecodeError,
>
    decreases s.len() - pos,
{
    if pos < 0 || pos >= s.len() {
        Err(DecodeError::UnexpectedEnd)
    } else if shift >= 32 {
        Err(DecodeError::LengthPrefixTooLong)
    } else if s[pos] & 128u8 != 0 {
        parse_len_from(
            s,
            pos + 1,
            (value + (((s[pos] as i32) & 127i32) << shift)) as i32,
            (shift + 7) as u32,
        )
    } else {
        Ok(((value | ((s[pos] as i32) << shift)) as i32, pos + 1))
    }
}

/// A string without tag at the start of `s`, and the number of bytes it takes.
pub open spec fn parse_str(s: Seq<u8>) -> Result<(Seq<char>, int), DecodeError> {
    match parse_len_from(s, 0, 0, 0) {
        Err(e) => Err(e),
        Ok((len, k)) => if len < 0 {
            Err(DecodeError::NegativeLength)
        } else if k + len > s.len() {
            Err(DecodeError::UnexpectedEnd)
        } else if vstd::utf8::valid_utf8(s.subrange(k, k + len)) {
            Ok((vstd::utf8::decode_utf8(s.subrange(k, k + len)), k + len))
        } else {
            Err(DecodeError::InvalidUtf8)
        },
    }
}

/// A tagged value at the start of `s`, and the number of bytes it takes. An
/// unknown tag stands for a null value of one byte.
pub open spec fn parse_value(s: Seq<u8>) -> Result<(SpecValue, int), DecodeError>
    decreases s.len(), 0int, 0int,
{
    if s.len() == 0 {
        Err(DecodeError::UnexpectedEnd)
    } else if s[0] == 1 {
        if s.len() < 2 {
            Err(DecodeError::UnexpectedEnd)
        } else {
            Ok((SpecValue::Boolean(s[1] != 0), 2))
        }
    } else if s[0] == 2 {
        if s.len() < 5 {
            Err(DecodeError::UnexpectedEnd)
        } else {
            Ok((SpecValue::I32(from_be32(s.subrange(1, 5)) as i32), 5))
        }
    } else if s[0] == 3 {
        if s.len() < 9 {
            Err(DecodeError::UnexpectedEnd)
        } else {
            Ok((SpecValue::I64(from_be64(s.subrange(1, 9)) as i64), 9))
        }
    } else if s[0] == 4 {
        if s.len() < 9 {
            Err(DecodeError::UnexpectedEnd)
        } else {
            Ok((SpecValue::F64(from_be64(s.subrange(1, 9))), 9))
        }
    } else if s[0] == 5 {
        match parse_str(s.skip(1)) {
            Ok((t, k)) => Ok((SpecValue::Str(t), 1 + k)),
            Err(e) => Err(e),
        }
    } else if s[0] == 6 {
        if s.len() < 5 {
            Err(DecodeError::UnexpectedEnd)
        } else {
            match parse_fields(s.skip(5), from_be32(s.subrange(1, 5)) as i32 as int) {
                Ok((m, k)) => Ok((SpecValue::Object(m), 5 + k)),
                Err(e) => Err(e),
            }
        }
    } else if s[0] == 7 {
        if s.len() < 5 {
            Err(DecodeError::UnexpectedEnd)
        } else {
            match parse_items(s.skip(5), from_be32(s.subrange(1, 5)) as i32 as int) {
                Ok((items, k)) => Ok((SpecValue::Vector(items), 5 + k)),
                Err(e) => Err(e),
            }
        }
    } else {
        Ok((SpecValue::Null, 1))
    }
}

/// The first `n` values at the start of `s`, one after the other.
pub open spec fn parse_items(s: Seq<u8>, n: int) -> Result<(Seq<SpecValue>, int), DecodeError>
    decreases s.len(), 1int, n,
{
    if n <= 0 {
        Ok((Seq::empty(), 0))
    } else {
        match parse_items(s, n - 1) {
            Err(e) => Err(e),
            Ok((vs, k)) => if 0 <= k <= s.len() {
                match parse_value(s.skip(k)) {
                    Ok((v, k2)) => Ok((vs.push(v), k + k2)),
                    Err(e) => Err(e),
                }
            } else {
                Err(DecodeError::UnexpectedEnd)
            },
        }
    }
}

/// The first `n` key/value pairs at the start of `s`, gathered into a map: a
/// later pair replaces an earlier one with the same key.
pub open spec fn parse_fields(s: Seq<u8>, n: int) -> Result<
    (Seq<(Seq<char>, SpecValue)>, int),
    DecodeError,
>
    decreases s.len(), 1int, n,
{
    if n <= 0 {
        Ok((Seq::empty(), 0))
    } else {
        match parse_fields(s, n - 1) {
            Err(e) => Err(e),
            Ok((m, k)) => if 0 <= k <= s.len() {
                match parse_str(s.skip(k)) {
                    Err(e) => Err(e),
                    Ok((key, k1)) => if 0 <= k1 <= s.len() - k {
                        match parse_value(s.skip(k + k1)) {
                            Ok((v, k2)) => Ok((obj_insert(m, key, v), k + k1 + k2)),
                            Err(e) => Err(e),
                        }
                    } else {
                        Err(DecodeError::UnexpectedEnd)
                    },
                }
            } else {
                Err(DecodeError::UnexpectedEnd)
            },
        }
    }
}

/// A vector body: the i32 count and that many values.
pub open spec fn parse_vector(s: Seq<u8>) -> Result<(Seq<SpecValue>, int), DecodeError> {
    if s.len() < 4 {
        Err(DecodeError::UnexpectedEnd)
    } else {
        match parse_items(s.skip(4), from_be32(s.subrange(0, 4)) as i32 as int) {
            Ok((items, k)) => Ok((items, 4 + k)),
            Err(e) => Err(e),
        }
    }
}

/// The key of the message type in a decoded message.
pub open spec fn type_key() -> Seq<char> {
    "type"@
}

/// The key of the message items in a decoded message.
pub open spec fn msg_key() -> Seq<char> {
    "msg"@
}

/// Whether the mask byte announces a checksum.
pub open spec fn has_checksum(mask: u8) -> bool {
    mask & 8u8 != 0
}

/// A whole client message: the map with the message type under "type" and
/// the items under "msg". Bytes after the vector are ignored.
pub open spec fn spec_decode(data: Seq<u8>) -> Result<Seq<(Seq<char>, SpecValue)>, DecodeError> {
    if data.len() < 1 {
        Err(DecodeError::UnexpectedEnd)
    } else if has_checksum(data[0]) && data.len() < 5 {
        Err(DecodeError::UnexpectedEnd)
    } else if has_checksum(data[0]) && from_be32(data.subrange(1, 5)) != crc32_ieee(data.skip(5)) {
        Err(DecodeError::WrongChecksum(WrongChecksum()))
    } else {
        let p: int = if has_checksum(data[0]) {
            9
        } else {
            5
        };
        if p >= data.len() {
            Err(DecodeError::UnexpectedEnd)
        } else {
            match parse_vector(data.skip(p + 1)) {
                Ok((items, _)) => Ok(
                    obj_insert(
                        obj_insert(Seq::empty(), type_key(), SpecValue::U8(data[p])),
                        msg_key(),
                        SpecValue::Vector(items),
                    ),
                ),
                Err(e) => Err(e),
            }
        }
    }
}

/// A value takes at least one byte and no more than there are; so does a string.
pub proof fn lemma_parse_bounds(s: Seq<u8>)
    ensures
        parse_value(s) matches Ok((_, k)) ==> 1 <= k <= s.len(),
        parse_str(s) matches Ok((_, k)) ==> 1 <= k <= s.len(),
{
    lemma_parse_str_bounds(s);
    lemma_value_bounds(s);
}

proof fn lemma_len_bounds(s: Seq<u8>, pos: int, value: i32, shift: u32)
    ensures
        parse_len_from(s, pos, value, shift) matches Ok((_, k)) ==> pos < k <= s.len(),
    decreases s.len() - pos,
{
    if 0 <= pos < s.len() && shift < 32 && s[pos] & 128u8 != 0 {
        lemma_len_bounds(
            s,
            pos + 1,
            (value + (((s[pos] as i32) & 127i32) << shift)) as i32,
            (shift + 7) as u32,
        );
    }
}

proof fn lemma_parse_str_bounds(s: Seq<u8>)
    ensures
        parse_str(s) matches Ok((_, k)) ==> 1 <= k <= s.len(),
{
    lemma_len_bounds(s, 0, 0, 0);
}

proof fn lemma_value_bounds(s: Seq<u8>)
    ensures
        parse_value(s) matches Ok((_, k)) ==> 1 <= k <= s.len(),
    decreases s.len(), 0int, 0int,
{
    if s.len() > 0 {
        if s[0] == 5 {
            lemma_parse_str_bounds(s.skip(1));
        } else if s[0] == 6 && s.len() >= 5 {
            lemma_fields_bounds(s.skip(5), from_be32(s.subrange(1, 5)) as i32 as int);
        } else if s[0] == 7 && s.len() >= 5 {
            lemma_items_bounds(s.skip(5), from_be32(s.subrange(1, 5)) as i32 as int);
        }
    }
}

proof fn lemma_items_bounds(s: Seq<u8>, n: int)
    ensures
        parse_items(s, n) matches Ok((vs, k)) ==> 0 <= k <= s.len() && vs.len() == if n <= 0 {
            0
        } else {
            n
        },
    decreases s.len(), 1int, n,
{
    if n > 0 {
        lemma_items_bounds(s, n - 1);
        if let Ok((vs, k)) = parse_items(s, n - 1) {
            if 0 <= k <= s.len() {
                lemma_value_bounds(s.skip(k));
            }
        }
    }
}

proof fn lemma_fields_bounds(s: Seq<u8>, n: int)
    ensures
        parse_fields(s, n) matches Ok((_, k)) ==> 0 <= k <= s.len(),
    decreases s.len(), 1int, n,
{
    if n > 0 {
        lemma_fields_bounds(s, n - 1);
        if let Ok((m, k)) = parse_fields(s, n - 1) {
            if 0 <= k <= s.len() {
                lemma_parse_str_bounds(s.skip(k));
                if let Ok((key, k1)) = parse_str(s.skip(k)) {
                    if 0 <= k1 <= s.len() - k {
                        lemma_value_bounds(s.skip(k + k1));
                    }
                }
            }
        }
    }
}

/// The bound on the length gathered before the group at `sh`.
spec fn len_bound(v: i32, sh: u32) -> bool {
    &&& sh == 0 ==> v == 0
    &&& sh == 7 ==> 0 <= v < 0x80
    &&& sh == 14 ==> 0 <= v < 0x4000
    &&& sh == 21 ==> 0 <= v < 0x20_0000
    &&& sh == 28 ==> 0 <= v < 0x1000_0000
}

/// Adding a 7-bit group to the length neither overflows nor breaks the bound.
proof fn lemma_len_step(b: u8, v: i32, sh: u32)
    requires
        len_bound(v, sh),
        sh <= 28,
        sh % 7 == 0,
    ensures
        i32::MIN <= v + (((b as i32) & 127i32) << sh) <= i32::MAX,
        len_bound((v + (((b as i32) & 127i32) << sh)) as i32, (sh + 7) as u32),
{
    if sh == 0 {
        assert(0 <= ((b as i32) & 127i32) << 0u32 < 0x80) by (bit_vector);
    } else if sh == 7 {
        assert(0 <= ((b as i32) & 127i32) << 7u32 <= 0x3F80) by (bit_vector);
    } else if sh == 14 {
        assert(0 <= ((b as i32) & 127i32) << 14u32 <= 0x1F_C000) by (bit_vector);
    } else if sh == 21 {
        assert(0 <= ((b as i32) & 127i32) << 21u32 <= 0x0FE0_0000) by (bit_vector);
    } else {
        assert(sh == 28);
        assert(((b as i32) & 127i32) << 28u32 <= 0x7000_0000) by (bit_vector);
    }
}

/// An error in the first `m` items is the error of the first `n >= m` items.
proof fn lemma_items_err(s: Seq<u8>, m: int, n: int)
    requires
        m <= n,
        parse_items(s, m) is Err,
    ensures
        parse_items(s, n) == parse_items(s, m),
    decreases n - m,
{
    if m < n {
        lemma_items_err(s, m, n - 1);
    }
}

/// An error in the first `m` fields is the error of the first `n >= m` fields.
proof fn lemma_fields_err(s: Seq<u8>, m: int, n: int)
    requires
        m <= n,
        parse_fields(s, m) is Err,
    ensures
        parse_fields(s, n) == parse_fields(s, m),
    decreases n - m,
{
    if m < n {
        lemma_fields_err(s, m, n - 1);
    }
}

/// The big-endian number at `pos`.
fn read_u32(data: &[u8], pos: usize) -> (r: u32)
    requires
        pos + 4 <= data@.len(),
    ensures
        r == from_be32(data@.subrange(pos as int, pos + 4)),
{
    ((data[pos] as u32) << 24u32) | ((data[pos + 1] as u32) << 16u32) | ((data[pos + 2] as u32)
        << 8u32) | (data[pos + 3] as u32)
}

/// The big-endian number at `pos`.
fn read_u64(data: &[u8], pos: usize) -> (r: u64)
    requires
        pos + 8 <= data@.len(),
    ensures
        r == from_be64(data@.subrange(pos as int, pos + 8)),
{
    ((data[pos] as u64) << 56u64) | ((data[pos + 1] as u64) << 48u64) | ((data[pos + 2] as u64)
        << 40u64) | ((data[pos + 3] as u64) << 32u64) | ((data[pos + 4] as u64) << 24u64) | ((
    data[pos + 5] as u64) << 16u64) | ((data[pos + 6] as u64) << 8u64) | (data[pos + 7] as u64)
}

/// The boolean byte at `pos`: any nonzero byte is true.
pub fn decode_boolean(data: &[u8], pos: usize) -> (r: Result<(bool, usize), DecodeError>)
    requires
        pos <= data@.len(),
    ensures
        match r {
            Ok((x, p)) => pos + 1 <= data@.len() && p == pos + 1 && x == (data@[pos as int] != 0),
            Err(e) => pos + 1 > data@.len() && e == DecodeError::UnexpectedEnd,
        },
{
    if pos >= data.len() {
        return Err(DecodeError::UnexpectedEnd);
    }
    Ok((data[pos] != 0, pos + 1))
}

/// The big-endian i32 at `pos`.
pub fn decode_int32(data: &[u8], pos: usize) -> (r: Result<(i32, usize), DecodeError>)
    requires
        pos <= data@.len(),
    ensures
        match r {
            Ok((x, p)) => pos + 4 <= data@.len() && p == pos + 4 && x == from_be32(data@.subrange(pos as int, pos + 4)) as i32,
            Err(e) => pos + 4 > data@.len() && e == DecodeError::UnexpectedEnd,
        },
{
    if data.len() - pos < 4 {
        return Err(DecodeError::UnexpectedEnd);
    }
    Ok((read_u32(data, pos) as i32, pos + 4))
}

/// The big-endian i64 at `pos`.
pub fn decode_int64(data: &[u8], pos: usize) -> (r: Result<(i64, usize), DecodeError>)
    requires
        pos <= data@.len(),
    ensures
        match r {
            Ok((x, p)) => pos + 8 <= data@.len() && p == pos + 8 && x == from_be64(data@.subrange(pos as int, pos + 8)) as i64,
            Err(e) => pos + 8 > data@.len() && e == DecodeError::UnexpectedEnd,
        },
{
    if data.len() - pos < 8 {
        return Err(DecodeError::UnexpectedEnd);
    }
    Ok((read_u64(data, pos) as i64, pos + 8))
}

/// The bits of the big-endian double at `pos`.
pub fn decode_float64(data: &[u8], pos: usize) -> (r: Result<(u64, usize), DecodeError>)
    requires
        pos <= data@.len(),
    ensures
        match r {
            Ok((x, p)) => pos + 8 <= data@.len() && p == pos + 8 && x == from_be64(data@.subrange(pos as int, pos + 8)),
            Err(e) => pos + 8 > data@.len() && e == DecodeError::UnexpectedEnd,
        },
{
    if data.len() - pos < 8 {
        return Err(DecodeError::UnexpectedEnd);
    }
    Ok((read_u64(data, pos), pos + 8))
}

/// The string (without tag) at `pos`.
pub fn decode_string(data: &[u8], pos: usize) -> (r: Result<(String, usize), DecodeError>)
    requires
        pos <= data@.len(),
    ensures
        match parse_str(data@.skip(pos as int)) {
            Ok((t, k)) => r matches Ok((x, p)) && x@ == t && p == pos + k,
            Err(e) => r == Err::<(String, usize), DecodeError>(e),
        },
{
    let ghost s = data@.skip(pos as int);
    let mut p: usize = pos;
    let mut shift: u32 = 0;
    let mut value: i32 = 0;
    let n = data.len();
    loop
        invariant
            n == data@.len(),
            s == data@.skip(pos as int),
            pos <= p <= n,
            shift == 7 * (p - pos),
            shift <= 35,
            len_bound(value, shift),
            parse_len_from(s, p - pos, value, shift) == parse_len_from(s, 0, 0, 0),
        decreases n - p,
    {
        if p >= n {
            return Err(DecodeError::UnexpectedEnd);
        }
        let b = data[p];
        assert(s[p - pos] == b);
        if shift >= 32 {
            return Err(DecodeError::LengthPrefixTooLong);
        }
        if b & 128u8 != 0 {
            proof {
                lemma_len_step(b, value, shift);
            }
            value = value + (((b as i32) & 127i32) << shift);
            shift = shift + 7;
            p = p + 1;
        } else {
            let length: i32 = value | ((b as i32) << shift);
            p = p + 1;
            if length < 0 {
                return Err(DecodeError::NegativeLength);
            }
            let len = length as usize;
            if len > n - p {
                return Err(DecodeError::UnexpectedEnd);
            }
            let mut bytes: Vec<u8> = Vec::new();
            let mut i: usize = 0;
            while i < len
                invariant
                    n == data@.len(),
                    p + len <= n,
                    0 <= i <= len,
                    bytes@ == data@.subrange(p as int, p + i),
                decreases len - i,
            {
                bytes.push(data[p + i]);
                assert(data@.subrange(p as int, p + i + 1) =~= data@.subrange(p as int, p + i).push(
                    data@[p + i],
                ));
                i = i + 1;
            }
            assert(s.subrange(p - pos, p - pos + len) =~= data@.subrange(p as int, p + len));
            match string_from_utf8(bytes) {
                Some(text) => {
                    return Ok((text, p + len));
                },
                None => {
                    return Err(DecodeError::InvalidUtf8);
                },
            }
        }
    }
}

/// The tagged value at `pos`.
pub fn decode_value(data: &[u8], pos: usize) -> (r: Result<(Value, usize), DecodeError>)
    requires
        pos <= data@.len(),
    ensures
        match parse_value(data@.skip(pos as int)) {
            Ok((v, k)) => r matches Ok((x, p)) && x@ == v && p == pos + k,
            Err(e) => r == Err::<(Value, usize), DecodeError>(e),
        },
    decreases data@.len() - pos,
{
    let ghost s = data@.skip(pos as int);
    if pos >= data.len() {
        return Err(DecodeError::UnexpectedEnd);
    }
    let datatype = data[pos];
    let p = pos + 1;
    assert(s[0] == datatype);
    assert(s.skip(1) =~= data@.skip(p as int));
    if datatype == 0 {
        Ok((Value::Null, p))
    } else if datatype == 1 {
        let (b, q) = match decode_boolean(data, p) {
            Ok(x) => x,
            Err(e) => {
                return Err(e);
            },
        };
        Ok((Value::Boolean(b), q))
    } else if datatype == 2 {
        let (x, q) = match decode_int32(data, p) {
            Ok(x) => x,
            Err(e) => {
                return Err(e);
            },
        };
        assert(s.subrange(1, 5) =~= data@.subrange(p as int, p + 4));
        Ok((Value::I32(x), q))
    } else if datatype == 3 {
        let (x, q) = match decode_int64(data, p) {
            Ok(x) => x,
            Err(e) => {
                return Err(e);
            },
        };
        assert(s.subrange(1, 9) =~= data@.subrange(p as int, p + 8));
        Ok((Value::I64(x), q))
    } else if datatype == 4 {
        let (x, q) = match decode_float64(data, p) {
            Ok(x) => x,
            Err(e) => {
                return Err(e);
            },
        };
        assert(s.subrange(1, 9) =~= data@.subrange(p as int, p + 8));
        Ok((Value::F64(x), q))
    } else if datatype == 5 {
        let (t, q) = match decode_string(data, p) {
            Ok(x) => x,
            Err(e) => {
                return Err(e);
            },
        };
        Ok((Value::String(t), q))
    } else if datatype == 6 {
        assert(s.len() >= 5 ==> s.subrange(1, 5) =~= data@.skip(p as int).subrange(0, 4));
        assert(s.len() >= 5 ==> s.skip(5) =~= data@.skip(p as int).skip(4));
        let (o, q) = match decode_object(data, p) {
            Ok(x) => x,
            Err(e) => {
                return Err(e);
            },
        };
        Ok((Value::Object(o), q))
    } else if datatype == 7 {
        assert(s.len() >= 5 ==> s.subrange(1, 5) =~= data@.skip(p as int).subrange(0, 4));
        assert(s.len() >= 5 ==> s.skip(5) =~= data@.skip(p as int).skip(4));
        let (items, q) = match decode_vector(data, p) {
            Ok(x) => x,
            Err(e) => {
                return Err(e);
            },
        };
        Ok((Value::Vector(items), q))
    } else {
        Ok((Value::Null, p))
    }
}

/// The vector body (count and items) at `pos`.
pub fn decode_vector(data: &[u8], pos: usize) -> (r: Result<(Vec<Value>, usize), DecodeError>)
    requires
        pos <= data@.len(),
    ensures
        match parse_vector(data@.skip(pos as int)) {
            Ok((items, k)) => r matches Ok((x, p)) && seq_model(x@) == items && p == pos + k,
            Err(e) => r == Err::<(Vec<Value>, usize), DecodeError>(e),
        },
    decreases data@.len() - pos,
{
    let ghost s = data@.skip(pos as int);
    let (length, start) = match decode_int32(data, pos) {
        Ok(x) => x,
        Err(e) => {
            return Err(e);
        },
    };
    assert(start == pos + 4);
    assert(s.subrange(0, 4) =~= data@.subrange(pos as int, pos + 4));
    let ghost t = s.skip(4);
    assert(t =~= data@.skip(start as int));
    let mut vector: Vec<Value> = Vec::new();
    let mut cur: usize = start;
    let mut i: i32 = 0;
    proof {
        lemma_seq_model(vector@);
    }
    while i < length
        invariant
            start == pos + 4,
            start <= cur <= data@.len(),
            t == data@.skip(start as int),
            0 <= i,
            i <= length || length <= 0,
            length <= 0 ==> i == 0,
            s == data@.skip(pos as int),
            s.len() >= 4,
            t == s.skip(4),
            length == from_be32(s.subrange(0, 4)) as i32,
            parse_items(t, i as int) == Ok::<(Seq<SpecValue>, int), DecodeError>(
                (seq_model(vector@), cur - start),
            ),
        decreases length - i,
    {
        proof {
            assert(t.skip(cur - start) =~= data@.skip(cur as int));
            lemma_parse_bounds(data@.skip(cur as int));
        }
        let (v, next) = match decode_value(data, cur) {
            Ok(x) => x,
            Err(e) => {
                proof {
                    assert(parse_items(t, i as int + 1) == Err::<(Seq<SpecValue>, int), DecodeError>(e));
                    lemma_items_err(t, i + 1, length as int);
                    assert(parse_vector(s) == Err::<(Seq<SpecValue>, int), DecodeError>(e));
                }
                return Err(e);
            },
        };
        proof {
            lemma_seq_model(vector@);
        }
        let ghost before = vector@;
        vector.push(v);
        proof {
            lemma_seq_model(vector@);
            assert(vector@.drop_last() =~= before);
            assert(seq_model(vector@) =~= seq_model(before).push(value_model_of(&vector@.last())));
        }
        cur = next;
        i = i + 1;
    }
    proof {
        if length <= 0 {
            assert(parse_items(t, length as int) == parse_items(t, 0));
        }
        assert(parse_items(t, length as int) == Ok::<(Seq<SpecValue>, int), DecodeError>((seq_model(vector@), cur - start)));
        assert(parse_vector(s) == Ok::<(Seq<SpecValue>, int), DecodeError>((seq_model(vector@), cur - pos)));
    }
    Ok((vector, cur))
}

/// The model of a value, named for use in proofs.
spec fn value_model_of(v: &Value) -> SpecValue {
    v@
}

/// The object body (count, then key/value pairs) at `pos`.
pub fn decode_object(data: &[u8], pos: usize) -> (r: Result<(Object, usize), DecodeError>)
    requires
        pos <= data@.len(),
    ensures
        ({
            let s = data@.skip(pos as int);
            if s.len() < 4 {
                r == Err::<(Object, usize), DecodeError>(DecodeError::UnexpectedEnd)
            } else {
                match parse_fields(s.skip(4), from_be32(s.subrange(0, 4)) as i32 as int) {
                    Ok((m, k)) => r matches Ok((x, p)) && x@ == m && p == pos + 4 + k,
                    Err(e) => r == Err::<(Object, usize), DecodeError>(e),
                }
            }
        }),
    decreases data@.len() - pos,
{
    let ghost s = data@.skip(pos as int);
    let (fields, start) = match decode_int32(data, pos) {
        Ok(x) => x,
        Err(e) => {
            return Err(e);
        },
    };
    assert(start == pos + 4);
    assert(s.subrange(0, 4) =~= data@.subrange(pos as int, pos + 4));
    let ghost t = s.skip(4);
    assert(t =~= data@.skip(start as int));
    let mut object = Object::new();
    let mut cur: usize = start;
    let mut i: i32 = 0;
    while i < fields
        invariant
            start == pos + 4,
            start <= cur <= data@.len(),
            t == data@.skip(start as int),
            0 <= i,
            i <= fields || fields <= 0,
            fields <= 0 ==> i == 0,
            s == data@.skip(pos as int),
            s.len() >= 4,
            t == s.skip(4),
            fields == from_be32(s.subrange(0, 4)) as i32,
            parse_fields(t, i as int) == Ok::<(Seq<(Seq<char>, SpecValue)>, int), DecodeError>(
                (object@, cur - start),
            ),
        decreases fields - i,
    {
        proof {
            assert(t.skip(cur - start) =~= data@.skip(cur as int));
            lemma_parse_bounds(data@.skip(cur as int));
        }
        let (key, after_key) = match decode_string(data, cur) {
            Ok(x) => x,
            Err(e) => {
                proof {
                    lemma_fields_err(t, i + 1, fields as int);
                }
                return Err(e);
            },
        };
        proof {
            assert(t.skip(cur - start + (after_key - cur)) =~= data@.skip(after_key as int));
            lemma_parse_bounds(data@.skip(after_key as int));
        }
        let (v, next) = match decode_value(data, after_key) {
            Ok(x) => x,
            Err(e) => {
                proof {
                    lemma_fields_err(t, i + 1, fields as int);
                }
                return Err(e);
            },
        };
        object.insert(key, v);
        cur = next;
        i = i + 1;
    }
    proof {
        if fields <= 0 {
            assert(parse_fields(t, fields as int) == parse_fields(t, 0));
        }
    }
    Ok((object, cur))
}

/// Decodes a whole client message into a map with the message type (a `U8`)
/// under "type" and the items (a `Vector`) under "msg".
pub fn decode(data: &[u8]) -> (r: Result<Object, DecodeError>)
    ensures
        match spec_decode(data@) {
            Ok(m) => r matches Ok(o) && o@ == m,
            Err(e) => r == Err::<Object, DecodeError>(e),
        },
{
    let n = data.len();
    if n < 1 {
        return Err(DecodeError::UnexpectedEnd);
    }
    let mask = data[0];
    let checksummed = mask & 8u8 != 0;
    let mut p: usize = 1;
    if checksummed {
        if n < 5 {
            return Err(DecodeError::UnexpectedEnd);
        }
        let checksum = read_u32(data, 1);
        let mut rest: Vec<u8> = Vec::new();
        let mut i: usize = 5;
        while i < n
            invariant
                n == data@.len(),
                5 <= i <= n,
                rest@ == data@.subrange(5, i as int),
            decreases n - i,
        {
            rest.push(data[i]);
            assert(data@.subrange(5, i as int + 1) =~= data@.subrange(5, i as int).push(
                data@[i as int],
            ));
            i = i + 1;
        }
        assert(rest@ =~= data@.skip(5));
        let real_checksum = crc32(rest.as_slice());
        if checksum != real_checksum {
            return Err(DecodeError::WrongChecksum(WrongChecksum()));
        }
        p = 5;
    }
    // the client message number
    p = p + 4;
    if p >= n {
        return Err(DecodeError::UnexpectedEnd);
    }
    let msg_type = data[p];
    let (items, _) = match decode_vector(data, p + 1) {
        Ok(x) => x,
        Err(e) => {
            return Err(e);
        },
    };
    let mut message = Object::new();
    message.insert("type".to_owned(), Value::U8(msg_type));
    message.insert("msg".to_owned(), Value::Vector(items));
    Ok(message)
}

} // verus!
