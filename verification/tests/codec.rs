use avacity::decoder::{decode, decode_boolean, decode_int32, decode_int64, decode_object, decode_string, decode_value, decode_vector};
use avacity::encoder::{
    encode, encode_boolean, encode_float, encode_int32, encode_int64, encode_none, encode_object, encode_string, encode_value,
    encode_vector, TYPE_NOT_FOUND,
};
use avacity::errors::{DecodeError, WrongChecksum, WRONG_CHECKSUM_TEXT};
use avacity::value::{Object, Value, CONVERT_ERROR};

fn s(x: &str) -> Value {
    Value::String(x.to_owned())
}

fn client_message(checksummed: bool, body: &[u8]) -> Vec<u8> {
    let mut tail = vec![0u8, 0, 0, 7];
    tail.extend_from_slice(body);
    let mut out = Vec::new();
    if checksummed {
        out.push(8u8);
        out.extend_from_slice(&crc::crc32::checksum_ieee(&tail).to_be_bytes());
    } else {
        out.push(0u8);
    }
    out.extend_from_slice(&tail);
    out
}

fn sample_object() -> Object {
    let mut o = Object::new();
    o.insert("uid".to_owned(), s("42"));
    o.insert("x".to_owned(), Value::F64(1.5f64.to_bits()));
    o.insert("n".to_owned(), Value::I32(-3));
    o.insert("big".to_owned(), Value::I64(1 << 40));
    o.insert("ok".to_owned(), Value::Boolean(true));
    o.insert("none".to_owned(), Value::Null);
    o.insert("list".to_owned(), Value::Vector(vec![Value::I32(1), s("two")]));
    o
}

#[test]
fn encode_scalars_exact_bytes() {
    assert_eq!(encode_none(), vec![0]);
    assert_eq!(encode_boolean(true), vec![1, 1]);
    assert_eq!(encode_boolean(false), vec![1, 0]);
    assert_eq!(encode_int32(-2), vec![2, 0xFF, 0xFF, 0xFF, 0xFE]);
    assert_eq!(encode_int64(258), vec![3, 0, 0, 0, 0, 0, 0, 1, 2]);
    assert_eq!(encode_float(1.0f64.to_bits()), vec![4, 0x3F, 0xF0, 0, 0, 0, 0, 0, 0]);
}

#[test]
fn encode_string_length_prefix() {
    assert_eq!(encode_string(&"ab".to_owned(), false), vec![5, 2, b'a', b'b']);
    assert_eq!(encode_string(&"ab".to_owned(), true), vec![2, b'a', b'b']);
    let long = "x".repeat(300);
    let bytes = encode_string(&long, true);
    assert_eq!(&bytes[..2], &[0xAC, 0x02]);
    assert_eq!(bytes.len(), 302);
}

#[test]
fn encode_containers() {
    let mut o = Object::new();
    o.insert("k".to_owned(), Value::I32(1));
    assert_eq!(encode_object(&o), vec![6, 0, 0, 0, 1, 1, b'k', 2, 0, 0, 0, 1]);
    assert_eq!(encode_vector(&vec![Value::Null, Value::Boolean(true)]), vec![7, 0, 0, 0, 2, 0, 1, 1]);
    assert_eq!(encode(&vec![s("a.b")], 34), Ok(vec![34, 0, 0, 0, 1, 5, 3, b'a', b'.', b'b']));
}

#[test]
fn encode_value_refuses_unencodable_kinds() {
    assert_eq!(encode_value(&Value::U8(3)), Err(TYPE_NOT_FOUND));
    assert_eq!(encode_value(&Value::Date(5)), Err(TYPE_NOT_FOUND));
    assert_eq!(encode_value(&Value::I32(7)), Ok(vec![2, 0, 0, 0, 7]));
}

#[test]
fn decode_plain_message() {
    let body = vec![34u8, 0, 0, 0, 2, 5, 1, b'x', 2, 0, 0, 0, 9];
    let m = decode(&client_message(false, &body)).unwrap();
    assert_eq!(m.get("type"), Some(&Value::U8(34)));
    assert_eq!(m.get("msg"), Some(&Value::Vector(vec![s("x"), Value::I32(9)])));
}

#[test]
fn decode_checksummed_message() {
    let body = vec![1u8, 0, 0, 0, 1, 1, 1];
    let m = decode(&client_message(true, &body)).unwrap();
    assert_eq!(m.get("type"), Some(&Value::U8(1)));
    assert_eq!(m.get("msg"), Some(&Value::Vector(vec![Value::Boolean(true)])));
}

#[test]
fn decode_reports_wrong_checksum() {
    let body = vec![1u8, 0, 0, 0, 0];
    let mut data = client_message(true, &body);
    data[1] ^= 0xFF;
    assert_eq!(decode(&data), Err(DecodeError::WrongChecksum(WrongChecksum())));
    assert_eq!(WrongChecksum().message(), WRONG_CHECKSUM_TEXT);
    assert_eq!(WRONG_CHECKSUM_TEXT, "Wrong checksum in message");
}

#[test]
fn decode_reports_each_error() {
    assert_eq!(decode(&[]), Err(DecodeError::UnexpectedEnd));
    assert_eq!(decode(&[8, 0, 0]), Err(DecodeError::UnexpectedEnd));
    assert_eq!(decode(&[0, 0, 0, 0, 0]), Err(DecodeError::UnexpectedEnd));
    let negative = vec![1u8, 0, 0, 0, 1, 5, 0xFF, 0xFF, 0xFF, 0xFF, 0x0F];
    assert_eq!(decode(&client_message(false, &negative)), Err(DecodeError::NegativeLength));
    let too_long = vec![1u8, 0, 0, 0, 1, 5, 0x80, 0x80, 0x80, 0x80, 0x80, 0x00];
    assert_eq!(decode(&client_message(false, &too_long)), Err(DecodeError::LengthPrefixTooLong));
    let not_utf8 = vec![1u8, 0, 0, 0, 1, 5, 1, 0xFF];
    assert_eq!(decode(&client_message(false, &not_utf8)), Err(DecodeError::InvalidUtf8));
    let cut = vec![1u8, 0, 0, 0, 1, 2, 0, 0];
    assert_eq!(decode(&client_message(false, &cut)), Err(DecodeError::UnexpectedEnd));
}

#[test]
fn decode_unknown_type_is_null() {
    let body = vec![34u8, 0, 0, 0, 1, 9];
    let m = decode(&client_message(false, &body)).unwrap();
    assert_eq!(m.get("msg"), Some(&Value::Vector(vec![Value::Null])));
}

#[test]
fn roundtrip_encoded_message() {
    let items = vec![s("zone"), s("h.minfo"), Value::Object(sample_object())];
    let body = encode(&items, 34).unwrap();
    let m = decode(&client_message(true, &body)).unwrap();
    assert_eq!(m.get("type"), Some(&Value::U8(34)));
    assert_eq!(m.get("msg"), Some(&Value::Vector(items)));
}

#[test]
fn decode_parts_from_position() {
    let data = vec![9u8, 1, 0, 0, 1, 0, 0, 0, 0, 0, 0, 0, 0, 2];
    assert_eq!(decode_boolean(&data, 1), Ok((true, 2)));
    assert_eq!(decode_int32(&data, 2), Ok((256, 6)));
    assert_eq!(decode_int64(&data, 6), Ok((2, 14)));
    assert_eq!(decode_int32(&data, 11), Err(DecodeError::UnexpectedEnd));
    assert_eq!(decode_boolean(&data, 14), Err(DecodeError::UnexpectedEnd));
    let text = vec![3u8, b'a', b'b', b'c'];
    assert_eq!(decode_string(&text, 0), Ok(("abc".to_owned(), 4)));
    let value = vec![5u8, 1, b'q'];
    assert_eq!(decode_value(&value, 0), Ok((s("q"), 3)));
    let vector = vec![0u8, 0, 0, 2, 0, 2, 0, 0, 0, 1];
    assert_eq!(decode_vector(&vector, 0), Ok((vec![Value::Null, Value::I32(1)], 10)));
    let object = vec![0u8, 0, 0, 1, 1, b'k', 1, 0];
    let (o, next) = decode_object(&object, 0).unwrap();
    assert_eq!(next, 8);
    assert_eq!(o.get("k"), Some(&Value::Boolean(false)));
}

#[test]
fn getters_convert_or_refuse() {
    assert_eq!(Value::I32(4).get_i32(), Ok(4));
    assert_eq!(s("a").get_i32(), Err(CONVERT_ERROR));
    assert_eq!(Value::U8(3).get_u8(), Ok(3));
    assert_eq!(s("a").get_string(), Ok("a".to_owned()));
    assert_eq!(Value::Null.get_string(), Err("Can't convert"));
    assert_eq!(Value::Boolean(true).get_bool(), Ok(true));
    assert!(Value::Vector(vec![]).get_vector().is_ok());
    assert!(Value::Null.get_object().is_err());
    assert_eq!(Value::F64(7).get_f64(), Ok(7));
}

#[test]
fn object_insert_replaces_in_place() {
    let mut o = Object::new();
    o.insert("a".to_owned(), Value::I32(1));
    o.insert("b".to_owned(), Value::I32(2));
    o.insert("a".to_owned(), Value::I32(3));
    assert_eq!(o.len(), 2);
    assert_eq!(o.entries[0], ("a".to_owned(), Value::I32(3)));
    assert_eq!(o.get("a"), Some(&Value::I32(3)));
    assert!(o.contains_key("b"));
    assert!(!o.contains_key("c"));
}

#[test]
fn copies_are_equal() {
    let v = Value::Object(sample_object());
    assert_eq!(v.copy(), v);
    let o = sample_object();
    assert_eq!(o.copy(), o);
}
