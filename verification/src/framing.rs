//! Framing of messages on the connection.
//!
//! The server sends each message as a frame: a big-endian i32 length, a mask
//! byte (bit 3 set where a checksum follows), the CRC-32 of the body where
//! the mask says so, and the body. Clients send frames with the same length
//! prefix; several of them may arrive in one read.
use crate::checksum::{crc32, crc32_ieee};
use crate::decoder::from_be32;
use crate::encoder::{be32, enc_items, enc_message, encode, items_encodable, put_slice, put_u32};
use crate::value::{Value, seq_model};
use vstd::prelude::*;

verus! {

/// The mask byte of a frame.
pub open spec fn frame_mask(checksummed: bool) -> u8 {
    if checksummed {
        8
    } else {
        0
    }
}

/// The frame that carries `data`.
pub open spec fn spec_frame(data: Seq<u8>, checksummed: bool) -> Seq<u8> {
    let header: int = if checksummed {
        5
    } else {
        1
    };
    be32((data.len() + header) as i32 as u32) + seq![frame_mask(checksummed)] + (if checksummed {
        be32(crc32_ieee(data))
    } else {
        Seq::<u8>::empty()
    }) + data
}

/// The frame that carries `data`, with a checksum where `checksummed`.
pub fn frame(data: &[u8], checksummed: bool) -> (r: Vec<u8>)
    requires
        data@.len() + 5 <= i32::MAX,
    ensures
        r@ == spec_frame(data@, checksummed),
{
    let mut length: i32 = data.len() as i32 + 1;
    let mut mask: u8 = 0;
    let mut checksum: u32 = 0;
    if checksummed {
        mask = mask | 8u8;
        length = length + 4;
        checksum = crc32(data);
    }
    assert(0u8 | 8u8 == 8u8) by (bit_vector);
    let mut buf: Vec<u8> = Vec::new();
    put_u32(&mut buf, length as u32);
    buf.push(mask);
    if checksummed {
        put_u32(&mut buf, checksum);
    }
    put_slice(&mut buf, data);
    assert(buf@ =~= spec_frame(data@, checksummed));
    buf
}

/// The frame of a message: its encoded body (type, item count, items) framed
/// with a checksum where `checksummed`. Every item must be encodable.
pub fn build_packet(msg: &Vec<Value>, type_: u8, checksummed: bool) -> (r: Vec<u8>)
    requires
        enc_items(seq_model(msg@)) is Some,
        enc_message(seq_model(msg@), type_).unwrap().len() + 5 <= i32::MAX,
    ensures
        r@ == spec_frame(enc_message(seq_model(msg@), type_).unwrap(), checksummed),
{
    match encode(msg, type_) {
        Ok(data) => frame(data.as_slice(), checksummed),
        Err(_) => Vec::new(),
    }
}

/// The frame of a message as the server sends it (see [`build_packet`]);
/// `None` where an item holds a value the format cannot carry, which the
/// server does not survive, or where the frame would not fit its length field.
pub fn packet(msg: &Vec<Value>, type_: u8, checksummed: bool) -> (r: Option<Vec<u8>>)
    ensures
        match enc_message(seq_model(msg@), type_) {
            Some(b) => if b.len() + 5 <= i32::MAX {
                r matches Some(x) && x@ == spec_frame(b, checksummed)
            } else {
                r is None
            },
            None => r is None,
        },
{
    if !items_encodable(msg) {
        return None;
    }
    let data = match encode(msg, type_) {
        Ok(d) => d,
        Err(_) => {
            return None;
        },
    };
    if data.len() > 0x7FFF_FFFA {
        return None;
    }
    Some(frame(data.as_slice(), checksummed))
}

/// What the reader does next with a buffer of incoming frames.
pub enum FrameStep {
    /// A whole frame whose body lies between the two positions.
    Frame(usize, usize),
    /// No whole frame starts here: stop reading this buffer.
    Done,
    /// The length field is negative, which the server does not survive.
    NegativeLength,
}

/// The next frame in `data` from position `pos`.
pub open spec fn spec_next_frame(data: Seq<u8>, pos: int) -> FrameStep {
    if data.len() - pos <= 4 {
        FrameStep::Done
    } else {
        let length = from_be32(data.subrange(pos, pos + 4)) as i32;
        if data.len() - (pos + 4) < length {
            FrameStep::Done
        } else if length < 0 {
            FrameStep::NegativeLength
        } else {
            FrameStep::Frame((pos + 4) as usize, (pos + 4 + length) as usize)
        }
    }
}

/// The next frame in `data` from position `pos`: a frame needs more than its
/// four length bytes left in the buffer, and a body no longer than what is left.
pub fn next_frame(data: &[u8], pos: usize) -> (r: FrameStep)
    requires
        pos <= data@.len(),
    ensures
        r == spec_next_frame(data@, pos as int),
        r matches FrameStep::Frame(start, end) ==> pos + 4 == start <= end <= data@.len(),
{
    if data.len() - pos <= 4 {
        return FrameStep::Done;
    }
    let length = ((data[pos] as u32) << 24u32 | (data[pos + 1] as u32) << 16u32 | (data[pos
        + 2] as u32) << 8u32 | data[pos + 3] as u32) as i32;
    assert(length == from_be32(data@.subrange(pos as int, pos + 4)) as i32);
    let start = pos + 4;
    if length < 0 {
        return FrameStep::NegativeLength;
    }
    if length as usize > data.len() - start {
        return FrameStep::Done;
    }
    FrameStep::Frame(start, start + length as usize)
}

/// Lower-case hexadecimal digit of a number below 16.
pub open spec fn hex_digit(d: int) -> char {
    if d < 10 {
        (d + 48) as char
    } else {
        (d + 87) as char
    }
}

/// Two lower-case hexadecimal digits per byte, high digit first.
pub open spec fn lower_hex(b: Seq<u8>) -> Seq<char>
    decreases b.len(),
{
    if b.len() == 0 {
        Seq::empty()
    } else {
        lower_hex(b.drop_last()) + seq![hex_digit((b.last() / 16) as int), hex_digit((b.last() % 16) as int)]
    }
}

/// Calls `hex::encode`, which writes each byte as two lower-case hexadecimal
/// digits, high digit first.
#[verifier::external_body]
fn hex_encode(data: &[u8]) -> (r: String)
    ensures
        r@ == lower_hex(data@),
{
    hex::encode(data)
}

/// The hexadecimal form of a Flash policy file request: the text
/// `<policy-file-request/>` followed by a zero byte.
pub const POLICY_REQUEST_HEX: &'static str = "3c706f6c6963792d66696c652d726571756573742f3e00";

/// The cross-domain policy that answers a policy file request.
pub const POLICY_XML: &'static str = "<?xml version=\"1.0\"?>
<cross-domain-policy>
<allow-access-from domain=\"*\" to-ports=\"*\" />
</cross-domain-policy>";

/// Whether a read is a Flash policy file request.
pub fn is_policy_request(data: &[u8]) -> (r: bool)
    ensures
        r == (lower_hex(data@) == POLICY_REQUEST_HEX@),
{
    let hex_string = hex_encode(data);
    let expected = POLICY_REQUEST_HEX.to_owned();
    hex_string == expected
}

/// The answer to a policy file request: the policy text and two zero bytes.
pub fn policy_response() -> (r: Vec<u8>)
    ensures
        r@ == vstd::utf8::encode_utf8(POLICY_XML@) + seq![0u8, 0u8],
{
    let mut out: Vec<u8> = Vec::new();
    put_slice(&mut out, POLICY_XML.as_bytes());
    out.push(0);
    out.push(0);
    assert(out@ =~= vstd::utf8::encode_utf8(POLICY_XML@) + seq![0u8, 0u8]);
    out
}

} // verus!
