//! The decisions of a client connection: what to do with each decoded
//! message, and how a login goes.
use crate::text::{split, split_chars, lemma_split_nonempty};
use crate::value::{
    Value,
    SpecValue,
    Object,
    seq_model,
    lemma_seq_model,
    obj_get,
    obj_insert,
    key_index,
    str_value,
    CONVERT_ERROR,
    copy_items,
};
use crate::decoder::{decode, from_be32, has_checksum, msg_key, parse_vector, spec_decode, type_key};
use crate::framing::{next_frame, FrameStep};
use vstd::slice::slice_subrange;
use crate::errors::DecodeError;
use vstd::prelude::*;

verus! {

/// The user id of a connection that has not logged in.
pub const GUEST_UID: &'static str = "0";

/// The zone of a login that only checks an account.
pub const ACCOUNT_ZONE: &'static str = "account";

/// What the connection does with a decoded message.
pub enum Dispatch {
    /// Log in with the items of the message.
    Authenticate,
    /// Close the connection.
    Close,
    /// Hand the message to the module with this prefix.
    Command(String),
    /// Nothing.
    Ignore,
    /// The command message has no command name, which the server does not survive.
    Malformed,
}

/// The message type of a login.
pub const TYPE_AUTH: u8 = 1;
/// The message type of a logout.
pub const TYPE_CLOSE: u8 = 2;
/// The message type of a module command.
pub const TYPE_COMMAND: u8 = 34;

/// What the connection does with a message of type `type_` and items `msg`,
/// while logged in as `uid`: a connection that has not logged in may only log
/// in; a logged-in one closes on type 2 and runs commands of type 34, whose
/// second item names the command, the module prefix before the first dot.
pub fn dispatch(type_: u8, uid: &String, msg: &Vec<Value>) -> (r: Dispatch)
    ensures
        ({
            let m = seq_model(msg@);
            let guest = uid@ == GUEST_UID@;
            if type_ == TYPE_AUTH && guest {
                r is Authenticate
            } else if guest {
                r is Close
            } else if type_ == TYPE_CLOSE {
                r is Close
            } else if type_ == TYPE_COMMAND {
                if m.len() >= 2 && m[1] is Str {
                    r matches Dispatch::Command(p) && p@ == split_chars(m[1]->Str_0, '.')[0]
                } else {
                    r is Malformed
                }
            } else {
                r is Ignore
            }
        }),
{
    proof {
        lemma_seq_model(msg@);
    }
    let guest = *uid == GUEST_UID.to_owned();
    if type_ == TYPE_AUTH && guest {
        Dispatch::Authenticate
    } else if guest {
        Dispatch::Close
    } else if type_ == TYPE_CLOSE {
        Dispatch::Close
    } else if type_ == TYPE_COMMAND {
        if msg.len() < 2 {
            return Dispatch::Malformed;
        }
        match msg[1].get_string() {
            Ok(command) => {
                let mut parts = split(command.as_str(), '.');
                proof {
                    lemma_split_nonempty(command@, '.');
                }
                let first = parts.swap_remove(0);
                Dispatch::Command(first)
            },
            Err(_) => Dispatch::Malformed,
        }
    } else {
        Dispatch::Ignore
    }
}

/// A login request.
pub enum AuthRequest {
    /// A login into the account zone, by user id only.
    Account(String),
    /// A login by user id, session token and client version.
    Token(String, String, i32),
}

/// What the items of a login message amount to.
pub enum AuthParse {
    Request(AuthRequest),
    /// The login is refused with this error.
    Refused(&'static str),
    /// An item is missing, which the server does not survive.
    Malformed,
}

/// The error of a login whose data lacks the client version.
pub const MISSING_KEY: &'static str = "err";

/// The text of a string model.
pub open spec fn str_of(v: SpecValue) -> Seq<char> {
    v->Str_0
}

/// Reads a login message: zone and user id, then, outside the account zone,
/// the session token and the client version under "v" in the fourth item.
pub fn parse_auth(msg: &Vec<Value>) -> (r: AuthParse)
    ensures
        ({
            let m = seq_model(msg@);
            if m.len() < 1 {
                r is Malformed
            } else if !(m[0] is Str) {
                r == AuthParse::Refused(CONVERT_ERROR)
            } else if m.len() < 2 {
                r is Malformed
            } else if !(m[1] is Str) {
                r == AuthParse::Refused(CONVERT_ERROR)
            } else if str_of(m[0]) == ACCOUNT_ZONE@ {
                r matches AuthParse::Request(AuthRequest::Account(u)) && u@ == str_of(m[1])
            } else if m.len() < 3 {
                r is Malformed
            } else if !(m[2] is Str) {
                r == AuthParse::Refused(CONVERT_ERROR)
            } else if m.len() < 4 {
                r is Malformed
            } else if !(m[3] is Object) {
                r == AuthParse::Refused(CONVERT_ERROR)
            } else {
                match obj_get(m[3]->Object_0, "v"@) {
                    None => r == AuthParse::Refused(MISSING_KEY),
                    Some(SpecValue::I32(version)) => r matches AuthParse::Request(
                        AuthRequest::Token(u, t, x),
                    ) && u@ == str_of(m[1]) && t@ == str_of(m[2]) && x == version,
                    Some(_) => r == AuthParse::Refused(CONVERT_ERROR),
                }
            }
        }),
{
    proof {
        lemma_seq_model(msg@);
    }
    if msg.len() < 1 {
        return AuthParse::Malformed;
    }
    let zone = match msg[0].get_string() {
        Ok(z) => z,
        Err(e) => {
            return AuthParse::Refused(e);
        },
    };
    if msg.len() < 2 {
        return AuthParse::Malformed;
    }
    let uid = match msg[1].get_string() {
        Ok(u) => u,
        Err(e) => {
            return AuthParse::Refused(e);
        },
    };
    if zone == ACCOUNT_ZONE.to_owned() {
        return AuthParse::Request(AuthRequest::Account(uid));
    }
    if msg.len() < 3 {
        return AuthParse::Malformed;
    }
    let token = match msg[2].get_string() {
        Ok(t) => t,
        Err(e) => {
            return AuthParse::Refused(e);
        },
    };
    if msg.len() < 4 {
        return AuthParse::Malformed;
    }
    let auth_data: &Object = match msg[3].get_object() {
        Ok(o) => o,
        Err(e) => {
            return AuthParse::Refused(e);
        },
    };
    let version = match auth_data.get("v") {
        None => {
            return AuthParse::Refused(MISSING_KEY);
        },
        Some(v) => match v.get_i32() {
            Ok(x) => x,
            Err(e) => {
                return AuthParse::Refused(e);
            },
        },
    };
    AuthParse::Request(AuthRequest::Token(uid, token, version))
}

/// How a login by token ends.
pub enum AuthOutcome {
    /// No session is stored for the token, or it belongs to another user:
    /// the client gets the wrong-key reply and the connection closes.
    Reject,
    /// The user is already playing: the connection closes.
    AlreadyOnline,
    /// The user is let in.
    Accept,
}

/// How a login by token ends, given the user id stored for the token (if
/// any) and whether that user is already playing.
pub fn auth_outcome(uid: &String, stored: &Option<String>, online: bool) -> (r: AuthOutcome)
    ensures
        match stored {
            None => r is Reject,
            Some(known) => if uid@ != known@ {
                r is Reject
            } else if online {
                r is AlreadyOnline
            } else {
                r is Accept
            },
        },
{
    match stored {
        None => AuthOutcome::Reject,
        Some(known) => {
            if *uid != *known {
                AuthOutcome::Reject
            } else if online {
                AuthOutcome::AlreadyOnline
            } else {
                AuthOutcome::Accept
            }
        },
    }
}

/// The reply to a successful login: the user id, an empty string where
/// `with_empty` (account logins, and clients of version 3 on), then true,
/// false, false.
pub fn auth_reply(uid: String, with_empty: bool) -> (r: Vec<Value>)
    ensures
        seq_model(r@) == seq![SpecValue::Str(uid@)] + (if with_empty {
            seq![SpecValue::Str(""@)]
        } else {
            Seq::empty()
        }) + seq![SpecValue::Boolean(true), SpecValue::Boolean(false), SpecValue::Boolean(false)],
{
    let ghost u = uid@;
    let mut v: Vec<Value> = Vec::new();
    v.push(Value::String(uid));
    if with_empty {
        v.push(str_value(""));
    }
    v.push(Value::Boolean(true));
    v.push(Value::Boolean(false));
    v.push(Value::Boolean(false));
    proof {
        lemma_seq_model(v@);
    }
    assert(seq_model(v@) =~= seq![SpecValue::Str(u)] + (if with_empty {
        seq![SpecValue::Str(""@)]
    } else {
        Seq::empty()
    }) + seq![SpecValue::Boolean(true), SpecValue::Boolean(false), SpecValue::Boolean(false)]);
    v
}

/// Whether a client of this version gets the empty string in its login reply.
pub fn wants_empty_field(version: i32) -> (r: bool)
    ensures
        r == (version >= 3),
{
    version >= 3
}

/// What one frame body of the incoming buffer gives.
pub enum ReadStep {
    /// A message of this type with these items.
    Message(u8, Vec<Value>),
    /// The body does not decode: the rest of the buffer is dropped.
    Unreadable,
    /// A string length prefix runs on past five groups, which the server does
    /// not survive.
    Fatal,
}

/// The model of a [`ReadStep`].
pub enum FrameModel {
    Message(u8, Seq<SpecValue>),
    Unreadable,
    Fatal,
}

/// What the frame body `body` gives: the type and items of the decoded message.
pub open spec fn frame_message(body: Seq<u8>) -> FrameModel {
    match spec_decode(body) {
        Err(DecodeError::LengthPrefixTooLong) => FrameModel::Fatal,
        Err(_) => FrameModel::Unreadable,
        Ok(m) => match (obj_get(m, type_key()), obj_get(m, msg_key())) {
            (Some(SpecValue::U8(t)), Some(SpecValue::Vector(items))) => FrameModel::Message(t, items),
            _ => FrameModel::Unreadable,
        },
    }
}

/// Whether the step `r` is the model `m`.
pub open spec fn step_is(r: ReadStep, m: FrameModel) -> bool {
    match m {
        FrameModel::Message(t, items) => r matches ReadStep::Message(x, v) && x == t && seq_model(v@) == items,
        FrameModel::Unreadable => r is Unreadable,
        FrameModel::Fatal => r is Fatal,
    }
}

/// Reads one frame body (see [`frame_message`]).
pub fn read_message(body: &[u8]) -> (r: ReadStep)
    ensures
        step_is(r, frame_message(body@)),
{
    let message = match decode(body) {
        Ok(m) => m,
        Err(DecodeError::LengthPrefixTooLong) => {
            return ReadStep::Fatal;
        },
        Err(_) => {
            return ReadStep::Unreadable;
        },
    };
    let type_ = match message.get("type") {
        Some(v) => match v {
            Value::U8(t) => *t,
            _ => {
                return ReadStep::Unreadable;
            },
        },
        None => {
            return ReadStep::Unreadable;
        },
    };
    let items = match message.get("msg") {
        Some(v) => match v {
            Value::Vector(items) => copy_items(items),
            _ => {
                return ReadStep::Unreadable;
            },
        },
        None => {
            return ReadStep::Unreadable;
        },
    };
    ReadStep::Message(type_, items)
}

/// The map that the decoder builds holds the type and the items under their keys.
proof fn lemma_message_fields(v: SpecValue, w: SpecValue)
    ensures
        obj_get(obj_insert(obj_insert(Seq::empty(), type_key(), v), msg_key(), w), type_key()) == Some(v),
        obj_get(obj_insert(obj_insert(Seq::empty(), type_key(), v), msg_key(), w), msg_key()) == Some(w),
{
    reveal_strlit("type");
    reveal_strlit("msg");
    assert(type_key() != msg_key()) by {
        assert(type_key().len() != msg_key().len());
    }
    let e = Seq::<(Seq<char>, SpecValue)>::empty();
    let a = obj_insert(e, type_key(), v);
    assert(a =~= seq![(type_key(), v)]);
    assert(a.drop_last() =~= e);
    assert(key_index(e, msg_key()) is None);
    assert(key_index(a, msg_key()) is None);
    assert(key_index(a, type_key()) == Some(0int));
    let b = obj_insert(a, msg_key(), w);
    assert(b =~= seq![(type_key(), v), (msg_key(), w)]);
    assert(b.drop_last() =~= a);
}

/// Every frame body that decodes gives a message: the decoder always puts
/// the type and the items under their keys.
pub proof fn lemma_decoded_is_message(body: Seq<u8>)
    ensures
        spec_decode(body) is Ok ==> frame_message(body) is Message,
{
    if spec_decode(body) is Ok {
        let p: int = if has_checksum(body[0]) {
            9
        } else {
            5
        };
        let items = parse_vector(body.skip(p + 1))->Ok_0.0;
        lemma_message_fields(SpecValue::U8(body[p]), SpecValue::Vector(items));
    }
}

/// How reading a buffer of frames ended.
pub enum BufferEnd {
    /// No whole frame is left.
    Done,
    /// A frame body does not decode: it and the frames after it are dropped.
    Unreadable,
    /// A frame announces a negative length, which the server does not survive.
    NegativeLength,
    /// A frame body holds a string length prefix past five groups, which the
    /// server does not survive.
    Fatal,
}

/// The messages read from one buffer, in order, and how the reading ended.
pub struct Batch {
    pub messages: Vec<(u8, Vec<Value>)>,
    pub end: BufferEnd,
}

/// The models of a list of messages.
pub open spec fn messages_view(v: Seq<(u8, Vec<Value>)>) -> Seq<(u8, Seq<SpecValue>)> {
    Seq::new(v.len(), |i: int| (v[i].0, seq_model(v[i].1@)))
}

/// The messages of the frames of `data` from position `pos` on, and how the
/// reading ends: each frame is a four-byte big-endian length and a body of
/// that length; reading stops where no whole frame is left, at a negative
/// length, and at the first body that does not give a message.
pub open spec fn frames_from(data: Seq<u8>, pos: int) -> (Seq<(u8, Seq<SpecValue>)>, BufferEnd)
    decreases data.len() - pos,
{
    if data.len() - pos <= 4 {
        (Seq::empty(), BufferEnd::Done)
    } else {
        let length = from_be32(data.subrange(pos, pos + 4)) as i32;
        if data.len() - (pos + 4) < length {
            (Seq::empty(), BufferEnd::Done)
        } else if length < 0 {
            (Seq::empty(), BufferEnd::NegativeLength)
        } else {
            let end = pos + 4 + length;
            match frame_message(data.subrange(pos + 4, end)) {
                FrameModel::Unreadable => (Seq::empty(), BufferEnd::Unreadable),
                FrameModel::Fatal => (Seq::empty(), BufferEnd::Fatal),
                FrameModel::Message(t, items) => {
                    let rest = frames_from(data, end);
                    (seq![(t, items)] + rest.0, rest.1)
                },
            }
        }
    }
}

/// Reads the frames of one buffer (see [`frames_from`]).
pub fn read_frames(data: &[u8]) -> (r: Batch)
    ensures
        messages_view(r.messages@) == frames_from(data@, 0).0,
        r.end == frames_from(data@, 0).1,
{
    let n = data.len();
    let mut messages: Vec<(u8, Vec<Value>)> = Vec::new();
    let mut pos: usize = 0;
    assert(messages_view(messages@) + frames_from(data@, 0).0 =~= frames_from(data@, 0).0);
    loop
        invariant
            n == data@.len(),
            pos <= n,
            frames_from(data@, 0).0 == messages_view(messages@) + frames_from(data@, pos as int).0,
            frames_from(data@, 0).1 == frames_from(data@, pos as int).1,
        decreases n - pos,
    {
        let ghost before = messages_view(messages@);
        match next_frame(data, pos) {
            FrameStep::Done => {
                assert(before + Seq::empty() =~= before);
                return Batch { messages, end: BufferEnd::Done };
            },
            FrameStep::NegativeLength => {
                assert(before + Seq::empty() =~= before);
                return Batch { messages, end: BufferEnd::NegativeLength };
            },
            FrameStep::Frame(start, end) => {
                match read_message(slice_subrange(data, start, end)) {
                    ReadStep::Message(t, items) => {
                        let ghost rest = frames_from(data@, end as int);
                        let ghost m = (t, seq_model(items@));
                        messages.push((t, items));
                        assert(messages_view(messages@) =~= before.push(m));
                        assert(before + (seq![m] + rest.0) =~= before.push(m) + rest.0);
                        pos = end;
                    },
                    ReadStep::Unreadable => {
                        assert(before + Seq::empty() =~= before);
                        return Batch { messages, end: BufferEnd::Unreadable };
                    },
                    ReadStep::Fatal => {
                        assert(before + Seq::empty() =~= before);
                        return Batch { messages, end: BufferEnd::Fatal };
                    },
                }
            },
        }
    }
}

} // verus!
