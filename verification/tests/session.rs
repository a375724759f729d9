use avacity::encoder::{is_encodable, items_encodable, put_slice, put_u32, put_u64};
use avacity::framing::{build_packet, frame, is_policy_request, next_frame, packet, policy_response, FrameStep, POLICY_XML};
use avacity::messages::{already_joined, kick_join, wrong_pass};
use avacity::session::{
    auth_outcome, auth_reply, dispatch, parse_auth, wants_empty_field, AuthOutcome, AuthParse, AuthRequest, Dispatch, GUEST_UID,
    MISSING_KEY,
};
use avacity::value::{Object, Value, CONVERT_ERROR};

fn s(x: &str) -> Value {
    Value::String(x.to_owned())
}

#[test]
fn frame_without_checksum() {
    assert_eq!(frame(&[1, 2, 3], false), vec![0, 0, 0, 4, 0, 1, 2, 3]);
}

#[test]
fn frame_with_checksum() {
    let data = [1u8, 2, 3];
    let f = frame(&data, true);
    assert_eq!(&f[..5], &[0, 0, 0, 8, 8]);
    assert_eq!(&f[5..9], &crc::crc32::checksum_ieee(&data).to_be_bytes());
    assert_eq!(&f[9..], &data);
}

#[test]
fn packet_of_message() {
    let p = build_packet(&vec![Value::I32(1)], 34, false);
    assert_eq!(p, vec![0, 0, 0, 11, 0, 34, 0, 0, 0, 1, 2, 0, 0, 0, 1]);
}

#[test]
fn frames_are_found_in_order() {
    let buf = vec![0u8, 0, 0, 2, 9, 9, 0, 0, 0, 1, 7, 0];
    assert!(matches!(next_frame(&buf, 0), FrameStep::Frame(4, 6)));
    assert!(matches!(next_frame(&buf, 6), FrameStep::Frame(10, 11)));
    assert!(matches!(next_frame(&buf, 11), FrameStep::Done));
}

#[test]
fn partial_or_negative_frames() {
    assert!(matches!(next_frame(&[0, 0, 0, 9, 1, 2], 0), FrameStep::Done));
    assert!(matches!(next_frame(&[0xFF, 0xFF, 0xFF, 0xFF, 1], 0), FrameStep::NegativeLength));
    assert!(matches!(next_frame(&[0, 0, 0, 0], 0), FrameStep::Done));
}

#[test]
fn policy_request_is_recognised() {
    assert!(is_policy_request(b"<policy-file-request/>\0"));
    assert!(!is_policy_request(b"<policy-file-request/>"));
    assert!(!is_policy_request(&[0, 0, 0, 1]));
    let answer = policy_response();
    assert_eq!(&answer[..answer.len() - 2], POLICY_XML.as_bytes());
    assert_eq!(&answer[answer.len() - 2..], &[0, 0]);
}

#[test]
fn fixed_messages() {
    assert_eq!(wrong_pass(), vec![Value::I32(5), s("Key is invalid"), Value::Object(Object::new())]);
    assert_eq!(already_joined(), vec![Value::I32(6), s("Reconnecting"), Value::Object(Object::new())]);
    assert_eq!(kick_join(), vec![Value::I32(6), Value::Object(Object::new())]);
}

#[test]
fn dispatch_guest_and_commands() {
    let guest = GUEST_UID.to_owned();
    let msg = vec![s("zone"), s("h.minfo.x")];
    assert!(matches!(dispatch(1, &guest, &msg), Dispatch::Authenticate));
    assert!(matches!(dispatch(34, &guest, &msg), Dispatch::Close));
    let uid = "17".to_owned();
    assert!(matches!(dispatch(2, &uid, &msg), Dispatch::Close));
    match dispatch(34, &uid, &msg) {
        Dispatch::Command(p) => assert_eq!(p, "h"),
        _ => panic!("expected a command"),
    }
    assert!(matches!(dispatch(34, &uid, &vec![s("zone")]), Dispatch::Malformed));
    assert!(matches!(dispatch(34, &uid, &vec![s("zone"), Value::I32(1)]), Dispatch::Malformed));
    assert!(matches!(dispatch(7, &uid, &msg), Dispatch::Ignore));
    assert!(matches!(dispatch(1, &uid, &msg), Dispatch::Ignore));
}

#[test]
fn parse_auth_account_and_token() {
    match parse_auth(&vec![s("account"), s("u1")]) {
        AuthParse::Request(AuthRequest::Account(u)) => assert_eq!(u, "u1"),
        _ => panic!("expected an account login"),
    }
    let mut data = Object::new();
    data.insert("v".to_owned(), Value::I32(3));
    match parse_auth(&vec![s("game"), s("u1"), s("tok"), Value::Object(data)]) {
        AuthParse::Request(AuthRequest::Token(u, t, v)) => {
            assert_eq!(u, "u1");
            assert_eq!(t, "tok");
            assert_eq!(v, 3);
        },
        _ => panic!("expected a token login"),
    }
}

#[test]
fn parse_auth_failures() {
    assert!(matches!(parse_auth(&vec![]), AuthParse::Malformed));
    assert!(matches!(parse_auth(&vec![Value::I32(1)]), AuthParse::Refused(e) if e == CONVERT_ERROR));
    assert!(matches!(parse_auth(&vec![s("game"), s("u1")]), AuthParse::Malformed));
    assert!(matches!(parse_auth(&vec![s("game"), s("u1"), s("t"), Value::Object(Object::new())]), AuthParse::Refused(e) if e == MISSING_KEY));
    let mut data = Object::new();
    data.insert("v".to_owned(), s("3"));
    assert!(matches!(parse_auth(&vec![s("game"), s("u1"), s("t"), Value::Object(data)]), AuthParse::Refused(e) if e == CONVERT_ERROR));
}

#[test]
fn auth_outcomes() {
    let uid = "u1".to_owned();
    assert!(matches!(auth_outcome(&uid, &None, false), AuthOutcome::Reject));
    assert!(matches!(auth_outcome(&uid, &Some("u2".to_owned()), false), AuthOutcome::Reject));
    assert!(matches!(auth_outcome(&uid, &Some("u1".to_owned()), true), AuthOutcome::AlreadyOnline));
    assert!(matches!(auth_outcome(&uid, &Some("u1".to_owned()), false), AuthOutcome::Accept));
}

#[test]
fn auth_replies() {
    assert_eq!(
        auth_reply("u1".to_owned(), true),
        vec![s("u1"), s(""), Value::Boolean(true), Value::Boolean(false), Value::Boolean(false)]
    );
    assert_eq!(auth_reply("u1".to_owned(), false), vec![s("u1"), Value::Boolean(true), Value::Boolean(false), Value::Boolean(false)]);
    assert!(wants_empty_field(3));
    assert!(!wants_empty_field(2));
}

#[test]
fn packets_refuse_unencodable_values() {
    let mut o = Object::new();
    o.insert("when".to_owned(), Value::Date(1));
    assert!(!is_encodable(&Value::Object(o)));
    assert!(!items_encodable(&vec![Value::I32(1), Value::U8(2)]));
    assert!(is_encodable(&Value::Vector(vec![s("a"), Value::Null])));
    assert_eq!(packet(&vec![Value::I32(1)], 34, false), Some(build_packet(&vec![Value::I32(1)], 34, false)));
    assert_eq!(packet(&vec![Value::Vector(vec![Value::Date(3)])], 34, true), None);
    let campaigns = avacity::modules::campaign::new();
    assert_eq!(packet(&campaigns, 34, true), None);
}

#[test]
fn byte_writers() {
    let mut out = vec![9u8];
    put_u32(&mut out, 0x01020304);
    put_u64(&mut out, 5);
    put_slice(&mut out, &[7, 7]);
    assert_eq!(out, vec![9, 1, 2, 3, 4, 0, 0, 0, 0, 0, 0, 0, 5, 7, 7]);
}
