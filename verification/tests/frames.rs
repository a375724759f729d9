use avacity::session::{read_frames, read_message, BufferEnd, ReadStep};

fn client_message(body: &[u8]) -> Vec<u8> {
    let mut out = vec![0u8, 0, 0, 0, 7];
    out.extend_from_slice(body);
    out
}

fn framed(message: &[u8]) -> Vec<u8> {
    let mut out = (message.len() as u32).to_be_bytes().to_vec();
    out.extend_from_slice(message);
    out
}

#[test]
fn read_message_gives_type_and_items() {
    let body = client_message(&[34u8, 0, 0, 0, 1, 2, 0, 0, 0, 9]);
    match read_message(&body) {
        ReadStep::Message(t, items) => {
            assert_eq!(t, 34);
            assert_eq!(items, vec![avacity::value::Value::I32(9)]);
        },
        _ => panic!("expected a message"),
    }
}

#[test]
fn read_message_sorts_failures() {
    assert!(matches!(read_message(&[]), ReadStep::Unreadable));
    let too_long = client_message(&[1u8, 0, 0, 0, 1, 5, 0x80, 0x80, 0x80, 0x80, 0x80, 0x00]);
    assert!(matches!(read_message(&too_long), ReadStep::Fatal));
    let not_utf8 = client_message(&[1u8, 0, 0, 0, 1, 5, 1, 0xFF]);
    assert!(matches!(read_message(&not_utf8), ReadStep::Unreadable));
}

#[test]
fn read_frames_reads_every_whole_frame() {
    let mut data = framed(&client_message(&[1u8, 0, 0, 0, 1, 1, 1]));
    data.extend(framed(&client_message(&[2u8, 0, 0, 0, 0])));
    data.extend([0u8, 0, 0, 9, 1]);
    let batch = read_frames(&data);
    assert_eq!(batch.messages.len(), 2);
    assert_eq!(batch.messages[0], (1, vec![avacity::value::Value::Boolean(true)]));
    assert_eq!(batch.messages[1], (2, vec![]));
    assert!(matches!(batch.end, BufferEnd::Done));
}

#[test]
fn read_frames_drops_frames_after_an_unreadable_one() {
    let mut data = framed(&client_message(&[1u8, 0, 0, 0, 1, 1, 1]));
    data.extend(framed(&client_message(&[1u8, 0, 0, 0, 1, 5, 1, 0xFF])));
    data.extend(framed(&client_message(&[2u8, 0, 0, 0, 0])));
    let batch = read_frames(&data);
    assert_eq!(batch.messages.len(), 1);
    assert_eq!(batch.messages[0].0, 1);
    assert!(matches!(batch.end, BufferEnd::Unreadable));
}

#[test]
fn read_frames_stops_at_fatal_frames() {
    let mut data = framed(&client_message(&[2u8, 0, 0, 0, 0]));
    data.extend([0xFFu8, 0xFF, 0xFF, 0xFF, 0]);
    let batch = read_frames(&data);
    assert_eq!(batch.messages.len(), 1);
    assert!(matches!(batch.end, BufferEnd::NegativeLength));
    let data = framed(&client_message(&[1u8, 0, 0, 0, 1, 5, 0x80, 0x80, 0x80, 0x80, 0x80, 0x00]));
    let batch = read_frames(&data);
    assert!(batch.messages.is_empty());
    assert!(matches!(batch.end, BufferEnd::Fatal));
}
