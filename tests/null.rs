use zmtp::errors::ParseError;
use zmtp::packets;
use zmtp::packets::null::{Command, Frame};
use zmtp::packets::RawFrame;

#[test]
fn simetric_serialize() {
    let cmd = Command::Ready {
        socket_type: Vec::from(&b"REQ"[..]),
        identity: Some(Vec::from(&b"test.identity"[..])),
    };
    assert_eq!(
        Frame::try_from(packets::RawFrame::Command(cmd.to_vec_u8())),
        Ok(Frame::Command(cmd))
    );
}

fn decode_frame(bytes: &[u8]) -> (Frame, usize) {
    let (raw, n) = RawFrame::decode(bytes).expect("complete frame");
    (Frame::from_raw(raw).expect("valid frame"), n)
}

#[test]
fn ready_round_trip_without_identity() {
    let cmd = Command::Ready { socket_type: b"REQ".to_vec(), identity: None };
    let bytes = Frame::Command(cmd).to_vec_u8();
    let (frame, n) = decode_frame(&bytes);
    assert_eq!(n, bytes.len());
    assert_eq!(
        frame,
        Frame::Command(Command::Ready { socket_type: b"REQ".to_vec(), identity: None })
    );
}

#[test]
fn ready_round_trip_empty_and_large_values() {
    let cmd = Command::Ready { socket_type: Vec::new(), identity: Some(vec![7u8; 70_000]) };
    let bytes = Frame::Command(cmd).to_vec_u8();
    assert_eq!(bytes[0], 0x06);
    let (frame, n) = decode_frame(&bytes);
    assert_eq!(n, bytes.len());
    assert_eq!(
        frame,
        Frame::Command(Command::Ready { socket_type: Vec::new(), identity: Some(vec![7u8; 70_000]) })
    );
}

#[test]
fn error_command_round_trip() {
    let cmd = Command::Error(String::from("boom é"));
    let payload = cmd.to_vec_u8();
    let mut expected = vec![5u8];
    expected.extend_from_slice(b"ERROR");
    expected.push(7);
    expected.extend_from_slice("boom é".as_bytes());
    assert_eq!(payload, expected);
    assert_eq!(
        Frame::try_from(RawFrame::Command(payload)),
        Ok(Frame::Command(Command::Error(String::from("boom é"))))
    );
}

#[test]
fn ready_command_exact_bytes() {
    let cmd = Command::Ready { socket_type: b"REQ".to_vec(), identity: Some(b"id".to_vec()) };
    let mut expected = vec![5u8];
    expected.extend_from_slice(b"READY");
    expected.push(11);
    expected.extend_from_slice(b"Socket-Type");
    expected.extend_from_slice(&[0, 0, 0, 3]);
    expected.extend_from_slice(b"REQ");
    expected.push(8);
    expected.extend_from_slice(b"Identity");
    expected.extend_from_slice(&[0, 0, 0, 2]);
    expected.extend_from_slice(b"id");
    assert_eq!(cmd.to_vec_u8(), expected);
}

#[test]
fn message_of_255_bytes_has_small_header() {
    let payload = vec![0xabu8; 255];
    let bytes = Frame::Message(payload.clone()).to_vec_u8();
    assert_eq!(&bytes[..2], &[0x00, 0xff]);
    assert_eq!(bytes.len(), 257);
    let (frame, n) = decode_frame(&bytes);
    assert_eq!(n, 257);
    assert_eq!(frame, Frame::Message(payload));
}

#[test]
fn message_of_256_bytes_has_big_header() {
    let payload = vec![0xcdu8; 256];
    let bytes = Frame::Message(payload.clone()).to_vec_u8();
    assert_eq!(&bytes[..9], &[0x02, 0, 0, 0, 0, 0, 0, 1, 0]);
    assert_eq!(bytes.len(), 265);
    let (frame, n) = decode_frame(&bytes);
    assert_eq!(n, 265);
    assert_eq!(frame, Frame::Message(payload));
}

#[test]
fn empty_message_decodes_to_separator() {
    let bytes = Frame::Message(Vec::new()).to_vec_u8();
    assert_eq!(bytes, vec![0x00, 0x00]);
    let (frame, n) = decode_frame(&bytes);
    assert_eq!(n, 2);
    assert_eq!(frame, Frame::Separator);
}

#[test]
fn separator_encodes_with_more_bit() {
    let bytes = Frame::Separator.to_vec_u8();
    assert_eq!(bytes, vec![0x01, 0x00]);
    let (frame, _) = decode_frame(&bytes);
    assert_eq!(frame, Frame::Separator);
}

#[test]
fn decode_stops_at_frame_end() {
    let mut bytes = Frame::Message(b"abc".to_vec()).to_vec_u8();
    bytes.extend_from_slice(&[0x01, 0x00]);
    let (raw, n) = RawFrame::decode(&bytes).unwrap();
    assert_eq!(n, 5);
    assert_eq!(raw, RawFrame::Message(b"abc".to_vec()));
}

#[test]
fn truncated_frame_is_io_error() {
    let r = RawFrame::decode(&[0x00, 0x05, 1, 2]);
    assert!(matches!(r, Err(zmtp::errors::ConnectionError::IOError(_))));
    let r = RawFrame::decode(&[0x02, 0, 0]);
    assert!(matches!(r, Err(zmtp::errors::ConnectionError::IOError(_))));
    let r = RawFrame::decode(&[]);
    assert!(matches!(r, Err(zmtp::errors::ConnectionError::IOError(_))));
}

#[test]
fn unsupported_command_is_parse_error() {
    let mut payload = vec![9u8];
    payload.extend_from_slice(b"SUBSCRIBE");
    assert_eq!(
        Frame::try_from(RawFrame::Command(payload)),
        Err(ParseError::UnsupportedCommand(b"SUBSCRIBE".to_vec()))
    );
}

#[test]
fn ready_without_socket_type_is_rejected() {
    let mut payload = vec![5u8];
    payload.extend_from_slice(b"READY");
    payload.push(8);
    payload.extend_from_slice(b"Identity");
    payload.extend_from_slice(&[0, 0, 0, 1]);
    payload.push(b'x');
    assert_eq!(Command::from_bytes(&payload), Err(ParseError::MissingSocketType));
}

#[test]
fn ready_skips_unknown_properties_and_keeps_last() {
    let mut payload = vec![5u8];
    payload.extend_from_slice(b"READY");
    payload.push(11);
    payload.extend_from_slice(b"Socket-Type");
    payload.extend_from_slice(&[0, 0, 0, 3]);
    payload.extend_from_slice(b"REQ");
    payload.push(3);
    payload.extend_from_slice(b"Foo");
    payload.extend_from_slice(&[0, 0, 0, 1]);
    payload.push(b'z');
    payload.push(11);
    payload.extend_from_slice(b"Socket-Type");
    payload.extend_from_slice(&[0, 0, 0, 3]);
    payload.extend_from_slice(b"REP");
    assert_eq!(
        Command::from_bytes(&payload),
        Ok(Command::Ready { socket_type: b"REP".to_vec(), identity: None })
    );
}

#[test]
fn cut_property_is_truncated() {
    let mut payload = vec![5u8];
    payload.extend_from_slice(b"READY");
    payload.push(11);
    payload.extend_from_slice(b"Socket-Type");
    payload.extend_from_slice(&[0, 0, 0, 9]);
    payload.extend_from_slice(b"REQ");
    assert_eq!(Command::from_bytes(&payload), Err(ParseError::Truncated));
    assert_eq!(Command::from_bytes(&[]), Err(ParseError::Truncated));
    assert_eq!(Command::from_bytes(&[5, b'R', b'E']), Err(ParseError::Truncated));
}

#[test]
fn error_text_must_be_utf8() {
    let mut payload = vec![5u8];
    payload.extend_from_slice(b"ERROR");
    payload.push(2);
    payload.extend_from_slice(&[0xff, 0xfe]);
    assert_eq!(Command::from_bytes(&payload), Err(ParseError::InvalidReason));
}

#[test]
fn error_text_decoded() {
    let mut payload = vec![5u8];
    payload.extend_from_slice(b"ERROR");
    payload.push(4);
    payload.extend_from_slice(b"nope");
    assert_eq!(Command::from_bytes(&payload), Ok(Command::Error(String::from("nope"))));
}

#[test]
fn frame_from_conversions() {
    assert_eq!(Frame::from(b"hi".to_vec()), Frame::Message(b"hi".to_vec()));
    assert_eq!(
        Frame::from(Command::Error(String::from("x"))),
        Frame::Command(Command::Error(String::from("x")))
    );
}

#[test]
fn command_frame_followed_by_other_bytes() {
    let cmd = Command::Ready { socket_type: vec![1u8; 300], identity: Some(b"me".to_vec()) };
    let mut bytes = Frame::Command(cmd).to_vec_u8();
    let len = bytes.len();
    bytes.extend_from_slice(&[0x01, 0x00, 0xff]);
    let (raw, n) = RawFrame::decode(&bytes).unwrap();
    assert_eq!(n, len);
    assert_eq!(
        Frame::try_from(raw),
        Ok(Frame::Command(Command::Ready { socket_type: vec![1u8; 300], identity: Some(b"me".to_vec()) }))
    );
}

#[test]
fn non_empty_message_kept_verbatim() {
    assert_eq!(
        Frame::try_from(RawFrame::Message(vec![0, 1, 2])),
        Ok(Frame::Message(vec![0, 1, 2]))
    );
    assert_eq!(Frame::try_from(RawFrame::Message(Vec::new())), Ok(Frame::Separator));
}
