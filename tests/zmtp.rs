use zmtp::errors::ConnectionError;
use zmtp::packets::zmtp::{zerro_padded, FrameSize};
use zmtp::packets::{Flags, FrameType, Greeting, Mechanism, RawFrame, Version};

#[test]
fn flags_setters_and_predicates() {
    let f = Flags::default();
    assert_eq!(f.0, 0);
    assert_eq!(f.command().0, 0x04);
    assert_eq!(Flags(0x07).message().0, 0x03);
    assert_eq!(f.big().0, 0x02);
    assert_eq!(Flags(0x07).small().0, 0x05);
    assert_eq!(f.more().0, 0x01);
    assert_eq!(Flags(0x07).last().0, 0x06);
    let g = Flags(0x05);
    assert!(g.is_command() && !g.is_message());
    assert!(g.is_small() && !g.is_big());
    assert!(g.is_more() && !g.is_last());
    let h = Flags(0x02);
    assert!(h.is_message() && h.is_big() && h.is_last());
}

#[test]
fn frame_headers() {
    let small = FrameType { flags: Flags(0x04), size: 0x19u8 };
    assert_eq!(small.as_bytes(), vec![0x04, 0x19]);
    let big = FrameType { flags: Flags(0x06), size: 0x0102030405060708u64 };
    assert_eq!(big.as_bytes(), vec![0x06, 1, 2, 3, 4, 5, 6, 7, 8]);
    let parsed = FrameType::<u64>::from_bytes(&big.as_bytes());
    assert_eq!(parsed.size.to_u64(), 0x0102030405060708);
    let parsed = FrameType::<u8>::from_bytes(&[0x00, 3]);
    assert_eq!(parsed.size, 3);
}

#[test]
fn header_with_payload() {
    let h = FrameType { flags: Flags(0x04), size: 2u8 };
    assert_eq!(h.with_payload(vec![1, 2]), Ok(RawFrame::Command(vec![1, 2])));
    let h = FrameType { flags: Flags(0x00), size: 3u64 };
    assert!(matches!(h.with_payload(vec![1, 2]), Err(ConnectionError::IOError(_))));
}

#[test]
fn null_mechanism_is_padded() {
    let m = Mechanism::null();
    let mut expected = [0u8; 20];
    expected[..4].copy_from_slice(b"NULL");
    assert_eq!(m.0, expected);
    let padded: [u8; 20] = zerro_padded(b"NULL");
    assert_eq!(padded, expected);
}

#[test]
fn default_greeting_bytes() {
    let bytes = Greeting::default().as_bytes();
    assert_eq!(bytes.len(), 64);
    assert_eq!(&bytes[..12], &[0xff, 0, 0, 0, 0, 0, 0, 0, 0, 0x7f, 3, 0]);
    assert_eq!(&bytes[12..16], b"NULL");
    assert!(bytes[16..].iter().all(|b| *b == 0));
}

#[test]
fn default_greeting_round_trip() {
    let g = Greeting::default();
    let decoded = Greeting::from_bytes(&g.as_bytes()).unwrap();
    assert_eq!(decoded, g);
    assert_eq!(decoded.version, Version { major: 3, minor: 0 });
}

#[test]
fn greeting_with_other_mechanism() {
    let mut name = [0u8; 20];
    name[..5].copy_from_slice(b"PLAIN");
    let g = Greeting::new().with_mechanism(Mechanism(name));
    assert_eq!(&g.as_bytes()[12..32], &name);
    assert_eq!(&g.as_bytes()[..12], &Greeting::new().as_bytes()[..12]);
}

#[test]
fn greeting_bad_first_byte() {
    let mut b = Greeting::default().as_bytes();
    b[0] = 0xfe;
    assert_eq!(Greeting::from_bytes(&b), Err(ConnectionError::VersionMismatch()));
}

#[test]
fn greeting_signature_low_bit_clear() {
    let mut b = Greeting::default().as_bytes();
    b[9] = 0x7e;
    assert_eq!(Greeting::from_bytes(&b), Err(ConnectionError::VersionMismatch()));
}

#[test]
fn greeting_old_major_version() {
    let mut b = Greeting::default().as_bytes();
    b[10] = 2;
    assert_eq!(Greeting::from_bytes(&b), Err(ConnectionError::VersionMismatch()));
}

#[test]
fn header_length_and_declared_size() {
    assert_eq!(Flags(0x04).header_len(), 2);
    assert_eq!(Flags(0x06).header_len(), 9);
    assert_eq!(RawFrame::declared_size(&[0x00, 0x2a]), 42);
    assert_eq!(RawFrame::declared_size(&[0x02, 0, 0, 0, 0, 0, 0, 1, 0x2c]), 300);
}
