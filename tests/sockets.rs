use zmtp::errors::{ConnectionError, Error, ParseError};
use zmtp::packets::null::{Command, Frame};
use zmtp::packets::{Mechanism, Version};
use zmtp::sockets::{Exchange, Root, Zmtp};

fn peer_head() -> Vec<u8> {
    vec![0xff, 0, 0, 0, 0, 0, 0, 0, 0, 0x01, 0x03]
}

fn peer_tail(mechanism: &[u8]) -> Vec<u8> {
    let mut t = vec![0u8];
    let mut m = [0u8; 20];
    m[..mechanism.len()].copy_from_slice(mechanism);
    t.extend_from_slice(&m);
    t.push(0);
    t.extend_from_slice(&[0u8; 31]);
    t
}

fn ready_socket() -> Zmtp {
    let c = Root::connect("localhost", 5555, true).unwrap();
    let v = c.version(3, 0, &peer_head()).unwrap();
    let a = v.mechanism(Mechanism::null(), &peer_tail(b"NULL")).unwrap();
    a.ready().0
}

#[test]
fn handshake_end_to_end() {
    let c = Root::connect("localhost", 5555, true).unwrap();
    let head = c.greeting_head();
    assert_eq!(head, vec![0xff, 0, 0, 0, 0, 0, 0, 0, 0, 0x7f, 3]);
    let v = c.version(3, 0, &peer_head()).unwrap();
    let tail = v.greeting_tail();
    assert_eq!(tail.len(), 53);
    assert_eq!(tail[0], 0);
    assert_eq!(&tail[1..5], b"NULL");
    let remote = peer_tail(b"NULL");
    assert_eq!(remote.len(), 53);
    let a = v.mechanism(Mechanism::null(), &remote).unwrap();
    let (socket, ready) = a.ready();
    let mut expected = vec![0x04, 0x19, 0x05];
    expected.extend_from_slice(b"READY");
    expected.push(0x0b);
    expected.extend_from_slice(b"Socket-Type");
    expected.extend_from_slice(&[0, 0, 0, 3]);
    expected.extend_from_slice(b"REQ");
    assert_eq!(ready, expected);
    assert_eq!(socket.state(), Exchange::Idle);
    assert_eq!(socket.version(), Version { major: 3, minor: 0 });
}

#[test]
fn unreachable_host() {
    let r = Root::connect("nowhere", 9, false);
    assert!(matches!(
        r,
        Err(ConnectionError::UnaccessibleHost(ref h, 9)) if h == "nowhere"
    ));
}

#[test]
fn unsupported_local_version() {
    let c = Root::connect("localhost", 5555, true).unwrap();
    assert!(matches!(c.version(2, 0, &peer_head()), Err(ConnectionError::VersionMismatch())));
}

#[test]
fn peer_version_too_old() {
    let c = Root::connect("localhost", 5555, true).unwrap();
    let mut head = peer_head();
    head[10] = 2;
    assert!(matches!(c.version(3, 0, &head), Err(ConnectionError::VersionMismatch())));
}

#[test]
fn mechanism_mismatch() {
    let c = Root::connect("localhost", 5555, true).unwrap();
    let v = c.version(3, 0, &peer_head()).unwrap();
    let r = v.mechanism(Mechanism::null(), &peer_tail(b"PLAIN"));
    assert!(matches!(r, Err(ConnectionError::MechanismMismatch())));
}

#[test]
fn request_and_reply() {
    let mut s = ready_socket();
    let bytes = s.request(&Frame::Message(b"Hi!".to_vec()));
    assert_eq!(bytes, vec![0x01, 0x00, 0x00, 0x03, b'H', b'i', b'!']);
    assert_eq!(s.state(), Exchange::AwaitingSeparator);
    assert_eq!(s.receive(Some(Frame::Separator)), Ok(None));
    assert_eq!(s.state(), Exchange::AwaitingReply);
    assert_eq!(
        s.receive(Some(Frame::Message(b"ok".to_vec()))),
        Ok(Some(Frame::Message(b"ok".to_vec())))
    );
    assert_eq!(s.state(), Exchange::Idle);
}

#[test]
fn reply_without_separator() {
    let mut s = ready_socket();
    s.request(&Frame::Message(b"Hi!".to_vec()));
    assert_eq!(
        s.receive(Some(Frame::Message(b"no".to_vec()))),
        Err(Error::Parse(ParseError::UnexpectedFrame))
    );
    assert_eq!(s.state(), Exchange::Idle);
}

#[test]
fn peer_closes_before_reply() {
    let mut s = ready_socket();
    s.request(&Frame::Command(Command::Error(String::from("x"))));
    assert_eq!(s.receive(Some(Frame::Separator)), Ok(None));
    assert!(matches!(
        s.receive(None),
        Err(Error::Connection(ConnectionError::IOError(_)))
    ));
}

#[test]
fn errors_convert() {
    assert_eq!(
        Error::from(ConnectionError::MechanismMismatch()),
        Error::Connection(ConnectionError::MechanismMismatch())
    );
    assert_eq!(Error::from(ParseError::Truncated), Error::Parse(ParseError::Truncated));
}
