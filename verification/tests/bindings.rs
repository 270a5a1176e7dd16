use gain::error::ErrorCode;
use gain::origin::{accept_reply, AcceptError};
use gain::peer::{
    connect_reply, connect_request, parse_name, peer_info, ConnectError, ConnectErrorKind,
};
use gain::peerindex;
use gain::random;
use gain::scope::{restrict_reply, restrict_request, RestrictError};
use gain::shell;
use gain::threadunsafe::{ThreadUnsafeCell, ThreadUnsafeRefCell};
use gain::wire;
use gain::wire::PacketError::{LengthOutOfBounds, SizeMismatch, WrongDomain};

#[test]
fn accept_reply_cases() {
    assert_eq!(accept_reply(&[]), Err(AcceptError::new(0)));
    assert_eq!(accept_reply(&[1, 0, 0, 0, 0, 0, 0]), Err(AcceptError::new(0)));
    assert_eq!(accept_reply(&[5, 0, 0, 0, 0, 0, 0, 0]), Ok(5));
    assert_eq!(accept_reply(&[5, 0, 0, 0, 0xfe, 0xff, 0, 0]), Err(AcceptError::new(-2)));
    assert_eq!(accept_reply(&[0xff, 0xff, 0xff, 0x7f, 0, 0, 9, 9, 9]), Ok(i32::MAX));
    assert_eq!(AcceptError::new(7).as_i16(), 7);
    assert_eq!(ErrorCode::as_i16(&AcceptError::new(7)), 7);
}

#[test]
fn connect_error_kinds() {
    assert_eq!(ConnectError::new(0).kind(), ConnectErrorKind::Other);
    assert_eq!(ConnectError::new(1).kind(), ConnectErrorKind::Other);
    assert_eq!(ConnectError::new(2).kind(), ConnectErrorKind::GroupNotFound);
    assert_eq!(ConnectError::new(3).kind(), ConnectErrorKind::PeerNotFound);
    assert_eq!(ConnectError::new(4).kind(), ConnectErrorKind::Singularity);
    assert_eq!(ConnectError::new(5).kind(), ConnectErrorKind::AlreadyConnecting);
    assert_eq!(ConnectError::new(6).kind(), ConnectErrorKind::AlreadyConnected);
    assert_eq!(ConnectError::new(7).kind(), ConnectErrorKind::Other);
    assert_eq!(ConnectError::already_connecting().as_i16(), 5);
}

#[test]
fn connect_request_and_reply() {
    assert_eq!(
        connect_request(b"gr", b"p", b""),
        vec![0, 0, 0, 0, 0, 0, 0, 0, 2, b'g', b'r', 1, b'p', 0]
    );
    assert_eq!(connect_reply(&[]), Err(ConnectError::new(0)));
    assert_eq!(connect_reply(&[0]), Err(ConnectError::new(0)));
    assert_eq!(connect_reply(&[0, 0]), Ok(()));
    assert_eq!(connect_reply(&[3, 0, 9]), Err(ConnectError::new(3)));
    assert_eq!(connect_reply(&[1, 0]), Err(ConnectError::new(1)));
}

#[test]
fn names_are_parsed() {
    let (name, rest) = parse_name(&[3, b'a', b'b', b'c', 9, 9]);
    assert_eq!(name, b"abc");
    assert_eq!(rest, &[9, 9]);
    let (name, rest) = parse_name(&[0]);
    assert!(name.is_empty() && rest.is_empty());

    let mut b = vec![0xff, 0xff, 0xff, 0xff, 0, 0, 0, 0];
    b.extend_from_slice(&[1, b'g', 2, b'p', b'q', 3, b't', b'x', b't']);
    let info = peer_info(&b).unwrap();
    assert_eq!(info.id, -1);
    assert_eq!(info.group_name, b"g");
    assert_eq!(info.peer_name, b"pq");
    assert_eq!(info.content_type, b"txt");
    assert!(peer_info(&b[..b.len() - 1]).is_none());
    assert!(peer_info(&b[..8]).is_none());
    assert!(peer_info(&b[..7]).is_none());
}

#[test]
fn peerindex_errors_and_instances() {
    assert_eq!(peerindex::Error::new(1).kind(), peerindex::ErrorKind::NotRegistered);
    assert_eq!(peerindex::Error::new(0).kind(), peerindex::ErrorKind::Other);
    assert_eq!(peerindex::Error::new(2).as_i16(), 2);
    assert_eq!(peerindex::group_name(), "index/principal");
    assert_eq!(peerindex::instances_reply(&[0, 0, 0]), Err(peerindex::Error::new(0)));
    assert_eq!(peerindex::instances_reply(&[1, 0, 0, 0]), Err(peerindex::Error::new(1)));
    assert_eq!(peerindex::instances_reply(&[0, 0, 0, 0]), Ok(vec![]));
    assert_eq!(
        peerindex::instances_reply(&[0, 0, 2, 0, 1, b'a', 2, b'b', b'c', 7]),
        Ok(vec![b"a".to_vec(), b"bc".to_vec()])
    );
    assert_eq!(
        peerindex::instances_reply(&[0, 0, 2, 0, 1, b'a', 2, b'b']),
        Err(peerindex::Error::new(0))
    );
    assert_eq!(
        peerindex::instances_reply(&[0, 0, 1, 0]),
        Err(peerindex::Error::new(0))
    );
}

#[test]
fn shell_errors_and_spawn_reply() {
    assert_eq!(shell::Error::new(0).kind(), shell::ErrorKind::Other);
    assert_eq!(shell::Error::new(1).kind(), shell::ErrorKind::Quota);
    assert_eq!(shell::Error::new(2).kind(), shell::ErrorKind::User);
    assert_eq!(shell::Error::new(3).kind(), shell::ErrorKind::WorkDir);
    assert_eq!(shell::Error::new(4).kind(), shell::ErrorKind::Executable);
    assert_eq!(shell::Error::new(5).kind(), shell::ErrorKind::Other);
    assert_eq!(shell::Error::new(-4).as_i16(), -4);
    let r = shell::spawn_reply(&[0, 0, 0, 0, 6, 0, 0, 0]);
    assert_eq!((r.id, r.error), (Some(6), 0));
    assert!(r.is_ok());
    let r = shell::spawn_reply(&[2, 0, 0, 0, 6, 0, 0, 0]);
    assert_eq!((r.id, r.error), (Some(6), 2));
    assert!(!r.is_ok());
    let r = shell::spawn_reply(&[0, 0, 0, 0, 0xff, 0xff, 0xff, 0xff]);
    assert_eq!((r.id, r.error), (None, 0));
    assert!(!r.is_ok());
}

#[test]
fn scope_request_and_reply() {
    assert_eq!(restrict_request(&vec![]), vec![0, 0]);
    assert_eq!(
        restrict_request(&vec![b"ab".to_vec(), b"".to_vec(), b"c".to_vec()]),
        vec![0, 3, 2, b'a', b'b', 0, 1, b'c']
    );
    assert_eq!(restrict_reply(&[]), Err(RestrictError::UnknownCall));
    assert_eq!(restrict_reply(&[0, 0]), Ok(()));
    assert_eq!(restrict_reply(&[4, 0]), Err(RestrictError::Unexpected(4)));
}

#[test]
fn random_request_and_take() {
    assert_eq!(random::request(0), 0);
    assert_eq!(random::request(254), 254);
    assert_eq!(random::request(255), 255);
    assert_eq!(random::request(70000), 255);
    let mut dest = [0u8; 6];
    assert_eq!(random::take(&mut dest, 1, &[1, 2, 3]), 3);
    assert_eq!(dest, [0, 1, 2, 3, 0, 0]);
    assert_eq!(random::take(&mut dest, 4, &[7, 8, 9]), 2);
    assert_eq!(dest, [0, 1, 2, 3, 7, 8]);
    assert_eq!(random::take(&mut dest, 6, &[7]), 0);
}

#[test]
fn cells_hold_and_replace() {
    let mut c = ThreadUnsafeCell::new(false);
    c.set(true);
    assert_eq!(c.replace(false), true);
    assert_eq!(c.replace(true), false);
    let mut r = ThreadUnsafeRefCell::new(vec![1]);
    r.borrow_mut().push(2);
    assert_eq!(r.borrow(), &vec![1, 2]);
}

#[test]
fn header_records() {
    let h = wire::new_header(300, -1, 2);
    assert_eq!((h.size, h.code, h.domain, h.reserved0), (300, -1, 2, 0));
    assert_eq!(wire::serialize_header(&h), vec![0x2c, 1, 0, 0, 0xff, 0xff, 2, 0]);
    assert_eq!(wire::deserialize_header(&wire::serialize_header(&h)), h);
    assert_eq!(wire::deserialize_size(&vec![0x2c, 1, 0, 0]), 300);
    let s = wire::new_services_header(17, 1);
    assert_eq!((s.packet.code, s.packet.domain, s.count), (-1, 0, 1));
    assert_eq!(
        wire::serialize_services_header(&s),
        vec![17, 0, 0, 0, 0xff, 0xff, 0, 0, 1, 0, 0, 0, 0, 0, 0, 0]
    );
    let f = wire::new_flow_header(16, 3);
    assert_eq!((f.size, f.code, f.domain), (16, 3, 2));
    let d = wire::new_data_header(20, 3, -2);
    assert_eq!((d.packet.domain, d.id, d.reserved0), (3, -2, 0));
    assert_eq!(
        wire::serialize_data_header(&d),
        vec![20, 0, 0, 0, 3, 0, 3, 0, 0xfe, 0xff, 0xff, 0xff, 0, 0, 0, 0]
    );
    assert_eq!(
        wire::serialize_flow(&wire::Flow { id: 1, increment: 0x01020304 }),
        vec![1, 0, 0, 0, 4, 3, 2, 1]
    );
    assert!(wire::ServiceState { code: 0, flags: 1 }.avail());
    assert!(wire::ServiceState { code: 0, flags: 3 }.avail());
    assert!(!wire::ServiceState { code: 0, flags: 2 }.avail());
}

#[test]
fn handed_over_packets_are_checked() {
    assert_eq!(wire::check_packet(&vec![0; 7], true), Err(LengthOutOfBounds));
    assert_eq!(wire::check_packet(&vec![0; 65537], true), Err(LengthOutOfBounds));
    assert_eq!(wire::check_packet(&vec![9, 0, 0, 0, 0, 0, 0, 0], true), Err(SizeMismatch));
    assert_eq!(wire::check_packet(&vec![8, 0, 0, 0, 0, 0, 1, 0], true), Err(WrongDomain));
    assert_eq!(wire::check_packet(&vec![8, 0, 0, 0, 0, 0, 0, 0], false), Err(WrongDomain));
    assert_eq!(wire::check_packet(&vec![8, 0, 0, 0, 0, 0, 1, 0], false), Err(WrongDomain));
    assert!(wire::check_packet(&vec![8, 0, 0, 0, 0, 0, 0, 0], true).is_ok());
    assert!(wire::check_packet(&vec![8, 0, 0, 0, 0, 0, 2, 0], false).is_ok());
    let h = wire::check_packet(&vec![9, 0, 0, 0, 4, 0, 3, 0, 1], false).unwrap();
    assert_eq!((h.size, h.code, h.domain), (9, 4, 3));
}

#[test]
fn one_packet_at_a_time() {
    assert_eq!(wire::IO_RECV_WAIT, 1);
    assert_eq!(wire::io_flags(true, true, 0), 1);
    assert_eq!(wire::io_flags(false, true, 0), 0);
    assert_eq!(wire::io_flags(true, false, 0), 0);
    assert_eq!(wire::io_flags(false, false, 3), 1);
    assert_eq!(wire::recv_len(0, 8), 8);
    assert_eq!(wire::recv_len(5, 8), 3);
    assert_eq!(wire::recv_len(8, 8), 0);
    assert_eq!(wire::recv_len(9, 8), 0);
    assert_eq!(wire::next_recv_size(8, &vec![20, 0, 0, 0, 0, 0, 0, 0]), 20);
    assert_eq!(wire::next_recv_size(8, &vec![20, 0, 0, 0]), 8);
    assert_eq!(wire::next_recv_size(20, &vec![9, 0, 0, 0, 0, 0, 0, 0]), 20);
    assert!(wire::iteration_done(0, 8, false));
    assert!(wire::iteration_done(20, 20, false));
    assert!(!wire::iteration_done(8, 20, false));
    assert!(!wire::iteration_done(20, 20, true));
    assert!(wire::has_receiver(&wire::new_header(8, 0, 0)));
    assert!(wire::has_receiver(&wire::new_header(8, 0, 1)));
    assert!(!wire::has_receiver(&wire::new_header(8, 0, 2)));
    assert!(!wire::has_receiver(&wire::new_header(8, 0, 3)));
}

#[test]
fn discovery_and_origin_packets() {
    assert_eq!(
        wire::discovery_request(b"origin"),
        vec![
            23, 0, 0, 0, 0xff, 0xff, 0, 0, 1, 0, 0, 0, 0, 0, 0, 0, b'o', b'r', b'i', b'g', b'i',
            b'n', 0
        ]
    );
    let mut resp = vec![0u8; 16];
    assert_eq!(wire::discovered(&resp, 0), None);
    resp.extend_from_slice(&[1, 0]);
    assert_eq!(wire::discovered(&resp, 0), Some(wire::ServiceState { code: 0, flags: 1 }));
    assert_eq!(wire::discovered(&resp, 1), Some(wire::ServiceState { code: 1, flags: 0 }));
    assert_eq!(wire::discovered(&resp, 2), None);
    let (flow, data) = wire::origin_write(3, &[7, 8]);
    assert_eq!(flow, vec![16, 0, 0, 0, 3, 0, 2, 0, 0, 0, 0, 0, 0, 0, 0, 0]);
    assert_eq!(data, vec![18, 0, 0, 0, 3, 0, 3, 0, 0, 0, 0, 0, 0, 0, 0, 0, 7, 8]);
}
