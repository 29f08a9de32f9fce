use interprocess::stream::{
    encode_socket_path, flags_with_nonblocking, interpret_recv, interpret_send,
    nonblocking_from_flags, shutdown_how_code, RecvOutcome, SendOutcome, ShutdownHow,
    SocketPathError, ERRNO_WOULD_BLOCK, NONBLOCK_FLAG, SOCKADDR_UN_LEN,
};

#[test]
fn shutdown_codes() {
    assert_eq!(shutdown_how_code(ShutdownHow::Read), 0);
    assert_eq!(shutdown_how_code(ShutdownHow::Write), 1);
    assert_eq!(shutdown_how_code(ShutdownHow::Both), 2);
}

#[test]
fn received_bytes_are_reported() {
    let r = interpret_recv(5, 0, 7);
    assert_eq!(r, RecvOutcome::Received { bytes: 5, ancillary_used: 7 });
}

#[test]
fn zero_read_means_orderly_peer_shutdown() {
    let r = interpret_recv(0, 0, 3);
    assert_eq!(r, RecvOutcome::PeerClosed { ancillary_used: 3 });
}

#[test]
fn would_block_is_surfaced_immediately() {
    let r = interpret_recv(-1, ERRNO_WOULD_BLOCK, 0);
    assert_eq!(r, RecvOutcome::WouldBlock);
}

#[test]
fn other_receive_failures_keep_their_code() {
    let r = interpret_recv(-1, 13, 0);
    assert_eq!(r, RecvOutcome::OsError { code: 13 });
}

#[test]
fn send_outcomes_are_classified() {
    assert_eq!(interpret_send(9, 0, 4), SendOutcome::Sent { bytes: 9, ancillary_used: 4 });
    assert_eq!(interpret_send(0, 0, 0), SendOutcome::Sent { bytes: 0, ancillary_used: 0 });
    assert_eq!(interpret_send(-1, ERRNO_WOULD_BLOCK, 0), SendOutcome::WouldBlock);
    assert_eq!(interpret_send(-1, 32, 0), SendOutcome::OsError { code: 32 });
}

#[test]
fn nonblocking_toggle_round_trips() {
    let set = flags_with_nonblocking(0, true);
    assert_eq!(set, NONBLOCK_FLAG);
    assert!(nonblocking_from_flags(set));

    let cleared = flags_with_nonblocking(NONBLOCK_FLAG | 3, false);
    assert_eq!(cleared, 3);
    assert!(!nonblocking_from_flags(cleared));

    // unrelated flag bits survive the toggle
    let set2 = flags_with_nonblocking(3, true);
    assert_eq!(set2, NONBLOCK_FLAG | 3);
    assert!(nonblocking_from_flags(set2));
}

#[test]
fn socket_path_is_marshaled_with_family_and_fill() {
    let addr = encode_socket_path(b"/tmp/example.sock").unwrap();
    assert_eq!(addr.len(), SOCKADDR_UN_LEN);
    assert_eq!(addr[0], 1);
    assert_eq!(addr[1], 0);
    assert_eq!(&addr[2..19], b"/tmp/example.sock");
    assert!(addr[19..].iter().all(|b| *b == 0));
}

#[test]
fn empty_path_is_marshaled() {
    let addr = encode_socket_path(b"").unwrap();
    assert_eq!(addr.len(), SOCKADDR_UN_LEN);
    assert_eq!(addr[0], 1);
    assert!(addr[2..].iter().all(|b| *b == 0));
}

#[test]
fn longest_path_is_accepted_and_longer_rejected() {
    let just_fits = vec![b'a'; 107];
    assert!(encode_socket_path(&just_fits).is_ok());
    let too_long = vec![b'a'; 108];
    assert_eq!(encode_socket_path(&too_long).unwrap_err(), SocketPathError::TooLong);
}

#[test]
fn interior_nul_is_rejected() {
    let r = encode_socket_path(b"a\0b");
    assert_eq!(r.unwrap_err(), SocketPathError::InteriorNul);
}
