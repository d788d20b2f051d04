//! Frame parsing and byte-helper behavior, input by input.

use relay_core::busy::BusySet;
use relay_core::bytes::{bytes_eq, find_byte, starts_with, trim};
use relay_core::parse::{parse, Command};
use relay_core::protocol::step;
use relay_core::registry::Registry;

#[test]
fn parse_connect_trims_target() {
    match parse(b"CONNECT: bob \n") {
        Command::Connect { target } => assert_eq!(target, b"bob".to_vec()),
        _ => panic!("expected CONNECT"),
    }
}

#[test]
fn parse_accept_keeps_extra_colons_in_target() {
    // everything after the prefix is the target, colons included
    match parse(b"ACCEPT:alice:a2V5") {
        Command::Accept { target } => assert_eq!(target, b"alice:a2V5".to_vec()),
        _ => panic!("expected ACCEPT"),
    }
}

#[test]
fn parse_disconnect() {
    match parse(b"DISCONNECT:bob") {
        Command::Disconnect { target } => assert_eq!(target, b"bob".to_vec()),
        _ => panic!("expected DISCONNECT"),
    }
}

#[test]
fn parse_msg_splits_on_first_colon_only() {
    match parse(b"MSG:bob:a:b:c") {
        Command::Msg { target, payload } => {
            assert_eq!(target, b"bob".to_vec());
            assert_eq!(payload, b"a:b:c".to_vec());
        }
        _ => panic!("expected MSG"),
    }
}

#[test]
fn parse_msg_target_is_not_trimmed() {
    match parse(b"MSG: bob :x") {
        Command::Msg { target, payload } => {
            assert_eq!(target, b" bob ".to_vec());
            assert_eq!(payload, b"x".to_vec());
        }
        _ => panic!("expected MSG"),
    }
}

#[test]
fn parse_msg_empty_payload() {
    match parse(b"MSG:bob:") {
        Command::Msg { target, payload } => {
            assert_eq!(target, b"bob".to_vec());
            assert_eq!(payload, b"".to_vec());
        }
        _ => panic!("expected MSG"),
    }
}

#[test]
fn parse_msg_without_payload_colon_is_other() {
    assert!(matches!(parse(b"MSG:bob"), Command::Other));
}

#[test]
fn parse_sessionkey() {
    match parse(b"SESSIONKEY:bob:YmFzZTY0") {
        Command::SessionKey { target, payload } => {
            assert_eq!(target, b"bob".to_vec());
            assert_eq!(payload, b"YmFzZTY0".to_vec());
        }
        _ => panic!("expected SESSIONKEY"),
    }
}

#[test]
fn parse_unknown_prefix_is_other() {
    assert!(matches!(parse(b"HELLO:bob"), Command::Other));
    assert!(matches!(parse(b""), Command::Other));
    assert!(matches!(parse(b"CONNECT"), Command::Other));
}

#[test]
fn unknown_frame_is_ignored_by_step() {
    let mut reg = Registry::new();
    let mut busy = BusySet::new();
    relay_core::protocol::register_client(&mut reg, b"alice", 1);
    relay_core::protocol::register_client(&mut reg, b"bob", 2);
    let out = step(&reg, &mut busy, b"alice", 1, b"NONSENSE");
    assert_eq!(out.len(), 0);
    assert!(!busy.is_busy(b"alice"));
    assert!(!busy.is_busy(b"bob"));
}

#[test]
fn connect_target_with_inner_whitespace_kept() {
    // only surrounding whitespace goes; inner bytes stay
    match parse(b"CONNECT:a b") {
        Command::Connect { target } => assert_eq!(target, b"a b".to_vec()),
        _ => panic!("expected CONNECT"),
    }
}

#[test]
fn trim_removes_ascii_whitespace() {
    assert_eq!(trim(b"  x\t "), b"x".to_vec());
    assert_eq!(trim(b"\r\n"), b"".to_vec());
    assert_eq!(trim(b"abc"), b"abc".to_vec());
    assert_eq!(trim(b""), b"".to_vec());
}

#[test]
fn bytes_eq_compares_contents() {
    assert!(bytes_eq(b"abc", b"abc"));
    assert!(!bytes_eq(b"abc", b"abd"));
    assert!(!bytes_eq(b"abc", b"ab"));
    assert!(bytes_eq(b"", b""));
}

#[test]
fn starts_with_checks_prefix() {
    assert!(starts_with(b"CONNECT:bob", b"CONNECT:"));
    assert!(!starts_with(b"CONNECT", b"CONNECT:"));
    assert!(!starts_with(b"XCONNECT:bob", b"CONNECT:"));
}

#[test]
fn find_byte_finds_first() {
    assert_eq!(find_byte(b"a:b:c", b':'), Some(1));
    assert_eq!(find_byte(b"abc", b':'), None);
    assert_eq!(find_byte(b":", b':'), Some(0));
}
