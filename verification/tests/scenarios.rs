//! End-to-end protocol scenarios driven through the public step
//! function, with handles standing in for transport endpoints.

use relay_core::busy::BusySet;
use relay_core::protocol::{register_client, step, Delivery};
use relay_core::registry::Registry;

const ALICE: u64 = 1;
const BOB: u64 = 2;
const CHARLIE: u64 = 3;

struct World {
    reg: Registry,
    busy: BusySet,
}

fn world_with_alice_and_bob() -> World {
    let mut reg = Registry::new();
    let busy = BusySet::new();
    let a = register_client(&mut reg, b"alice", ALICE);
    assert_eq!(a, b"alice".to_vec());
    let b = register_client(&mut reg, b"bob", BOB);
    assert_eq!(b, b"bob".to_vec());
    World { reg, busy }
}

fn one(out: &[Delivery]) -> (u64, Vec<u8>) {
    assert_eq!(out.len(), 1);
    (out[0].handle, out[0].frame.clone())
}

#[test]
fn connect_reaches_target() {
    let mut w = world_with_alice_and_bob();
    let out = step(&w.reg, &mut w.busy, b"alice", ALICE, b"CONNECT:bob");
    let (handle, frame) = one(&out);
    assert_eq!(handle, BOB);
    assert_eq!(frame, b"INCOMING:alice\n".to_vec());
}

#[test]
fn accept_notifies_and_marks_busy() {
    let mut w = world_with_alice_and_bob();
    let _ = step(&w.reg, &mut w.busy, b"alice", ALICE, b"CONNECT:bob");
    let out = step(&w.reg, &mut w.busy, b"bob", BOB, b"ACCEPT:alice");
    let (handle, frame) = one(&out);
    assert_eq!(handle, ALICE);
    assert_eq!(frame, b"ACCEPTED:bob\n".to_vec());
    assert!(w.busy.is_busy(b"alice"));
    assert!(w.busy.is_busy(b"bob"));
}

#[test]
fn third_party_connect_gets_busy() {
    let mut w = world_with_alice_and_bob();
    let _ = step(&w.reg, &mut w.busy, b"alice", ALICE, b"CONNECT:bob");
    let _ = step(&w.reg, &mut w.busy, b"bob", BOB, b"ACCEPT:alice");
    let c = register_client(&mut w.reg, b"charlie", CHARLIE);
    assert_eq!(c, b"charlie".to_vec());
    let out = step(&w.reg, &mut w.busy, b"charlie", CHARLIE, b"CONNECT:alice");
    let (handle, frame) = one(&out);
    assert_eq!(handle, CHARLIE);
    assert_eq!(frame, b"BUSY:alice\n".to_vec());
}

#[test]
fn msg_payload_forwarded_verbatim() {
    let mut w = world_with_alice_and_bob();
    let out = step(
        &w.reg,
        &mut w.busy,
        b"alice",
        ALICE,
        b"MSG:bob:ZW5jcnlwdGVkZGF0YQ==",
    );
    let (handle, frame) = one(&out);
    assert_eq!(handle, BOB);
    assert_eq!(frame, b"MSG:alice:ZW5jcnlwdGVkZGF0YQ==\n".to_vec());
}

#[test]
fn disconnect_notifies_and_frees() {
    let mut w = world_with_alice_and_bob();
    let _ = step(&w.reg, &mut w.busy, b"alice", ALICE, b"CONNECT:bob");
    let _ = step(&w.reg, &mut w.busy, b"bob", BOB, b"ACCEPT:alice");
    let out = step(&w.reg, &mut w.busy, b"alice", ALICE, b"DISCONNECT:bob");
    let (handle, frame) = one(&out);
    assert_eq!(handle, BOB);
    assert_eq!(frame, b"DISCONNECTED:alice\n".to_vec());
    assert!(!w.busy.is_busy(b"alice"));
    assert!(!w.busy.is_busy(b"bob"));
    let c = register_client(&mut w.reg, b"charlie", CHARLIE);
    assert_eq!(c, b"charlie".to_vec());
    let out2 = step(&w.reg, &mut w.busy, b"charlie", CHARLIE, b"CONNECT:bob");
    let (handle2, frame2) = one(&out2);
    assert_eq!(handle2, BOB);
    assert_eq!(frame2, b"INCOMING:charlie\n".to_vec());
}

#[test]
fn connect_delivers_exactly_once_to_target_only() {
    let mut reg = Registry::new();
    let mut busy = BusySet::new();
    register_client(&mut reg, b"a", 10);
    register_client(&mut reg, b"b", 11);
    register_client(&mut reg, b"c", 12);
    let out = step(&reg, &mut busy, b"a", 10, b"CONNECT:b");
    assert_eq!(out.len(), 1);
    assert_eq!(out[0].handle, 11);
    assert_eq!(out[0].frame, b"INCOMING:a\n".to_vec());
}

#[test]
fn disconnect_twice_is_safe() {
    let mut w = world_with_alice_and_bob();
    let _ = step(&w.reg, &mut w.busy, b"bob", BOB, b"ACCEPT:alice");
    let _ = step(&w.reg, &mut w.busy, b"alice", ALICE, b"DISCONNECT:bob");
    assert!(!w.busy.is_busy(b"alice"));
    assert!(!w.busy.is_busy(b"bob"));
    // the second DISCONNECT is a no-op on the busy set and still succeeds
    let out = step(&w.reg, &mut w.busy, b"alice", ALICE, b"DISCONNECT:bob");
    let (handle, frame) = one(&out);
    assert_eq!(handle, BOB);
    assert_eq!(frame, b"DISCONNECTED:alice\n".to_vec());
    assert!(!w.busy.is_busy(b"alice"));
    assert!(!w.busy.is_busy(b"bob"));
}

#[test]
fn reregistration_routes_to_new_handle() {
    let mut w = world_with_alice_and_bob();
    // bob connects again: same identifier, new transport handle
    let b = register_client(&mut w.reg, b"bob", 20);
    assert_eq!(b, b"bob".to_vec());
    let out = step(&w.reg, &mut w.busy, b"alice", ALICE, b"MSG:bob:hello");
    let (handle, frame) = one(&out);
    assert_eq!(handle, 20);
    assert_eq!(frame, b"MSG:alice:hello\n".to_vec());
}

#[test]
fn sessionkey_forwarded_without_newline() {
    let mut w = world_with_alice_and_bob();
    let out = step(&w.reg, &mut w.busy, b"alice", ALICE, b"SESSIONKEY:bob:a2V5");
    let (handle, frame) = one(&out);
    assert_eq!(handle, BOB);
    assert_eq!(frame, b"SESSIONKEY:alice:a2V5".to_vec());
}

#[test]
fn deregistered_target_is_dropped() {
    let mut w = world_with_alice_and_bob();
    w.reg.deregister(b"bob");
    let out = step(&w.reg, &mut w.busy, b"alice", ALICE, b"CONNECT:bob");
    assert_eq!(out.len(), 0);
    let out2 = step(&w.reg, &mut w.busy, b"alice", ALICE, b"MSG:bob:data");
    assert_eq!(out2.len(), 0);
}

#[test]
fn accept_of_unregistered_target_is_noop() {
    let mut w = world_with_alice_and_bob();
    let out = step(&w.reg, &mut w.busy, b"bob", BOB, b"ACCEPT:nobody");
    assert_eq!(out.len(), 0);
    assert!(!w.busy.is_busy(b"bob"));
    assert!(!w.busy.is_busy(b"nobody"));
}

#[test]
fn registration_trims_surrounding_whitespace() {
    let mut reg = Registry::new();
    let mut busy = BusySet::new();
    let id = register_client(&mut reg, b"  alice\r\n", 7);
    assert_eq!(id, b"alice".to_vec());
    register_client(&mut reg, b"bob", 8);
    let out = step(&reg, &mut busy, b"bob", 8, b"CONNECT:alice\n");
    assert_eq!(out.len(), 1);
    assert_eq!(out[0].handle, 7);
    assert_eq!(out[0].frame, b"INCOMING:bob\n".to_vec());
}
