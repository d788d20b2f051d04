//! Registry and busy-set behavior on their own.

use relay_core::busy::BusySet;
use relay_core::registry::Registry;

#[test]
fn lookup_after_register() {
    let mut reg = Registry::new();
    assert_eq!(reg.lookup(b"alice"), None);
    reg.register(b"alice".to_vec(), 5);
    assert_eq!(reg.lookup(b"alice"), Some(5));
    assert_eq!(reg.lookup(b"bob"), None);
}

#[test]
fn register_overwrites_silently() {
    let mut reg = Registry::new();
    reg.register(b"alice".to_vec(), 5);
    reg.register(b"alice".to_vec(), 9);
    assert_eq!(reg.lookup(b"alice"), Some(9));
}

#[test]
fn deregister_removes_only_its_entry() {
    let mut reg = Registry::new();
    reg.register(b"alice".to_vec(), 5);
    reg.register(b"bob".to_vec(), 6);
    reg.deregister(b"alice");
    assert_eq!(reg.lookup(b"alice"), None);
    assert_eq!(reg.lookup(b"bob"), Some(6));
    // deregistering an absent identifier is harmless
    reg.deregister(b"alice");
    assert_eq!(reg.lookup(b"bob"), Some(6));
}

#[test]
fn busy_flags_mark_and_clear() {
    let mut busy = BusySet::new();
    assert!(!busy.is_busy(b"alice"));
    busy.mark_busy(b"alice".to_vec());
    assert!(busy.is_busy(b"alice"));
    busy.mark_busy(b"alice".to_vec());
    assert!(busy.is_busy(b"alice"));
    busy.clear_busy(b"alice");
    assert!(!busy.is_busy(b"alice"));
    busy.clear_busy(b"alice");
    assert!(!busy.is_busy(b"alice"));
}

#[test]
fn busy_flags_are_independent() {
    let mut busy = BusySet::new();
    busy.mark_busy(b"alice".to_vec());
    busy.mark_busy(b"bob".to_vec());
    busy.clear_busy(b"alice");
    assert!(!busy.is_busy(b"alice"));
    assert!(busy.is_busy(b"bob"));
}
