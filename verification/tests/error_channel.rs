use vm_boundary::error::ErrorSlot;

#[test]
fn two_step_retrieval_sizes_then_copies() {
    let mut slot = ErrorSlot::new();
    assert!(!slot.has_message());
    assert_eq!(slot.last_error_length(), 0);
    slot.set(b"compile error".to_vec());
    assert_eq!(slot.last_error_length(), 13);
    let mut buf = Vec::new();
    let n = slot.last_error_message(&mut buf, 13);
    assert_eq!(n, 13);
    assert_eq!(buf, b"compile error".to_vec());
}

#[test]
fn retrieval_truncates_to_capacity() {
    let mut slot = ErrorSlot::new();
    slot.set(b"a longer diagnostic".to_vec());
    let mut buf = Vec::new();
    let n = slot.last_error_message(&mut buf, 8);
    assert_eq!(n, 8);
    assert_eq!(buf, b"a longer".to_vec());
}

#[test]
fn only_the_most_recent_message_is_kept() {
    let mut slot = ErrorSlot::new();
    slot.set(b"first failure".to_vec());
    slot.set(b"second failure".to_vec());
    let mut buf = Vec::new();
    let n = slot.last_error_message(&mut buf, 64);
    assert_eq!(&buf[..n], b"second failure");
}

#[test]
fn independent_scopes_keep_their_own_message() {
    // each scope (one per host thread) owns its own slot, so two failing
    // scopes never clobber each other's diagnostic
    let mut scope_a = ErrorSlot::new();
    let mut scope_b = ErrorSlot::new();
    scope_a.set(b"scope a: unresolved import".to_vec());
    scope_b.set(b"scope b: malformed bytecode".to_vec());
    let mut buf = Vec::new();
    let n = scope_a.last_error_message(&mut buf, 64);
    assert_eq!(&buf[..n], b"scope a: unresolved import");
    let n = scope_b.last_error_message(&mut buf, 64);
    assert_eq!(&buf[..n], b"scope b: malformed bytecode");
}

#[test]
fn empty_slot_fills_nothing() {
    let slot = ErrorSlot::new();
    let mut buf = b"untouched".to_vec();
    let n = slot.last_error_message(&mut buf, 32);
    assert_eq!(n, 0);
    assert!(buf.is_empty());
}
