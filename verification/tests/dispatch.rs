use deluge_rpc::dispatch::Listeners;

#[test]
fn answers_reach_their_listener_once() {
    let mut l: Listeners<&str> = Listeners::new();
    assert_eq!(l.register(1, "first"), None);
    assert_eq!(l.register(2, "second"), None);
    assert_eq!(l.len(), 2);
    assert_eq!(l.take(2), Some("second"));
    assert_eq!(l.take(2), None);
    assert_eq!(l.take(1), Some("first"));
    assert_eq!(l.len(), 0);
}

#[test]
fn conflicting_registration_hands_back_the_old_listener() {
    let mut l: Listeners<u8> = Listeners::new();
    assert_eq!(l.register(7, 1), None);
    assert_eq!(l.register(7, 2), Some(1));
    assert_eq!(l.take(7), Some(2));
}
