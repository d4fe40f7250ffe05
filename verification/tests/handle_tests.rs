use rays::handle::Handle;

#[test]
fn handle_new_sets_fields() {
    let h = Handle::new(3, 9);
    assert_eq!(h.g, 3);
    assert_eq!(h.i, 9);
    assert_eq!(h, Handle { g: 3, i: 9 });
}

#[test]
fn handles_differ_in_either_field() {
    assert_ne!(Handle::new(1, 2), Handle::new(1, 3));
    assert_ne!(Handle::new(1, 2), Handle::new(0, 2));
    assert_eq!(Handle::new(1, 2), Handle::new(1, 2));
}

#[test]
fn invalid_handle_is_all_ones() {
    let h = Handle::invalid();
    assert_eq!(h.g, u32::MAX);
    assert_eq!(h.i, u32::MAX);
}

#[test]
fn default_handle_is_zero() {
    assert_eq!(Handle::default(), Handle::new(0, 0));
}

#[test]
fn handles_order_by_generation_then_slot() {
    assert!(Handle::new(0, 9) < Handle::new(1, 0));
    assert!(Handle::new(1, 0) < Handle::new(1, 1));
}
