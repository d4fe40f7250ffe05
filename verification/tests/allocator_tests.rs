use rays::allocator::Allocator;
use rays::handle::Handle;
use rays::join::EntityStorage;

#[test]
fn fresh_allocator_is_empty() {
    let a = Allocator::new();
    assert_eq!(a.len(), 0);
    assert!(a.is_empty());
    assert!(a.entities().is_empty());
    assert!(a.generations().is_empty());
    assert!(a.free_slots().is_empty());
}

#[test]
fn three_allocations_then_reuse() {
    let mut a = Allocator::new();
    assert_eq!(a.allocate(), Handle { g: 0, i: 0 });
    assert_eq!(a.allocate(), Handle { g: 0, i: 1 });
    assert_eq!(a.allocate(), Handle { g: 0, i: 2 });
    a.dealloc(Handle { g: 0, i: 1 });
    assert_eq!(a.allocate(), Handle { g: 1, i: 1 });
    assert!(!a.contains(Handle { g: 0, i: 1 }));
    assert!(a.contains(Handle { g: 1, i: 1 }));
}

#[test]
fn allocated_handle_is_live_at_once() {
    let mut a = Allocator::new();
    for _ in 0..5 {
        let h = a.allocate();
        assert!(a.contains(h));
    }
    let h = Handle { g: 0, i: 3 };
    a.dealloc(h);
    let again = a.allocate();
    assert!(a.contains(again));
}

#[test]
fn retired_handle_never_comes_back() {
    let mut a = Allocator::new();
    let h0 = a.allocate();
    let h1 = a.allocate();
    a.dealloc(h0);
    assert!(!a.contains(h0));
    let mut last = h1;
    for _ in 0..6 {
        let h = a.allocate();
        assert!(!a.contains(h0));
        a.dealloc(h);
        assert!(!a.contains(h0));
        assert!(!a.contains(h));
        last = h;
    }
    assert_eq!(last.i, 0);
    assert_eq!(last.g, 6);
    assert!(a.contains(h1));
}

#[test]
fn reused_slot_has_greater_generation() {
    let mut a = Allocator::new();
    let _h0 = a.allocate();
    let h1 = a.allocate();
    let _h2 = a.allocate();
    a.dealloc(h1);
    let h = a.allocate();
    assert_eq!(h.i, h1.i);
    assert!(h.g > h1.g);
    assert!(!a.contains(h1));
    assert!(a.contains(h));
}

#[test]
fn free_list_gives_last_retired_first() {
    let mut a = Allocator::new();
    let h0 = a.allocate();
    let h1 = a.allocate();
    let h2 = a.allocate();
    a.dealloc(h0);
    a.dealloc(h2);
    assert_eq!(a.free_slots(), &vec![0, 2]);
    assert_eq!(a.allocate(), Handle { g: 1, i: 2 });
    assert_eq!(a.allocate(), Handle { g: 1, i: 0 });
    assert_eq!(a.allocate(), Handle { g: 0, i: 3 });
    assert!(a.contains(h1));
}

#[test]
fn dealloc_of_stale_handle_changes_nothing() {
    let mut a = Allocator::new();
    let h = a.allocate();
    a.dealloc(h);
    let gen = a.generations().clone();
    let dead = a.free_slots().clone();
    a.dealloc(h);
    assert_eq!(a.generations(), &gen);
    assert_eq!(a.free_slots(), &dead);
    assert_eq!(gen, vec![1]);
    assert_eq!(dead, vec![0]);
}

#[test]
fn handle_of_unknown_slot_is_absent() {
    let mut a = Allocator::new();
    a.allocate();
    let far = Handle { g: 0, i: 7 };
    assert!(!a.contains(far));
    a.dealloc(far);
    assert_eq!(a.len(), 1);
    assert!(a.free_slots().is_empty());
    assert!(!a.contains(Handle::invalid()));
}

#[test]
fn entities_lists_every_slot_at_its_generation() {
    let mut a = Allocator::new();
    let _ = a.allocate();
    let h1 = a.allocate();
    let _ = a.allocate();
    a.dealloc(h1);
    assert_eq!(a.len(), 3);
    assert!(!a.is_empty());
    assert_eq!(
        a.entities(),
        vec![Handle { g: 0, i: 0 }, Handle { g: 1, i: 1 }, Handle { g: 0, i: 2 }]
    );
}

#[test]
fn allocator_from_parts_checks_free_list() {
    let a = Allocator::from_parts(vec![0, 4, 2], vec![1]).unwrap();
    assert_eq!(a.generations(), &vec![0, 4, 2]);
    assert_eq!(a.free_slots(), &vec![1]);
    assert!(a.contains(Handle { g: 4, i: 1 }));
    assert!(Allocator::from_parts(vec![0, 4, 2], vec![3]).is_none());
    assert!(Allocator::from_parts(vec![], vec![0]).is_none());
    assert!(Allocator::from_parts(vec![], vec![]).is_some());
}

#[test]
fn allocator_round_trip_keeps_behaviour() {
    let mut a = Allocator::new();
    let _ = a.allocate();
    let h1 = a.allocate();
    a.dealloc(h1);
    let mut b = Allocator::from_parts(a.generations().clone(), a.free_slots().clone()).unwrap();
    assert_eq!(b.allocate(), a.allocate());
    assert_eq!(b.entities(), a.entities());
}

#[test]
fn allocator_clone_is_independent() {
    let mut a = Allocator::new();
    let h = a.allocate();
    let snapshot = a.clone();
    a.dealloc(h);
    assert!(!a.contains(h));
    assert!(snapshot.contains(h));
    assert_eq!(snapshot.len(), 1);
}

#[test]
fn default_allocator_is_empty() {
    let a = Allocator::default();
    assert!(a.is_empty());
}
