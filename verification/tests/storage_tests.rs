use rays::handle::Handle;
use rays::join::EntityStorage;
use rays::storage::{ComponentData, ComponentStorage};

fn filled() -> ComponentStorage<i64> {
    let mut s = ComponentStorage::new();
    {
        let mut w = s.insert();
        w.insert(Handle::new(0, 3), 30);
        w.insert(Handle::new(2, 1), 10);
        w.insert(Handle::new(0, 6), 60);
    }
    s
}

#[test]
fn new_storage_is_empty() {
    let s: ComponentStorage<i64> = ComponentStorage::new();
    assert_eq!(s.len(), 0);
    assert!(s.is_empty());
    assert!(s.entities().is_empty());
    assert!(s.data.c.is_empty());
    assert_eq!(s.read().get(0), None);
    let d: ComponentData<i64> = ComponentData::new();
    assert!(d.c.is_empty());
}

#[test]
fn insert_appends_value_and_entity_together() {
    let s = filled();
    assert_eq!(s.data.c, vec![30, 10, 60]);
    assert_eq!(s.index.c2e, vec![Handle::new(0, 3), Handle::new(2, 1), Handle::new(0, 6)]);
    assert_eq!(s.data.c.len(), s.index.c2e.len());
    assert_eq!(s.len(), 3);
    assert!(!s.is_empty());
    assert_eq!(s.entities(), s.index.c2e);
}

#[test]
fn read_view_is_indexed_by_entity_slot() {
    let s = filled();
    let r = s.read();
    assert_eq!(r.get(3), Some(&30));
    assert_eq!(r.get(1), Some(&10));
    assert_eq!(r.get(6), Some(&60));
}

#[test]
fn read_of_missing_slot_is_none() {
    let s = filled();
    let r = s.read();
    assert_eq!(r.get(0), None);
    assert_eq!(r.get(2), None);
    assert_eq!(r.get(7), None);
    assert_eq!(r.get(usize::MAX), None);
}

#[test]
fn storage_contains_checks_the_generation() {
    let s = filled();
    assert!(s.contains(Handle::new(2, 1)));
    assert!(!s.contains(Handle::new(1, 1)));
    assert!(!s.contains(Handle::new(0, 0)));
    assert!(!s.contains(Handle::new(0, 100)));
}

#[test]
fn write_view_replaces_in_place() {
    let mut s = filled();
    {
        let mut w = s.write();
        assert_eq!(w.get(1), Some(&10));
        assert!(w.set(1, 11));
        assert_eq!(w.get(1), Some(&11));
        assert!(w.set(6, 66));
    }
    assert_eq!(s.data.c, vec![30, 11, 66]);
    assert_eq!(s.index.c2e, vec![Handle::new(0, 3), Handle::new(2, 1), Handle::new(0, 6)]);
    assert_eq!(s.read().get(1), Some(&11));
    assert_eq!(s.read().get(3), Some(&30));
}

#[test]
fn write_to_missing_slot_changes_nothing() {
    let mut s = filled();
    {
        let mut w = s.write();
        assert!(!w.set(0, 1));
        assert!(!w.set(2, 1));
        assert!(!w.set(9, 1));
        assert_eq!(w.get(9), None);
    }
    assert_eq!(s.data.c, vec![30, 10, 60]);
}

#[test]
fn two_read_views_see_the_same() {
    let s = filled();
    let a = s.read();
    let b = s.read();
    for slot in 0..8 {
        assert_eq!(a.get(slot), b.get(slot));
    }
    assert_eq!(a.c, b.c);
    assert_eq!(a.index.c2e, b.index.c2e);
}

#[test]
fn views_on_different_tables_coexist() {
    let mut p = filled();
    let v = filled();
    let mut w = p.write();
    let r = v.read();
    let add = *r.get(3).unwrap();
    let old = *w.get(3).unwrap();
    assert!(w.set(3, old + add));
    assert_eq!(w.get(3), Some(&60));
    assert_eq!(r.get(3), Some(&30));
}

#[test]
fn reinserted_slot_shows_the_new_value() {
    let mut s = filled();
    s.insert().insert(Handle::new(1, 3), 31);
    assert_eq!(s.read().get(3), Some(&31));
    assert!(s.contains(Handle::new(1, 3)));
    assert!(!s.contains(Handle::new(0, 3)));
    assert_eq!(s.data.c, vec![30, 10, 60, 31]);
    assert_eq!(s.len(), 4);
}

#[test]
fn round_trip_keeps_values_and_order() {
    let s = filled();
    let t = ComponentStorage::from_parts(s.data.c.clone(), s.index.c2e.clone()).unwrap();
    assert_eq!(t.data.c, s.data.c);
    assert_eq!(t.index.c2e, s.index.c2e);
    assert_eq!(t.index.e2c, s.index.e2c);
    let (a, b) = (s.read(), t.read());
    for slot in 0..10 {
        assert_eq!(a.get(slot), b.get(slot));
    }
    for e in s.entities() {
        assert!(t.contains(e));
    }
}

#[test]
fn from_parts_rejects_unequal_lengths() {
    assert!(ComponentStorage::from_parts(vec![1, 2], vec![Handle::new(0, 0)]).is_none());
    assert!(ComponentStorage::<i64>::from_parts(vec![], vec![Handle::new(0, 0)]).is_none());
    assert!(ComponentStorage::<i64>::from_parts(vec![], vec![]).is_some());
}

#[test]
fn storage_clone_is_independent() {
    let mut s = filled();
    let snapshot = s.clone();
    s.write().set(3, -1);
    s.insert().insert(Handle::new(0, 9), 90);
    assert_eq!(snapshot.data.c, vec![30, 10, 60]);
    assert_eq!(snapshot.read().get(3), Some(&30));
    assert_eq!(snapshot.read().get(9), None);
    assert_eq!(s.read().get(3), Some(&-1));
    assert_eq!(s.read().get(9), Some(&90));
}

#[test]
fn round_trip_through_text() {
    let s = filled();
    let values: Vec<i64> = s.data.c.clone();
    let dense: Vec<(u32, u32)> = s.index.c2e.iter().map(|h| (h.g, h.i)).collect();
    let text = ron::to_string(&(values, dense)).unwrap();
    let (values, dense): (Vec<i64>, Vec<(u32, u32)>) = ron::from_str(&text).unwrap();
    let dense: Vec<Handle> = dense.into_iter().map(|(g, i)| Handle::new(g, i)).collect();
    let t = ComponentStorage::from_parts(values, dense).unwrap();
    assert_eq!(t.data.c, vec![30, 10, 60]);
    assert_eq!(t.entities(), s.entities());
    assert_eq!(t.index.e2c, s.index.e2c);
    let (a, b) = (s.read(), t.read());
    for slot in 0..10 {
        assert_eq!(a.get(slot), b.get(slot));
    }
}

#[test]
fn shared_table_refuses_a_writer_beside_a_reader() {
    let shared = atomic_refcell::AtomicRefCell::new(filled());
    {
        let first = shared.try_borrow().unwrap();
        let second = shared.try_borrow().unwrap();
        assert!(shared.try_borrow_mut().is_err());
        let (a, b) = (first.read(), second.read());
        for slot in 0..8 {
            assert_eq!(a.get(slot), b.get(slot));
        }
        assert_eq!(a.get(3), Some(&30));
    }
    {
        let mut writer = shared.try_borrow_mut().unwrap();
        assert!(shared.try_borrow().is_err());
        assert!(shared.try_borrow_mut().is_err());
        assert!(writer.write().set(3, 33));
    }
    assert_eq!(shared.try_borrow().unwrap().read().get(3), Some(&33));
}

#[test]
fn shared_tables_are_arbitrated_one_by_one() {
    let p = atomic_refcell::AtomicRefCell::new(filled());
    let v = atomic_refcell::AtomicRefCell::new(filled());
    let mut writer = p.try_borrow_mut().unwrap();
    let reader = v.try_borrow().unwrap();
    let add = *reader.read().get(1).unwrap();
    assert!(writer.write().set(1, 10 + add));
    assert_eq!(writer.read().get(1), Some(&20));
    assert_eq!(reader.read().get(1), Some(&10));
}

#[test]
fn default_storage_is_empty() {
    let s: ComponentStorage<String> = ComponentStorage::default();
    assert!(s.is_empty());
    assert!(s.index.e2c.is_empty());
    assert_eq!(s.read().get(0), None);
}

#[test]
fn write_view_changes_in_place() {
    let mut s = filled();
    {
        let mut w = s.write();
        if let Some(v) = w.get_mut(6) {
            *v += 5;
        }
        assert!(w.get_mut(0).is_none());
        assert!(w.get_mut(2).is_none());
        assert!(w.get_mut(100).is_none());
        assert_eq!(w.get(6), Some(&65));
    }
    assert_eq!(s.data.c, vec![30, 10, 65]);
    assert_eq!(s.index.c2e, vec![Handle::new(0, 3), Handle::new(2, 1), Handle::new(0, 6)]);
}
