use stepworld::entity::Entity;
use stepworld::world::World;

const HEALTH: usize = 0;
const ARMOR: usize = 1;
const MARKER: usize = 2;

fn bundle(parts: &[(usize, i64)]) -> Vec<(usize, i64)> {
    parts.to_vec()
}

#[test]
fn spawn_returns_live_entity_with_bundle() {
    let mut w: World<i64> = World::new(3);
    let e = w.spawn(bundle(&[(HEALTH, 100), (MARKER, 0)]));
    assert!(w.is_live(e));
    assert_eq!(w.get(e, HEALTH), Some(&100));
    assert_eq!(w.get(e, MARKER), Some(&0));
    assert_eq!(w.get(e, ARMOR), None);
}

#[test]
fn spawn_atomicity_every_bundle_component_visible() {
    let mut w: World<i64> = World::new(3);
    let e = w.spawn(bundle(&[(HEALTH, 5), (ARMOR, 7), (MARKER, 1)]));
    // All three components are present together, never a subset.
    assert!(w.has(e, HEALTH) && w.has(e, ARMOR) && w.has(e, MARKER));
}

#[test]
fn spawn_duplicate_kind_first_entry_wins() {
    let mut w: World<i64> = World::new(2);
    let e = w.spawn(bundle(&[(HEALTH, 1), (HEALTH, 2)]));
    assert_eq!(w.get(e, HEALTH), Some(&1));
}

#[test]
fn insert_and_remove_roundtrip() {
    let mut w: World<i64> = World::new(2);
    let e = w.spawn(bundle(&[]));
    assert!(!w.has(e, ARMOR));
    assert!(w.insert(e, ARMOR, 42));
    assert_eq!(w.get(e, ARMOR), Some(&42));
    assert!(w.insert(e, ARMOR, 43));
    assert_eq!(w.get(e, ARMOR), Some(&43));
    assert_eq!(w.remove(e, ARMOR), Some(43));
    assert_eq!(w.get(e, ARMOR), None);
    assert_eq!(w.remove(e, ARMOR), None);
}

#[test]
fn insert_out_of_range_kind_rejected() {
    let mut w: World<i64> = World::new(1);
    let e = w.spawn(bundle(&[]));
    assert!(!w.insert(e, 9, 1));
}

#[test]
fn destroy_removes_all_traces() {
    let mut w: World<i64> = World::new(3);
    let e = w.spawn(bundle(&[(HEALTH, 1), (ARMOR, 2), (MARKER, 3)]));
    assert!(w.destroy(e));
    assert!(!w.is_live(e));
    for kind in 0..3 {
        assert_eq!(w.get(e, kind), None);
        assert!(!w.has(e, kind));
    }
}

#[test]
fn destroy_twice_is_a_reported_no_op() {
    let mut w: World<i64> = World::new(1);
    let e = w.spawn(bundle(&[(HEALTH, 1)]));
    assert!(w.destroy(e));
    assert!(!w.destroy(e));
}

#[test]
fn destroy_unknown_handle_is_a_reported_no_op() {
    let mut w: World<i64> = World::new(1);
    let stray = Entity::new(12, 0);
    assert!(!w.destroy(stray));
}

#[test]
fn stale_handle_rejected_after_slot_reuse() {
    let mut w: World<i64> = World::new(1);
    let first = w.spawn(bundle(&[(HEALTH, 1)]));
    assert!(w.destroy(first));
    let second = w.spawn(bundle(&[(HEALTH, 2)]));
    // The slot is reused, but the stale handle does not alias the new entity.
    assert_eq!(second.index, first.index);
    assert_ne!(second, first);
    assert!(!w.is_live(first));
    assert!(w.is_live(second));
    assert_eq!(w.get(first, HEALTH), None);
    assert_eq!(w.get(second, HEALTH), Some(&2));
}

#[test]
fn destroying_one_entity_leaves_others_alone() {
    let mut w: World<i64> = World::new(2);
    let a = w.spawn(bundle(&[(HEALTH, 1)]));
    let b = w.spawn(bundle(&[(HEALTH, 2), (ARMOR, 9)]));
    assert!(w.destroy(a));
    assert!(w.is_live(b));
    assert_eq!(w.get(b, HEALTH), Some(&2));
    assert_eq!(w.get(b, ARMOR), Some(&9));
}

#[test]
fn world_with_no_component_kinds_still_tracks_entities() {
    let mut w: World<i64> = World::new(0);
    let e = w.spawn(vec![]);
    assert!(w.is_live(e));
    assert!(!w.insert(e, 0, 1));
    assert!(w.destroy(e));
}
