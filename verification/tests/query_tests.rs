use stepworld::query::Signature;
use stepworld::query::QueryError;
use stepworld::query::query;
use stepworld::query::query_single;
use stepworld::query::signature_unsatisfiable;
use stepworld::world::World;

const POSITION: usize = 0;
const PLAYER: usize = 1;
const MAP: usize = 2;

fn sig(required: &[usize], excluded: &[usize]) -> Signature {
    Signature { required: required.to_vec(), excluded: excluded.to_vec() }
}

fn demo_world() -> (World<i64>, [stepworld::entity::Entity; 3]) {
    let mut w: World<i64> = World::new(3);
    let player = w.spawn(vec![(PLAYER, 0), (POSITION, 180)]);
    let map = w.spawn(vec![(MAP, 0)]);
    let crate_box = w.spawn(vec![(POSITION, 64)]);
    (w, [player, map, crate_box])
}

#[test]
fn query_yields_matching_entities_in_slot_order() {
    let (w, [player, _map, crate_box]) = demo_world();
    let found = query(&w, &sig(&[POSITION], &[]));
    assert_eq!(found, vec![player, crate_box]);
}

#[test]
fn query_exclusion_filters_out_entities() {
    let (w, [_player, _map, crate_box]) = demo_world();
    let found = query(&w, &sig(&[POSITION], &[PLAYER]));
    assert_eq!(found, vec![crate_box]);
}

#[test]
fn query_is_repeatable_on_unchanged_world() {
    let (w, _) = demo_world();
    let first = query(&w, &sig(&[POSITION], &[]));
    let second = query(&w, &sig(&[POSITION], &[]));
    assert_eq!(first, second);
}

#[test]
fn query_empty_signature_yields_every_live_entity() {
    let (w, entities) = demo_world();
    let found = query(&w, &sig(&[], &[]));
    assert_eq!(found, entities.to_vec());
}

#[test]
fn query_single_returns_the_singleton() {
    let (w, [player, map, _]) = demo_world();
    assert_eq!(query_single(&w, &sig(&[PLAYER], &[])), Ok(player));
    assert_eq!(query_single(&w, &sig(&[MAP], &[])), Ok(map));
}

#[test]
fn query_single_zero_matches_is_no_match() {
    let (mut w, [player, _, _]) = demo_world();
    w.destroy(player);
    assert_eq!(query_single(&w, &sig(&[PLAYER], &[])), Err(QueryError::NoMatch));
}

#[test]
fn query_single_two_matches_is_multiple_matches() {
    let (w, _) = demo_world();
    assert_eq!(
        query_single(&w, &sig(&[POSITION], &[])),
        Err(QueryError::MultipleMatches)
    );
}

#[test]
fn destroyed_entity_yielded_by_no_query() {
    let (mut w, [player, _, _]) = demo_world();
    w.destroy(player);
    for required in [vec![], vec![POSITION], vec![PLAYER]] {
        let found = query(&w, &sig(&required, &[]));
        assert!(!found.contains(&player));
    }
}

#[test]
fn spawned_bundle_visible_to_queries_at_once() {
    let mut w: World<i64> = World::new(3);
    let e = w.spawn(vec![(PLAYER, 0), (POSITION, 10)]);
    // A signature demanding the whole bundle matches immediately.
    assert_eq!(query_single(&w, &sig(&[PLAYER, POSITION], &[])), Ok(e));
}

#[test]
fn signature_requiring_and_excluding_a_kind_is_unsatisfiable() {
    let bad = sig(&[PLAYER, POSITION], &[PLAYER]);
    assert!(signature_unsatisfiable(&bad));
    let good = sig(&[POSITION], &[PLAYER]);
    assert!(!signature_unsatisfiable(&good));
    // And indeed nothing ever matches the bad signature.
    let (w, _) = demo_world();
    assert!(query(&w, &bad).is_empty());
}

#[test]
fn query_on_empty_world_yields_nothing() {
    let w: World<i64> = World::new(3);
    assert!(query(&w, &sig(&[], &[])).is_empty());
    assert_eq!(query_single(&w, &sig(&[], &[])), Err(QueryError::NoMatch));
}
