use stepworld::schedule::Access;
use stepworld::schedule::Schedule;
use stepworld::schedule::ScheduleError;
use stepworld::schedule::conflict_pairs;
use stepworld::schedule::conflicts;
use stepworld::world::World;

fn access(reads: &[usize], writes: &[usize]) -> Access {
    Access { reads: reads.to_vec(), writes: writes.to_vec() }
}

#[test]
fn write_write_on_same_kind_conflicts() {
    assert!(conflicts(&access(&[], &[0]), &access(&[], &[0])));
}

#[test]
fn write_read_on_same_kind_conflicts_both_ways() {
    assert!(conflicts(&access(&[], &[3]), &access(&[3], &[])));
    assert!(conflicts(&access(&[3], &[]), &access(&[], &[3])));
}

#[test]
fn read_read_on_same_kind_does_not_conflict() {
    assert!(!conflicts(&access(&[1], &[]), &access(&[1], &[])));
}

#[test]
fn disjoint_signatures_do_not_conflict() {
    assert!(!conflicts(&access(&[0], &[1]), &access(&[2], &[3])));
}

#[test]
fn conflict_pairs_lists_exactly_the_conflicting_pairs() {
    // 0 writes kind 0; 1 reads kind 0; 2 touches kind 1 only.
    let accesses = vec![access(&[], &[0]), access(&[0], &[]), access(&[1], &[1])];
    assert_eq!(conflict_pairs(&accesses), vec![(0, 1)]);
}

#[test]
fn resolve_unconstrained_systems_in_registration_order() {
    let mut s = Schedule::new_schedule(String::from("update"));
    assert_eq!(s.add_system(access(&[], &[0])), 0);
    assert_eq!(s.add_system(access(&[], &[1])), 1);
    assert_eq!(s.add_system(access(&[], &[2])), 2);
    assert_eq!(s.resolve_order(), Ok(vec![0, 1, 2]));
}

#[test]
fn resolve_honours_after_constraints() {
    // The render schedule of the fog demo: the map first, then the
    // overlay and the player, each after the map.
    let mut s = Schedule::new_schedule(String::from("render"));
    let overlay = s.add_system(access(&[0], &[]));
    let map = s.add_system(access(&[1], &[1]));
    let player = s.add_system(access(&[0], &[]));
    s.add_constraint(map, overlay).unwrap();
    s.add_constraint(map, player).unwrap();
    let order = s.resolve_order().unwrap();
    let pos = |id: usize| order.iter().position(|&x| x == id).unwrap();
    assert!(pos(map) < pos(overlay));
    assert!(pos(map) < pos(player));
    assert_eq!(order.len(), 3);
}

#[test]
fn add_system_after_orders_the_new_system_later() {
    let mut s = Schedule::new_schedule(String::from("render"));
    let map = s.add_system(access(&[], &[0]));
    let overlay = s.add_system_after(access(&[0], &[]), map).unwrap();
    let order = s.resolve_order().unwrap();
    let pos = |id: usize| order.iter().position(|&x| x == id).unwrap();
    assert!(pos(map) < pos(overlay));
}

#[test]
fn cycle_rejected_before_anything_runs() {
    let mut s = Schedule::new_schedule(String::from("update"));
    let a = s.add_system(access(&[], &[0]));
    let b = s.add_system(access(&[], &[1]));
    s.add_constraint(a, b).unwrap();
    s.add_constraint(b, a).unwrap();
    assert_eq!(s.resolve_order(), Err(ScheduleError::CyclicConstraint));
}

#[test]
fn self_cycle_rejected() {
    let mut s = Schedule::new_schedule(String::from("update"));
    let a = s.add_system(access(&[], &[0]));
    s.add_constraint(a, a).unwrap();
    assert_eq!(s.resolve_order(), Err(ScheduleError::CyclicConstraint));
}

#[test]
fn longer_cycle_rejected() {
    let mut s = Schedule::new_schedule(String::from("update"));
    let a = s.add_system(access(&[], &[0]));
    let b = s.add_system(access(&[], &[1]));
    let c = s.add_system(access(&[], &[2]));
    s.add_constraint(a, b).unwrap();
    s.add_constraint(b, c).unwrap();
    s.add_constraint(c, a).unwrap();
    assert_eq!(s.resolve_order(), Err(ScheduleError::CyclicConstraint));
}

#[test]
fn constraint_on_unknown_system_rejected() {
    let mut s = Schedule::new_schedule(String::from("update"));
    let a = s.add_system(access(&[], &[0]));
    assert_eq!(s.add_constraint(a, 5), Err(ScheduleError::UnknownSystem));
    assert_eq!(s.add_constraint(5, a), Err(ScheduleError::UnknownSystem));
    assert_eq!(
        s.add_system_after(access(&[], &[]), 9),
        Err(ScheduleError::UnknownSystem)
    );
}

#[test]
fn empty_schedule_resolves_to_empty_order() {
    let s = Schedule::new_schedule(String::from("fixed"));
    assert_eq!(s.resolve_order(), Ok(vec![]));
    assert_eq!(s.name().as_str(), "fixed");
}

#[test]
fn resolution_is_repeatable() {
    let mut s = Schedule::new_schedule(String::from("update"));
    let a = s.add_system(access(&[], &[0]));
    let b = s.add_system(access(&[], &[1]));
    s.add_constraint(b, a).unwrap();
    assert_eq!(s.resolve_order(), s.resolve_order());
    assert_eq!(s.resolve_order(), Ok(vec![1, 0]));
}

#[test]
fn unconstrained_nonconflicting_systems_commute() {
    // Two systems with disjoint signatures applied in both orders leave
    // the same final component values.
    const A: usize = 0;
    const B: usize = 1;
    let double_a = |w: &mut World<i64>, e| {
        let v = *w.get(e, A).unwrap();
        w.insert(e, A, v * 2);
    };
    let bump_b = |w: &mut World<i64>, e| {
        let v = *w.get(e, B).unwrap();
        w.insert(e, B, v + 1);
    };
    assert!(!conflicts(&access(&[A], &[A]), &access(&[B], &[B])));

    let mut w1: World<i64> = World::new(2);
    let e1 = w1.spawn(vec![(A, 10), (B, 100)]);
    double_a(&mut w1, e1);
    bump_b(&mut w1, e1);

    let mut w2: World<i64> = World::new(2);
    let e2 = w2.spawn(vec![(A, 10), (B, 100)]);
    bump_b(&mut w2, e2);
    double_a(&mut w2, e2);

    assert_eq!(w1.get(e1, A), w2.get(e2, A));
    assert_eq!(w1.get(e1, B), w2.get(e2, B));
    assert_eq!(w1.get(e1, A), Some(&20));
    assert_eq!(w1.get(e1, B), Some(&101));
}

#[test]
fn ordered_system_sees_predecessor_writes() {
    // B is constrained after A; run sequentially in the resolved order,
    // B's read observes A's write.
    const K: usize = 0;
    let mut s = Schedule::new_schedule(String::from("update"));
    let a = s.add_system(access(&[], &[K]));
    let b = s.add_system_after(access(&[K], &[K]), a).unwrap();
    let order = s.resolve_order().unwrap();
    assert_eq!(order, vec![a, b]);

    let mut w: World<i64> = World::new(1);
    let e = w.spawn(vec![(K, 0)]);
    let mut observed_by_b = None;
    for id in order {
        if id == a {
            w.insert(e, K, 7);
        } else {
            observed_by_b = Some(*w.get(e, K).unwrap());
        }
    }
    assert_eq!(observed_by_b, Some(7));
}
