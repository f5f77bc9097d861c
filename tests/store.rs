use moonhowl_ecs::check::EntityCheck;
use moonhowl_ecs::entity::Entity;
use moonhowl_ecs::key::type_key;
use moonhowl_ecs::system::{System, SystemCounter};
use moonhowl_ecs::view::EntitySystem;

#[derive(Debug, Clone, PartialEq)]
struct Position {
    x: i32,
    y: i32,
}

#[derive(Debug, Clone, PartialEq)]
struct Velocity {
    dx: i32,
}

#[test]
fn scenario_two_systems_one_position() {
    let mut counter = SystemCounter::new();
    let mut e = Entity::new();
    let a = System::new(&mut counter);
    assert_eq!(a.id(), 1);
    e.push_component(Position { x: 1, y: 2 });
    assert!(a.has_component::<Position>(&e));
    assert_eq!(a.get_component::<Position>(&mut e), Some(&Position { x: 1, y: 2 }));
    assert!(!a.has_component::<Position>(&e));
    let b = System::new(&mut counter);
    assert_eq!(b.id(), 2);
    assert!(b.has_component::<Position>(&e));
    e.push_component(Position { x: 3, y: 4 });
    assert!(a.has_component::<Position>(&e));
}

#[test]
fn round_trip_get_returns_stored_value() {
    let mut e = Entity::new();
    e.push_component(Position { x: 5, y: -7 });
    assert_eq!(e.get_component::<Position>(), Some(&Position { x: 5, y: -7 }));
    assert!(e.has_component::<Position>());
}

#[test]
fn replacement_resets_tracking() {
    let mut counter = SystemCounter::new();
    let s = System::new(&mut counter);
    let mut e = Entity::new();
    e.add_component(Velocity { dx: 1 });
    assert_eq!(e.get_registered_component::<Velocity>(&s.id()), Some(&Velocity { dx: 1 }));
    assert!(!e.has_registered_component::<Velocity>(&s.id()));
    e.add_component(Velocity { dx: 2 });
    assert!(e.has_registered_component::<Velocity>(&s.id()));
    assert_eq!(e.get_component::<Velocity>(), Some(&Velocity { dx: 2 }));
}

#[test]
fn independent_consumers() {
    let mut counter = SystemCounter::new();
    let s1 = System::new(&mut counter);
    let s2 = System::new(&mut counter);
    let mut e = Entity::new();
    e.push_component(Position { x: 0, y: 0 });
    assert!(s1.get_component::<Position>(&mut e).is_some());
    assert!(!s1.has_component::<Position>(&e));
    assert!(s2.has_component::<Position>(&e));
    assert!(s2.get_component::<Position>(&mut e).is_some());
    assert!(!s2.has_component::<Position>(&e));
}

#[test]
fn idempotent_get() {
    let mut e = Entity::new();
    e.push_component(Position { x: 9, y: 8 });
    assert!(e.has_registered_component::<Position>(&4));
    assert_eq!(e.get_registered_component::<Position>(&4), Some(&Position { x: 9, y: 8 }));
    assert!(!e.has_registered_component::<Position>(&4));
    assert_eq!(e.get_registered_component::<Position>(&4), Some(&Position { x: 9, y: 8 }));
    assert!(!e.has_registered_component::<Position>(&4));
}

#[test]
fn absence_on_empty_entity() {
    let mut e = Entity::new();
    assert!(!e.has_component::<Position>());
    assert_eq!(e.get_component::<Position>(), None);
    assert!(!e.has_registered_component::<Position>(&1));
    assert_eq!(e.get_registered_component::<Position>(&1), None);
    assert!(!e.has_registered_component::<Position>(&1));
}

#[test]
fn absence_of_other_type() {
    let mut e = Entity::new();
    e.push_component(Velocity { dx: 3 });
    assert!(!e.has_component::<Position>());
    assert_eq!(e.get_component::<Position>(), None);
    assert!(e.has_component::<Velocity>());
}

#[test]
fn removal_clears_value_and_tracking() {
    let mut e = Entity::new();
    e.push_component(Position { x: 1, y: 1 });
    assert!(e.get_registered_component::<Position>(&7).is_some());
    e.pull_component::<Position>();
    assert!(!e.has_component::<Position>());
    assert_eq!(e.get_component::<Position>(), None);
    assert!(!e.has_registered_component::<Position>(&7));
    e.push_component(Position { x: 3, y: 3 });
    assert!(e.has_registered_component::<Position>(&7));
    assert_eq!(e.get_component::<Position>(), Some(&Position { x: 3, y: 3 }));
}

#[test]
fn drop_absent_component_is_noop() {
    let mut e = Entity::new();
    e.push_component(Velocity { dx: 4 });
    e.drop_component::<Position>();
    assert_eq!(e.get_component::<Velocity>(), Some(&Velocity { dx: 4 }));
}

#[test]
fn builder_chain_stores_both() {
    let mut e = Entity::new();
    e.push_component(Position { x: 1, y: 2 }).push_component(Velocity { dx: 6 });
    assert_eq!(e.get_component::<Position>(), Some(&Position { x: 1, y: 2 }));
    assert_eq!(e.get_component::<Velocity>(), Some(&Velocity { dx: 6 }));
    e.pull_component::<Position>().pull_component::<Velocity>();
    assert!(!e.has_component::<Position>());
    assert!(!e.has_component::<Velocity>());
}

#[test]
fn system_ids_increase() {
    let mut counter = SystemCounter::new();
    let mut last = 0usize;
    for expected in 1..=20usize {
        assert!(counter.can_issue());
        let s = System::new(&mut counter);
        assert_eq!(s.id(), expected);
        assert!(s.id() > last);
        last = s.id();
    }
}

#[test]
fn type_keys_distinguish_types() {
    assert!(type_key::<Position>() == type_key::<Position>());
    assert!(type_key::<Position>() != type_key::<Velocity>());
    let mut e = Entity::new();
    e.push_component(Position { x: 0, y: 1 });
    assert!(e.has_key(&type_key::<Position>()));
    assert!(!e.has_key(&type_key::<Velocity>()));
    assert!(e.value_of(&type_key::<Position>()).is_some());
    assert!(e.value_of(&type_key::<Velocity>()).is_none());
}

#[test]
fn key_level_tracking() {
    let mut e = Entity::new();
    let k = type_key::<Position>();
    e.push_component(Position { x: 2, y: 2 });
    assert!(e.has_key_for(&k, 3));
    assert!(e.consume_key(&k, 3));
    assert!(!e.has_key_for(&k, 3));
    assert!(e.has_key_for(&k, 5));
    e.remove_key(&k);
    assert!(!e.has_key(&k));
    assert!(!e.consume_key(&k, 3));
}

#[test]
fn reader_view_is_untracked() {
    let mut counter = SystemCounter::new();
    let s = System::new(&mut counter);
    let mut e = Entity::new();
    e.push_component(Position { x: 4, y: 4 });
    {
        let mut r = EntitySystem::new_reader(&e, &s);
        assert!(r.has_component::<Position>());
        assert_eq!(r.get_component::<Position>(), Some(&Position { x: 4, y: 4 }));
        assert!(r.has_component::<Position>());
    }
    assert!(s.has_component::<Position>(&e));
}

#[test]
fn writer_view_is_tracked() {
    let mut counter = SystemCounter::new();
    let s = System::new(&mut counter);
    let mut e = Entity::new();
    e.push_component(Position { x: 4, y: 4 });
    {
        let mut w = EntitySystem::new_writer(&mut e, &s);
        assert!(w.has_component::<Position>());
        assert_eq!(w.get_component::<Position>(), Some(&Position { x: 4, y: 4 }));
        assert!(!w.has_component::<Position>());
        assert!(w.get_component::<Velocity>().is_none());
    }
    assert!(!s.has_component::<Position>(&e));
    assert!(e.has_component::<Position>());
}

#[test]
fn check_runs_action_only_when_satisfied() {
    let mut e = Entity::new();
    e.push_component(Velocity { dx: 1 });
    let mut ran = 0;
    e.check(|x| x.has_component::<Velocity>()).and_then(|| ran += 1);
    assert_eq!(ran, 1);
    e.check(|x| x.has_component::<Position>()).and_then(|| ran += 10);
    assert_eq!(ran, 1);
}

#[test]
fn view_check_uses_view() {
    let mut counter = SystemCounter::new();
    let s = System::new(&mut counter);
    let mut e = Entity::new();
    e.push_component(Velocity { dx: 1 });
    let mut hits = 0;
    let w = EntitySystem::new_writer(&mut e, &s);
    w.check(|v| v.has_component::<Velocity>()).and_then(|| hits += 1);
    assert_eq!(hits, 1);
    let c = EntityCheck::new(false);
    c.and_then(|| hits += 1).and_then(|| hits += 1);
    assert_eq!(hits, 1);
}

#[test]
fn repeated_reads_by_one_system_leave_others_unseen() {
    let mut e = Entity::new();
    e.push_component(Velocity { dx: 8 });
    for _ in 0..3 {
        assert_eq!(e.get_registered_component::<Velocity>(&1), Some(&Velocity { dx: 8 }));
        assert!(!e.has_registered_component::<Velocity>(&1));
        assert!(e.has_registered_component::<Velocity>(&2));
    }
    e.push_component(Velocity { dx: 9 });
    assert!(e.has_registered_component::<Velocity>(&1));
}
