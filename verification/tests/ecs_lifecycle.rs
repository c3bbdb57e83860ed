use crabioware::Col1;
use crabioware::Col2;
use crabioware::EntityAllocator;
use crabioware::Ident;
use crabioware::World;

#[derive(Clone, Copy, PartialEq, Eq, Debug)]
struct Position {
    x: i32,
    y: i32,
}

#[derive(Clone, Copy, PartialEq, Eq, Debug)]
struct Velocity {
    dx: i32,
    dy: i32,
}

fn two_column_world() -> World<Position, Velocity, u32, u32> {
    let mut world: World<Position, Velocity, u32, u32> = World::new();
    world.register_component(Col1);
    world.register_component(Col2);
    world
}

#[test]
fn allocator_identifiers_are_unique_across_reuse() {
    let mut alloc = EntityAllocator::new();
    let a = alloc.allocate();
    let b = alloc.allocate();
    assert_ne!(a, b);
    assert!(alloc.is_alive(a));
    assert!(alloc.is_alive(b));
    alloc.release(a);
    assert!(!alloc.is_alive(a));
    // The freed slot is reused, but under a newer generation.
    let c = alloc.allocate();
    assert_ne!(a, c);
    assert!(alloc.is_alive(c));
    assert!(!alloc.is_alive(a));
}

#[test]
fn allocator_release_is_a_safe_no_op_on_dead_ids() {
    let mut alloc = EntityAllocator::new();
    let a = alloc.allocate();
    alloc.release(a);
    alloc.release(a);
    let b = alloc.allocate();
    assert!(alloc.is_alive(b));
    alloc.release(a);
    assert!(alloc.is_alive(b));
    assert!(!alloc.is_alive(a));
}

#[test]
fn world_identifiers_stay_distinct_when_slots_recycle() {
    let world = two_column_world();
    let (world, e1) = world.create().build();
    let mut world = world;
    world.destroy(e1);
    let (world, e2) = world.create().build();
    assert_ne!(e1, e2);
    assert!(!world.is_alive(e1));
    assert!(world.is_alive(e2));
}

#[test]
fn liveness_follows_create_and_destroy() {
    let world = two_column_world();
    let (mut world, e1) = world.create().build();
    assert!(world.is_alive(e1));
    world.destroy(e1);
    assert!(!world.is_alive(e1));
    // Never resurrected, however much the world churns afterwards.
    let mut world = world;
    for _ in 0..10 {
        let (w, e) = world.create().build();
        world = w;
        assert!(!world.is_alive(e1));
        world.destroy(e);
        assert!(!world.is_alive(e1));
    }
}

#[test]
fn destroying_a_dead_id_changes_nothing() {
    let world = two_column_world();
    let (world, e1) = world
        .create()
        .with(Col1, Position { x: 1, y: 2 })
        .build();
    let (mut world, e2) = world.create().build();
    world.destroy(e2);
    world.destroy(e2);
    assert!(world.is_alive(e1));
    assert_eq!(world.entry(Col1, e1), Position { x: 1, y: 2 });
}

#[test]
fn builder_commits_all_components_atomically() {
    let world = two_column_world();
    let (world, id) = world
        .create()
        .with(Col1, Position { x: 3, y: 4 })
        .with(Col2, Velocity { dx: -1, dy: 1 })
        .build();
    assert!(world.is_alive(id));
    let (p, v) = world.entry((Col1, Col2), id);
    assert_eq!(p, Position { x: 3, y: 4 });
    assert_eq!(v, Velocity { dx: -1, dy: 1 });
}

#[test]
fn abandoned_builder_leaks_no_entity_and_no_rows() {
    let world = two_column_world();
    let builder = world.create().with(Col1, Position { x: 9, y: 9 });
    let world = builder.abandon();
    // No live entity and no retrievable component rows remain.
    assert_eq!(world.components(Ident).len(), 0);
    assert_eq!(world.components(Col1).len(), 0);
    // The reserved identifier was released: the next entity may reuse
    // the slot but carries a fresh identity and no stale rows.
    let (world, id) = world.create().build();
    assert!(world.is_alive(id));
    assert!(!world.contains(Col1, id));
}

#[test]
fn maybe_with_attaches_only_present_components() {
    let world = two_column_world();
    let (world, id) = world
        .create()
        .maybe_with(Col1, Some(Position { x: 5, y: 6 }))
        .maybe_with(Col2, None)
        .build();
    assert!(world.contains(Col1, id));
    assert!(!world.contains(Col2, id));
    assert_eq!(world.entry(Col1, id), Position { x: 5, y: 6 });
}

#[test]
fn register_component_is_idempotent() {
    let mut world: World<Position, Velocity, u32, u32> = World::new();
    world.register_component(Col1);
    world.register_component(Col1);
    let (mut world, id) = world.create().with(Col1, Position { x: 7, y: 8 }).build();
    world.register_component(Col1);
    assert_eq!(world.entry(Col1, id), Position { x: 7, y: 8 });
}
