use crabioware::Col1;
use crabioware::Col2;
use crabioware::Col3;
use crabioware::EntityId;
use crabioware::Ident;
use crabioware::IsEntity;
use crabioware::IsNotEntity;
use crabioware::World;

#[derive(Clone, Copy, PartialEq, Eq, Debug)]
struct Health(i32);

#[derive(Clone, Copy, PartialEq, Eq, Debug)]
struct Speed(i32);

type TestWorld = World<Health, Speed, u8, u8>;

fn world_ab() -> TestWorld {
    let mut world: TestWorld = World::new();
    world.register_component(Col1);
    world.register_component(Col2);
    world
}

#[test]
fn tuple_query_is_the_and_of_its_parts() {
    let world = world_ab();
    let (world, _e1) = world.create().with(Col1, Health(10)).build();
    let (world, e2) = world
        .create()
        .with(Col1, Health(20))
        .with(Col2, Speed(2))
        .build();
    let (world, _e3) = world.create().with(Col2, Speed(3)).build();

    let both = world.components((Ident, Col1, Col2));
    assert_eq!(both, vec![(e2, Health(20), Speed(2))]);

    let only_a = world.components(Col1);
    assert_eq!(only_a, vec![Health(10), Health(20)]);
}

#[test]
fn entry_fetches_one_entity() {
    let world = world_ab();
    let (world, id) = world
        .create()
        .with(Col1, Health(42))
        .with(Col2, Speed(-3))
        .build();
    assert_eq!(world.entry(Ident, id), id);
    assert_eq!(world.entry((Col2, Col1), id), (Speed(-3), Health(42)));
}

#[test]
fn writes_through_get_mut_are_visible_to_later_queries() {
    let world = world_ab();
    let (mut world, id) = world
        .create()
        .with(Col1, Health(10))
        .with(Col2, Speed(1))
        .build();

    let speed = world.get_mut(Col2, id);
    speed.0 = 5;

    assert_eq!(world.entry(Col2, id), Speed(5));
    assert_eq!(world.components((Ident, Col2)), vec![(id, Speed(5))]);
    // The other column is untouched.
    assert_eq!(world.entry(Col1, id), Health(10));
}

#[test]
fn query_applies_the_entity_level_filter() {
    let world = world_ab();
    let (world, e1) = world.create().with(Col1, Health(1)).build();
    let (world, e2) = world.create().with(Col1, Health(2)).build();

    let only_e1 = world.query((Ident, Col1), &IsEntity::new(e1));
    assert_eq!(only_e1, vec![(e1, Health(1))]);

    let without_e1 = world.query((Ident, Col1), &IsNotEntity::new(e1));
    assert_eq!(without_e1, vec![(e2, Health(2))]);
}

#[test]
fn combinations_yields_each_unordered_pair_once() {
    let world = world_ab();
    let (world, e1) = world.create().with(Col1, Health(1)).build();
    let (world, e2) = world.create().with(Col1, Health(2)).build();
    let (world, e3) = world.create().with(Col1, Health(3)).build();
    // A fourth entity without the component never appears in a pair.
    let (world, _other) = world.create().with(Col2, Speed(9)).build();

    let pairs = world.combinations((Ident, Col1));
    assert_eq!(
        pairs,
        vec![
            ((e1, Health(1)), (e2, Health(2))),
            ((e1, Health(1)), (e3, Health(3))),
            ((e2, Health(2)), (e3, Health(3))),
        ]
    );
    for ((a, _), (b, _)) in &pairs {
        assert_ne!(a, b);
    }
}

#[test]
fn combinations_skips_destroyed_entities() {
    let world = world_ab();
    let (world, e1) = world.create().with(Col1, Health(1)).build();
    let (world, e2) = world.create().with(Col1, Health(2)).build();
    let (mut world, e3) = world.create().with(Col1, Health(3)).build();
    world.destroy(e2);

    let pairs = world.combinations((Ident, Col1));
    assert_eq!(pairs, vec![((e1, Health(1)), (e3, Health(3)))]);
}

#[test]
fn entries_restricts_to_the_given_subset() {
    let world = world_ab();
    let mut ids: Vec<EntityId> = Vec::new();
    let mut world = world;
    for i in 0..5 {
        let (w, id) = world.create().with(Col1, Health(i)).build();
        world = w;
        ids.push(id);
    }
    let subset = vec![ids[1], ids[3]];
    let picked = world.entries((Ident, Col1), &subset);
    assert_eq!(picked, vec![(ids[1], Health(1)), (ids[3], Health(3))]);
}

#[test]
fn entries_skips_dead_and_non_matching_candidates() {
    let world = world_ab();
    let (world, with_a) = world.create().with(Col1, Health(7)).build();
    let (world, without_a) = world.create().with(Col2, Speed(1)).build();
    let (mut world, doomed) = world.create().with(Col1, Health(8)).build();
    world.destroy(doomed);

    let candidates = vec![doomed, without_a, with_a];
    assert_eq!(world.entries(Col1, &candidates), vec![Health(7)]);
}

#[test]
fn destroy_purges_all_rows_for_the_identifier() {
    let world = world_ab();
    let (world, keep) = world
        .create()
        .with(Col1, Health(1))
        .with(Col2, Speed(1))
        .build();
    let (mut world, gone) = world
        .create()
        .with(Col1, Health(2))
        .with(Col2, Speed(2))
        .build();
    world.destroy(gone);

    assert!(!world.contains(Col1, gone));
    assert!(!world.contains(Col2, gone));
    assert_eq!(world.components((Ident, Col1)), vec![(keep, Health(1))]);
    assert_eq!(world.query((Ident, Col2), &IsEntity::new(gone)), vec![]);

    // Even after the slot is reused, the old identifier reaches nothing.
    let (world, fresh) = world.create().with(Col1, Health(3)).build();
    assert!(!world.contains(Col1, gone));
    assert!(world.contains(Col1, fresh));
}

#[test]
fn unregistered_column_matches_no_entity() {
    let world = world_ab();
    let (world, id) = world.create().with(Col1, Health(1)).build();
    assert!(!world.contains(Col3, id));
    assert_eq!(world.components(Col3), vec![]);
}

#[test]
fn removing_a_row_hides_it_from_queries() {
    let world = world_ab();
    let (mut world, id) = world
        .create()
        .with(Col1, Health(4))
        .with(Col2, Speed(4))
        .build();
    world.remove(Col1, id);
    assert!(!world.contains(Col1, id));
    assert!(world.contains(Col2, id));
    assert_eq!(world.components(Col1), vec![]);
    // Inserting again brings the entity back into the column.
    world.insert(Col1, id, Health(5));
    assert_eq!(world.components(Col1), vec![Health(5)]);
}

#[test]
fn get_reads_without_consuming() {
    let world = world_ab();
    let (world, id) = world.create().with(Col1, Health(11)).build();
    assert_eq!(*world.get(Col1, id), Health(11));
    assert_eq!(*world.get(Col1, id), Health(11));
}
