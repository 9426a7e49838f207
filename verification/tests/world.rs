use bevy_erm::database_entity::{
    DatabaseEntity, DatabaseEntityId, DatabaseEntityWithRequest, FlushEvent, Persisted, RequestId,
};
use bevy_erm::world::{Column, DatabaseEntityIndex, Entity, RequestIdIndex, World};

fn record(id: i64, request: RequestId) -> DatabaseEntity {
    DatabaseEntity { id: DatabaseEntityId(id), persisted: Persisted(true), dirty: false, request }
}

#[test]
fn persisted_wraps_a_flag_and_defaults_to_true() {
    assert_eq!(Persisted::default(), Persisted(true));
    assert_eq!(Persisted::from(false), Persisted(false));
    let p: Persisted = true.into();
    assert_eq!(p, Persisted(true));
    let b: bool = Persisted(false).into();
    assert!(!b);
    assert!(bool::from(Persisted(true)));
}

#[test]
fn request_handles_are_made_of_a_slot_and_a_generation() {
    let r = RequestId::from_raw_parts(4, 11);
    assert_eq!(r.into_raw_parts(), (4, 11));
    assert_eq!(r, RequestId { index: 4, generation: 11 });
    assert_ne!(r, RequestId::from_raw_parts(4, 12));
}

#[test]
fn keys_below_zero_are_local() {
    assert!(DatabaseEntityId(-1).minted_locally());
    assert!(!DatabaseEntityId(0).minted_locally());
    assert!(!DatabaseEntityId(17).minted_locally());
    assert_eq!(DatabaseEntityId::default(), DatabaseEntityId(0));
}

#[test]
fn records_and_pairs_name_a_row_and_a_request() {
    let r = RequestId::from_raw_parts(1, 2);
    let id = DatabaseEntityId(5);
    let rec = record(5, r);
    assert_eq!(*rec.id(), id);
    assert_eq!(*rec.request(), r);
    assert_eq!(*(id, r).id(), id);
    assert_eq!(*(id, r).request(), r);
    assert_eq!(*(r, id).id(), id);
    assert_eq!(*(r, id).request(), r);
    let event = FlushEvent { request: r };
    assert_eq!(event.request, r);
}

#[test]
fn the_store_hands_out_positions() {
    let r = RequestId::from_raw_parts(0, 0);
    let mut world = World::new();
    assert_eq!(world.len(), 0);
    assert_eq!(world.spawn(record(7, r)), Entity(0));
    assert_eq!(world.spawn(record(-1, r)), Entity(1));
    assert_eq!(world.len(), 2);
    assert!(world.contains(Entity(1)));
    assert!(!world.contains(Entity(2)));
    assert_eq!(world.get(Entity(0)), Some(&record(7, r)));
    assert_eq!(world.get(Entity(2)), None);
    assert_eq!(world.find(&DatabaseEntityId(-1)), Some(Entity(1)));
    assert_eq!(world.find(&DatabaseEntityId(1)), None);
}

#[test]
fn the_identity_index_finds_one_entity_at_most() {
    let r = RequestId::from_raw_parts(0, 0);
    let mut world = World::new();
    world.spawn(record(10, r));
    world.spawn(record(20, r));
    world.spawn(record(30, r));
    assert_eq!(DatabaseEntityIndex::lookup(&world, &DatabaseEntityId(20)), vec![Entity(1)]);
    assert_eq!(DatabaseEntityIndex::lookup(&world, &DatabaseEntityId(25)), vec![]);
    assert_eq!(DatabaseEntityIndex::value(&record(3, r)), DatabaseEntityId(3));
}

#[test]
fn the_request_index_finds_every_entity_of_a_request() {
    let r1 = RequestId::from_raw_parts(0, 0);
    let r2 = RequestId::from_raw_parts(1, 0);
    let r3 = RequestId::from_raw_parts(0, 1);
    let mut world = World::new();
    world.spawn(record(1, r1));
    world.spawn(record(2, r2));
    world.spawn(record(3, r1));
    world.spawn(record(4, r1));
    assert_eq!(RequestIdIndex::lookup(&world, &r1), vec![Entity(0), Entity(2), Entity(3)]);
    assert_eq!(RequestIdIndex::lookup(&world, &r2), vec![Entity(1)]);
    assert_eq!(RequestIdIndex::lookup(&world, &r3), vec![]);
    assert_eq!(RequestIdIndex::value(&record(1, r2)), r2);
}

#[test]
fn marks_change_the_flags_of_one_record() {
    let r = RequestId::from_raw_parts(0, 0);
    let mut world = World::new();
    let fresh = DatabaseEntity { persisted: Persisted(false), ..record(-1, r) };
    world.spawn(fresh);
    world.spawn(record(2, r));
    world.mark_dirty(Entity(0));
    assert_eq!(*world.record(Entity(0)), DatabaseEntity { dirty: true, ..fresh });
    world.mark_written(Entity(0));
    assert_eq!(*world.record(Entity(0)), record(-1, r));
    assert_eq!(*world.record(Entity(1)), record(2, r));
}

#[test]
fn marking_a_request_written_leaves_the_others() {
    let r1 = RequestId::from_raw_parts(0, 0);
    let r2 = RequestId::from_raw_parts(1, 0);
    let mut world = World::new();
    world.spawn(DatabaseEntity { dirty: true, ..record(1, r1) });
    world.spawn(DatabaseEntity { dirty: true, ..record(2, r2) });
    world.spawn(DatabaseEntity { persisted: Persisted(false), ..record(-1, r1) });
    world.mark_all_written(&r1);
    assert_eq!(*world.record(Entity(0)), record(1, r1));
    assert_eq!(*world.record(Entity(1)), DatabaseEntity { dirty: true, ..record(2, r2) });
    assert_eq!(*world.record(Entity(2)), record(-1, r1));
}

#[test]
fn a_column_holds_components_by_entity() {
    let mut column: Column<String> = Column::new();
    assert!(!column.contains(Entity(3)));
    assert_eq!(column.get(Entity(3)), None);
    column.insert(Entity(3), "three".to_string());
    column.insert(Entity(1), "one".to_string());
    assert!(column.contains(Entity(3)));
    assert!(!column.contains(Entity(0)));
    assert!(!column.contains(Entity(2)));
    assert!(!column.contains(Entity(4)));
    assert_eq!(column.get(Entity(1)), Some(&"one".to_string()));
    column.get_mut(Entity(3)).push_str("!");
    assert_eq!(column.get(Entity(3)), Some(&"three!".to_string()));
    column.insert(Entity(3), "again".to_string());
    assert_eq!(column.get(Entity(3)), Some(&"again".to_string()));
}
