use bevy_erm::database_entity::{DatabaseEntity, DatabaseEntityId, Persisted, RequestId};
use bevy_erm::database_query::{ComponentMapper, DBQueryInfo, DatabaseError, WriteBack, write_back};
use bevy_erm::retriever::{SingleComponentRetriever};
use bevy_erm::database_resource::DatabaseHandle;
use bevy_erm::world::{Column, Entity, World};

#[derive(Debug, Clone, PartialEq)]
struct Price {
    value: i64,
}

#[derive(Debug, Clone, PartialEq)]
enum Call {
    Fetch(i64),
    Update(i64, i64),
    Insert(i64, i64),
}

struct Backend {
    rows: Vec<(i64, i64)>,
    broken: bool,
    calls: Vec<Call>,
}

struct PriceMapper;

impl ComponentMapper for PriceMapper {
    type Component = Price;
    type Executor = Backend;

    fn get(e: &mut Backend, db_entity: &DatabaseEntityId) -> Result<Price, DatabaseError> {
        e.calls.push(Call::Fetch(db_entity.0));
        if e.broken {
            return Err(DatabaseError::Backend);
        }
        match e.rows.iter().find(|r| r.0 == db_entity.0) {
            Some(r) => Ok(Price { value: r.1 }),
            None => Err(DatabaseError::NotFound),
        }
    }

    fn update_component(
        tr: &mut Backend,
        db_entity: &DatabaseEntityId,
        component: &Price,
    ) -> Result<(), DatabaseError> {
        tr.calls.push(Call::Update(db_entity.0, component.value));
        if tr.broken {
            return Err(DatabaseError::Backend);
        }
        Ok(())
    }

    fn insert_component(
        tr: &mut Backend,
        db_entity: &DatabaseEntityId,
        component: &Price,
    ) -> Result<(), DatabaseError> {
        tr.calls.push(Call::Insert(db_entity.0, component.value));
        if tr.broken {
            return Err(DatabaseError::Backend);
        }
        Ok(())
    }
}

type Retriever = SingleComponentRetriever<PriceMapper>;

fn backend() -> Backend {
    Backend { rows: vec![(1, 100), (2, 250)], broken: false, calls: vec![] }
}

fn setup() -> (DatabaseHandle<Backend>, RequestId, World, Column<Price>) {
    let mut db: DatabaseHandle<Backend> = DatabaseHandle::new();
    let r = db.start_new_transaction(backend());
    (db, r, World::new(), Column::new())
}

fn record(id: i64, persisted: bool, dirty: bool, request: RequestId) -> DatabaseEntity {
    DatabaseEntity { id: DatabaseEntityId(id), persisted: Persisted(persisted), dirty, request }
}

#[test]
fn second_get_is_served_from_memory() {
    let (mut db, r, mut world, mut prices) = setup();
    let id = DatabaseEntityId(1);
    {
        let p = <Retriever as DBQueryInfo>::get(&mut db, &mut world, &mut prices, &(id, r)).unwrap();
        assert_eq!(p.value, 100);
    }
    assert_eq!(db.get_transaction(r).calls, vec![Call::Fetch(1)]);
    {
        let p = <Retriever as DBQueryInfo>::get(&mut db, &mut world, &mut prices, &(id, r)).unwrap();
        assert_eq!(p.value, 100);
    }
    assert_eq!(db.get_transaction(r).calls, vec![Call::Fetch(1)]);
    assert_eq!(world.len(), 1);
    let e = world.find(&id).unwrap();
    assert_eq!(e, Entity(0));
    assert_eq!(*world.record(e), record(1, true, false, r));
}

#[test]
fn second_get_mut_is_served_from_memory_and_sees_what_was_written() {
    let (mut db, r, mut world, mut prices) = setup();
    let id = DatabaseEntityId(2);
    {
        let p =
            <Retriever as DBQueryInfo>::get_mut(&mut db, &mut world, &mut prices, &(r, id)).unwrap();
        assert_eq!(p.value, 250);
        p.value = 300;
    }
    {
        let p =
            <Retriever as DBQueryInfo>::get_mut(&mut db, &mut world, &mut prices, &(r, id)).unwrap();
        assert_eq!(p.value, 300);
    }
    assert_eq!(db.get_transaction(r).calls, vec![Call::Fetch(2)]);
    assert_eq!(world.len(), 1);
}

#[test]
fn get_leaves_the_record_clean_and_get_mut_marks_it_dirty() {
    let (mut db, r, mut world, mut prices) = setup();
    let id = DatabaseEntityId(1);
    <Retriever as DBQueryInfo>::get(&mut db, &mut world, &mut prices, &(id, r)).unwrap();
    let e = world.find(&id).unwrap();
    assert!(!world.record(e).dirty);
    <Retriever as DBQueryInfo>::get_mut(&mut db, &mut world, &mut prices, &(id, r)).unwrap();
    assert!(world.record(e).dirty);
    assert_eq!(*world.record(e), record(1, true, true, r));
    assert_eq!(prices.get(e), Some(&Price { value: 100 }));
}

#[test]
fn a_row_that_is_not_found_fails_and_spawns_nothing() {
    let (mut db, r, mut world, mut prices) = setup();
    let id = DatabaseEntityId(77);
    let got = <Retriever as DBQueryInfo>::get(&mut db, &mut world, &mut prices, &(id, r));
    assert_eq!(got, Err(DatabaseError::NotFound));
    let got = Retriever::get_internal(&mut db, &mut world, &mut prices, &(id, r), None);
    assert_eq!(got, Err(DatabaseError::NotFound));
    assert_eq!(world.len(), 0);
    assert_eq!(world.find(&id), None);
    assert_eq!(db.get_transaction(r).calls, vec![Call::Fetch(77), Call::Fetch(77)]);
}

#[test]
fn a_backend_failure_is_returned_and_not_retried() {
    let mut db: DatabaseHandle<Backend> = DatabaseHandle::new();
    let r = db.start_new_transaction(Backend { rows: vec![(1, 100)], broken: true, calls: vec![] });
    let mut world = World::new();
    let mut prices: Column<Price> = Column::new();
    let id = DatabaseEntityId(1);
    let got = <Retriever as DBQueryInfo>::get_mut(&mut db, &mut world, &mut prices, &(id, r));
    assert!(matches!(got, Err(DatabaseError::Backend)));
    assert_eq!(db.get_transaction(r).calls, vec![Call::Fetch(1)]);
    assert_eq!(world.len(), 0);
}

#[test]
fn a_known_entity_without_the_component_gets_it_attached() {
    let (mut db, r, mut world, mut prices) = setup();
    let id = DatabaseEntityId(2);
    let known = world.spawn(record(2, true, false, r));
    assert!(!prices.contains(known));
    let e = Retriever::get_internal(&mut db, &mut world, &mut prices, &(id, r), None).unwrap();
    assert_eq!(e, known);
    assert_eq!(world.len(), 1);
    assert_eq!(prices.get(e), Some(&Price { value: 250 }));
    assert_eq!(db.get_transaction(r).calls, vec![Call::Fetch(2)]);
}

#[test]
fn a_preloaded_component_is_used_without_a_fetch() {
    let (mut db, r, mut world, mut prices) = setup();
    let id = DatabaseEntityId(9);
    let e = Retriever::get_internal(
        &mut db,
        &mut world,
        &mut prices,
        &(id, r),
        Some(Price { value: 5 }),
    )
    .unwrap();
    assert_eq!(prices.get(e), Some(&Price { value: 5 }));
    assert_eq!(*world.record(e), record(9, true, false, r));
    assert!(db.get_transaction(r).calls.is_empty());
    // in memory already: the loaded value is dropped, the stored one stays
    let again = Retriever::get_internal(
        &mut db,
        &mut world,
        &mut prices,
        &(id, r),
        Some(Price { value: 6 }),
    )
    .unwrap();
    assert_eq!(again, e);
    assert_eq!(prices.get(e), Some(&Price { value: 5 }));
}

#[test]
fn the_write_back_policy() {
    let r = RequestId::from_raw_parts(0, 0);
    assert_eq!(write_back(&record(1, true, false, r)), WriteBack::Nothing);
    assert_eq!(write_back(&record(1, true, true, r)), WriteBack::Update);
    assert_eq!(write_back(&record(1, false, false, r)), WriteBack::Insert);
    assert_eq!(write_back(&record(1, false, true, r)), WriteBack::Insert);
}

#[test]
fn a_clean_record_is_not_written_and_a_dirty_one_is_updated_once() {
    let (mut db, r, _world, _prices) = setup();
    let price = Price { value: 42 };
    let clean = record(1, true, false, r);
    assert_eq!(Retriever::update_or_insert_component(&mut db, &clean, &price), Ok(()));
    assert!(db.get_transaction(r).calls.is_empty());
    let dirty = record(1, true, true, r);
    assert_eq!(Retriever::update_or_insert_component(&mut db, &dirty, &price), Ok(()));
    assert_eq!(db.get_transaction(r).calls, vec![Call::Update(1, 42)]);
}

#[test]
fn a_clean_record_needs_no_open_transaction() {
    let mut db: DatabaseHandle<Backend> = DatabaseHandle::new();
    let stale = RequestId::from_raw_parts(3, 9);
    let clean = record(1, true, false, stale);
    assert_eq!(Retriever::update_or_insert_component(&mut db, &clean, &Price { value: 1 }), Ok(()));
}

#[test]
fn a_new_record_is_inserted_once_whether_dirty_or_not() {
    for dirty in [false, true] {
        let (mut db, r, _world, _prices) = setup();
        let fresh = record(-1, false, dirty, r);
        let done = Retriever::update_or_insert_component(&mut db, &fresh, &Price { value: 7 });
        assert_eq!(done, Ok(()));
        assert_eq!(db.get_transaction(r).calls, vec![Call::Insert(-1, 7)]);
    }
}

#[test]
fn a_failed_write_is_returned() {
    let mut db: DatabaseHandle<Backend> = DatabaseHandle::new();
    let r = db.start_new_transaction(Backend { rows: vec![], broken: true, calls: vec![] });
    let done = Retriever::update_or_insert_component(
        &mut db,
        &record(1, true, true, r),
        &Price { value: 7 },
    );
    assert_eq!(done, Err(DatabaseError::Backend));
    let done = <Retriever as DBQueryInfo>::insert_component(
        &mut db,
        &record(1, true, true, r),
        &Price { value: 8 },
    );
    assert_eq!(done, Err(DatabaseError::Backend));
    assert_eq!(db.get_transaction(r).calls, vec![Call::Update(1, 7), Call::Insert(1, 8)]);
}

#[test]
fn writes_go_through_the_request_that_owns_the_record() {
    let mut db: DatabaseHandle<Backend> = DatabaseHandle::new();
    let r1 = db.start_new_transaction(backend());
    let r2 = db.start_new_transaction(backend());
    let price = Price { value: 3 };
    <Retriever as DBQueryInfo>::update_component(&mut db, &record(1, true, true, r2), &price)
        .unwrap();
    <Retriever as DBQueryInfo>::insert_component(&mut db, &record(5, false, false, r1), &price)
        .unwrap();
    assert_eq!(db.get_transaction(r1).calls, vec![Call::Insert(5, 3)]);
    assert_eq!(db.get_transaction(r2).calls, vec![Call::Update(1, 3)]);
}

#[test]
fn create_mints_a_key_and_writes_nothing() {
    let (mut db, r, mut world, mut prices) = setup();
    let done =
        <Retriever as DBQueryInfo>::create(&mut db, &mut world, &mut prices, Price { value: 100 }, r);
    assert_eq!(done, Ok(()));
    <Retriever as DBQueryInfo>::create(&mut db, &mut world, &mut prices, Price { value: 200 }, r)
        .unwrap();
    assert_eq!(world.len(), 2);
    assert_eq!(*world.record(Entity(0)), record(-1, false, false, r));
    assert_eq!(*world.record(Entity(1)), record(-2, false, false, r));
    assert!(world.record(Entity(0)).id.minted_locally());
    assert_eq!(prices.get(Entity(0)), Some(&Price { value: 100 }));
    assert_eq!(prices.get(Entity(1)), Some(&Price { value: 200 }));
    assert!(db.get_transaction(r).calls.is_empty());
}

#[test]
fn read_takes_from_memory_alone() {
    let (mut db, r, mut world, mut prices) = setup();
    assert_eq!(<Retriever as DBQueryInfo>::read(&prices, Entity(0)), None);
    <Retriever as DBQueryInfo>::get(&mut db, &mut world, &mut prices, &(DatabaseEntityId(1), r))
        .unwrap();
    assert_eq!(<Retriever as DBQueryInfo>::read(&prices, Entity(0)), Some(&Price { value: 100 }));
    assert_eq!(<Retriever as DBQueryInfo>::read(&prices, Entity(1)), None);
    assert_eq!(db.get_transaction(r).calls.len(), 1);
}
