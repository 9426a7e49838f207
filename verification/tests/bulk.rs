use bevy_erm::database_entity::{DatabaseEntity, DatabaseEntityId, Persisted, RequestId};
use bevy_erm::database_query::{
    ComponentMapper,
    CustomDatabaseQuery,
    DBQueryInfo,
    DatabaseError,
    DatabaseQuery,
    ReturnSelector,
};
use bevy_erm::retriever::{DataseBaseEntityAndComponent, SingleComponentRetriever, rows_for_request};
use bevy_erm::database_resource::DatabaseHandle;
use bevy_erm::world::{Column, Entity, World};

#[derive(Debug, Clone, PartialEq)]
struct Item {
    name: String,
}

struct Backend {
    items: Vec<(i64, String)>,
    fetches: u32,
    queries: u32,
}

struct ItemMapper;

impl ComponentMapper for ItemMapper {
    type Component = Item;
    type Executor = Backend;

    fn get(e: &mut Backend, id: &DatabaseEntityId) -> Result<Item, DatabaseError> {
        e.fetches += 1;
        match e.items.iter().find(|r| r.0 == id.0) {
            Some(r) => Ok(Item { name: r.1.clone() }),
            None => Err(DatabaseError::NotFound),
        }
    }

    fn update_component(_: &mut Backend, _: &DatabaseEntityId, _: &Item) -> Result<(), DatabaseError> {
        Ok(())
    }

    fn insert_component(_: &mut Backend, _: &DatabaseEntityId, _: &Item) -> Result<(), DatabaseError> {
        Ok(())
    }
}

/// Loads every item of the table, for a request.
struct ItemQueryLoadAll(RequestId);

impl CustomDatabaseQuery<Backend, Item> for ItemQueryLoadAll {
    fn query(&self, tr: &mut Backend) -> Result<Vec<(DatabaseEntity, Item)>, DatabaseError> {
        tr.queries += 1;
        let decoded = tr
            .items
            .iter()
            .map(|r| DataseBaseEntityAndComponent {
                entity: DatabaseEntity::from_row(DatabaseEntityId(r.0)),
                component: Item { name: r.1.clone() },
            })
            .collect();
        Ok(rows_for_request(decoded, self.0))
    }
}

struct Failing;

impl CustomDatabaseQuery<Backend, Item> for Failing {
    fn query(&self, tr: &mut Backend) -> Result<Vec<(DatabaseEntity, Item)>, DatabaseError> {
        tr.queries += 1;
        Err(DatabaseError::Backend)
    }
}

fn five_items() -> Backend {
    Backend {
        items: (1..=5).map(|i| (i, format!("item {}", i))).collect(),
        fetches: 0,
        queries: 0,
    }
}

fn record(id: i64, request: RequestId) -> DatabaseEntity {
    DatabaseEntity { id: DatabaseEntityId(id), persisted: Persisted(true), dirty: false, request }
}

#[test]
fn rows_are_handed_to_the_request_in_order() {
    let r = RequestId::from_raw_parts(3, 1);
    let decoded = vec![
        DataseBaseEntityAndComponent { entity: DatabaseEntity::from_row(DatabaseEntityId(8)), component: 'a' },
        DataseBaseEntityAndComponent { entity: DatabaseEntity::from_row(DatabaseEntityId(9)), component: 'b' },
        DataseBaseEntityAndComponent { entity: DatabaseEntity::from_row(DatabaseEntityId(7)), component: 'c' },
    ];
    let owned = rows_for_request(decoded, r);
    assert_eq!(owned, vec![(record(8, r), 'a'), (record(9, r), 'b'), (record(7, r), 'c')]);
    assert_eq!(rows_for_request(Vec::<DataseBaseEntityAndComponent<u8>>::new(), r), vec![]);
}

#[test]
fn a_decoded_record_is_persisted_and_clean() {
    let rec = DatabaseEntity::from_row(DatabaseEntityId(12));
    assert_eq!(rec, record(12, RequestId::from_raw_parts(0, 0)));
}

#[test]
fn bulk_load_reuses_what_is_in_memory() {
    let mut db: DatabaseHandle<Backend> = DatabaseHandle::new();
    let r = db.start_new_transaction(five_items());
    let mut world = World::new();
    let mut items: Column<Item> = Column::new();
    // two of the five identities are in memory already, without the component
    let known2 = world.spawn(record(2, r));
    let known4 = world.spawn(record(4, r));

    let loaded = SingleComponentRetriever::<ItemMapper>::load_entities_for_components(
        &mut db,
        &mut world,
        &mut items,
        r,
        ItemQueryLoadAll(r),
    )
    .unwrap();

    // five handles, one for each row, in the order of the rows
    assert_eq!(loaded, vec![Entity(2), known2, Entity(3), known4, Entity(4)]);
    // three entities were added, two got the component attached
    assert_eq!(world.len(), 5);
    for (i, e) in loaded.iter().enumerate() {
        assert_eq!(world.record(*e).id, DatabaseEntityId(i as i64 + 1));
        assert_eq!(items.get(*e), Some(&Item { name: format!("item {}", i + 1) }));
        assert_eq!(*world.record(*e), record(i as i64 + 1, r));
    }
    // one query, and no fetch at all
    assert_eq!(db.get_transaction(r).queries, 1);
    assert_eq!(db.get_transaction(r).fetches, 0);
    // what was loaded is served from memory afterwards
    <&ItemMapper as DBQueryInfo>::get(&mut db, &mut world, &mut items, &(DatabaseEntityId(3), r))
        .unwrap();
    assert_eq!(db.get_transaction(r).fetches, 0);
}

#[test]
fn bulk_load_keeps_a_component_that_is_in_memory() {
    let mut db: DatabaseHandle<Backend> = DatabaseHandle::new();
    let r = db.start_new_transaction(five_items());
    let mut world = World::new();
    let mut items: Column<Item> = Column::new();
    {
        let item = <&mut ItemMapper as DBQueryInfo>::get_mut(
            &mut db,
            &mut world,
            &mut items,
            &(DatabaseEntityId(1), r),
        )
        .unwrap();
        item.name = "changed".to_string();
    }
    let loaded = SingleComponentRetriever::<ItemMapper>::load_entities_for_components(
        &mut db,
        &mut world,
        &mut items,
        r,
        ItemQueryLoadAll(r),
    )
    .unwrap();
    assert_eq!(loaded.len(), 5);
    assert_eq!(items.get(loaded[0]), Some(&Item { name: "changed".to_string() }));
    assert!(world.record(loaded[0]).dirty);
}

#[test]
fn a_failed_query_loads_nothing() {
    let mut db: DatabaseHandle<Backend> = DatabaseHandle::new();
    let r = db.start_new_transaction(five_items());
    let mut world = World::new();
    let mut items: Column<Item> = Column::new();
    let loaded = SingleComponentRetriever::<ItemMapper>::load_entities_for_components(
        &mut db,
        &mut world,
        &mut items,
        r,
        Failing,
    );
    assert_eq!(loaded, Err(DatabaseError::Backend));
    assert_eq!(world.len(), 0);
    let got = <&ItemMapper as DBQueryInfo>::load_components::<&ItemMapper, Failing>(
        &mut db,
        &mut world,
        &mut items,
        r,
        Failing,
    );
    assert!(matches!(got, Err(DatabaseError::Backend)));
    assert_eq!(db.get_transaction(r).queries, 2);
}

#[test]
fn loaded_rows_are_read_through_the_selection() {
    let mut db: DatabaseHandle<Backend> = DatabaseHandle::new();
    let r = db.start_new_transaction(five_items());
    let mut query: DatabaseQuery<&mut ItemMapper> = DatabaseQuery::new(db, World::new(), Column::new());
    {
        let names = query.load_components::<&ItemMapper, ItemQueryLoadAll>(r, ItemQueryLoadAll(r)).unwrap();
        assert_eq!(names.len(), 5);
        assert_eq!(names[0], &Item { name: "item 1".to_string() });
        assert_eq!(names[4], &Item { name: "item 5".to_string() });
    }
    {
        let maybe = query
            .load_components::<Option<&ItemMapper>, ItemQueryLoadAll>(r, ItemQueryLoadAll(r))
            .unwrap();
        assert_eq!(maybe.len(), 5);
        assert_eq!(maybe[2], Some(&Item { name: "item 3".to_string() }));
    }
    assert_eq!(query.world.len(), 5);
    assert_eq!(query.db.get_transaction(r).fetches, 0);
    assert_eq!(query.db.get_transaction(r).queries, 2);
}

#[test]
fn materialize_rows_asks_nothing() {
    let mut db: DatabaseHandle<Backend> = DatabaseHandle::new();
    let r = db.start_new_transaction(five_items());
    let mut world = World::new();
    let mut items: Column<Item> = Column::new();
    let elsewhere = RequestId::from_raw_parts(7, 7);
    let rows = vec![
        (record(30, r), Item { name: "x".to_string() }),
        (record(10, elsewhere), Item { name: "y".to_string() }),
        (record(30, r), Item { name: "z".to_string() }),
    ];
    let entities = SingleComponentRetriever::<ItemMapper>::materialize_rows(
        &mut db,
        &mut world,
        &mut items,
        r,
        rows,
    );
    assert_eq!(entities, vec![Entity(0), Entity(1), Entity(0)]);
    assert_eq!(world.len(), 2);
    assert_eq!(*world.record(Entity(1)), record(10, r));
    assert_eq!(items.get(Entity(0)), Some(&Item { name: "x".to_string() }));
    assert_eq!(db.get_transaction(r).fetches, 0);
    assert_eq!(db.get_transaction(r).queries, 0);
}

#[test]
fn a_selection_reads_each_entity_in_the_order_of_the_list() {
    let mut items: Column<Item> = Column::new();
    items.insert(Entity(0), Item { name: "a".to_string() });
    items.insert(Entity(2), Item { name: "c".to_string() });
    let read = <&ItemMapper as ReturnSelector>::load_components_from_entities(
        &items,
        vec![Entity(2), Entity(0), Entity(2)],
    );
    assert_eq!(read.iter().map(|i| i.name.as_str()).collect::<Vec<_>>(), vec!["c", "a", "c"]);
    let maybe = <Option<&ItemMapper> as ReturnSelector>::load_components_from_entities(
        &items,
        vec![Entity(1), Entity(0)],
    );
    assert_eq!(maybe, vec![None, Some(&Item { name: "a".to_string() })]);
}

/// Returns rows that name a request of their own, or none at all.
struct Untagged;

impl CustomDatabaseQuery<Backend, Item> for Untagged {
    fn query(&self, tr: &mut Backend) -> Result<Vec<(DatabaseEntity, Item)>, DatabaseError> {
        tr.queries += 1;
        Ok(vec![
            (DatabaseEntity::from_row(DatabaseEntityId(1)), Item { name: "one".to_string() }),
            (record(2, RequestId::from_raw_parts(9, 9)), Item { name: "two".to_string() }),
        ])
    }
}

#[test]
fn loaded_rows_are_owned_by_the_request_that_loads_them() {
    let mut db: DatabaseHandle<Backend> = DatabaseHandle::new();
    let other = db.start_new_transaction(five_items());
    let r = db.start_new_transaction(five_items());
    assert_ne!(other, r);
    let mut world = World::new();
    let mut items: Column<Item> = Column::new();
    let loaded = SingleComponentRetriever::<ItemMapper>::load_entities_for_components(
        &mut db,
        &mut world,
        &mut items,
        r,
        Untagged,
    )
    .unwrap();
    assert_eq!(loaded, vec![Entity(0), Entity(1)]);
    assert_eq!(*world.record(Entity(0)), record(1, r));
    assert_eq!(*world.record(Entity(1)), record(2, r));
    assert_eq!(items.get(Entity(1)), Some(&Item { name: "two".to_string() }));
    // the query ran through the transaction of the request, and through no other
    assert_eq!(db.get_transaction(r).queries, 1);
    assert_eq!(db.get_transaction(other).queries, 0);
}

#[test]
fn a_loaded_row_leaves_the_owner_of_a_known_entity() {
    let mut db: DatabaseHandle<Backend> = DatabaseHandle::new();
    let first = db.start_new_transaction(five_items());
    let second = db.start_new_transaction(five_items());
    let mut world = World::new();
    let mut items: Column<Item> = Column::new();
    let known = world.spawn(record(1, first));
    let entities = SingleComponentRetriever::<ItemMapper>::materialize_rows(
        &mut db,
        &mut world,
        &mut items,
        second,
        vec![(record(1, second), Item { name: "one".to_string() })],
    );
    assert_eq!(entities, vec![known]);
    assert_eq!(*world.record(known), record(1, first));
    assert_eq!(items.get(known), Some(&Item { name: "one".to_string() }));
}
