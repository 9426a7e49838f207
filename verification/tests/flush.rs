use bevy_erm::database_entity::{DatabaseEntity, DatabaseEntityId, FlushEvent, Persisted, RequestId};
use bevy_erm::database_query::{ComponentMapper, DatabaseError, DatabaseQuery};
use bevy_erm::database_resource::{flush_component_to_db, DatabaseHandle};
use bevy_erm::world::{Column, Entity, World};

#[derive(Debug, Clone, PartialEq)]
struct Price {
    value: i64,
}

#[derive(Debug, Clone, PartialEq)]
enum Statement {
    Select(i64),
    Update(i64, i64),
    Insert(i64, i64),
}

/// A table of prices behind a transaction that applies its writes at once and
/// refuses to write the prices listed as forbidden.
#[derive(Debug)]
struct Transaction {
    rows: Vec<(i64, i64)>,
    forbidden: Vec<i64>,
    statements: Vec<Statement>,
}

struct PriceMapper;

impl ComponentMapper for PriceMapper {
    type Component = Price;
    type Executor = Transaction;

    fn get(e: &mut Transaction, id: &DatabaseEntityId) -> Result<Price, DatabaseError> {
        e.statements.push(Statement::Select(id.0));
        match e.rows.iter().find(|r| r.0 == id.0) {
            Some(r) => Ok(Price { value: r.1 }),
            None => Err(DatabaseError::NotFound),
        }
    }

    fn update_component(
        tr: &mut Transaction,
        id: &DatabaseEntityId,
        component: &Price,
    ) -> Result<(), DatabaseError> {
        tr.statements.push(Statement::Update(id.0, component.value));
        if tr.forbidden.contains(&component.value) {
            return Err(DatabaseError::Backend);
        }
        for row in tr.rows.iter_mut() {
            if row.0 == id.0 {
                row.1 = component.value;
            }
        }
        Ok(())
    }

    fn insert_component(
        tr: &mut Transaction,
        id: &DatabaseEntityId,
        component: &Price,
    ) -> Result<(), DatabaseError> {
        tr.statements.push(Statement::Insert(id.0, component.value));
        if tr.forbidden.contains(&component.value) {
            return Err(DatabaseError::Backend);
        }
        tr.rows.push((id.0, component.value));
        Ok(())
    }
}

fn query_over(rows: Vec<(i64, i64)>, forbidden: Vec<i64>) -> (DatabaseQuery<&'static mut PriceMapper>, RequestId) {
    let mut db: DatabaseHandle<Transaction> = DatabaseHandle::new();
    let r = db.start_new_transaction(Transaction { rows, forbidden, statements: vec![] });
    (DatabaseQuery::new(db, World::new(), Column::new()), r)
}

#[test]
fn a_created_component_is_inserted_by_the_flush() {
    let (mut query, r) = query_over(vec![], vec![]);
    query.create(Price { value: 100 }, r).unwrap();
    assert!(query.db.get_transaction(r).rows.is_empty());
    let minted = query.world.record(Entity(0)).id;
    assert_eq!(minted, DatabaseEntityId(-1));

    let committed = flush_component_to_db(&FlushEvent { request: r }, &mut query).unwrap();

    // exactly one row, under the minted identity, with the value
    assert_eq!(committed.rows, vec![(-1, 100)]);
    assert_eq!(committed.statements, vec![Statement::Insert(-1, 100)]);
    // the entity is persisted and clean now
    assert_eq!(
        *query.world.record(Entity(0)),
        DatabaseEntity { id: minted, persisted: Persisted(true), dirty: false, request: r }
    );
    // the request is retired
    assert!(!query.db.contains(r));
    assert_eq!(query.db.commit_count(), 1);
}

#[test]
fn a_changed_component_is_updated_once_by_the_flush() {
    let (mut query, r) = query_over(vec![(4, 10), (5, 20)], vec![]);
    let id = DatabaseEntityId(5);
    {
        let price = query.get_mut(&(id, r)).unwrap();
        price.value = 25;
    }
    let committed = flush_component_to_db(&FlushEvent { request: r }, &mut query).unwrap();
    assert_eq!(committed.statements, vec![Statement::Select(5), Statement::Update(5, 25)]);
    assert_eq!(committed.rows, vec![(4, 10), (5, 25)]);
    assert!(!query.world.record(Entity(0)).dirty);
    assert!(query.world.record(Entity(0)).persisted.0);
}

#[test]
fn a_component_that_was_only_read_is_not_written() {
    let (mut query, r) = query_over(vec![(4, 10)], vec![]);
    query.get(&(DatabaseEntityId(4), r)).unwrap();
    let committed = flush_component_to_db(&FlushEvent { request: r }, &mut query).unwrap();
    assert_eq!(committed.statements, vec![Statement::Select(4)]);
}

#[test]
fn a_flush_writes_the_entities_of_its_request_only() {
    let mut db: DatabaseHandle<Transaction> = DatabaseHandle::new();
    let r1 = db.start_new_transaction(Transaction { rows: vec![], forbidden: vec![], statements: vec![] });
    let r2 = db.start_new_transaction(Transaction { rows: vec![], forbidden: vec![], statements: vec![] });
    let mut query: DatabaseQuery<&mut PriceMapper> = DatabaseQuery::new(db, World::new(), Column::new());
    query.create(Price { value: 1 }, r1).unwrap();
    query.create(Price { value: 2 }, r2).unwrap();
    query.create(Price { value: 3 }, r1).unwrap();

    let committed = flush_component_to_db(&FlushEvent { request: r1 }, &mut query).unwrap();
    assert_eq!(committed.statements, vec![Statement::Insert(-1, 1), Statement::Insert(-3, 3)]);
    assert!(query.world.record(Entity(0)).persisted.0);
    assert!(!query.world.record(Entity(1)).persisted.0);
    assert!(query.world.record(Entity(2)).persisted.0);
    // the other request is open still and was not written through
    assert!(query.db.contains(r2));
    assert!(query.db.get_transaction(r2).statements.is_empty());

    let committed = flush_component_to_db(&FlushEvent { request: r2 }, &mut query).unwrap();
    assert_eq!(committed.statements, vec![Statement::Insert(-2, 2)]);
    assert!(query.world.record(Entity(1)).persisted.0);
    assert_eq!(query.db.commit_count(), 2);
}

#[test]
fn a_failed_write_stops_the_flush_and_leaves_the_request_open() {
    let (mut query, r) = query_over(vec![], vec![2]);
    query.create(Price { value: 1 }, r).unwrap();
    query.create(Price { value: 2 }, r).unwrap();
    query.create(Price { value: 3 }, r).unwrap();

    let flushed = flush_component_to_db(&FlushEvent { request: r }, &mut query);
    assert!(matches!(flushed, Err(DatabaseError::Backend)));
    // the first was written, the second failed, the third was not attempted
    assert_eq!(
        query.db.get_transaction(r).statements,
        vec![Statement::Insert(-1, 1), Statement::Insert(-2, 2)]
    );
    // no record is marked, and the transaction is uncommitted
    for e in [Entity(0), Entity(1), Entity(2)] {
        assert!(!query.world.record(e).persisted.0);
    }
    assert!(query.db.contains(r));
    assert_eq!(query.db.commit_count(), 0);
}

#[test]
fn a_flush_of_a_request_without_entities_retires_it() {
    let (mut query, r) = query_over(vec![(1, 1)], vec![]);
    let committed = flush_component_to_db(&FlushEvent { request: r }, &mut query).unwrap();
    assert!(committed.statements.is_empty());
    assert!(!query.db.contains(r));
}

#[test]
fn commit_hands_the_transaction_out() {
    let (mut query, r) = query_over(vec![(1, 1)], vec![]);
    let tr = query.commit(r).unwrap();
    assert_eq!(tr.rows, vec![(1, 1)]);
    assert!(!query.db.contains(r));
}

#[test]
fn a_flush_leaves_the_other_requests_open_and_counts_one_commit() {
    let mut db: DatabaseHandle<Transaction> = DatabaseHandle::new();
    let r1 = db.start_new_transaction(Transaction { rows: vec![], forbidden: vec![9], statements: vec![] });
    let r2 = db.start_new_transaction(Transaction { rows: vec![], forbidden: vec![], statements: vec![] });
    let mut query: DatabaseQuery<&mut PriceMapper> = DatabaseQuery::new(db, World::new(), Column::new());
    query.create(Price { value: 9 }, r1).unwrap();
    query.create(Price { value: 2 }, r2).unwrap();
    let key_before = query.db.last_key();

    // a flush that fails retires nothing
    assert!(flush_component_to_db(&FlushEvent { request: r1 }, &mut query).is_err());
    assert!(query.db.contains(r1));
    assert!(query.db.contains(r2));
    assert_eq!(query.db.commit_count(), 0);
    assert_eq!(query.db.last_key(), key_before);

    // a flush that succeeds retires its own request and no other
    flush_component_to_db(&FlushEvent { request: r2 }, &mut query).unwrap();
    assert!(query.db.contains(r1));
    assert!(!query.db.contains(r2));
    assert_eq!(query.db.commit_count(), 1);
    assert_eq!(query.db.last_key(), key_before);
    assert!(query.db.get_transaction(r1).rows.is_empty());
}
