use bevy_erm::database_entity::{DatabaseEntity, DatabaseEntityId, Persisted, RequestId};
use bevy_erm::database_query::{
    ComponentMapper,
    CustomDatabaseQuery,
    DBQueryInfo,
    DatabaseError,
    DatabaseQuery,
};
use bevy_erm::database_resource::DatabaseHandle;
use bevy_erm::world::{Column, Entity, World};

#[derive(Debug, Clone, PartialEq)]
struct Name(String);

#[derive(Debug, Clone, PartialEq)]
struct Price(i64);

#[derive(Debug, Clone, PartialEq)]
struct Stock(u32);

/// A backend with three tables, which logs every call and can be told to fail
/// the writes of one table.
struct Backend {
    names: Vec<(i64, String)>,
    prices: Vec<(i64, i64)>,
    stocks: Vec<(i64, u32)>,
    failing_table: Option<&'static str>,
    failure: DatabaseError,
    calls: Vec<String>,
}

impl Backend {
    fn new() -> Backend {
        Backend {
            names: vec![(1, "anvil".to_string()), (2, "bellows".to_string())],
            prices: vec![(1, 100)],
            stocks: vec![(1, 3), (2, 0)],
            failing_table: None,
            failure: DatabaseError::Backend,
            calls: vec![],
        }
    }

    fn call(&mut self, table: &'static str, what: &str, id: i64) -> Result<(), DatabaseError> {
        self.calls.push(format!("{} {} {}", what, table, id));
        if self.failing_table == Some(table) {
            Err(self.failure)
        } else {
            Ok(())
        }
    }
}

struct NameMapper;
struct PriceMapper;
struct StockMapper;

impl ComponentMapper for NameMapper {
    type Component = Name;
    type Executor = Backend;

    fn get(e: &mut Backend, id: &DatabaseEntityId) -> Result<Name, DatabaseError> {
        e.call("names", "fetch", id.0)?;
        match e.names.iter().find(|r| r.0 == id.0) {
            Some(r) => Ok(Name(r.1.clone())),
            None => Err(DatabaseError::NotFound),
        }
    }

    fn update_component(tr: &mut Backend, id: &DatabaseEntityId, _c: &Name) -> Result<(), DatabaseError> {
        tr.call("names", "update", id.0)
    }

    fn insert_component(tr: &mut Backend, id: &DatabaseEntityId, _c: &Name) -> Result<(), DatabaseError> {
        tr.call("names", "insert", id.0)
    }
}

impl ComponentMapper for PriceMapper {
    type Component = Price;
    type Executor = Backend;

    fn get(e: &mut Backend, id: &DatabaseEntityId) -> Result<Price, DatabaseError> {
        e.call("prices", "fetch", id.0)?;
        match e.prices.iter().find(|r| r.0 == id.0) {
            Some(r) => Ok(Price(r.1)),
            None => Err(DatabaseError::NotFound),
        }
    }

    fn update_component(tr: &mut Backend, id: &DatabaseEntityId, _c: &Price) -> Result<(), DatabaseError> {
        tr.call("prices", "update", id.0)
    }

    fn insert_component(tr: &mut Backend, id: &DatabaseEntityId, _c: &Price) -> Result<(), DatabaseError> {
        tr.call("prices", "insert", id.0)
    }
}

impl ComponentMapper for StockMapper {
    type Component = Stock;
    type Executor = Backend;

    fn get(e: &mut Backend, id: &DatabaseEntityId) -> Result<Stock, DatabaseError> {
        e.call("stocks", "fetch", id.0)?;
        match e.stocks.iter().find(|r| r.0 == id.0) {
            Some(r) => Ok(Stock(r.1)),
            None => Err(DatabaseError::NotFound),
        }
    }

    fn update_component(tr: &mut Backend, id: &DatabaseEntityId, _c: &Stock) -> Result<(), DatabaseError> {
        tr.call("stocks", "update", id.0)
    }

    fn insert_component(tr: &mut Backend, id: &DatabaseEntityId, _c: &Stock) -> Result<(), DatabaseError> {
        tr.call("stocks", "insert", id.0)
    }
}

struct NoRows;

impl<C> CustomDatabaseQuery<Backend, C> for NoRows {
    fn query(&self, tr: &mut Backend) -> Result<Vec<(DatabaseEntity, C)>, DatabaseError> {
        tr.calls.push("query".to_string());
        Ok(vec![])
    }
}

fn start(backend: Backend) -> (DatabaseHandle<Backend>, RequestId) {
    let mut db: DatabaseHandle<Backend> = DatabaseHandle::new();
    let r = db.start_new_transaction(backend);
    (db, r)
}

fn calls(db: &DatabaseHandle<Backend>, r: RequestId) -> Vec<String> {
    db.get_transaction(r).calls.clone()
}

fn record(id: i64, persisted: bool, dirty: bool, request: RequestId) -> DatabaseEntity {
    DatabaseEntity { id: DatabaseEntityId(id), persisted: Persisted(persisted), dirty, request }
}

#[test]
fn a_read_marker_never_marks_dirty() {
    let (mut db, r) = start(Backend::new());
    let mut world = World::new();
    let mut names: Column<Name> = Column::new();
    let id = DatabaseEntityId(1);
    {
        let n = <&NameMapper as DBQueryInfo>::get_mut(&mut db, &mut world, &mut names, &(id, r))
            .unwrap();
        assert_eq!(n, &Name("anvil".to_string()));
    }
    assert!(!world.record(Entity(0)).dirty);
    <&NameMapper as DBQueryInfo>::get(&mut db, &mut world, &mut names, &(id, r)).unwrap();
    assert!(!world.record(Entity(0)).dirty);
    assert_eq!(calls(&db, r), vec!["fetch names 1"]);
}

#[test]
fn a_read_write_marker_marks_dirty_on_get_mut_only() {
    let (mut db, r) = start(Backend::new());
    let mut world = World::new();
    let mut prices: Column<Price> = Column::new();
    let id = DatabaseEntityId(1);
    <&mut PriceMapper as DBQueryInfo>::get(&mut db, &mut world, &mut prices, &(id, r)).unwrap();
    assert!(!world.record(Entity(0)).dirty);
    {
        let p = <&mut PriceMapper as DBQueryInfo>::get_mut(&mut db, &mut world, &mut prices, &(id, r))
            .unwrap();
        p.0 = 101;
    }
    assert!(world.record(Entity(0)).dirty);
    assert_eq!(prices.get(Entity(0)), Some(&Price(101)));
    assert_eq!(calls(&db, r), vec!["fetch prices 1"]);
}

#[test]
fn optional_absence_is_not_failure() {
    let (mut db, r) = start(Backend::new());
    let mut world = World::new();
    let mut prices: Column<Price> = Column::new();
    let absent = DatabaseEntityId(2);
    let got = <Option<&PriceMapper> as DBQueryInfo>::get(&mut db, &mut world, &mut prices, &(absent, r));
    assert_eq!(got, Ok(None));
    let got =
        <Option<&mut PriceMapper> as DBQueryInfo>::get_mut(&mut db, &mut world, &mut prices, &(absent, r));
    assert!(matches!(got, Ok(None)));
    assert_eq!(world.len(), 0);
    let present = DatabaseEntityId(1);
    let got =
        <Option<&PriceMapper> as DBQueryInfo>::get(&mut db, &mut world, &mut prices, &(present, r));
    assert_eq!(got, Ok(Some(&Price(100))));
    assert_eq!(calls(&db, r), vec!["fetch prices 2", "fetch prices 2", "fetch prices 1"]);
}

#[test]
fn optional_passes_other_failures_on() {
    let mut backend = Backend::new();
    backend.failing_table = Some("prices");
    let (mut db, r) = start(backend);
    let mut world = World::new();
    let mut prices: Column<Price> = Column::new();
    let got = <Option<&PriceMapper> as DBQueryInfo>::get(
        &mut db,
        &mut world,
        &mut prices,
        &(DatabaseEntityId(1), r),
    );
    assert_eq!(got, Err(DatabaseError::Backend));
}

#[test]
fn optional_create_and_writes_of_nothing_do_nothing() {
    let (mut db, r) = start(Backend::new());
    let mut world = World::new();
    let mut prices: Column<Price> = Column::new();
    let done = <Option<&PriceMapper> as DBQueryInfo>::create(&mut db, &mut world, &mut prices, None, r);
    assert_eq!(done, Ok(()));
    assert_eq!(world.len(), 0);
    assert_eq!(db.get_key(), DatabaseEntityId(-1));
    let rec = record(1, true, true, r);
    assert_eq!(<Option<&PriceMapper> as DBQueryInfo>::update_component(&mut db, &rec, None), Ok(()));
    assert_eq!(<Option<&PriceMapper> as DBQueryInfo>::insert_component(&mut db, &rec, None), Ok(()));
    assert!(calls(&db, r).is_empty());
    let price = Price(5);
    <Option<&PriceMapper> as DBQueryInfo>::update_component(&mut db, &rec, Some(&price)).unwrap();
    <Option<&PriceMapper> as DBQueryInfo>::insert_component(&mut db, &rec, Some(&price)).unwrap();
    assert_eq!(calls(&db, r), vec!["update prices 1", "insert prices 1"]);
    <Option<&PriceMapper> as DBQueryInfo>::create(&mut db, &mut world, &mut prices, Some(Price(9)), r)
        .unwrap();
    assert_eq!(world.record(Entity(0)).id, DatabaseEntityId(-2));
    assert_eq!(prices.get(Entity(0)), Some(&Price(9)));
}

#[test]
fn optional_read_is_always_there() {
    let mut prices: Column<Price> = Column::new();
    assert_eq!(<Option<&PriceMapper> as DBQueryInfo>::read(&prices, Entity(4)), Some(None));
    prices.insert(Entity(4), Price(1));
    assert_eq!(<Option<&PriceMapper> as DBQueryInfo>::read(&prices, Entity(4)), Some(Some(&Price(1))));
}

type Three = (&'static NameMapper, Option<&'static mut PriceMapper>, &'static StockMapper);

#[test]
fn a_tuple_reads_its_parts_in_order_into_one_entity() {
    let (mut db, r) = start(Backend::new());
    let mut world = World::new();
    let mut storage: (Column<Name>, Column<Price>, Column<Stock>) =
        (Column::new(), Column::new(), Column::new());
    let id = DatabaseEntityId(1);
    {
        let (name, price, stock) =
            <Three as DBQueryInfo>::get(&mut db, &mut world, &mut storage, &(id, r)).unwrap();
        assert_eq!(name, &Name("anvil".to_string()));
        assert_eq!(price, Some(&Price(100)));
        assert_eq!(stock, &Stock(3));
    }
    assert_eq!(world.len(), 1);
    assert_eq!(calls(&db, r), vec!["fetch names 1", "fetch prices 1", "fetch stocks 1"]);
    // the second identity has no price: the optional part is absent
    let id = DatabaseEntityId(2);
    {
        let (name, price, stock) =
            <Three as DBQueryInfo>::get_mut(&mut db, &mut world, &mut storage, &(id, r)).unwrap();
        assert_eq!(name, &Name("bellows".to_string()));
        assert!(price.is_none());
        assert_eq!(stock, &Stock(0));
    }
    assert_eq!(world.len(), 2);
    // only the part that is read for change could mark the record, and it was absent
    assert!(!world.record(Entity(1)).dirty);
}

#[test]
fn a_tuple_marks_dirty_through_its_mutable_part() {
    let (mut db, r) = start(Backend::new());
    let mut world = World::new();
    let mut storage: (Column<Name>, Column<Price>, Column<Stock>) =
        (Column::new(), Column::new(), Column::new());
    let id = DatabaseEntityId(1);
    {
        let (_name, price, _stock) =
            <Three as DBQueryInfo>::get_mut(&mut db, &mut world, &mut storage, &(id, r)).unwrap();
        price.unwrap().0 = 120;
    }
    assert!(world.record(Entity(0)).dirty);
    assert_eq!(storage.1.get(Entity(0)), Some(&Price(120)));
    assert_eq!(<Three as DBQueryInfo>::read(&storage, Entity(0)).unwrap().1, Some(&Price(120)));
}

#[test]
fn a_tuple_read_stops_at_the_first_failure() {
    let (mut db, r) = start(Backend::new());
    let mut world = World::new();
    let mut storage: (Column<Name>, Column<Price>) = (Column::new(), Column::new());
    // the name is there, the price is not
    let got = <(&NameMapper, &PriceMapper) as DBQueryInfo>::get(
        &mut db,
        &mut world,
        &mut storage,
        &(DatabaseEntityId(2), r),
    );
    assert_eq!(got, Err(DatabaseError::NotFound));
    // the first part was brought into memory all the same
    assert_eq!(world.len(), 1);
    assert!(storage.0.contains(Entity(0)));
    assert!(!storage.1.contains(Entity(0)));
    // no name at all: the price is not asked for
    let got = <(&NameMapper, &PriceMapper) as DBQueryInfo>::get(
        &mut db,
        &mut world,
        &mut storage,
        &(DatabaseEntityId(3), r),
    );
    assert_eq!(got, Err(DatabaseError::NotFound));
    assert_eq!(calls(&db, r), vec!["fetch names 2", "fetch prices 2", "fetch names 3"]);
}

#[test]
fn tuple_order_determinism() {
    let name = Name("n".to_string());
    let price = Price(1);
    let stock = Stock(2);
    for insert in [false, true] {
        let mut backend = Backend::new();
        backend.failing_table = Some("prices");
        let (mut db, r) = start(backend);
        let rec = record(1, true, true, r);
        let parts = (&name, Some(&price), &stock);
        let done = if insert {
            <Three as DBQueryInfo>::insert_component(&mut db, &rec, parts)
        } else {
            <Three as DBQueryInfo>::update_component(&mut db, &rec, parts)
        };
        assert_eq!(done, Err(DatabaseError::Backend));
        let what = if insert { "insert" } else { "update" };
        assert_eq!(calls(&db, r), vec![format!("{} names 1", what), format!("{} prices 1", what)]);
    }
}

#[test]
fn a_tuple_writes_every_part_when_none_fails() {
    let (mut db, r) = start(Backend::new());
    let rec = record(2, true, true, r);
    let name = Name("n".to_string());
    let stock = Stock(2);
    let done = <Three as DBQueryInfo>::update_component(&mut db, &rec, (&name, None, &stock));
    assert_eq!(done, Ok(()));
    assert_eq!(calls(&db, r), vec!["update names 2", "update stocks 2"]);
}

#[test]
fn a_tuple_creates_one_entity_for_each_part() {
    let (mut db, r) = start(Backend::new());
    let mut world = World::new();
    let mut storage: (Column<Name>, Column<Price>, Column<Stock>) =
        (Column::new(), Column::new(), Column::new());
    let done = <Three as DBQueryInfo>::create(
        &mut db,
        &mut world,
        &mut storage,
        (Name("x".to_string()), None, Stock(8)),
        r,
    );
    assert_eq!(done, Ok(()));
    assert_eq!(world.len(), 2);
    assert_eq!(*world.record(Entity(0)), record(-1, false, false, r));
    assert_eq!(*world.record(Entity(1)), record(-2, false, false, r));
    assert_eq!(storage.0.get(Entity(0)), Some(&Name("x".to_string())));
    assert_eq!(storage.2.get(Entity(1)), Some(&Stock(8)));
    assert!(calls(&db, r).is_empty());
}

#[test]
fn tuples_of_two_four_and_five_run_in_order() {
    let (mut db, r) = start(Backend::new());
    let rec = record(1, false, false, r);
    let name = Name("n".to_string());
    let price = Price(1);
    let stock = Stock(2);
    <(&NameMapper, &StockMapper) as DBQueryInfo>::insert_component(&mut db, &rec, (&name, &stock))
        .unwrap();
    <(&NameMapper, &PriceMapper, &StockMapper, Option<&NameMapper>) as DBQueryInfo>::insert_component(
        &mut db,
        &rec,
        (&name, &price, &stock, None),
    )
    .unwrap();
    <(&StockMapper, &PriceMapper, &NameMapper, Option<&NameMapper>, &StockMapper) as DBQueryInfo>::update_component(
        &mut db,
        &rec,
        (&stock, &price, &name, Some(&name), &stock),
    )
    .unwrap();
    assert_eq!(
        calls(&db, r),
        vec![
            "insert names 1",
            "insert stocks 1",
            "insert names 1",
            "insert prices 1",
            "insert stocks 1",
            "update stocks 1",
            "update prices 1",
            "update names 1",
            "update names 1",
            "update stocks 1",
        ]
    );
}

#[test]
fn bulk_load_is_for_one_component_only() {
    let (mut db, r) = start(Backend::new());
    let mut world = World::new();
    let mut pair: (Column<Name>, Column<Price>) = (Column::new(), Column::new());
    let got = <(&NameMapper, &PriceMapper) as DBQueryInfo>::load_components::<
        (&NameMapper, &PriceMapper),
        NoRows,
    >(&mut db, &mut world, &mut pair, r, NoRows);
    assert!(matches!(got, Err(DatabaseError::Unsupported)));
    let mut prices: Column<Price> = Column::new();
    let got = <Option<&PriceMapper> as DBQueryInfo>::load_components::<Option<&PriceMapper>, NoRows>(
        &mut db,
        &mut world,
        &mut prices,
        r,
        NoRows,
    );
    assert!(matches!(got, Err(DatabaseError::Unsupported)));
    assert!(calls(&db, r).is_empty());
    assert_eq!(world.len(), 0);
}

#[test]
fn the_query_handle_routes_to_the_shape() {
    let (db, r) = start(Backend::new());
    let mut query: DatabaseQuery<(&NameMapper, Option<&mut PriceMapper>)> =
        DatabaseQuery::new(db, World::new(), (Column::new(), Column::new()));
    let id = DatabaseEntityId(1);
    {
        let (name, price) = query.get(&(id, r)).unwrap();
        assert_eq!(name.0, "anvil");
        assert_eq!(price, Some(&Price(100)));
    }
    {
        let (_, price) = query.get_mut(&(id, r)).unwrap();
        price.unwrap().0 = 7;
    }
    assert!(query.world.record(Entity(0)).dirty);
    // persisted and dirty: one update for each part that is there
    assert_eq!(query.update_or_insert_component(Entity(0)), Ok(()));
    assert_eq!(
        calls(&query.db, r),
        vec!["fetch names 1", "fetch prices 1", "update names 1", "update prices 1"]
    );
    assert!(query.world.record(Entity(0)).dirty);
    query.create((Name("new".to_string()), Some(Price(1))), r).unwrap();
    assert_eq!(query.world.len(), 3);
    let name = Name("z".to_string());
    let rec = *query.world.record(Entity(1));
    query.insert_component(&rec, (&name, None)).unwrap();
    query.update_component(&rec, (&name, None)).unwrap();
    assert_eq!(calls(&query.db, r)[4..], ["insert names -1".to_string(), "update names -1".to_string()]);
}
