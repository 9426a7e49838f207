//! The load-or-create protocol for the components of one type: how a row is
//! brought into memory at most once, how rows are loaded in bulk, and how a
//! component is written back.

use crate::database_entity::{
    DatabaseEntity,
    DatabaseEntityId,
    DatabaseEntityWithRequest,
    Persisted,
    RequestId,
};
use crate::database_query::{
    minted,
    run_of,
    selected_all,
    write_back,
    write_back_of,
    ComponentMapper,
    CustomDatabaseQuery,
    DBQueryInfo,
    DatabaseError,
    Memory,
    ReturnSelector,
    WriteBack,
};
use crate::database_resource::{DatabaseHandle, HandleView};
use crate::world::{entity_of, Column, Entity, World};
use vstd::prelude::*;

verus! {

/// One fetch through the transaction of a request, as it shows in the table
/// of transactions: the other requests are untouched.
pub open spec fn fetched_through<M: ComponentMapper>(
    before: HandleView<M::Executor>,
    request: RequestId,
    id: DatabaseEntityId,
    after: HandleView<M::Executor>,
    row: Result<M::Component, DatabaseError>,
) -> bool {
    &&& before.is_live(request)
    &&& after == before.with(request, after.transactions[request])
    &&& M::fetched(before.transactions[request], id, after.transactions[request], row)
}

/// One UPDATE through the transaction of the request that owns the record.
pub open spec fn updated_through<M: ComponentMapper>(
    before: HandleView<M::Executor>,
    db_entity: DatabaseEntity,
    component: M::Component,
    after: HandleView<M::Executor>,
    outcome: Result<(), DatabaseError>,
) -> bool {
    let request = db_entity.request;
    &&& before.is_live(request)
    &&& after == before.with(request, after.transactions[request])
    &&& M::updated(
        before.transactions[request],
        db_entity.id,
        component,
        after.transactions[request],
        outcome,
    )
}

/// One INSERT through the transaction of the request that owns the record.
pub open spec fn inserted_through<M: ComponentMapper>(
    before: HandleView<M::Executor>,
    db_entity: DatabaseEntity,
    component: M::Component,
    after: HandleView<M::Executor>,
    outcome: Result<(), DatabaseError>,
) -> bool {
    let request = db_entity.request;
    &&& before.is_live(request)
    &&& after == before.with(request, after.transactions[request])
    &&& M::inserted(
        before.transactions[request],
        db_entity.id,
        component,
        after.transactions[request],
        outcome,
    )
}

/// Where the component of a row comes from when it is brought into memory: it
/// was loaded beforehand, and the database is left alone; or it is fetched,
/// once, through the transaction of the request.
pub open spec fn supplied<M: ComponentMapper>(
    before: HandleView<M::Executor>,
    request: RequestId,
    id: DatabaseEntityId,
    preloaded: Option<M::Component>,
    after: HandleView<M::Executor>,
    row: Result<M::Component, DatabaseError>,
) -> bool {
    match preloaded {
        Some(c) => after == before && row == Ok::<M::Component, DatabaseError>(c),
        None => fetched_through::<M>(before, request, id, after, row),
    }
}

/// The entity that stands for an identity once it is in memory: the one that
/// carries it, or else the next position of the store.
pub open spec fn target(world: Seq<DatabaseEntity>, id: DatabaseEntityId) -> Entity {
    match entity_of(world, id) {
        Some(e) => e,
        None => Entity(world.len() as usize),
    }
}

/// The records once an identity is in memory: as before if an entity carried
/// it, or else with one more record, persisted and clean, owned by the request.
pub open spec fn with_loaded(
    world: Seq<DatabaseEntity>,
    id: DatabaseEntityId,
    request: RequestId,
) -> Seq<DatabaseEntity> {
    if entity_of(world, id) is Some {
        world
    } else {
        world.push(DatabaseEntity::loaded(id, request))
    }
}

/// What bringing one component of a row into memory does.
///   - The identity is in memory with the component: nothing changes, and the
///     database is not asked.
///   - The identity is in memory without it: the component is supplied and
///     attached to the entity.
///   - The identity is not in memory: the component is supplied, and an entity
///     is added for it, persisted and clean, owned by the request.
/// If the supply fails, the store stays as it is and the failure is returned.
pub open spec fn materialized<M: ComponentMapper>(
    db0: HandleView<M::Executor>,
    world0: Seq<DatabaseEntity>,
    column0: Map<Entity, M::Component>,
    id: DatabaseEntityId,
    request: RequestId,
    preloaded: Option<M::Component>,
    db1: HandleView<M::Executor>,
    world1: Seq<DatabaseEntity>,
    column1: Map<Entity, M::Component>,
    outcome: Result<Entity, DatabaseError>,
) -> bool {
    let found = entity_of(world0, id);
    if found is Some && column0.dom().contains(found->0) {
        &&& db1 == db0
        &&& world1 =~= world0
        &&& column1 =~= column0
        &&& outcome == Ok::<Entity, DatabaseError>(found->0)
    } else {
        match outcome {
            Err(e) => {
                &&& supplied::<M>(db0, request, id, preloaded, db1, Err(e))
                &&& world1 =~= world0
                &&& column1 =~= column0
            },
            Ok(entity) => {
                &&& supplied::<M>(db0, request, id, preloaded, db1, Ok(column1[entity]))
                &&& column1 =~= column0.insert(entity, column1[entity])
                &&& entity == target(world0, id)
                &&& world1 =~= with_loaded(world0, id, request)
            },
        }
    }
}

/// What a read of one component does: the component is brought into memory,
/// and the value that is seen is the one that the column holds.
pub open spec fn got_one<M: ComponentMapper>(
    db0: HandleView<M::Executor>,
    world0: Seq<DatabaseEntity>,
    column0: Map<Entity, M::Component>,
    id: DatabaseEntityId,
    request: RequestId,
    db1: HandleView<M::Executor>,
    world1: Seq<DatabaseEntity>,
    column1: Map<Entity, M::Component>,
    outcome: Result<M::Component, DatabaseError>,
) -> bool {
    match outcome {
        Ok(seen) => {
            let entity = target(world0, id);
            &&& materialized::<M>(
                db0,
                world0,
                column0,
                id,
                request,
                None,
                db1,
                world1,
                column1,
                Ok(entity),
            )
            &&& column1[entity] == seen
        },
        Err(e) => materialized::<M>(
            db0,
            world0,
            column0,
            id,
            request,
            None,
            db1,
            world1,
            column1,
            Err(e),
        ),
    }
}

/// What handing out a mutable view of one component does: the component is
/// brought into memory and its record is marked dirty before the view is
/// given; the view shows the component as it then stands. The column holds
/// afterwards, for that entity, what the caller left in the view, and is
/// otherwise as the load left it.
pub open spec fn got_one_mut<M: ComponentMapper>(
    db0: HandleView<M::Executor>,
    world0: Seq<DatabaseEntity>,
    column0: Map<Entity, M::Component>,
    id: DatabaseEntityId,
    request: RequestId,
    db1: HandleView<M::Executor>,
    world1: Seq<DatabaseEntity>,
    column1: Map<Entity, M::Component>,
    outcome: Result<M::Component, DatabaseError>,
) -> bool {
    match outcome {
        Ok(seen) => {
            let entity = target(world0, id);
            let loaded = with_loaded(world0, id, request);
            &&& materialized::<M>(
                db0,
                world0,
                column0,
                id,
                request,
                None,
                db1,
                loaded,
                column1.insert(entity, seen),
                Ok(entity),
            )
            &&& column1.dom().contains(entity)
            &&& world1 =~= loaded.update(entity.0 as int, loaded[entity.0 as int].touched())
        },
        Err(e) => materialized::<M>(
            db0,
            world0,
            column0,
            id,
            request,
            None,
            db1,
            world1,
            column1,
            Err(e),
        ),
    }
}

/// The load-or-create protocol for the components of one type.
pub struct SingleComponentRetriever<M> {
    phantom: core::marker::PhantomData<M>,
}

impl<M: ComponentMapper> SingleComponentRetriever<M> {
    fn supply(
        db: &mut DatabaseHandle<M::Executor>,
        request: RequestId,
        id: DatabaseEntityId,
        component_preloaded: Option<M::Component>,
    ) -> (row: Result<M::Component, DatabaseError>)
        requires
            old(db).wf(),
            component_preloaded is None ==> old(db).is_live(request),
        ensures
            final(db).wf(),
            supplied::<M>(old(db)@, request, id, component_preloaded, final(db)@, row),
    {
        match component_preloaded {
            Some(component) => Ok(component),
            None => {
                let tr = db.get_transaction_mut(request);
                M::get(tr, &id)
            },
        }
    }

    /// Brings the component of a row into memory unless it is there already,
    /// and returns the entity that holds it.
    pub fn get_internal<D: DatabaseEntityWithRequest>(
        db: &mut DatabaseHandle<M::Executor>,
        world: &mut World,
        column: &mut Column<M::Component>,
        db_entity: &D,
        component_preloaded: Option<M::Component>,
    ) -> (outcome: Result<Entity, DatabaseError>)
        requires
            old(db).wf(),
            old(world).wf(),
            component_preloaded is None ==> old(db).is_live(db_entity.spec_request()),
        ensures
            final(db).wf(),
            final(world).wf(),
            materialized::<M>(
                old(db)@,
                old(world)@,
                old(column)@,
                db_entity.spec_id(),
                db_entity.spec_request(),
                component_preloaded,
                final(db)@,
                final(world)@,
                final(column)@,
                outcome,
            ),
            outcome matches Ok(entity) ==> final(world).has(entity) && final(column).has(entity)
                && final(world)@[entity.0 as int].id == db_entity.spec_id(),
    {
        let id = *db_entity.id();
        let request = *db_entity.request();
        match world.find(&id) {
            Some(entity) => {
                if column.contains(entity) {
                    Ok(entity)
                } else {
                    match Self::supply(db, request, id, component_preloaded) {
                        Ok(component) => {
                            column.insert(entity, component);
                            Ok(entity)
                        },
                        Err(e) => Err(e),
                    }
                }
            },
            None => {
                match Self::supply(db, request, id, component_preloaded) {
                    Ok(component) => {
                        let entity = world.spawn(
                            DatabaseEntity {
                                id,
                                persisted: Persisted(true),
                                dirty: false,
                                request,
                            },
                        );
                        column.insert(entity, component);
                        Ok(entity)
                    },
                    Err(e) => Err(e),
                }
            },
        }
    }
}

/// What creating one component in memory does: a key is minted, below zero
/// as every key that is minted locally, and an entity is added under it, not
/// persisted and clean, owned by the request, with the component attached.
/// The database is not written to.
pub open spec fn created_one<M: ComponentMapper>(
    db0: HandleView<M::Executor>,
    world0: Seq<DatabaseEntity>,
    column0: Map<Entity, M::Component>,
    component: M::Component,
    request: RequestId,
    db1: HandleView<M::Executor>,
    world1: Seq<DatabaseEntity>,
    column1: Map<Entity, M::Component>,
) -> bool {
    let key = minted(db0.min_key, 1);
    &&& key.is_local()
    &&& db1 == db0.keyed()
    &&& world1 =~= world0.push(DatabaseEntity::created(key, request))
    &&& column1 =~= column0.insert(Entity(world0.len() as usize), component)
}

/// What writing one component of a record back does: one INSERT, one UPDATE,
/// or nothing at all, as the policy decides.
pub open spec fn written_back_one<M: ComponentMapper>(
    db0: HandleView<M::Executor>,
    db_entity: DatabaseEntity,
    component: M::Component,
    db1: HandleView<M::Executor>,
    outcome: Result<(), DatabaseError>,
) -> bool {
    match write_back_of(db_entity) {
        WriteBack::Insert => inserted_through::<M>(db0, db_entity, component, db1, outcome),
        WriteBack::Update => updated_through::<M>(db0, db_entity, component, db1, outcome),
        WriteBack::Nothing => db1 == db0 && outcome is Ok,
    }
}

impl<M: ComponentMapper> SingleComponentRetriever<M> {
    /// Writes one component of a record back as the policy decides. The flags
    /// of the record are the caller's to change.
    pub fn update_or_insert_component(
        db: &mut DatabaseHandle<M::Executor>,
        db_entity: &DatabaseEntity,
        component: &M::Component,
    ) -> (outcome: Result<(), DatabaseError>)
        requires
            old(db).wf(),
            write_back_of(*db_entity) != WriteBack::Nothing ==> old(db).is_live(db_entity.request),
        ensures
            final(db).wf(),
            written_back_one::<M>(old(db)@, *db_entity, *component, final(db)@, outcome),
    {
        match write_back(db_entity) {
            WriteBack::Update => Self::update_component(db, db_entity, component),
            WriteBack::Nothing => Ok(()),
            WriteBack::Insert => Self::insert_component(db, db_entity, component),
        }
    }
}

/// What bringing one loaded row into memory does to the records and to the
/// column, and the entity that holds the component afterwards. An entity that
/// is added for the row is owned by the request that loads it, whatever
/// request the row itself names. A component that is in memory already stays
/// as it is, and the loaded one is dropped.
pub open spec fn load_row<C>(
    world: Seq<DatabaseEntity>,
    column: Map<Entity, C>,
    request: RequestId,
    row: (DatabaseEntity, C),
) -> (Seq<DatabaseEntity>, Map<Entity, C>, Entity) {
    let found = entity_of(world, row.0.id);
    let entity = target(world, row.0.id);
    if found is Some && column.dom().contains(entity) {
        (world, column, entity)
    } else {
        (with_loaded(world, row.0.id, request), column.insert(entity, row.1), entity)
    }
}

/// What bringing loaded rows into memory does, one after the other in the
/// order of the rows, and the entities that hold the components afterwards,
/// in the same order.
pub open spec fn load_rows<C>(
    world: Seq<DatabaseEntity>,
    column: Map<Entity, C>,
    request: RequestId,
    rows: Seq<(DatabaseEntity, C)>,
) -> (Seq<DatabaseEntity>, Map<Entity, C>, Seq<Entity>)
    decreases rows.len(),
{
    if rows.len() == 0 {
        (world, column, Seq::empty())
    } else {
        let (world_m, column_m, entities) = load_rows(world, column, request, rows.drop_last());
        let (world_1, column_1, entity) = load_row(world_m, column_m, request, rows.last());
        (world_1, column_1, entities.push(entity))
    }
}

/// What a bulk load does: the query runs once through the transaction of the
/// request; if it fails, the store stays as it is; if it returns rows, they
/// are brought into memory in their order, for that request and without any
/// fetch.
pub open spec fn bulk_loaded<M: ComponentMapper>(
    query: spec_fn(
        M::Executor,
        M::Executor,
        Result<Seq<(DatabaseEntity, M::Component)>, DatabaseError>,
    ) -> bool,
    db0: HandleView<M::Executor>,
    world0: Seq<DatabaseEntity>,
    column0: Map<Entity, M::Component>,
    request: RequestId,
    db1: HandleView<M::Executor>,
    world1: Seq<DatabaseEntity>,
    column1: Map<Entity, M::Component>,
    outcome: Result<Seq<Entity>, DatabaseError>,
) -> bool {
    &&& db0.is_live(request)
    &&& db1 == db0.with(request, db1.transactions[request])
    &&& match outcome {
        Err(e) => {
            &&& query(db0.transactions[request], db1.transactions[request], Err(e))
            &&& world1 == world0
            &&& column1 == column0
        },
        Ok(entities) => exists|rows: Seq<(DatabaseEntity, M::Component)>|
            {
                &&& query(db0.transactions[request], db1.transactions[request], Ok(rows))
                &&& (world1, column1, entities) == #[trigger] load_rows(
                    world0,
                    column0,
                    request,
                    rows,
                )
            },
    }
}

/// The items of a list in the opposite order, so that they can be taken off
/// the end one by one in the order of the list.
fn reversed<T>(list: Vec<T>) -> (stack: Vec<T>)
    ensures
        stack@.len() == list@.len(),
        forall|k: int| 0 <= k < stack@.len() ==> stack@[k] == list@[list@.len() - 1 - k],
{
    let ghost all = list@;
    let mut list = list;
    let mut stack: Vec<T> = Vec::new();
    while list.len() > 0
        invariant
            list@.len() + stack@.len() == all.len(),
            list@ == all.take(list@.len() as int),
            forall|k: int| 0 <= k < stack@.len() ==> stack@[k] == all[all.len() - 1 - k],
        decreases list@.len(),
    {
        match list.pop() {
            Some(item) => {
                stack.push(item);
            },
            None => {},
        }
    }
    stack
}

/// A row of a bulk query as it is decoded: the record, and the component.
pub struct DataseBaseEntityAndComponent<C> {
    pub entity: DatabaseEntity,
    pub component: C,
}

/// Decoded rows as a bulk load takes them: each record is owned by the
/// request that ran the query.
pub open spec fn owned_rows<C>(
    rows: Seq<DataseBaseEntityAndComponent<C>>,
    request: RequestId,
) -> Seq<(DatabaseEntity, C)> {
    Seq::new(
        rows.len(),
        |i: int| (DatabaseEntity { request, ..rows[i].entity }, rows[i].component),
    )
}

/// Hands the decoded rows of a bulk query to the request that ran it.
pub fn rows_for_request<C>(rows: Vec<DataseBaseEntityAndComponent<C>>, request: RequestId) -> (owned:
    Vec<(DatabaseEntity, C)>)
    ensures
        owned@ == owned_rows(rows@, request),
{
    let ghost all = rows@;
    let mut stack = reversed(rows);
    let mut owned: Vec<(DatabaseEntity, C)> = Vec::new();
    while stack.len() > 0
        invariant
            owned@.len() + stack@.len() == all.len(),
            forall|k: int| 0 <= k < stack@.len() ==> stack@[k] == all[all.len() - 1 - k],
            forall|i: int| 0 <= i < owned@.len() ==> owned@[i] == owned_rows(all, request)[i],
        decreases stack@.len(),
    {
        match stack.pop() {
            Some(row) => {
                let mut entity = row.entity;
                entity.request = request;
                owned.push((entity, row.component));
            },
            None => {},
        }
    }
    assert(owned@ =~= owned_rows(all, request));
    owned
}

impl<M: ComponentMapper> SingleComponentRetriever<M> {
    /// Brings rows that were loaded beforehand into memory for a request, in
    /// their order, and returns the entities that hold their components. An
    /// entity that is added for a row is owned by the request. The database is
    /// not asked.
    pub fn materialize_rows(
        db: &mut DatabaseHandle<M::Executor>,
        world: &mut World,
        column: &mut Column<M::Component>,
        request: RequestId,
        rows: Vec<(DatabaseEntity, M::Component)>,
    ) -> (entities: Vec<Entity>)
        requires
            old(db).wf(),
            old(world).wf(),
        ensures
            final(db).wf(),
            final(world).wf(),
            final(db)@ == old(db)@,
            (final(world)@, final(column)@, entities@) == load_rows(
                old(world)@,
                old(column)@,
                request,
                rows@,
            ),
            entities@.len() == rows@.len(),
            forall|i: int|
                0 <= i < entities@.len() ==> final(column).has(#[trigger] entities@[i])
                    && final(world).has(entities@[i]),
    {
        let ghost all = rows@;
        let mut stack = reversed(rows);
        let mut entities: Vec<Entity> = Vec::new();
        proof {
            assert(all.take(0) =~= Seq::<(DatabaseEntity, M::Component)>::empty());
        }
        while stack.len() > 0
            invariant
                db.wf(),
                world.wf(),
                db@ == old(db)@,
                stack@.len() <= all.len(),
                entities@.len() + stack@.len() == all.len(),
                forall|k: int| 0 <= k < stack@.len() ==> stack@[k] == all[all.len() - 1 - k],
                (world@, column@, entities@) == load_rows(
                    old(world)@,
                    old(column)@,
                    request,
                    all.take(entities@.len() as int),
                ),
                forall|i: int|
                    0 <= i < entities@.len() ==> column.has(#[trigger] entities@[i]) && world.has(
                        entities@[i],
                    ),
            decreases stack@.len(),
        {
            let ghost done = entities@.len() as int;
            let ghost world_m = world@;
            let ghost column_m = column@;
            let ghost entities_m = entities@;
            match stack.pop() {
                Some(row) => {
                    let (db_entity, component) = row;
                    assert(row == all[done]);
                    let named = (db_entity.id, request);
                    match Self::get_internal(db, world, column, &named, Some(component)) {
                        Ok(entity) => {
                            entities.push(entity);
                            proof {
                                let next = all.take(done + 1);
                                assert(next.drop_last() =~= all.take(done));
                                assert(next.last() == all[done]);
                                assert(load_row(world_m, column_m, request, row) == (world@, column@, entity));
                                assert(entities@ =~= entities_m.push(entity));
                            }
                        },
                        Err(_) => {
                            assert(false);
                        },
                    }
                },
                None => {},
            }
        }
        proof {
            assert(all.take(all.len() as int) =~= all);
        }
        entities
    }

    /// Runs a query of the caller's against the transaction of a request and
    /// brings every row that it returns into memory.
    pub fn load_entities_for_components<CDQ: CustomDatabaseQuery<M::Executor, M::Component>>(
        db: &mut DatabaseHandle<M::Executor>,
        world: &mut World,
        column: &mut Column<M::Component>,
        request: RequestId,
        get_comp_from_db: CDQ,
    ) -> (outcome: Result<Vec<Entity>, DatabaseError>)
        requires
            old(db).wf(),
            old(world).wf(),
            old(db).is_live(request),
        ensures
            final(db).wf(),
            final(world).wf(),
            bulk_loaded::<M>(
                run_of(get_comp_from_db),
                old(db)@,
                old(world)@,
                old(column)@,
                request,
                final(db)@,
                final(world)@,
                final(column)@,
                match outcome {
                    Ok(entities) => Ok(entities@),
                    Err(e) => Err(e),
                },
            ),
            outcome matches Ok(entities) ==> forall|i: int|
                0 <= i < entities@.len() ==> final(column).has(#[trigger] entities@[i])
                    && final(world).has(entities@[i]),
    {
        let tr = db.get_transaction_mut(request);
        let components = get_comp_from_db.query(tr);
        match components {
            Ok(rows) => Ok(Self::materialize_rows(db, world, column, request, rows)),
            Err(e) => Err(e),
        }
    }
}

/// The retriever is itself a query of one component, read for change.
impl<M: ComponentMapper> DBQueryInfo for SingleComponentRetriever<M> {
    type Executor = M::Executor;

    type DerefItem = M::Component;

    type Storage = Column<M::Component>;

    type ReadOnlyItem<'a> = &'a M::Component;

    type Item<'a> = &'a mut M::Component;

    open spec fn present(storage: Self::Storage, entity: Entity) -> bool {
        storage.has(entity)
    }

    open spec fn stored(storage: Self::Storage, entity: Entity) -> Self::DerefItem {
        storage@[entity]
    }

    open spec fn read_value(item: Self::ReadOnlyItem<'_>) -> Self::DerefItem {
        *item
    }

    open spec fn item_value(item: Self::Item<'_>) -> Self::DerefItem {
        *item
    }

    open spec fn got(
        before: Memory<Self::Executor>,
        storage0: Self::Storage,
        id: DatabaseEntityId,
        request: RequestId,
        after: Memory<Self::Executor>,
        storage1: Self::Storage,
        outcome: Result<Self::DerefItem, DatabaseError>,
    ) -> bool {
        got_one::<M>(
            before.db,
            before.world,
            storage0@,
            id,
            request,
            after.db,
            after.world,
            storage1@,
            outcome,
        )
    }

    open spec fn got_mut(
        before: Memory<Self::Executor>,
        storage0: Self::Storage,
        id: DatabaseEntityId,
        request: RequestId,
        after: Memory<Self::Executor>,
        storage1: Self::Storage,
        outcome: Result<Self::DerefItem, DatabaseError>,
    ) -> bool {
        got_one_mut::<M>(
            before.db,
            before.world,
            storage0@,
            id,
            request,
            after.db,
            after.world,
            storage1@,
            outcome,
        )
    }

    open spec fn writes(component: Self::DerefItem) -> bool {
        true
    }

    open spec fn updated(
        db0: HandleView<Self::Executor>,
        db_entity: DatabaseEntity,
        component: Self::DerefItem,
        db1: HandleView<Self::Executor>,
        outcome: Result<(), DatabaseError>,
    ) -> bool {
        updated_through::<M>(db0, db_entity, component, db1, outcome)
    }

    open spec fn inserted(
        db0: HandleView<Self::Executor>,
        db_entity: DatabaseEntity,
        component: Self::DerefItem,
        db1: HandleView<Self::Executor>,
        outcome: Result<(), DatabaseError>,
    ) -> bool {
        inserted_through::<M>(db0, db_entity, component, db1, outcome)
    }

    open spec fn keys_needed(component: Self::DerefItem) -> nat {
        1
    }

    open spec fn created(
        before: Memory<Self::Executor>,
        storage0: Self::Storage,
        component: Self::DerefItem,
        request: RequestId,
        after: Memory<Self::Executor>,
        storage1: Self::Storage,
    ) -> bool {
        created_one::<M>(
            before.db,
            before.world,
            storage0@,
            component,
            request,
            after.db,
            after.world,
            storage1@,
        )
    }

    open spec fn loaded(
        query: spec_fn(
            Self::Executor,
            Self::Executor,
            Result<Seq<(DatabaseEntity, Self::DerefItem)>, DatabaseError>,
        ) -> bool,
        before: Memory<Self::Executor>,
        storage0: Self::Storage,
        request: RequestId,
        after: Memory<Self::Executor>,
        storage1: Self::Storage,
        entities: Result<Seq<Entity>, DatabaseError>,
    ) -> bool {
        bulk_loaded::<M>(
            query,
            before.db,
            before.world,
            storage0@,
            request,
            after.db,
            after.world,
            storage1@,
            entities,
        )
    }

    fn get<'w, DbEntity: DatabaseEntityWithRequest>(
        db: &mut DatabaseHandle<Self::Executor>,
        world: &mut World,
        storage: &'w mut Self::Storage,
        db_entity: &DbEntity,
    ) -> (r: Result<Self::ReadOnlyItem<'w>, DatabaseError>) {
        match Self::get_internal(db, world, storage, db_entity, None) {
            Ok(entity) => {
                let column: &'w Column<M::Component> = storage;
                match column.get(entity) {
                    Some(component) => Ok(component),
                    None => vstd::pervasive::unreached(),
                }
            },
            Err(e) => Err(e),
        }
    }

    fn get_mut<'w, DbEntity: DatabaseEntityWithRequest>(
        db: &mut DatabaseHandle<Self::Executor>,
        world: &mut World,
        storage: &'w mut Self::Storage,
        db_entity: &DbEntity,
    ) -> (r: Result<Self::Item<'w>, DatabaseError>)
        ensures
            r matches Ok(item) ==> final(storage)@[target(old(world)@, db_entity.spec_id())]
                == *final(item),
    {
        match Self::get_internal(db, world, storage, db_entity, None) {
            Ok(entity) => {
                world.mark_dirty(entity);
                Ok(storage.get_mut(entity))
            },
            Err(e) => Err(e),
        }
    }

    fn read<'w>(storage: &'w Self::Storage, entity: Entity) -> (r: Option<Self::ReadOnlyItem<'w>>) {
        storage.get(entity)
    }

    fn update_component<'w>(
        db: &mut DatabaseHandle<Self::Executor>,
        db_entity: &DatabaseEntity,
        component: Self::ReadOnlyItem<'w>,
    ) -> (outcome: Result<(), DatabaseError>) {
        let tr = db.get_transaction_mut(db_entity.request);
        M::update_component(tr, &db_entity.id, component)
    }

    fn insert_component<'w>(
        db: &mut DatabaseHandle<Self::Executor>,
        db_entity: &DatabaseEntity,
        component: Self::ReadOnlyItem<'w>,
    ) -> (outcome: Result<(), DatabaseError>) {
        let tr = db.get_transaction_mut(db_entity.request);
        M::insert_component(tr, &db_entity.id, component)
    }

    fn load_components<
        'w,
        R: ReturnSelector<Storage = Self::Storage>,
        CDQ: CustomDatabaseQuery<Self::Executor, Self::DerefItem>,
    >(
        db: &mut DatabaseHandle<Self::Executor>,
        world: &mut World,
        storage: &'w mut Self::Storage,
        request: RequestId,
        get_comp_from_db: CDQ,
    ) -> (r: Result<Vec<R::ReturnItem<'w>>, DatabaseError>) {
        let entities = match Self::load_entities_for_components(
            db,
            world,
            storage,
            request,
            get_comp_from_db,
        ) {
            Ok(entities) => entities,
            Err(e) => {
                proof {
                    assert(selected_all::<R>(
                        *storage,
                        Err(e),
                        Err::<Vec<R::ReturnItem<'w>>, DatabaseError>(e),
                    ));
                }
                return Err(e);
            },
        };
        let column: &'w Column<M::Component> = storage;
        let ghost list = entities@;
        proof {
            assert forall|i: int| 0 <= i < entities@.len() implies R::selects(
                *column,
                #[trigger] entities@[i],
            ) by {
                assert(Self::present(*column, entities@[i]));
            }
        }
        let items = R::load_components_from_entities(column, entities);
        proof {
            assert(selected_all::<R>(*column, Ok(list), Ok(items)));
        }
        Ok(items)
    }

    fn create(
        db: &mut DatabaseHandle<Self::Executor>,
        world: &mut World,
        storage: &mut Self::Storage,
        component: Self::DerefItem,
        request: RequestId,
    ) -> (outcome: Result<(), DatabaseError>) {
        let id = db.get_key();
        assert(id == minted(old(db)@.min_key, 1));
        let entity = world.spawn(
            DatabaseEntity { id, persisted: Persisted(false), dirty: false, request },
        );
        storage.insert(entity, component);
        Ok(())
    }
}

} // verus!
