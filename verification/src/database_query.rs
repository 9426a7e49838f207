//! Queries: the codec that the caller supplies for each component type, the
//! description of a query shape with the relations that specify its
//! operations, and the query handle.

use crate::database_entity::{
    DatabaseEntity,
    DatabaseEntityId,
    DatabaseEntityWithRequest,
    RequestId,
};
use crate::database_resource::{DatabaseHandle, HandleView};
use crate::world::{holds_id, Entity, World};
use vstd::prelude::*;

verus! {

/// Why a call on the database failed.
#[derive(Clone, Copy, PartialEq, Eq, Structural, Debug)]
pub enum DatabaseError {
    /// No row stands under the identity.
    NotFound,
    /// The database refused or could not carry out the operation.
    Backend,
    /// The operation is not defined for the shape of the query.
    Unsupported,
}

/// The row codec of one component type: how a component is read from, changed
/// in and added to the database through an open transaction.
///
/// The three relations say what a call may do to the transaction and what it
/// may return. A codec that states nothing keeps them as they are: true of
/// every call.
pub trait ComponentMapper {
    type Component: 'static;

    type Executor;

    /// What a fetch may do: the transaction before and after, and the row read.
    open spec fn fetched(
        before: Self::Executor,
        id: DatabaseEntityId,
        after: Self::Executor,
        row: Result<Self::Component, DatabaseError>,
    ) -> bool {
        true
    }

    /// What an UPDATE may do.
    open spec fn updated(
        before: Self::Executor,
        id: DatabaseEntityId,
        component: Self::Component,
        after: Self::Executor,
        outcome: Result<(), DatabaseError>,
    ) -> bool {
        true
    }

    /// What an INSERT may do.
    open spec fn inserted(
        before: Self::Executor,
        id: DatabaseEntityId,
        component: Self::Component,
        after: Self::Executor,
        outcome: Result<(), DatabaseError>,
    ) -> bool {
        true
    }

    fn get(e: &mut Self::Executor, db_entity: &DatabaseEntityId) -> (row: Result<
        Self::Component,
        DatabaseError,
    >)
        ensures
            Self::fetched(*old(e), *db_entity, *final(e), row),
    ;

    fn update_component(
        tr: &mut Self::Executor,
        db_entity: &DatabaseEntityId,
        component: &Self::Component,
    ) -> (outcome: Result<(), DatabaseError>)
        ensures
            Self::updated(*old(tr), *db_entity, *component, *final(tr), outcome),
    ;

    fn insert_component(
        tr: &mut Self::Executor,
        db_entity: &DatabaseEntityId,
        component: &Self::Component,
    ) -> (outcome: Result<(), DatabaseError>)
        ensures
            Self::inserted(*old(tr), *db_entity, *component, *final(tr), outcome),
    ;
}

/// The key that is minted `k` steps after the key `min_key`.
pub open spec fn minted(min_key: i64, k: int) -> DatabaseEntityId {
    DatabaseEntityId((min_key - k) as i64)
}

/// The keys that the next `count` rows created in memory will get are still
/// to be had and stand for no record of the store.
pub open spec fn keys_free(min_key: i64, world: Seq<DatabaseEntity>, count: nat) -> bool {
    &&& min_key - count >= i64::MIN
    &&& forall|k: int| 1 <= k <= count ==> !holds_id(world, #[trigger] minted(min_key, k))
}

/// The identities of the records after are those of the records before and,
/// at most, the next `count` keys.
pub open spec fn minted_only(
    before: Seq<DatabaseEntity>,
    after: Seq<DatabaseEntity>,
    min_key: i64,
    count: nat,
) -> bool {
    forall|i: int|
        0 <= i < after.len() ==> holds_id(before, (#[trigger] after[i]).id) || holds_minted(
            after[i].id,
            min_key,
            count,
        )
}

/// True of an identity that is one of the next `count` keys.
pub open spec fn holds_minted(id: DatabaseEntityId, min_key: i64, count: nat) -> bool {
    exists|k: int| 1 <= k <= count && id == #[trigger] minted(min_key, k)
}

/// The part of the state that every query works on: the table of transactions
/// and the records.
pub struct Memory<Tr> {
    pub db: HandleView<Tr>,
    pub world: Seq<DatabaseEntity>,
}

/// The state made of a table of transactions and of records.
pub open spec fn memory<Tr>(db: HandleView<Tr>, world: Seq<DatabaseEntity>) -> Memory<Tr> {
    Memory { db, world }
}

/// The description of a query: which components it reads and writes, where
/// they are kept in memory, and how each operation on the shape is carried
/// out. The relations say what each operation does to the table of
/// transactions, to the records and to the components.
pub trait DBQueryInfo {
    /// The transaction type that the shape works through.
    type Executor;

    /// The values of the shape, owned.
    type DerefItem;

    /// The columns that hold the components of the shape.
    type Storage;

    /// What a read of the shape hands out.
    type ReadOnlyItem<'a>;

    /// What a read for change hands out.
    type Item<'a>;

    /// True of an entity that has every component that the shape demands.
    spec fn present(storage: Self::Storage, entity: Entity) -> bool;

    /// The values of the shape that the columns hold for an entity.
    spec fn stored(storage: Self::Storage, entity: Entity) -> Self::DerefItem;

    /// The values that a read item shows.
    spec fn read_value(item: Self::ReadOnlyItem<'_>) -> Self::DerefItem;

    /// The values that an item for change shows when it is handed out.
    spec fn item_value(item: Self::Item<'_>) -> Self::DerefItem;

    /// What `get` does, with the values seen in place of the item.
    spec fn got(
        before: Memory<Self::Executor>,
        storage0: Self::Storage,
        id: DatabaseEntityId,
        request: RequestId,
        after: Memory<Self::Executor>,
        storage1: Self::Storage,
        outcome: Result<Self::DerefItem, DatabaseError>,
    ) -> bool;

    /// What `get_mut` does, with the values seen in place of the item. The
    /// columns afterwards hold what the caller left in the item.
    spec fn got_mut(
        before: Memory<Self::Executor>,
        storage0: Self::Storage,
        id: DatabaseEntityId,
        request: RequestId,
        after: Memory<Self::Executor>,
        storage1: Self::Storage,
        outcome: Result<Self::DerefItem, DatabaseError>,
    ) -> bool;

    /// True of values whose write reaches the database.
    spec fn writes(component: Self::DerefItem) -> bool;

    /// What `update_component` does.
    spec fn updated(
        db0: HandleView<Self::Executor>,
        db_entity: DatabaseEntity,
        component: Self::DerefItem,
        db1: HandleView<Self::Executor>,
        outcome: Result<(), DatabaseError>,
    ) -> bool;

    /// What `insert_component` does.
    spec fn inserted(
        db0: HandleView<Self::Executor>,
        db_entity: DatabaseEntity,
        component: Self::DerefItem,
        db1: HandleView<Self::Executor>,
        outcome: Result<(), DatabaseError>,
    ) -> bool;

    /// How many keys the creation of the values takes.
    spec fn keys_needed(component: Self::DerefItem) -> nat;

    /// What `create` does.
    spec fn created(
        before: Memory<Self::Executor>,
        storage0: Self::Storage,
        component: Self::DerefItem,
        request: RequestId,
        after: Memory<Self::Executor>,
        storage1: Self::Storage,
    ) -> bool;

    /// What `load_components` does, with the loaded entities in place of
    /// the items; `query` says what a run of the caller's query may do.
    spec fn loaded(
        query: spec_fn(
            Self::Executor,
            Self::Executor,
            Result<Seq<(DatabaseEntity, Self::DerefItem)>, DatabaseError>,
        ) -> bool,
        before: Memory<Self::Executor>,
        storage0: Self::Storage,
        request: RequestId,
        after: Memory<Self::Executor>,
        storage1: Self::Storage,
        entities: Result<Seq<Entity>, DatabaseError>,
    ) -> bool;

    /// Reads the shape for an identity, bringing into memory what is not there.
    fn get<'w, DbEntity: DatabaseEntityWithRequest>(
        db: &mut DatabaseHandle<Self::Executor>,
        world: &mut World,
        storage: &'w mut Self::Storage,
        db_entity: &DbEntity,
    ) -> (r: Result<Self::ReadOnlyItem<'w>, DatabaseError>)
        requires
            old(db).wf(),
            old(world).wf(),
            old(db).is_live(db_entity.spec_request()),
        ensures
            final(db).wf(),
            final(world).wf(),
            final(db)@.ran_since(old(db)@),
            Self::got(
                memory(old(db)@, old(world)@),
                *old(storage),
                db_entity.spec_id(),
                db_entity.spec_request(),
                memory(final(db)@, final(world)@),
                *final(storage),
                match r {
                    Ok(item) => Ok(Self::read_value(item)),
                    Err(e) => Err(e),
                },
            ),
    ;

    /// Reads the shape for an identity in order to change it: the records of
    /// what is handed out for change are marked dirty first.
    fn get_mut<'w, DbEntity: DatabaseEntityWithRequest>(
        db: &mut DatabaseHandle<Self::Executor>,
        world: &mut World,
        storage: &'w mut Self::Storage,
        db_entity: &DbEntity,
    ) -> (r: Result<Self::Item<'w>, DatabaseError>)
        requires
            old(db).wf(),
            old(world).wf(),
            old(db).is_live(db_entity.spec_request()),
        ensures
            final(db).wf(),
            final(world).wf(),
            final(db)@.ran_since(old(db)@),
            Self::got_mut(
                memory(old(db)@, old(world)@),
                *old(storage),
                db_entity.spec_id(),
                db_entity.spec_request(),
                memory(final(db)@, final(world)@),
                *final(storage),
                match r {
                    Ok(item) => Ok(Self::item_value(item)),
                    Err(e) => Err(e),
                },
            ),
    ;

    /// Reads the shape of an entity from memory alone.
    fn read<'w>(storage: &'w Self::Storage, entity: Entity) -> (r: Option<Self::ReadOnlyItem<'w>>)
        ensures
            r is Some == Self::present(*storage, entity),
            r matches Some(item) ==> Self::read_value(item) == Self::stored(*storage, entity),
    ;

    /// Runs the UPDATE of the shape for a record.
    fn update_component<'w>(
        db: &mut DatabaseHandle<Self::Executor>,
        db_entity: &DatabaseEntity,
        component: Self::ReadOnlyItem<'w>,
    ) -> (outcome: Result<(), DatabaseError>)
        requires
            old(db).wf(),
            Self::writes(Self::read_value(component)) ==> old(db).is_live(db_entity.request),
        ensures
            final(db).wf(),
            final(db)@.ran_since(old(db)@),
            Self::updated(old(db)@, *db_entity, Self::read_value(component), final(db)@, outcome),
    ;

    /// Runs the INSERT of the shape for a record.
    fn insert_component<'w>(
        db: &mut DatabaseHandle<Self::Executor>,
        db_entity: &DatabaseEntity,
        component: Self::ReadOnlyItem<'w>,
    ) -> (outcome: Result<(), DatabaseError>)
        requires
            old(db).wf(),
            Self::writes(Self::read_value(component)) ==> old(db).is_live(db_entity.request),
        ensures
            final(db).wf(),
            final(db)@.ran_since(old(db)@),
            Self::inserted(old(db)@, *db_entity, Self::read_value(component), final(db)@, outcome),
    ;

    /// Runs a query of the caller's against the transaction of a request,
    /// brings every row that it returns into memory, and reads the resulting
    /// entities through the selection `R`, which may read no more than the
    /// shape holds. Only a shape of one component can be loaded in this way;
    /// for the others nothing is done and `Unsupported` is returned.
    fn load_components<
        'w,
        R: ReturnSelector<Storage = Self::Storage>,
        CDQ: CustomDatabaseQuery<Self::Executor, Self::DerefItem>,
    >(
        db: &mut DatabaseHandle<Self::Executor>,
        world: &mut World,
        storage: &'w mut Self::Storage,
        request: RequestId,
        get_comp_from_db: CDQ,
    ) -> (r: Result<Vec<R::ReturnItem<'w>>, DatabaseError>)
        requires
            old(db).wf(),
            old(world).wf(),
            old(db).is_live(request),
            forall|s: Self::Storage, e: Entity| #[trigger]
                Self::present(s, e) ==> R::selects(s, e),
        ensures
            final(db).wf(),
            final(world).wf(),
            final(db)@.ran_since(old(db)@),
            read_of_loaded::<R>(
                (|entities: Result<Seq<Entity>, DatabaseError>|
                    Self::loaded(
                        run_of(get_comp_from_db),
                        memory(old(db)@, old(world)@),
                        *old(storage),
                        request,
                        memory(final(db)@, final(world)@),
                        *final(storage),
                        entities,
                    )),
                *final(storage),
                r,
            ),
    ;

    /// Creates the values in memory, under keys minted for them. Nothing is
    /// written to the database before the request is flushed, and nothing can
    /// fail.
    fn create(
        db: &mut DatabaseHandle<Self::Executor>,
        world: &mut World,
        storage: &mut Self::Storage,
        component: Self::DerefItem,
        request: RequestId,
    ) -> (outcome: Result<(), DatabaseError>)
        requires
            old(db).wf(),
            old(world).wf(),
            keys_free(old(db)@.min_key, old(world)@, Self::keys_needed(component)),
        ensures
            final(db).wf(),
            final(world).wf(),
            outcome is Ok,
            final(db)@.min_key == old(db)@.min_key - Self::keys_needed(component),
            minted_only(
                old(world)@,
                final(world)@,
                old(db)@.min_key,
                Self::keys_needed(component),
            ),
            Self::created(
                memory(old(db)@, old(world)@),
                *old(storage),
                component,
                request,
                memory(final(db)@, final(world)@),
                *final(storage),
            ),
    ;
}

/// A query of the caller's that returns rows of one component type, each with
/// the record it belongs to. The relation says what a run may do to the
/// transaction and what it may return; a query that states nothing keeps it as
/// it is: true of every run.
pub trait CustomDatabaseQuery<Tr, DerefItem> {
    open spec fn queried(
        &self,
        before: Tr,
        after: Tr,
        rows: Result<Seq<(DatabaseEntity, DerefItem)>, DatabaseError>,
    ) -> bool {
        true
    }

    fn query(&self, tr: &mut Tr) -> (rows: Result<Vec<(DatabaseEntity, DerefItem)>, DatabaseError>)
        ensures
            self.queried(
                *old(tr),
                *final(tr),
                match rows {
                    Ok(list) => Ok(list@),
                    Err(e) => Err(e),
                },
            ),
    ;
}

/// What a run of a query may do, as a relation between the transaction before
/// and after and the rows returned.
pub open spec fn run_of<Tr, DerefItem, CDQ: CustomDatabaseQuery<Tr, DerefItem>>(
    query: CDQ,
) -> spec_fn(Tr, Tr, Result<Seq<(DatabaseEntity, DerefItem)>, DatabaseError>) -> bool {
    |before: Tr, after: Tr, rows: Result<Seq<(DatabaseEntity, DerefItem)>, DatabaseError>|
        query.queried(before, after, rows)
}

/// A selection: what is read of each entity once rows have been loaded.
pub trait ReturnSelector {
    /// The columns that the selection reads.
    type Storage;

    /// The values of the selection, owned.
    type Value;

    /// What the selection hands out for an entity.
    type ReturnItem<'a>;

    /// True of an entity that the selection can be read of.
    spec fn selects(storage: Self::Storage, entity: Entity) -> bool;

    /// The values that the columns hold for an entity.
    spec fn selected(storage: Self::Storage, entity: Entity) -> Self::Value;

    /// The values that an item shows.
    spec fn shown(item: Self::ReturnItem<'_>) -> Self::Value;

    /// Reads the selection of each entity of a list, in the order of the list.
    fn load_components_from_entities<'w>(storage: &'w Self::Storage, entities: Vec<Entity>) -> (items:
        Vec<Self::ReturnItem<'w>>)
        requires
            forall|i: int| 0 <= i < entities@.len() ==> Self::selects(*storage, #[trigger] entities@[i]),
        ensures
            items@.len() == entities@.len(),
            forall|i: int|
                0 <= i < entities@.len() ==> Self::shown(#[trigger] items@[i]) == Self::selected(
                    *storage,
                    entities@[i],
                ),
    ;
}

/// Every shape of a query is a selection: it reads what `read` reads.
impl<Q: DBQueryInfo> ReturnSelector for Q {
    type Storage = Q::Storage;

    type Value = Q::DerefItem;

    type ReturnItem<'a> = Q::ReadOnlyItem<'a>;

    open spec fn selects(storage: Self::Storage, entity: Entity) -> bool {
        Q::present(storage, entity)
    }

    open spec fn selected(storage: Self::Storage, entity: Entity) -> Self::Value {
        Q::stored(storage, entity)
    }

    open spec fn shown(item: Self::ReturnItem<'_>) -> Self::Value {
        Q::read_value(item)
    }

    fn load_components_from_entities<'w>(storage: &'w Self::Storage, entities: Vec<Entity>) -> (items:
        Vec<Self::ReturnItem<'w>>) {
        let mut items: Vec<Q::ReadOnlyItem<'w>> = Vec::new();
        let mut i: usize = 0;
        while i < entities.len()
            invariant
                i <= entities@.len(),
                items@.len() == i,
                forall|k: int|
                    0 <= k < entities@.len() ==> Q::present(*storage, #[trigger] entities@[k]),
                forall|k: int|
                    0 <= k < i ==> Q::read_value(#[trigger] items@[k]) == Q::stored(
                        *storage,
                        entities@[k],
                    ),
            decreases entities@.len() - i,
        {
            match Q::read(storage, entities[i]) {
                Some(item) => {
                    items.push(item);
                },
                None => {
                    assert(false);
                },
            }
            i = i + 1;
        }
        items
    }
}

/// What a bulk load returns: the failure of the load, or else the selection
/// of each loaded entity, in the order of the entities.
pub open spec fn selected_all<R: ReturnSelector>(
    storage: R::Storage,
    entities: Result<Seq<Entity>, DatabaseError>,
    items: Result<Vec<R::ReturnItem<'_>>, DatabaseError>,
) -> bool {
    match entities {
        Err(e) => items matches Err(failure) && failure == e,
        Ok(list) => items matches Ok(out) && out@.len() == list.len() && forall|i: int|
            0 <= i < list.len() ==> R::shown(#[trigger] out@[i]) == R::selected(storage, list[i]),
    }
}

/// What a bulk load does for a shape that cannot be loaded in bulk: nothing,
/// and `Unsupported` is returned.
pub open spec fn not_loaded<Tr, S>(
    before: Memory<Tr>,
    storage0: S,
    after: Memory<Tr>,
    storage1: S,
    entities: Result<Seq<Entity>, DatabaseError>,
) -> bool {
    &&& after == before
    &&& storage1 == storage0
    &&& entities == Err::<Seq<Entity>, DatabaseError>(DatabaseError::Unsupported)
}

/// What a bulk load returns: the selection `R` of each entity of some list
/// that was loaded, in the order of the list, or the failure of the load.
pub open spec fn read_of_loaded<R: ReturnSelector>(
    loaded: spec_fn(Result<Seq<Entity>, DatabaseError>) -> bool,
    storage: R::Storage,
    items: Result<Vec<R::ReturnItem<'_>>, DatabaseError>,
) -> bool {
    exists|entities: Result<Seq<Entity>, DatabaseError>|
        {
            &&& loaded(entities)
            &&& #[trigger] selected_all::<R>(storage, entities, items)
        }
}

/// What writing a record back asks of the database.
#[derive(Clone, Copy, PartialEq, Eq, Structural, Debug)]
pub enum WriteBack {
    /// The row is not in the database yet: it is inserted.
    Insert,
    /// The row is in the database and has changed in memory: it is updated.
    Update,
    /// The row is in the database and has not changed: nothing is done.
    Nothing,
}

/// The write-back policy, the one place where it is decided: a record that is
/// not persisted is inserted, whether dirty or not; a persisted one is updated
/// if it is dirty, and left alone if it is clean.
pub open spec fn write_back_of(db_entity: DatabaseEntity) -> WriteBack {
    if !db_entity.persisted.0 {
        WriteBack::Insert
    } else if db_entity.dirty {
        WriteBack::Update
    } else {
        WriteBack::Nothing
    }
}

/// Decides what writing a record back asks of the database.
pub fn write_back(db_entity: &DatabaseEntity) -> (decision: WriteBack)
    ensures
        decision == write_back_of(*db_entity),
{
    if db_entity.persisted.0 {
        if db_entity.dirty {
            WriteBack::Update
        } else {
            WriteBack::Nothing
        }
    } else {
        WriteBack::Insert
    }
}

/// What writing the shape of a record back does: the INSERT of the shape, its
/// UPDATE, or nothing at all, as the policy decides.
pub open spec fn written_back<Q: DBQueryInfo>(
    db0: HandleView<Q::Executor>,
    db_entity: DatabaseEntity,
    component: Q::DerefItem,
    db1: HandleView<Q::Executor>,
    outcome: Result<(), DatabaseError>,
) -> bool {
    match write_back_of(db_entity) {
        WriteBack::Insert => Q::inserted(db0, db_entity, component, db1, outcome),
        WriteBack::Update => Q::updated(db0, db_entity, component, db1, outcome),
        WriteBack::Nothing => db1 == db0 && outcome is Ok,
    }
}

/// True if writing the shape of a record back reaches the database.
pub open spec fn reaches_database<Q: DBQueryInfo>(
    db_entity: DatabaseEntity,
    component: Q::DerefItem,
) -> bool {
    write_back_of(db_entity) != WriteBack::Nothing && Q::writes(component)
}

/// A query over one shape, with the table of transactions, the records and
/// the columns that it works on.
pub struct DatabaseQuery<Q: DBQueryInfo> {
    pub db: DatabaseHandle<Q::Executor>,
    pub world: World,
    pub storage: Q::Storage,
}

impl<Q: DBQueryInfo> DatabaseQuery<Q> {
    /// The invariants of the table of transactions and of the records.
    pub open spec fn wf(&self) -> bool {
        self.db.wf() && self.world.wf()
    }

    /// The table of transactions and the records that the query works on.
    pub open spec fn memory(&self) -> Memory<Q::Executor> {
        memory(self.db@, self.world@)
    }

    /// A query over a table of transactions, records and columns.
    pub fn new(db: DatabaseHandle<Q::Executor>, world: World, storage: Q::Storage) -> (query: Self)
        ensures
            query.db == db,
            query.world == world,
            query.storage == storage,
    {
        DatabaseQuery { db, world, storage }
    }

    /// Reads the shape for an identity, bringing into memory what is not there.
    pub fn get<'w, D: DatabaseEntityWithRequest>(&'w mut self, db_entity: &D) -> (r: Result<
        Q::ReadOnlyItem<'w>,
        DatabaseError,
    >)
        requires
            old(self).wf(),
            old(self).db.is_live(db_entity.spec_request()),
        ensures
            final(self).wf(),
            final(self).db@.ran_since(old(self).db@),
            Q::got(
                old(self).memory(),
                old(self).storage,
                db_entity.spec_id(),
                db_entity.spec_request(),
                final(self).memory(),
                final(self).storage,
                match r {
                    Ok(item) => Ok(Q::read_value(item)),
                    Err(e) => Err(e),
                },
            ),
    {
        Q::get(&mut self.db, &mut self.world, &mut self.storage, db_entity)
    }

    /// Reads the shape for an identity in order to change it.
    pub fn get_mut<'w, D: DatabaseEntityWithRequest>(&'w mut self, db_entity: &D) -> (r: Result<
        Q::Item<'w>,
        DatabaseError,
    >)
        requires
            old(self).wf(),
            old(self).db.is_live(db_entity.spec_request()),
        ensures
            final(self).wf(),
            final(self).db@.ran_since(old(self).db@),
            Q::got_mut(
                old(self).memory(),
                old(self).storage,
                db_entity.spec_id(),
                db_entity.spec_request(),
                final(self).memory(),
                final(self).storage,
                match r {
                    Ok(item) => Ok(Q::item_value(item)),
                    Err(e) => Err(e),
                },
            ),
    {
        Q::get_mut(&mut self.db, &mut self.world, &mut self.storage, db_entity)
    }

    /// Runs the UPDATE of the shape for a record.
    pub fn update_component<'w>(
        &mut self,
        db_entity: &DatabaseEntity,
        component: Q::ReadOnlyItem<'w>,
    ) -> (outcome: Result<(), DatabaseError>)
        requires
            old(self).wf(),
            Q::writes(Q::read_value(component)) ==> old(self).db.is_live(db_entity.request),
        ensures
            final(self).wf(),
            final(self).world == old(self).world,
            final(self).storage == old(self).storage,
            final(self).db@.ran_since(old(self).db@),
            Q::updated(
                old(self).db@,
                *db_entity,
                Q::read_value(component),
                final(self).db@,
                outcome,
            ),
    {
        Q::update_component(&mut self.db, db_entity, component)
    }

    /// Runs the INSERT of the shape for a record.
    pub fn insert_component<'w>(
        &mut self,
        db_entity: &DatabaseEntity,
        component: Q::ReadOnlyItem<'w>,
    ) -> (outcome: Result<(), DatabaseError>)
        requires
            old(self).wf(),
            Q::writes(Q::read_value(component)) ==> old(self).db.is_live(db_entity.request),
        ensures
            final(self).wf(),
            final(self).world == old(self).world,
            final(self).storage == old(self).storage,
            final(self).db@.ran_since(old(self).db@),
            Q::inserted(
                old(self).db@,
                *db_entity,
                Q::read_value(component),
                final(self).db@,
                outcome,
            ),
    {
        Q::insert_component(&mut self.db, db_entity, component)
    }

    /// Runs a query of the caller's and brings its rows into memory; see
    /// `DBQueryInfo::load_components`.
    pub fn load_components<
        'w,
        R: ReturnSelector<Storage = Q::Storage>,
        CDQ: CustomDatabaseQuery<Q::Executor, Q::DerefItem>,
    >(&'w mut self, request: RequestId, get_comp_from_db: CDQ) -> (r: Result<
        Vec<R::ReturnItem<'w>>,
        DatabaseError,
    >)
        requires
            old(self).wf(),
            old(self).db.is_live(request),
            forall|s: Q::Storage, e: Entity| #[trigger] Q::present(s, e) ==> R::selects(s, e),
        ensures
            final(self).wf(),
            final(self).db@.ran_since(old(self).db@),
            read_of_loaded::<R>(
                (|entities: Result<Seq<Entity>, DatabaseError>|
                    Q::loaded(
                        run_of(get_comp_from_db),
                        old(self).memory(),
                        old(self).storage,
                        request,
                        final(self).memory(),
                        final(self).storage,
                        entities,
                    )),
                final(self).storage,
                r,
            ),
    {
        Q::load_components::<R, CDQ>(
            &mut self.db,
            &mut self.world,
            &mut self.storage,
            request,
            get_comp_from_db,
        )
    }

    /// Creates the values in memory, under keys minted for them.
    pub fn create(&mut self, component: Q::DerefItem, request: RequestId) -> (outcome: Result<
        (),
        DatabaseError,
    >)
        requires
            old(self).wf(),
            keys_free(old(self).db@.min_key, old(self).world@, Q::keys_needed(component)),
        ensures
            final(self).wf(),
            outcome is Ok,
            final(self).db@.min_key == old(self).db@.min_key - Q::keys_needed(component),
            minted_only(
                old(self).world@,
                final(self).world@,
                old(self).db@.min_key,
                Q::keys_needed(component),
            ),
            Q::created(
                old(self).memory(),
                old(self).storage,
                component,
                request,
                final(self).memory(),
                final(self).storage,
            ),
    {
        Q::create(&mut self.db, &mut self.world, &mut self.storage, component, request)
    }

    /// Writes the shape of an entity back as the policy decides: an entity
    /// that is not persisted is inserted, a persisted and dirty one is
    /// updated, a persisted and clean one is left alone. The flags of the
    /// record stay as they are.
    pub fn update_or_insert_component(&mut self, entity: Entity) -> (outcome: Result<
        (),
        DatabaseError,
    >)
        requires
            old(self).wf(),
            old(self).world.has(entity),
            Q::present(old(self).storage, entity),
            reaches_database::<Q>(
                old(self).world@[entity.0 as int],
                Q::stored(old(self).storage, entity),
            ) ==> old(self).db.is_live(old(self).world@[entity.0 as int].request),
        ensures
            final(self).wf(),
            final(self).world == old(self).world,
            final(self).storage == old(self).storage,
            final(self).db@.ran_since(old(self).db@),
            written_back::<Q>(
                old(self).db@,
                old(self).world@[entity.0 as int],
                Q::stored(old(self).storage, entity),
                final(self).db@,
                outcome,
            ),
    {
        let db_entity = *self.world.record(entity);
        let comp = match Q::read(&self.storage, entity) {
            Some(comp) => comp,
            None => vstd::pervasive::unreached(),
        };
        match write_back(&db_entity) {
            WriteBack::Update => Q::update_component(&mut self.db, &db_entity, comp),
            WriteBack::Nothing => Ok(()),
            WriteBack::Insert => Q::insert_component(&mut self.db, &db_entity, comp),
        }
    }

    /// Retires a request: its handle is dead from now on, and its transaction
    /// is handed out to be committed.
    pub fn commit(&mut self, request: RequestId) -> (r: Result<Q::Executor, DatabaseError>)
        requires
            old(self).wf(),
            old(self).db.is_live(request),
            old(self).db@.commits < u64::MAX,
        ensures
            final(self).wf(),
            final(self).world == old(self).world,
            final(self).storage == old(self).storage,
            r == Ok::<Q::Executor, DatabaseError>(old(self).db@.transactions[request]),
            final(self).db@ == old(self).db@.committed(request),
    {
        Ok(self.db.commit_transaction(request))
    }
}

} // verus!
