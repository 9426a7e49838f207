//! The shapes that queries are composed of: a component read, a component
//! read for change, and an optional shape.

use crate::database_entity::{DatabaseEntity, DatabaseEntityId, DatabaseEntityWithRequest, RequestId};
use crate::database_query::{
    not_loaded,
    selected_all,
    ComponentMapper,
    CustomDatabaseQuery,
    DBQueryInfo,
    DatabaseError,
    Memory,
    ReturnSelector,
};
use crate::retriever::{
    bulk_loaded,
    created_one,
    got_one,
    got_one_mut,
    inserted_through,
    target,
    updated_through,
    SingleComponentRetriever,
};
use crate::database_resource::{DatabaseHandle, HandleView};
use crate::world::{Column, Entity, World};
use vstd::prelude::*;

verus! {

/// The shapes that say whether a component is read or read for change: a
/// shared reference to a codec, or a mutable one.
pub trait ReadMarker: DBQueryInfo {

}

/// The shapes that may stand in a tuple: a shared reference to a codec, or an
/// optional shape.
pub trait TupleMarker: DBQueryInfo {

}

impl<'b, M: ComponentMapper> TupleMarker for &'b M {

}

impl<'b, M: ComponentMapper> ReadMarker for &'b M {

}

impl<'b, M: ComponentMapper> ReadMarker for &'b mut M {

}

/// A shared reference to a codec reads its component and never hands out a
/// mutable view: `get_mut` does what `get` does.
impl<'b, M: ComponentMapper> DBQueryInfo for &'b M {
    type Executor = M::Executor;

    type DerefItem = M::Component;

    type Storage = Column<M::Component>;

    type ReadOnlyItem<'a> = &'a M::Component;

    type Item<'a> = &'a M::Component;

    open spec fn present(storage: Self::Storage, entity: Entity) -> bool {
        storage.has(entity)
    }

    open spec fn stored(storage: Self::Storage, entity: Entity) -> Self::DerefItem {
        storage@[entity]
    }

    open spec fn read_value(item: Self::ReadOnlyItem<'_>) -> Self::DerefItem {
        *item
    }

    open spec fn item_value(item: Self::Item<'_>) -> Self::DerefItem {
        *item
    }

    open spec fn got(
        before: Memory<Self::Executor>,
        storage0: Self::Storage,
        id: DatabaseEntityId,
        request: RequestId,
        after: Memory<Self::Executor>,
        storage1: Self::Storage,
        outcome: Result<Self::DerefItem, DatabaseError>,
    ) -> bool {
        got_one::<M>(
            before.db,
            before.world,
            storage0@,
            id,
            request,
            after.db,
            after.world,
            storage1@,
            outcome,
        )
    }

    open spec fn got_mut(
        before: Memory<Self::Executor>,
        storage0: Self::Storage,
        id: DatabaseEntityId,
        request: RequestId,
        after: Memory<Self::Executor>,
        storage1: Self::Storage,
        outcome: Result<Self::DerefItem, DatabaseError>,
    ) -> bool {
        got_one::<M>(
            before.db,
            before.world,
            storage0@,
            id,
            request,
            after.db,
            after.world,
            storage1@,
            outcome,
        )
    }

    open spec fn writes(component: Self::DerefItem) -> bool {
        true
    }

    open spec fn updated(
        db0: HandleView<Self::Executor>,
        db_entity: DatabaseEntity,
        component: Self::DerefItem,
        db1: HandleView<Self::Executor>,
        outcome: Result<(), DatabaseError>,
    ) -> bool {
        updated_through::<M>(db0, db_entity, component, db1, outcome)
    }

    open spec fn inserted(
        db0: HandleView<Self::Executor>,
        db_entity: DatabaseEntity,
        component: Self::DerefItem,
        db1: HandleView<Self::Executor>,
        outcome: Result<(), DatabaseError>,
    ) -> bool {
        inserted_through::<M>(db0, db_entity, component, db1, outcome)
    }

    open spec fn keys_needed(component: Self::DerefItem) -> nat {
        1
    }

    open spec fn created(
        before: Memory<Self::Executor>,
        storage0: Self::Storage,
        component: Self::DerefItem,
        request: RequestId,
        after: Memory<Self::Executor>,
        storage1: Self::Storage,
    ) -> bool {
        created_one::<M>(
            before.db,
            before.world,
            storage0@,
            component,
            request,
            after.db,
            after.world,
            storage1@,
        )
    }

    open spec fn loaded(
        query: spec_fn(
            Self::Executor,
            Self::Executor,
            Result<Seq<(DatabaseEntity, Self::DerefItem)>, DatabaseError>,
        ) -> bool,
        before: Memory<Self::Executor>,
        storage0: Self::Storage,
        request: RequestId,
        after: Memory<Self::Executor>,
        storage1: Self::Storage,
        entities: Result<Seq<Entity>, DatabaseError>,
    ) -> bool {
        bulk_loaded::<M>(
            query,
            before.db,
            before.world,
            storage0@,
            request,
            after.db,
            after.world,
            storage1@,
            entities,
        )
    }

    fn get<'w, DbEntity: DatabaseEntityWithRequest>(
        db: &mut DatabaseHandle<Self::Executor>,
        world: &mut World,
        storage: &'w mut Self::Storage,
        db_entity: &DbEntity,
    ) -> (r: Result<Self::ReadOnlyItem<'w>, DatabaseError>) {
        SingleComponentRetriever::<M>::get(db, world, storage, db_entity)
    }

    fn get_mut<'w, DbEntity: DatabaseEntityWithRequest>(
        db: &mut DatabaseHandle<Self::Executor>,
        world: &mut World,
        storage: &'w mut Self::Storage,
        db_entity: &DbEntity,
    ) -> (r: Result<Self::Item<'w>, DatabaseError>) {
        SingleComponentRetriever::<M>::get(db, world, storage, db_entity)
    }

    fn read<'w>(storage: &'w Self::Storage, entity: Entity) -> (r: Option<Self::ReadOnlyItem<'w>>) {
        SingleComponentRetriever::<M>::read(storage, entity)
    }

    fn update_component<'w>(
        db: &mut DatabaseHandle<Self::Executor>,
        db_entity: &DatabaseEntity,
        component: Self::ReadOnlyItem<'w>,
    ) -> (outcome: Result<(), DatabaseError>) {
        SingleComponentRetriever::<M>::update_component(db, db_entity, component)
    }

    fn insert_component<'w>(
        db: &mut DatabaseHandle<Self::Executor>,
        db_entity: &DatabaseEntity,
        component: Self::ReadOnlyItem<'w>,
    ) -> (outcome: Result<(), DatabaseError>) {
        SingleComponentRetriever::<M>::insert_component(db, db_entity, component)
    }

    fn load_components<
        'w,
        R: ReturnSelector<Storage = Self::Storage>,
        CDQ: CustomDatabaseQuery<Self::Executor, Self::DerefItem>,
    >(
        db: &mut DatabaseHandle<Self::Executor>,
        world: &mut World,
        storage: &'w mut Self::Storage,
        request: RequestId,
        get_comp_from_db: CDQ,
    ) -> (r: Result<Vec<R::ReturnItem<'w>>, DatabaseError>) {
        proof {
            assert forall|s: Self::Storage, e: Entity| #[trigger]
                SingleComponentRetriever::<M>::present(s, e) implies R::selects(s, e) by {
                assert(Self::present(s, e));
            }
        }
        SingleComponentRetriever::<M>::load_components::<R, CDQ>(
            db,
            world,
            storage,
            request,
            get_comp_from_db,
        )
    }

    fn create(
        db: &mut DatabaseHandle<Self::Executor>,
        world: &mut World,
        storage: &mut Self::Storage,
        component: Self::DerefItem,
        request: RequestId,
    ) -> (outcome: Result<(), DatabaseError>) {
        SingleComponentRetriever::<M>::create(db, world, storage, component, request)
    }
}

/// A mutable reference to a codec reads its component for change: `get_mut`
/// marks the record dirty and hands out a mutable view.
impl<'b, M: ComponentMapper> DBQueryInfo for &'b mut M {
    type Executor = M::Executor;

    type DerefItem = M::Component;

    type Storage = Column<M::Component>;

    type ReadOnlyItem<'a> = &'a M::Component;

    type Item<'a> = &'a mut M::Component;

    open spec fn present(storage: Self::Storage, entity: Entity) -> bool {
        storage.has(entity)
    }

    open spec fn stored(storage: Self::Storage, entity: Entity) -> Self::DerefItem {
        storage@[entity]
    }

    open spec fn read_value(item: Self::ReadOnlyItem<'_>) -> Self::DerefItem {
        *item
    }

    open spec fn item_value(item: Self::Item<'_>) -> Self::DerefItem {
        *item
    }

    open spec fn got(
        before: Memory<Self::Executor>,
        storage0: Self::Storage,
        id: DatabaseEntityId,
        request: RequestId,
        after: Memory<Self::Executor>,
        storage1: Self::Storage,
        outcome: Result<Self::DerefItem, DatabaseError>,
    ) -> bool {
        got_one::<M>(
            before.db,
            before.world,
            storage0@,
            id,
            request,
            after.db,
            after.world,
            storage1@,
            outcome,
        )
    }

    open spec fn got_mut(
        before: Memory<Self::Executor>,
        storage0: Self::Storage,
        id: DatabaseEntityId,
        request: RequestId,
        after: Memory<Self::Executor>,
        storage1: Self::Storage,
        outcome: Result<Self::DerefItem, DatabaseError>,
    ) -> bool {
        got_one_mut::<M>(
            before.db,
            before.world,
            storage0@,
            id,
            request,
            after.db,
            after.world,
            storage1@,
            outcome,
        )
    }

    open spec fn writes(component: Self::DerefItem) -> bool {
        true
    }

    open spec fn updated(
        db0: HandleView<Self::Executor>,
        db_entity: DatabaseEntity,
        component: Self::DerefItem,
        db1: HandleView<Self::Executor>,
        outcome: Result<(), DatabaseError>,
    ) -> bool {
        updated_through::<M>(db0, db_entity, component, db1, outcome)
    }

    open spec fn inserted(
        db0: HandleView<Self::Executor>,
        db_entity: DatabaseEntity,
        component: Self::DerefItem,
        db1: HandleView<Self::Executor>,
        outcome: Result<(), DatabaseError>,
    ) -> bool {
        inserted_through::<M>(db0, db_entity, component, db1, outcome)
    }

    open spec fn keys_needed(component: Self::DerefItem) -> nat {
        1
    }

    open spec fn created(
        before: Memory<Self::Executor>,
        storage0: Self::Storage,
        component: Self::DerefItem,
        request: RequestId,
        after: Memory<Self::Executor>,
        storage1: Self::Storage,
    ) -> bool {
        created_one::<M>(
            before.db,
            before.world,
            storage0@,
            component,
            request,
            after.db,
            after.world,
            storage1@,
        )
    }

    open spec fn loaded(
        query: spec_fn(
            Self::Executor,
            Self::Executor,
            Result<Seq<(DatabaseEntity, Self::DerefItem)>, DatabaseError>,
        ) -> bool,
        before: Memory<Self::Executor>,
        storage0: Self::Storage,
        request: RequestId,
        after: Memory<Self::Executor>,
        storage1: Self::Storage,
        entities: Result<Seq<Entity>, DatabaseError>,
    ) -> bool {
        bulk_loaded::<M>(
            query,
            before.db,
            before.world,
            storage0@,
            request,
            after.db,
            after.world,
            storage1@,
            entities,
        )
    }

    fn get<'w, DbEntity: DatabaseEntityWithRequest>(
        db: &mut DatabaseHandle<Self::Executor>,
        world: &mut World,
        storage: &'w mut Self::Storage,
        db_entity: &DbEntity,
    ) -> (r: Result<Self::ReadOnlyItem<'w>, DatabaseError>) {
        SingleComponentRetriever::<M>::get(db, world, storage, db_entity)
    }

    fn get_mut<'w, DbEntity: DatabaseEntityWithRequest>(
        db: &mut DatabaseHandle<Self::Executor>,
        world: &mut World,
        storage: &'w mut Self::Storage,
        db_entity: &DbEntity,
    ) -> (r: Result<Self::Item<'w>, DatabaseError>)
        ensures
            r matches Ok(item) ==> final(storage)@[target(old(world)@, db_entity.spec_id())]
                == *final(item),
    {
        SingleComponentRetriever::<M>::get_mut(db, world, storage, db_entity)
    }

    fn read<'w>(storage: &'w Self::Storage, entity: Entity) -> (r: Option<Self::ReadOnlyItem<'w>>) {
        SingleComponentRetriever::<M>::read(storage, entity)
    }

    fn update_component<'w>(
        db: &mut DatabaseHandle<Self::Executor>,
        db_entity: &DatabaseEntity,
        component: Self::ReadOnlyItem<'w>,
    ) -> (outcome: Result<(), DatabaseError>) {
        SingleComponentRetriever::<M>::update_component(db, db_entity, component)
    }

    fn insert_component<'w>(
        db: &mut DatabaseHandle<Self::Executor>,
        db_entity: &DatabaseEntity,
        component: Self::ReadOnlyItem<'w>,
    ) -> (outcome: Result<(), DatabaseError>) {
        SingleComponentRetriever::<M>::insert_component(db, db_entity, component)
    }

    fn load_components<
        'w,
        R: ReturnSelector<Storage = Self::Storage>,
        CDQ: CustomDatabaseQuery<Self::Executor, Self::DerefItem>,
    >(
        db: &mut DatabaseHandle<Self::Executor>,
        world: &mut World,
        storage: &'w mut Self::Storage,
        request: RequestId,
        get_comp_from_db: CDQ,
    ) -> (r: Result<Vec<R::ReturnItem<'w>>, DatabaseError>) {
        proof {
            assert forall|s: Self::Storage, e: Entity| #[trigger]
                SingleComponentRetriever::<M>::present(s, e) implies R::selects(s, e) by {
                assert(Self::present(s, e));
            }
        }
        SingleComponentRetriever::<M>::load_components::<R, CDQ>(
            db,
            world,
            storage,
            request,
            get_comp_from_db,
        )
    }

    fn create(
        db: &mut DatabaseHandle<Self::Executor>,
        world: &mut World,
        storage: &mut Self::Storage,
        component: Self::DerefItem,
        request: RequestId,
    ) -> (outcome: Result<(), DatabaseError>) {
        SingleComponentRetriever::<M>::create(db, world, storage, component, request)
    }
}

impl<T: DBQueryInfo> TupleMarker for Option<T> {

}

/// The outcome of the inner shape that stands behind an outcome of the
/// optional one: an absent value stands for a row that was not found.
pub open spec fn unwrapped<V>(outcome: Result<Option<V>, DatabaseError>) -> Result<
    V,
    DatabaseError,
> {
    match outcome {
        Ok(Some(v)) => Ok(v),
        Ok(None) => Err(DatabaseError::NotFound),
        Err(e) => Err(e),
    }
}

/// An optional shape: a row that is not found is no failure but an absent
/// value, and an absent value is neither written nor created.
impl<T: DBQueryInfo> DBQueryInfo for Option<T> {
    type Executor = T::Executor;

    type DerefItem = Option<T::DerefItem>;

    type Storage = T::Storage;

    type ReadOnlyItem<'a> = Option<T::ReadOnlyItem<'a>>;

    type Item<'a> = Option<T::Item<'a>>;

    open spec fn present(storage: Self::Storage, entity: Entity) -> bool {
        true
    }

    open spec fn stored(storage: Self::Storage, entity: Entity) -> Self::DerefItem {
        if T::present(storage, entity) {
            Some(T::stored(storage, entity))
        } else {
            None
        }
    }

    open spec fn read_value(item: Self::ReadOnlyItem<'_>) -> Self::DerefItem {
        match item {
            Some(inner) => Some(T::read_value(inner)),
            None => None,
        }
    }

    open spec fn item_value(item: Self::Item<'_>) -> Self::DerefItem {
        match item {
            Some(inner) => Some(T::item_value(inner)),
            None => None,
        }
    }

    open spec fn got(
        before: Memory<Self::Executor>,
        storage0: Self::Storage,
        id: DatabaseEntityId,
        request: RequestId,
        after: Memory<Self::Executor>,
        storage1: Self::Storage,
        outcome: Result<Self::DerefItem, DatabaseError>,
    ) -> bool {
        &&& outcome != Err::<Self::DerefItem, DatabaseError>(DatabaseError::NotFound)
        &&& T::got(before, storage0, id, request, after, storage1, unwrapped(outcome))
    }

    open spec fn got_mut(
        before: Memory<Self::Executor>,
        storage0: Self::Storage,
        id: DatabaseEntityId,
        request: RequestId,
        after: Memory<Self::Executor>,
        storage1: Self::Storage,
        outcome: Result<Self::DerefItem, DatabaseError>,
    ) -> bool {
        &&& outcome != Err::<Self::DerefItem, DatabaseError>(DatabaseError::NotFound)
        &&& T::got_mut(before, storage0, id, request, after, storage1, unwrapped(outcome))
    }

    open spec fn writes(component: Self::DerefItem) -> bool {
        component matches Some(inner) && T::writes(inner)
    }

    open spec fn updated(
        db0: HandleView<Self::Executor>,
        db_entity: DatabaseEntity,
        component: Self::DerefItem,
        db1: HandleView<Self::Executor>,
        outcome: Result<(), DatabaseError>,
    ) -> bool {
        match component {
            Some(inner) => T::updated(db0, db_entity, inner, db1, outcome),
            None => db1 == db0 && outcome is Ok,
        }
    }

    open spec fn inserted(
        db0: HandleView<Self::Executor>,
        db_entity: DatabaseEntity,
        component: Self::DerefItem,
        db1: HandleView<Self::Executor>,
        outcome: Result<(), DatabaseError>,
    ) -> bool {
        match component {
            Some(inner) => T::inserted(db0, db_entity, inner, db1, outcome),
            None => db1 == db0 && outcome is Ok,
        }
    }

    open spec fn keys_needed(component: Self::DerefItem) -> nat {
        match component {
            Some(inner) => T::keys_needed(inner),
            None => 0,
        }
    }

    open spec fn created(
        before: Memory<Self::Executor>,
        storage0: Self::Storage,
        component: Self::DerefItem,
        request: RequestId,
        after: Memory<Self::Executor>,
        storage1: Self::Storage,
    ) -> bool {
        match component {
            Some(inner) => T::created(before, storage0, inner, request, after, storage1),
            None => after == before && storage1 == storage0,
        }
    }

    open spec fn loaded(
        query: spec_fn(
            Self::Executor,
            Self::Executor,
            Result<Seq<(DatabaseEntity, Self::DerefItem)>, DatabaseError>,
        ) -> bool,
        before: Memory<Self::Executor>,
        storage0: Self::Storage,
        request: RequestId,
        after: Memory<Self::Executor>,
        storage1: Self::Storage,
        entities: Result<Seq<Entity>, DatabaseError>,
    ) -> bool {
        not_loaded(before, storage0, after, storage1, entities)
    }

    fn get<'w, DbEntity: DatabaseEntityWithRequest>(
        db: &mut DatabaseHandle<Self::Executor>,
        world: &mut World,
        storage: &'w mut Self::Storage,
        db_entity: &DbEntity,
    ) -> (r: Result<Self::ReadOnlyItem<'w>, DatabaseError>) {
        match T::get(db, world, storage, db_entity) {
            Ok(item) => Ok(Some(item)),
            Err(DatabaseError::NotFound) => Ok(None),
            Err(e) => Err(e),
        }
    }

    fn get_mut<'w, DbEntity: DatabaseEntityWithRequest>(
        db: &mut DatabaseHandle<Self::Executor>,
        world: &mut World,
        storage: &'w mut Self::Storage,
        db_entity: &DbEntity,
    ) -> (r: Result<Self::Item<'w>, DatabaseError>) {
        match T::get_mut(db, world, storage, db_entity) {
            Ok(item) => Ok(Some(item)),
            Err(DatabaseError::NotFound) => Ok(None),
            Err(e) => Err(e),
        }
    }

    fn read<'w>(storage: &'w Self::Storage, entity: Entity) -> (r: Option<Self::ReadOnlyItem<'w>>) {
        Some(T::read(storage, entity))
    }

    fn update_component<'w>(
        db: &mut DatabaseHandle<Self::Executor>,
        db_entity: &DatabaseEntity,
        component: Self::ReadOnlyItem<'w>,
    ) -> (outcome: Result<(), DatabaseError>) {
        match component {
            Some(inner) => T::update_component(db, db_entity, inner),
            None => Ok(()),
        }
    }

    fn insert_component<'w>(
        db: &mut DatabaseHandle<Self::Executor>,
        db_entity: &DatabaseEntity,
        component: Self::ReadOnlyItem<'w>,
    ) -> (outcome: Result<(), DatabaseError>) {
        match component {
            Some(inner) => T::insert_component(db, db_entity, inner),
            None => Ok(()),
        }
    }

    fn load_components<
        'w,
        R: ReturnSelector<Storage = Self::Storage>,
        CDQ: CustomDatabaseQuery<Self::Executor, Self::DerefItem>,
    >(
        db: &mut DatabaseHandle<Self::Executor>,
        world: &mut World,
        storage: &'w mut Self::Storage,
        request: RequestId,
        get_comp_from_db: CDQ,
    ) -> (r: Result<Vec<R::ReturnItem<'w>>, DatabaseError>) {
        proof {
            assert(selected_all::<R>(
                *storage,
                Err(DatabaseError::Unsupported),
                Err::<Vec<R::ReturnItem<'w>>, DatabaseError>(DatabaseError::Unsupported),
            ));
        }
        Err(DatabaseError::Unsupported)
    }

    fn create(
        db: &mut DatabaseHandle<Self::Executor>,
        world: &mut World,
        storage: &mut Self::Storage,
        component: Self::DerefItem,
        request: RequestId,
    ) -> (outcome: Result<(), DatabaseError>) {
        match component {
            Some(inner) => T::create(db, world, storage, inner, request),
            None => Ok(()),
        }
    }
}

} // verus!
