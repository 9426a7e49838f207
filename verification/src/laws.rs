//! What holds of the layer as a whole, proved from the relations that its
//! operations are specified by.

use crate::database_entity::{DatabaseEntity, DatabaseEntityId, RequestId};
use crate::database_query::{written_back, ComponentMapper, DBQueryInfo, DatabaseError, Memory};
use crate::retriever::{
    fetched_through,
    got_one,
    got_one_mut,
    inserted_through,
    target,
    updated_through,
    with_loaded,
    written_back_one,
};
use crate::database_resource::{flushed, lists_owned, wrote_one, wrote_run, HandleView};
use crate::tuples::{inserted_failed_3, updated_failed_3};
use crate::world::{
    distinct_ids,
    entity_of,
    flushed_records,
    holds_id,
    lemma_entity_of,
    lemma_entity_of_push,
    Entity,
};
use vstd::prelude::*;

verus! {

/// A read of one component asks the database once at most: either the table of
/// transactions is left as it was, or one fetch went through the transaction
/// of the request, and through no other.
pub proof fn lemma_get_fetches_once_at_most<M: ComponentMapper>(
    db0: HandleView<M::Executor>,
    world0: Seq<DatabaseEntity>,
    column0: Map<Entity, M::Component>,
    id: DatabaseEntityId,
    request: RequestId,
    db1: HandleView<M::Executor>,
    world1: Seq<DatabaseEntity>,
    column1: Map<Entity, M::Component>,
    outcome: Result<M::Component, DatabaseError>,
)
    requires
        got_one::<M>(db0, world0, column0, id, request, db1, world1, column1, outcome)
            || got_one_mut::<M>(db0, world0, column0, id, request, db1, world1, column1, outcome),
    ensures
        db1 == db0 || exists|row: Result<M::Component, DatabaseError>| #[trigger]
            fetched_through::<M>(db0, request, id, db1, row),
{
    if db1 != db0 {
        match outcome {
            Ok(seen) => {
                assert(fetched_through::<M>(db0, request, id, db1, Ok(seen)));
            },
            Err(e) => {
                assert(fetched_through::<M>(db0, request, id, db1, Err(e)));
            },
        }
    }
}

/// Once an identity has been read, a further read of it is served from
/// memory: the table of transactions, the records and the column stay as
/// they are, and the same value is seen.
pub proof fn lemma_second_get_is_served_from_memory<M: ComponentMapper>(
    db0: HandleView<M::Executor>,
    world0: Seq<DatabaseEntity>,
    column0: Map<Entity, M::Component>,
    id: DatabaseEntityId,
    request: RequestId,
    db1: HandleView<M::Executor>,
    world1: Seq<DatabaseEntity>,
    column1: Map<Entity, M::Component>,
    seen: M::Component,
    db2: HandleView<M::Executor>,
    world2: Seq<DatabaseEntity>,
    column2: Map<Entity, M::Component>,
    outcome: Result<M::Component, DatabaseError>,
)
    requires
        distinct_ids(world0),
        world0.len() < usize::MAX,
        got_one::<M>(db0, world0, column0, id, request, db1, world1, column1, Ok(seen)),
        got_one::<M>(db1, world1, column1, id, request, db2, world2, column2, outcome),
    ensures
        db2 == db1,
        world2 == world1,
        column2 == column1,
        outcome == Ok::<M::Component, DatabaseError>(seen),
{
    lemma_loaded_is_found(world0, id, request);
}

/// Once an identity has been read for change, a further read for change is
/// served from memory too: the database is not asked, whatever the caller
/// wrote through the first view, and the second view shows what was written.
pub proof fn lemma_second_get_mut_is_served_from_memory<M: ComponentMapper>(
    db0: HandleView<M::Executor>,
    world0: Seq<DatabaseEntity>,
    column0: Map<Entity, M::Component>,
    id: DatabaseEntityId,
    request: RequestId,
    db1: HandleView<M::Executor>,
    world1: Seq<DatabaseEntity>,
    column1: Map<Entity, M::Component>,
    seen: M::Component,
    db2: HandleView<M::Executor>,
    world2: Seq<DatabaseEntity>,
    column2: Map<Entity, M::Component>,
    outcome: Result<M::Component, DatabaseError>,
)
    requires
        distinct_ids(world0),
        world0.len() < usize::MAX,
        got_one_mut::<M>(db0, world0, column0, id, request, db1, world1, column1, Ok(seen)),
        got_one_mut::<M>(db1, world1, column1, id, request, db2, world2, column2, outcome),
    ensures
        db2 == db1,
        outcome matches Ok(again) && again == column1[target(world0, id)],
{
    lemma_loaded_is_found(world0, id, request);
    let entity = target(world0, id);
    let loaded = with_loaded(world0, id, request);
    lemma_touched_is_found(loaded, entity.0 as int);
}

/// An identity that was brought into memory is found there, by the entity
/// that was chosen for it.
proof fn lemma_loaded_is_found(world0: Seq<DatabaseEntity>, id: DatabaseEntityId, request: RequestId)
    requires
        distinct_ids(world0),
        world0.len() < usize::MAX,
    ensures
        ({
            let loaded = with_loaded(world0, id, request);
            let entity = target(world0, id);
            &&& distinct_ids(loaded)
            &&& entity_of(loaded, id) == Some(entity)
            &&& 0 <= entity.0 < loaded.len()
            &&& loaded[entity.0 as int].id == id
        }),
{
    if holds_id(world0, id) {
        let i = choose|i: int| 0 <= i < world0.len() && (#[trigger] world0[i]).id == id;
        lemma_entity_of(world0, i);
    } else {
        lemma_entity_of_push(world0, DatabaseEntity::loaded(id, request), id);
    }
}

/// Marking a record dirty changes no identity, and so no answer of the index.
proof fn lemma_touched_is_found(world: Seq<DatabaseEntity>, at: int)
    requires
        distinct_ids(world),
        0 <= at < world.len(),
        world.len() <= usize::MAX,
    ensures
        ({
            let touched = world.update(at, world[at].touched());
            &&& distinct_ids(touched)
            &&& entity_of(touched, world[at].id) == Some(Entity(at as usize))
        }),
{
    let touched = world.update(at, world[at].touched());
    assert forall|i: int, j: int|
        0 <= i < touched.len() && 0 <= j < touched.len() && i != j implies (#[trigger] touched[i]).id
        != (#[trigger] touched[j]).id by {
        assert(touched[i].id == world[i].id);
        assert(touched[j].id == world[j].id);
    }
    assert(touched[at].id == world[at].id);
    lemma_entity_of(touched, at);
}

/// A record that is persisted and clean is left alone: the database is not
/// asked, and the write-back succeeds.
pub proof fn lemma_clean_record_is_left_alone<Q: DBQueryInfo>(
    db0: HandleView<Q::Executor>,
    db_entity: DatabaseEntity,
    component: Q::DerefItem,
    db1: HandleView<Q::Executor>,
    outcome: Result<(), DatabaseError>,
)
    requires
        db_entity.persisted.0,
        !db_entity.dirty,
        written_back::<Q>(db0, db_entity, component, db1, outcome),
    ensures
        db1 == db0,
        outcome is Ok,
{
}

/// A record that is persisted and dirty is written back by the UPDATE of the
/// shape, and by nothing else.
pub proof fn lemma_dirty_record_is_updated<Q: DBQueryInfo>(
    db0: HandleView<Q::Executor>,
    db_entity: DatabaseEntity,
    component: Q::DerefItem,
    db1: HandleView<Q::Executor>,
    outcome: Result<(), DatabaseError>,
)
    requires
        db_entity.persisted.0,
        db_entity.dirty,
        written_back::<Q>(db0, db_entity, component, db1, outcome),
    ensures
        Q::updated(db0, db_entity, component, db1, outcome),
{
}

/// A record that is not persisted is written back by the INSERT of the shape,
/// whether it is dirty or not, and by nothing else.
pub proof fn lemma_new_record_is_inserted<Q: DBQueryInfo>(
    db0: HandleView<Q::Executor>,
    db_entity: DatabaseEntity,
    component: Q::DerefItem,
    db1: HandleView<Q::Executor>,
    outcome: Result<(), DatabaseError>,
)
    requires
        !db_entity.persisted.0,
        written_back::<Q>(db0, db_entity, component, db1, outcome),
    ensures
        Q::inserted(db0, db_entity, component, db1, outcome),
{
}

/// For one component, the write-back of a dirty record is one UPDATE through
/// the transaction of the request that owns the record, that of a new record
/// is one INSERT through it, and that of a clean record is no call at all.
pub proof fn lemma_one_write_at_most<M: ComponentMapper>(
    db0: HandleView<M::Executor>,
    db_entity: DatabaseEntity,
    component: M::Component,
    db1: HandleView<M::Executor>,
    outcome: Result<(), DatabaseError>,
)
    requires
        written_back_one::<M>(db0, db_entity, component, db1, outcome),
    ensures
        !db_entity.persisted.0 ==> inserted_through::<M>(db0, db_entity, component, db1, outcome),
        db_entity.persisted.0 && db_entity.dirty ==> updated_through::<M>(
            db0,
            db_entity,
            component,
            db1,
            outcome,
        ),
        db_entity.persisted.0 && !db_entity.dirty ==> db1 == db0 && outcome is Ok,
{
}

/// A row that is not found is no failure of an optional shape: the read
/// succeeds with an absent value.
pub proof fn lemma_absent_row_is_no_failure<T: DBQueryInfo>(
    before: Memory<T::Executor>,
    storage0: T::Storage,
    id: DatabaseEntityId,
    request: RequestId,
    after: Memory<T::Executor>,
    storage1: T::Storage,
)
    requires
        T::got(before, storage0, id, request, after, storage1, Err(DatabaseError::NotFound)),
    ensures
        <Option<T> as DBQueryInfo>::got(before, storage0, id, request, after, storage1, Ok(None)),
{
}

/// A read of an optional shape never fails for want of a row, and neither
/// does a read for change.
pub proof fn lemma_optional_never_reports_absence<T: DBQueryInfo>(
    before: Memory<T::Executor>,
    storage0: T::Storage,
    id: DatabaseEntityId,
    request: RequestId,
    after: Memory<T::Executor>,
    storage1: T::Storage,
    outcome: Result<Option<T::DerefItem>, DatabaseError>,
)
    requires
        <Option<T> as DBQueryInfo>::got(before, storage0, id, request, after, storage1, outcome)
            || <Option<T> as DBQueryInfo>::got_mut(
            before,
            storage0,
            id,
            request,
            after,
            storage1,
            outcome,
        ),
    ensures
        outcome != Err::<Option<T::DerefItem>, DatabaseError>(DatabaseError::NotFound),
{
}

/// An absent value is not created: no key is minted for it, and the store
/// stays as it is.
pub proof fn lemma_absent_value_is_not_created<T: DBQueryInfo>(
    before: Memory<T::Executor>,
    storage0: T::Storage,
    request: RequestId,
    after: Memory<T::Executor>,
    storage1: T::Storage,
)
    requires
        <Option<T> as DBQueryInfo>::created(before, storage0, None, request, after, storage1),
    ensures
        <Option<T> as DBQueryInfo>::keys_needed(None) == 0,
        after == before,
        storage1 == storage0,
{
}

/// In a tuple of three the parts are written in their order, and the first
/// failure ends the write: where the first part is updated and the second
/// fails, the table is left as the failed write of the second part left it,
/// and the third part is not attempted.
pub proof fn lemma_update_stops_at_first_failure<
    Z: DBQueryInfo,
    A: DBQueryInfo<Executor = Z::Executor>,
    B: DBQueryInfo<Executor = Z::Executor>,
>(
    db0: HandleView<Z::Executor>,
    db_entity: DatabaseEntity,
    first: Z::DerefItem,
    second: A::DerefItem,
    third: B::DerefItem,
    db_first: HandleView<Z::Executor>,
    db1: HandleView<Z::Executor>,
    e: DatabaseError,
)
    requires
        Z::updated(db0, db_entity, first, db_first, Ok(())),
        A::updated(db_first, db_entity, second, db1, Err(e)),
    ensures
        updated_failed_3::<Z, A, B>(db0, db_entity, first, second, third, db1, e),
{
}

/// As `lemma_update_stops_at_first_failure`, for the INSERT of a tuple.
pub proof fn lemma_insert_stops_at_first_failure<
    Z: DBQueryInfo,
    A: DBQueryInfo<Executor = Z::Executor>,
    B: DBQueryInfo<Executor = Z::Executor>,
>(
    db0: HandleView<Z::Executor>,
    db_entity: DatabaseEntity,
    first: Z::DerefItem,
    second: A::DerefItem,
    third: B::DerefItem,
    db_first: HandleView<Z::Executor>,
    db1: HandleView<Z::Executor>,
    e: DatabaseError,
)
    requires
        Z::inserted(db0, db_entity, first, db_first, Ok(())),
        A::inserted(db_first, db_entity, second, db1, Err(e)),
    ensures
        inserted_failed_3::<Z, A, B>(db0, db_entity, first, second, third, db1, e),
{
}

/// Requests are isolated from each other: a write through one request and the
/// commit of that request leave the transaction of every other request as it
/// was and where it was, while the committed request is open no more and its
/// handle is retired.
pub proof fn lemma_commit_leaves_other_requests<Tr>(
    db: HandleView<Tr>,
    committed: RequestId,
    other: RequestId,
    written: Tr,
)
    requires
        db.is_live(committed),
        db.is_live(other),
        committed != other,
    ensures
        ({
            let after = db.with(committed, written).committed(committed);
            &&& after.is_live(other)
            &&& after.transactions[other] == db.transactions[other]
            &&& !after.is_live(committed)
            &&& after.retired.contains(committed)
        }),
{
}

/// A handle that was retired stays retired and dead when a request is
/// started: the handle of the new request was never retired, so it is another
/// one, even where it names the slot that the retired handle named.
pub proof fn lemma_retired_handle_is_not_reused<Tr>(
    db: HandleView<Tr>,
    stale: RequestId,
    started: RequestId,
    transaction: Tr,
)
    requires
        db.retired.contains(stale),
        !db.is_live(stale),
        !db.retired.contains(started),
    ensures
        started != stale,
        !db.with(started, transaction).is_live(stale),
        db.with(started, transaction).retired.contains(stale),
{
}

/// A handle that was retired stays retired and dead when another request is
/// retired.
pub proof fn lemma_retired_handle_stays_retired<Tr>(
    db: HandleView<Tr>,
    stale: RequestId,
    committed: RequestId,
)
    requires
        db.retired.contains(stale),
        !db.is_live(stale),
    ensures
        !db.committed(committed).is_live(stale),
        db.committed(committed).retired.contains(stale),
{
}

/// The records of a request are persisted and clean after its flush, under
/// the identity and the request that they had; the other records are as they
/// were.
pub proof fn lemma_flushed_records(world: Seq<DatabaseEntity>, request: RequestId, at: int)
    requires
        0 <= at < world.len(),
    ensures
        flushed_records(world, request).len() == world.len(),
        world[at].request == request ==> flushed_records(world, request)[at] == (DatabaseEntity {
            persisted: crate::database_entity::Persisted(true),
            dirty: false,
            ..world[at]
        }),
        world[at].request != request ==> flushed_records(world, request)[at] == world[at],
{
}

/// Where a request owns one entity and no other, the list of what it owns
/// names that entity alone.
pub proof fn lemma_owns_one(
    entities: Seq<Entity>,
    world: Seq<DatabaseEntity>,
    request: RequestId,
    only: Entity,
)
    requires
        lists_owned(entities, world, request),
        lists_owned(seq![only], world, request),
    ensures
        entities == seq![only],
{
    let one = seq![only];
    assert(one[0] == only);
    assert(world[only.0 as int].request == request);
    assert(entities.contains(Entity(only.0 as int as usize)));
    assert forall|k: int| 0 <= k < entities.len() implies #[trigger] entities[k] == only by {
        let j = entities[k].0 as int;
        assert(world[j].request == request);
        assert(one.contains(Entity(j as usize)));
        let l = choose|l: int| 0 <= l < one.len() && one[l] == Entity(j as usize);
        assert(one[l] == only);
    }
    if entities.len() >= 2 {
        assert(entities[0].0 < entities[1].0);
        assert(entities[0] == only);
        assert(entities[1] == only);
    }
    assert(entities =~= one);
}

/// The flush of a request that owns one entity is the write-back of that
/// entity and nothing else. If the write-back succeeds, the request is
/// retired, its transaction is handed out as the write-back left it, and the
/// records of the request are persisted and clean. If it fails, the table is
/// left as the failed write-back left it, the request stays open, and no
/// record is marked.
pub proof fn lemma_flush_of_one_entity<Q: DBQueryInfo>(
    db0: HandleView<Q::Executor>,
    world0: Seq<DatabaseEntity>,
    storage: Q::Storage,
    request: RequestId,
    only: Entity,
    db1: HandleView<Q::Executor>,
    world1: Seq<DatabaseEntity>,
    outcome: Result<Q::Executor, DatabaseError>,
)
    requires
        lists_owned(seq![only], world0, request),
        flushed::<Q>(db0, world0, storage, request, db1, world1, outcome),
    ensures
        match outcome {
            Ok(transaction) => exists|db_w: HandleView<Q::Executor>|
                {
                    &&& #[trigger] written_back::<Q>(
                        db0,
                        world0[only.0 as int],
                        Q::stored(storage, only),
                        db_w,
                        Ok(()),
                    )
                    &&& db_w.is_live(request)
                    &&& transaction == db_w.transactions[request]
                    &&& db1 == db_w.committed(request)
                    &&& world1 == flushed_records(world0, request)
                },
            Err(e) => {
                &&& written_back::<Q>(
                    db0,
                    world0[only.0 as int],
                    Q::stored(storage, only),
                    db1,
                    Err(e),
                )
                &&& db1.is_live(request)
                &&& world1 == world0
            },
        },
{
    let (entities, states) = choose|
        entities: Seq<Entity>,
        states: Seq<HandleView<Q::Executor>>,
    |
        {
            &&& lists_owned(entities, world0, request)
            &&& #[trigger] wrote_run::<Q>(states, world0, storage, entities, states.len() - 1)
            &&& states[0] == db0
            &&& match outcome {
                Ok(transaction) => {
                    &&& states.len() == entities.len() + 1
                    &&& states.last().is_live(request)
                    &&& transaction == states.last().transactions[request]
                    &&& db1 == states.last().committed(request)
                    &&& world1 == flushed_records(world0, request)
                },
                Err(e) => {
                    &&& states.len() <= entities.len()
                    &&& wrote_one::<Q>(
                        states.last(),
                        world0,
                        storage,
                        entities[states.len() - 1],
                        db1,
                        Err(e),
                    )
                    &&& db1.is_live(request)
                    &&& world1 == world0
                },
            }
        };
    lemma_owns_one(entities, world0, request, only);
    assert(entities[0] == only);
    match outcome {
        Ok(transaction) => {
            assert(states.len() == 2);
            assert(wrote_one::<Q>(states[0], world0, storage, entities[0], states[1], Ok(())));
            assert(states.last() == states[1]);
            assert(written_back::<Q>(
                db0,
                world0[only.0 as int],
                Q::stored(storage, only),
                states[1],
                Ok(()),
            ));
        },
        Err(e) => {
            assert(states.len() == 1);
            assert(states.last() == states[0]);
        },
    }
}

/// The flush of a request that owns one entity, created in memory and not
/// persisted yet, is one INSERT of the shape for that entity, with what the
/// columns hold for it, and no UPDATE; the request is then retired and the
/// record is persisted and clean.
pub proof fn lemma_flush_inserts_what_was_created<Q: DBQueryInfo>(
    db0: HandleView<Q::Executor>,
    world0: Seq<DatabaseEntity>,
    storage: Q::Storage,
    request: RequestId,
    only: Entity,
    db1: HandleView<Q::Executor>,
    world1: Seq<DatabaseEntity>,
    transaction: Q::Executor,
)
    requires
        lists_owned(seq![only], world0, request),
        !world0[only.0 as int].persisted.0,
        flushed::<Q>(db0, world0, storage, request, db1, world1, Ok(transaction)),
    ensures
        exists|db_w: HandleView<Q::Executor>|
            {
                &&& #[trigger] Q::inserted(
                    db0,
                    world0[only.0 as int],
                    Q::stored(storage, only),
                    db_w,
                    Ok(()),
                )
                &&& transaction == db_w.transactions[request]
                &&& db1 == db_w.committed(request)
            },
        world1.len() == world0.len(),
        world1[only.0 as int] == world0[only.0 as int].written_back(),
        world1[only.0 as int].persisted.0 && !world1[only.0 as int].dirty,
        !db1.is_live(request),
{
    lemma_flush_of_one_entity::<Q>(db0, world0, storage, request, only, db1, world1, Ok(transaction));
    let db_w = choose|db_w: HandleView<Q::Executor>|
        {
            &&& #[trigger] written_back::<Q>(
                db0,
                world0[only.0 as int],
                Q::stored(storage, only),
                db_w,
                Ok(()),
            )
            &&& db_w.is_live(request)
            &&& transaction == db_w.transactions[request]
            &&& db1 == db_w.committed(request)
            &&& world1 == flushed_records(world0, request)
        };
    assert(Q::inserted(db0, world0[only.0 as int], Q::stored(storage, only), db_w, Ok(())));
    assert(seq![only][0] == only);
    lemma_flushed_records(world0, request, only.0 as int);
}

/// The flush of a request that owns one entity, persisted and changed in
/// memory, is one UPDATE of the shape for that entity, with what the columns
/// hold for it now, and no INSERT; the request is then retired and the record
/// is clean.
pub proof fn lemma_flush_updates_what_was_changed<Q: DBQueryInfo>(
    db0: HandleView<Q::Executor>,
    world0: Seq<DatabaseEntity>,
    storage: Q::Storage,
    request: RequestId,
    only: Entity,
    db1: HandleView<Q::Executor>,
    world1: Seq<DatabaseEntity>,
    transaction: Q::Executor,
)
    requires
        lists_owned(seq![only], world0, request),
        world0[only.0 as int].persisted.0,
        world0[only.0 as int].dirty,
        flushed::<Q>(db0, world0, storage, request, db1, world1, Ok(transaction)),
    ensures
        exists|db_w: HandleView<Q::Executor>|
            {
                &&& #[trigger] Q::updated(
                    db0,
                    world0[only.0 as int],
                    Q::stored(storage, only),
                    db_w,
                    Ok(()),
                )
                &&& transaction == db_w.transactions[request]
                &&& db1 == db_w.committed(request)
            },
        world1.len() == world0.len(),
        world1[only.0 as int] == world0[only.0 as int].written_back(),
        world1[only.0 as int].persisted.0 && !world1[only.0 as int].dirty,
        !db1.is_live(request),
{
    lemma_flush_of_one_entity::<Q>(db0, world0, storage, request, only, db1, world1, Ok(transaction));
    let db_w = choose|db_w: HandleView<Q::Executor>|
        {
            &&& #[trigger] written_back::<Q>(
                db0,
                world0[only.0 as int],
                Q::stored(storage, only),
                db_w,
                Ok(()),
            )
            &&& db_w.is_live(request)
            &&& transaction == db_w.transactions[request]
            &&& db1 == db_w.committed(request)
            &&& world1 == flushed_records(world0, request)
        };
    assert(Q::updated(db0, world0[only.0 as int], Q::stored(storage, only), db_w, Ok(())));
    assert(seq![only][0] == only);
    lemma_flushed_records(world0, request, only.0 as int);
}

} // verus!
