//! Tuples of shapes: queries over several components of one row.

use crate::composition::TupleMarker;
use crate::database_entity::{DatabaseEntity, DatabaseEntityId, DatabaseEntityWithRequest, RequestId};
use crate::database_query::{
    holds_minted,
    keys_free,
    minted,
    minted_only,
    not_loaded,
    selected_all,
    CustomDatabaseQuery,
    DBQueryInfo,
    DatabaseError,
    Memory,
    ReturnSelector,
};
use crate::database_resource::{DatabaseHandle, HandleView};
use crate::world::{holds_id, Entity, World};
use vstd::prelude::*;

verus! {

/// Once some of the keys that were free have been minted, and records were
/// added for them alone, the keys that follow are free still.
pub proof fn lemma_keys_free_after(
    min_key: i64,
    world0: Seq<DatabaseEntity>,
    world1: Seq<DatabaseEntity>,
    used: nat,
    next: nat,
    total: nat,
)
    requires
        used + next <= total,
        keys_free(min_key, world0, total),
        minted_only(world0, world1, min_key, used),
    ensures
        keys_free((min_key - used) as i64, world1, next),
{
    let base = (min_key - used) as i64;
    assert forall|k: int| 1 <= k <= next implies !holds_id(world1, #[trigger] minted(base, k)) by {
        let id = minted(base, k);
        assert(id == minted(min_key, used + k));
        if holds_id(world1, id) {
            let i = choose|i: int| 0 <= i < world1.len() && (#[trigger] world1[i]).id == id;
            assert(!holds_id(world0, minted(min_key, used + k)));
            assert(holds_minted(world1[i].id, min_key, used));
            let j = choose|j: int| 1 <= j <= used && world1[i].id == #[trigger] minted(min_key, j);
            assert(false);
        }
    }
}

/// Records that were added for some keys, and then for the keys that follow,
/// were added for keys of the whole range alone.
pub proof fn lemma_minted_only_then(
    world0: Seq<DatabaseEntity>,
    world1: Seq<DatabaseEntity>,
    world2: Seq<DatabaseEntity>,
    min_key: i64,
    used: nat,
    next: nat,
)
    requires
        min_key - used >= i64::MIN,
        minted_only(world0, world1, min_key, used),
        minted_only(world1, world2, (min_key - used) as i64, next),
    ensures
        minted_only(world0, world2, min_key, used + next),
{
    let base = (min_key - used) as i64;
    assert forall|i: int| 0 <= i < world2.len() implies holds_id(world0, (#[trigger] world2[i]).id)
        || holds_minted(world2[i].id, min_key, used + next) by {
        let id = world2[i].id;
        if holds_id(world1, id) {
            let j = choose|j: int| 0 <= j < world1.len() && (#[trigger] world1[j]).id == id;
            if !holds_id(world0, id) {
                assert(holds_minted(world1[j].id, min_key, used));
                let k = choose|k: int| 1 <= k <= used && id == #[trigger] minted(min_key, k);
                assert(1 <= k <= used + next && id == minted(min_key, k));
            }
        } else {
            assert(holds_minted(id, base, next));
            let k = choose|k: int| 1 <= k <= next && id == #[trigger] minted(base, k);
            assert(minted(base, k) == minted(min_key, used + k));
            assert(1 <= used + k <= used + next && id == minted(min_key, used + k));
        }
    }
}

/// A write that did not fail returned the one value that stands for success.
pub proof fn lemma_done(outcome: Result<(), DatabaseError>)
    requires
        outcome is Ok,
    ensures
        outcome == Ok::<(), DatabaseError>(()),
{
    assert(outcome->Ok_0 == ());
}

/// Both parts of a tuple were read, one after the other.
pub open spec fn got_all_2<Z: DBQueryInfo, A: DBQueryInfo<Executor = Z::Executor>>(
    before: Memory<Z::Executor>,
    z0: Z::Storage,
    a0: A::Storage,
    id: DatabaseEntityId,
    request: RequestId,
    after: Memory<Z::Executor>,
    z1: Z::Storage,
    a1: A::Storage,
    seen_z: Z::DerefItem,
    seen_a: A::DerefItem,
) -> bool {
    exists|m_z: Memory<Z::Executor>|
        {
            &&& #[trigger] Z::got(before, z0, id, request, m_z, z1, Ok(seen_z))
            &&& A::got(m_z, a0, id, request, after, a1, Ok(seen_a))
        }
}

/// One part of a tuple of two failed when it was read: the parts before
/// it had been read, and the parts behind it were not attempted.
pub open spec fn got_failed_2<Z: DBQueryInfo, A: DBQueryInfo<Executor = Z::Executor>>(
    before: Memory<Z::Executor>,
    z0: Z::Storage,
    a0: A::Storage,
    id: DatabaseEntityId,
    request: RequestId,
    after: Memory<Z::Executor>,
    z1: Z::Storage,
    a1: A::Storage,
    e: DatabaseError,
) -> bool {
    ||| {
        &&& Z::got(before, z0, id, request, after, z1, Err(e))
        &&& a1 == a0
    }
    ||| exists|m_z: Memory<Z::Executor>, seen_z: Z::DerefItem|
        {
            &&& #[trigger] Z::got(before, z0, id, request, m_z, z1, Ok(seen_z))
            &&& A::got(m_z, a0, id, request, after, a1, Err(e))
        }
}

/// Both parts of a tuple were read for change, one after the other.
pub open spec fn got_mut_all_2<Z: DBQueryInfo, A: DBQueryInfo<Executor = Z::Executor>>(
    before: Memory<Z::Executor>,
    z0: Z::Storage,
    a0: A::Storage,
    id: DatabaseEntityId,
    request: RequestId,
    after: Memory<Z::Executor>,
    z1: Z::Storage,
    a1: A::Storage,
    seen_z: Z::DerefItem,
    seen_a: A::DerefItem,
) -> bool {
    exists|m_z: Memory<Z::Executor>|
        {
            &&& #[trigger] Z::got_mut(before, z0, id, request, m_z, z1, Ok(seen_z))
            &&& A::got_mut(m_z, a0, id, request, after, a1, Ok(seen_a))
        }
}

/// One part of a tuple of two failed when it was read for change: the parts before
/// it had been read for change, and the parts behind it were not attempted.
pub open spec fn got_mut_failed_2<Z: DBQueryInfo, A: DBQueryInfo<Executor = Z::Executor>>(
    before: Memory<Z::Executor>,
    z0: Z::Storage,
    a0: A::Storage,
    id: DatabaseEntityId,
    request: RequestId,
    after: Memory<Z::Executor>,
    z1: Z::Storage,
    a1: A::Storage,
    e: DatabaseError,
) -> bool {
    ||| {
        &&& Z::got_mut(before, z0, id, request, after, z1, Err(e))
        &&& a1 == a0
    }
    ||| exists|m_z: Memory<Z::Executor>, seen_z: Z::DerefItem|
        {
            &&& #[trigger] Z::got_mut(before, z0, id, request, m_z, z1, Ok(seen_z))
            &&& A::got_mut(m_z, a0, id, request, after, a1, Err(e))
        }
}

/// Both parts of a tuple were updated, one after the other.
pub open spec fn updated_all_2<Z: DBQueryInfo, A: DBQueryInfo<Executor = Z::Executor>>(
    db0: HandleView<Z::Executor>,
    db_entity: DatabaseEntity,
    c_z: Z::DerefItem,
    c_a: A::DerefItem,
    db1: HandleView<Z::Executor>,
) -> bool {
    exists|db_z: HandleView<Z::Executor>|
        {
            &&& #[trigger] Z::updated(db0, db_entity, c_z, db_z, Ok(()))
            &&& A::updated(db_z, db_entity, c_a, db1, Ok(()))
        }
}

/// One part of a tuple of two failed to be updated: the parts before it had
/// been updated, and the parts behind it were not attempted.
pub open spec fn updated_failed_2<Z: DBQueryInfo, A: DBQueryInfo<Executor = Z::Executor>>(
    db0: HandleView<Z::Executor>,
    db_entity: DatabaseEntity,
    c_z: Z::DerefItem,
    c_a: A::DerefItem,
    db1: HandleView<Z::Executor>,
    e: DatabaseError,
) -> bool {
    ||| Z::updated(db0, db_entity, c_z, db1, Err(e))
    ||| exists|db_z: HandleView<Z::Executor>|
        {
            &&& #[trigger] Z::updated(db0, db_entity, c_z, db_z, Ok(()))
            &&& A::updated(db_z, db_entity, c_a, db1, Err(e))
        }
}

/// Both parts of a tuple were inserted, one after the other.
pub open spec fn inserted_all_2<Z: DBQueryInfo, A: DBQueryInfo<Executor = Z::Executor>>(
    db0: HandleView<Z::Executor>,
    db_entity: DatabaseEntity,
    c_z: Z::DerefItem,
    c_a: A::DerefItem,
    db1: HandleView<Z::Executor>,
) -> bool {
    exists|db_z: HandleView<Z::Executor>|
        {
            &&& #[trigger] Z::inserted(db0, db_entity, c_z, db_z, Ok(()))
            &&& A::inserted(db_z, db_entity, c_a, db1, Ok(()))
        }
}

/// One part of a tuple of two failed to be inserted: the parts before it had
/// been inserted, and the parts behind it were not attempted.
pub open spec fn inserted_failed_2<Z: DBQueryInfo, A: DBQueryInfo<Executor = Z::Executor>>(
    db0: HandleView<Z::Executor>,
    db_entity: DatabaseEntity,
    c_z: Z::DerefItem,
    c_a: A::DerefItem,
    db1: HandleView<Z::Executor>,
    e: DatabaseError,
) -> bool {
    ||| Z::inserted(db0, db_entity, c_z, db1, Err(e))
    ||| exists|db_z: HandleView<Z::Executor>|
        {
            &&& #[trigger] Z::inserted(db0, db_entity, c_z, db_z, Ok(()))
            &&& A::inserted(db_z, db_entity, c_a, db1, Err(e))
        }
}

/// Both parts of a tuple were created, one after the other.
pub open spec fn created_all_2<Z: DBQueryInfo, A: DBQueryInfo<Executor = Z::Executor>>(
    before: Memory<Z::Executor>,
    z0: Z::Storage,
    a0: A::Storage,
    c_z: Z::DerefItem,
    c_a: A::DerefItem,
    request: RequestId,
    after: Memory<Z::Executor>,
    z1: Z::Storage,
    a1: A::Storage,
) -> bool {
    exists|m_z: Memory<Z::Executor>|
        {
            &&& #[trigger] Z::created(before, z0, c_z, request, m_z, z1)
            &&& A::created(m_z, a0, c_a, request, after, a1)
        }
}

/// A tuple of two shapes over one database: the operations of the parts run
/// in the order of the parts, and the first failure ends the operation, so
/// that the parts behind it are not attempted.
impl<Z: TupleMarker, A: TupleMarker<Executor = Z::Executor>> DBQueryInfo for (Z, A) {
    type Executor = Z::Executor;

    type DerefItem = (Z::DerefItem, A::DerefItem);

    type Storage = (Z::Storage, A::Storage);

    type ReadOnlyItem<'a> = (Z::ReadOnlyItem<'a>, A::ReadOnlyItem<'a>);

    type Item<'a> = (Z::Item<'a>, A::Item<'a>);

    open spec fn present(storage: Self::Storage, entity: Entity) -> bool {
        &&& Z::present(storage.0, entity)
        &&& A::present(storage.1, entity)
    }

    open spec fn stored(storage: Self::Storage, entity: Entity) -> Self::DerefItem {
        (Z::stored(storage.0, entity), A::stored(storage.1, entity))
    }

    open spec fn read_value(item: Self::ReadOnlyItem<'_>) -> Self::DerefItem {
        (Z::read_value(item.0), A::read_value(item.1))
    }

    open spec fn item_value(item: Self::Item<'_>) -> Self::DerefItem {
        (Z::item_value(item.0), A::item_value(item.1))
    }

    open spec fn got(
        before: Memory<Self::Executor>,
        storage0: Self::Storage,
        id: DatabaseEntityId,
        request: RequestId,
        after: Memory<Self::Executor>,
        storage1: Self::Storage,
        outcome: Result<Self::DerefItem, DatabaseError>,
    ) -> bool {
        match outcome {
            Ok(seen) => got_all_2::<Z, A>(
                before,
                storage0.0,
                storage0.1,
                id,
                request,
                after,
                storage1.0,
                storage1.1,
                seen.0,
                seen.1,
            ),
            Err(e) => got_failed_2::<Z, A>(
                before,
                storage0.0,
                storage0.1,
                id,
                request,
                after,
                storage1.0,
                storage1.1,
                e,
            ),
        }
    }

    open spec fn got_mut(
        before: Memory<Self::Executor>,
        storage0: Self::Storage,
        id: DatabaseEntityId,
        request: RequestId,
        after: Memory<Self::Executor>,
        storage1: Self::Storage,
        outcome: Result<Self::DerefItem, DatabaseError>,
    ) -> bool {
        match outcome {
            Ok(seen) => got_mut_all_2::<Z, A>(
                before,
                storage0.0,
                storage0.1,
                id,
                request,
                after,
                storage1.0,
                storage1.1,
                seen.0,
                seen.1,
            ),
            Err(e) => got_mut_failed_2::<Z, A>(
                before,
                storage0.0,
                storage0.1,
                id,
                request,
                after,
                storage1.0,
                storage1.1,
                e,
            ),
        }
    }

    open spec fn writes(component: Self::DerefItem) -> bool {
        ||| Z::writes(component.0)
        ||| A::writes(component.1)
    }

    open spec fn updated(
        db0: HandleView<Self::Executor>,
        db_entity: DatabaseEntity,
        component: Self::DerefItem,
        db1: HandleView<Self::Executor>,
        outcome: Result<(), DatabaseError>,
    ) -> bool {
        match outcome {
            Ok(_) => updated_all_2::<Z, A>(db0, db_entity, component.0, component.1, db1),
            Err(e) => updated_failed_2::<Z, A>(db0, db_entity, component.0, component.1, db1, e),
        }
    }

    open spec fn inserted(
        db0: HandleView<Self::Executor>,
        db_entity: DatabaseEntity,
        component: Self::DerefItem,
        db1: HandleView<Self::Executor>,
        outcome: Result<(), DatabaseError>,
    ) -> bool {
        match outcome {
            Ok(_) => inserted_all_2::<Z, A>(db0, db_entity, component.0, component.1, db1),
            Err(e) => inserted_failed_2::<Z, A>(db0, db_entity, component.0, component.1, db1, e),
        }
    }

    open spec fn keys_needed(component: Self::DerefItem) -> nat {
        Z::keys_needed(component.0) + A::keys_needed(component.1)
    }

    open spec fn created(
        before: Memory<Self::Executor>,
        storage0: Self::Storage,
        component: Self::DerefItem,
        request: RequestId,
        after: Memory<Self::Executor>,
        storage1: Self::Storage,
    ) -> bool {
        created_all_2::<Z, A>(
            before,
            storage0.0,
            storage0.1,
            component.0,
            component.1,
            request,
            after,
            storage1.0,
            storage1.1,
        )
    }

    open spec fn loaded(
        query: spec_fn(
            Self::Executor,
            Self::Executor,
            Result<Seq<(DatabaseEntity, Self::DerefItem)>, DatabaseError>,
        ) -> bool,
        before: Memory<Self::Executor>,
        storage0: Self::Storage,
        request: RequestId,
        after: Memory<Self::Executor>,
        storage1: Self::Storage,
        entities: Result<Seq<Entity>, DatabaseError>,
    ) -> bool {
        not_loaded(before, storage0, after, storage1, entities)
    }

    fn get<'w, DbEntity: DatabaseEntityWithRequest>(
        db: &mut DatabaseHandle<Self::Executor>,
        world: &mut World,
        storage: &'w mut Self::Storage,
        db_entity: &DbEntity,
    ) -> (r: Result<Self::ReadOnlyItem<'w>, DatabaseError>) {
        let z = match Z::get(db, world, &mut storage.0, db_entity) {
            Ok(item) => item,
            Err(e) => {
                return Err(e);
            },
        };
        let a = match A::get(db, world, &mut storage.1, db_entity) {
            Ok(item) => item,
            Err(e) => {
                return Err(e);
            },
        };
        Ok((z, a))
    }

    fn get_mut<'w, DbEntity: DatabaseEntityWithRequest>(
        db: &mut DatabaseHandle<Self::Executor>,
        world: &mut World,
        storage: &'w mut Self::Storage,
        db_entity: &DbEntity,
    ) -> (r: Result<Self::Item<'w>, DatabaseError>) {
        let z = match Z::get_mut(db, world, &mut storage.0, db_entity) {
            Ok(item) => item,
            Err(e) => {
                return Err(e);
            },
        };
        let a = match A::get_mut(db, world, &mut storage.1, db_entity) {
            Ok(item) => item,
            Err(e) => {
                return Err(e);
            },
        };
        Ok((z, a))
    }

    fn read<'w>(storage: &'w Self::Storage, entity: Entity) -> (r: Option<Self::ReadOnlyItem<'w>>) {
        let z = match Z::read(&storage.0, entity) {
            Some(item) => item,
            None => {
                return None;
            },
        };
        let a = match A::read(&storage.1, entity) {
            Some(item) => item,
            None => {
                return None;
            },
        };
        Some((z, a))
    }

    fn update_component<'w>(
        db: &mut DatabaseHandle<Self::Executor>,
        db_entity: &DatabaseEntity,
        component: Self::ReadOnlyItem<'w>,
    ) -> (outcome: Result<(), DatabaseError>) {
        let (z, a) = component;
        let done_z = Z::update_component(db, db_entity, z);
        if let Err(e) = done_z {
            return Err(e);
        }
        proof {
            lemma_done(done_z);
        }
        let done_a = A::update_component(db, db_entity, a);
        if let Err(e) = done_a {
            return Err(e);
        }
        proof {
            lemma_done(done_a);
        }
        Ok(())
    }

    fn insert_component<'w>(
        db: &mut DatabaseHandle<Self::Executor>,
        db_entity: &DatabaseEntity,
        component: Self::ReadOnlyItem<'w>,
    ) -> (outcome: Result<(), DatabaseError>) {
        let (z, a) = component;
        let done_z = Z::insert_component(db, db_entity, z);
        if let Err(e) = done_z {
            return Err(e);
        }
        proof {
            lemma_done(done_z);
        }
        let done_a = A::insert_component(db, db_entity, a);
        if let Err(e) = done_a {
            return Err(e);
        }
        proof {
            lemma_done(done_a);
        }
        Ok(())
    }

    fn load_components<
        'w,
        R: ReturnSelector<Storage = Self::Storage>,
        CDQ: CustomDatabaseQuery<Self::Executor, Self::DerefItem>,
    >(
        db: &mut DatabaseHandle<Self::Executor>,
        world: &mut World,
        storage: &'w mut Self::Storage,
        request: RequestId,
        get_comp_from_db: CDQ,
    ) -> (r: Result<Vec<R::ReturnItem<'w>>, DatabaseError>) {
        proof {
            assert(selected_all::<R>(
                *storage,
                Err(DatabaseError::Unsupported),
                Err::<Vec<R::ReturnItem<'w>>, DatabaseError>(DatabaseError::Unsupported),
            ));
        }
        Err(DatabaseError::Unsupported)
    }

    fn create(
        db: &mut DatabaseHandle<Self::Executor>,
        world: &mut World,
        storage: &mut Self::Storage,
        component: Self::DerefItem,
        request: RequestId,
    ) -> (outcome: Result<(), DatabaseError>) {
        let (z, a) = component;
        let ghost total = Z::keys_needed(z) + A::keys_needed(a);
        let _ = Z::create(db, world, &mut storage.0, z, request);
        let ghost world_before = world@;
        proof {
            lemma_keys_free_after(
                old(db)@.min_key,
                old(world)@,
                world_before,
                Z::keys_needed(z),
                A::keys_needed(a),
                total,
            );
        }
        let _ = A::create(db, world, &mut storage.1, a, request);
        proof {
            lemma_minted_only_then(
                old(world)@,
                world_before,
                world@,
                old(db)@.min_key,
                Z::keys_needed(z),
                A::keys_needed(a),
            );
        }
        Ok(())
    }
}

/// All three parts of a tuple were read, one after the other.
pub open spec fn got_all_3<Z: DBQueryInfo, A: DBQueryInfo<Executor = Z::Executor>, B: DBQueryInfo<Executor = Z::Executor>>(
    before: Memory<Z::Executor>,
    z0: Z::Storage,
    a0: A::Storage,
    b0: B::Storage,
    id: DatabaseEntityId,
    request: RequestId,
    after: Memory<Z::Executor>,
    z1: Z::Storage,
    a1: A::Storage,
    b1: B::Storage,
    seen_z: Z::DerefItem,
    seen_a: A::DerefItem,
    seen_b: B::DerefItem,
) -> bool {
    exists|m_z: Memory<Z::Executor>, m_a: Memory<Z::Executor>|
        {
            &&& #[trigger] Z::got(before, z0, id, request, m_z, z1, Ok(seen_z))
            &&& #[trigger] A::got(m_z, a0, id, request, m_a, a1, Ok(seen_a))
            &&& B::got(m_a, b0, id, request, after, b1, Ok(seen_b))
        }
}

/// One part of a tuple of three failed when it was read: the parts before
/// it had been read, and the parts behind it were not attempted.
pub open spec fn got_failed_3<Z: DBQueryInfo, A: DBQueryInfo<Executor = Z::Executor>, B: DBQueryInfo<Executor = Z::Executor>>(
    before: Memory<Z::Executor>,
    z0: Z::Storage,
    a0: A::Storage,
    b0: B::Storage,
    id: DatabaseEntityId,
    request: RequestId,
    after: Memory<Z::Executor>,
    z1: Z::Storage,
    a1: A::Storage,
    b1: B::Storage,
    e: DatabaseError,
) -> bool {
    ||| {
        &&& Z::got(before, z0, id, request, after, z1, Err(e))
        &&& a1 == a0
        &&& b1 == b0
    }
    ||| exists|m_z: Memory<Z::Executor>, seen_z: Z::DerefItem|
        {
            &&& #[trigger] Z::got(before, z0, id, request, m_z, z1, Ok(seen_z))
            &&& A::got(m_z, a0, id, request, after, a1, Err(e))
            &&& b1 == b0
        }
    ||| exists|m_z: Memory<Z::Executor>, m_a: Memory<Z::Executor>, seen_z: Z::DerefItem, seen_a: A::DerefItem|
        {
            &&& #[trigger] Z::got(before, z0, id, request, m_z, z1, Ok(seen_z))
            &&& #[trigger] A::got(m_z, a0, id, request, m_a, a1, Ok(seen_a))
            &&& B::got(m_a, b0, id, request, after, b1, Err(e))
        }
}

/// All three parts of a tuple were read for change, one after the other.
pub open spec fn got_mut_all_3<Z: DBQueryInfo, A: DBQueryInfo<Executor = Z::Executor>, B: DBQueryInfo<Executor = Z::Executor>>(
    before: Memory<Z::Executor>,
    z0: Z::Storage,
    a0: A::Storage,
    b0: B::Storage,
    id: DatabaseEntityId,
    request: RequestId,
    after: Memory<Z::Executor>,
    z1: Z::Storage,
    a1: A::Storage,
    b1: B::Storage,
    seen_z: Z::DerefItem,
    seen_a: A::DerefItem,
    seen_b: B::DerefItem,
) -> bool {
    exists|m_z: Memory<Z::Executor>, m_a: Memory<Z::Executor>|
        {
            &&& #[trigger] Z::got_mut(before, z0, id, request, m_z, z1, Ok(seen_z))
            &&& #[trigger] A::got_mut(m_z, a0, id, request, m_a, a1, Ok(seen_a))
            &&& B::got_mut(m_a, b0, id, request, after, b1, Ok(seen_b))
        }
}

/// One part of a tuple of three failed when it was read for change: the parts before
/// it had been read for change, and the parts behind it were not attempted.
pub open spec fn got_mut_failed_3<Z: DBQueryInfo, A: DBQueryInfo<Executor = Z::Executor>, B: DBQueryInfo<Executor = Z::Executor>>(
    before: Memory<Z::Executor>,
    z0: Z::Storage,
    a0: A::Storage,
    b0: B::Storage,
    id: DatabaseEntityId,
    request: RequestId,
    after: Memory<Z::Executor>,
    z1: Z::Storage,
    a1: A::Storage,
    b1: B::Storage,
    e: DatabaseError,
) -> bool {
    ||| {
        &&& Z::got_mut(before, z0, id, request, after, z1, Err(e))
        &&& a1 == a0
        &&& b1 == b0
    }
    ||| exists|m_z: Memory<Z::Executor>, seen_z: Z::DerefItem|
        {
            &&& #[trigger] Z::got_mut(before, z0, id, request, m_z, z1, Ok(seen_z))
            &&& A::got_mut(m_z, a0, id, request, after, a1, Err(e))
            &&& b1 == b0
        }
    ||| exists|m_z: Memory<Z::Executor>, m_a: Memory<Z::Executor>, seen_z: Z::DerefItem, seen_a: A::DerefItem|
        {
            &&& #[trigger] Z::got_mut(before, z0, id, request, m_z, z1, Ok(seen_z))
            &&& #[trigger] A::got_mut(m_z, a0, id, request, m_a, a1, Ok(seen_a))
            &&& B::got_mut(m_a, b0, id, request, after, b1, Err(e))
        }
}

/// All three parts of a tuple were updated, one after the other.
pub open spec fn updated_all_3<Z: DBQueryInfo, A: DBQueryInfo<Executor = Z::Executor>, B: DBQueryInfo<Executor = Z::Executor>>(
    db0: HandleView<Z::Executor>,
    db_entity: DatabaseEntity,
    c_z: Z::DerefItem,
    c_a: A::DerefItem,
    c_b: B::DerefItem,
    db1: HandleView<Z::Executor>,
) -> bool {
    exists|db_z: HandleView<Z::Executor>, db_a: HandleView<Z::Executor>|
        {
            &&& #[trigger] Z::updated(db0, db_entity, c_z, db_z, Ok(()))
            &&& #[trigger] A::updated(db_z, db_entity, c_a, db_a, Ok(()))
            &&& B::updated(db_a, db_entity, c_b, db1, Ok(()))
        }
}

/// One part of a tuple of three failed to be updated: the parts before it had
/// been updated, and the parts behind it were not attempted.
pub open spec fn updated_failed_3<Z: DBQueryInfo, A: DBQueryInfo<Executor = Z::Executor>, B: DBQueryInfo<Executor = Z::Executor>>(
    db0: HandleView<Z::Executor>,
    db_entity: DatabaseEntity,
    c_z: Z::DerefItem,
    c_a: A::DerefItem,
    c_b: B::DerefItem,
    db1: HandleView<Z::Executor>,
    e: DatabaseError,
) -> bool {
    ||| Z::updated(db0, db_entity, c_z, db1, Err(e))
    ||| exists|db_z: HandleView<Z::Executor>|
        {
            &&& #[trigger] Z::updated(db0, db_entity, c_z, db_z, Ok(()))
            &&& A::updated(db_z, db_entity, c_a, db1, Err(e))
        }
    ||| exists|db_z: HandleView<Z::Executor>, db_a: HandleView<Z::Executor>|
        {
            &&& #[trigger] Z::updated(db0, db_entity, c_z, db_z, Ok(()))
            &&& #[trigger] A::updated(db_z, db_entity, c_a, db_a, Ok(()))
            &&& B::updated(db_a, db_entity, c_b, db1, Err(e))
        }
}

/// All three parts of a tuple were inserted, one after the other.
pub open spec fn inserted_all_3<Z: DBQueryInfo, A: DBQueryInfo<Executor = Z::Executor>, B: DBQueryInfo<Executor = Z::Executor>>(
    db0: HandleView<Z::Executor>,
    db_entity: DatabaseEntity,
    c_z: Z::DerefItem,
    c_a: A::DerefItem,
    c_b: B::DerefItem,
    db1: HandleView<Z::Executor>,
) -> bool {
    exists|db_z: HandleView<Z::Executor>, db_a: HandleView<Z::Executor>|
        {
            &&& #[trigger] Z::inserted(db0, db_entity, c_z, db_z, Ok(()))
            &&& #[trigger] A::inserted(db_z, db_entity, c_a, db_a, Ok(()))
            &&& B::inserted(db_a, db_entity, c_b, db1, Ok(()))
        }
}

/// One part of a tuple of three failed to be inserted: the parts before it had
/// been inserted, and the parts behind it were not attempted.
pub open spec fn inserted_failed_3<Z: DBQueryInfo, A: DBQueryInfo<Executor = Z::Executor>, B: DBQueryInfo<Executor = Z::Executor>>(
    db0: HandleView<Z::Executor>,
    db_entity: DatabaseEntity,
    c_z: Z::DerefItem,
    c_a: A::DerefItem,
    c_b: B::DerefItem,
    db1: HandleView<Z::Executor>,
    e: DatabaseError,
) -> bool {
    ||| Z::inserted(db0, db_entity, c_z, db1, Err(e))
    ||| exists|db_z: HandleView<Z::Executor>|
        {
            &&& #[trigger] Z::inserted(db0, db_entity, c_z, db_z, Ok(()))
            &&& A::inserted(db_z, db_entity, c_a, db1, Err(e))
        }
    ||| exists|db_z: HandleView<Z::Executor>, db_a: HandleView<Z::Executor>|
        {
            &&& #[trigger] Z::inserted(db0, db_entity, c_z, db_z, Ok(()))
            &&& #[trigger] A::inserted(db_z, db_entity, c_a, db_a, Ok(()))
            &&& B::inserted(db_a, db_entity, c_b, db1, Err(e))
        }
}

/// All three parts of a tuple were created, one after the other.
pub open spec fn created_all_3<Z: DBQueryInfo, A: DBQueryInfo<Executor = Z::Executor>, B: DBQueryInfo<Executor = Z::Executor>>(
    before: Memory<Z::Executor>,
    z0: Z::Storage,
    a0: A::Storage,
    b0: B::Storage,
    c_z: Z::DerefItem,
    c_a: A::DerefItem,
    c_b: B::DerefItem,
    request: RequestId,
    after: Memory<Z::Executor>,
    z1: Z::Storage,
    a1: A::Storage,
    b1: B::Storage,
) -> bool {
    exists|m_z: Memory<Z::Executor>, m_a: Memory<Z::Executor>|
        {
            &&& #[trigger] Z::created(before, z0, c_z, request, m_z, z1)
            &&& #[trigger] A::created(m_z, a0, c_a, request, m_a, a1)
            &&& B::created(m_a, b0, c_b, request, after, b1)
        }
}

/// A tuple of three shapes over one database: the operations of the parts run
/// in the order of the parts, and the first failure ends the operation, so
/// that the parts behind it are not attempted.
impl<Z: TupleMarker, A: TupleMarker<Executor = Z::Executor>, B: TupleMarker<Executor = Z::Executor>> DBQueryInfo for (Z, A, B) {
    type Executor = Z::Executor;

    type DerefItem = (Z::DerefItem, A::DerefItem, B::DerefItem);

    type Storage = (Z::Storage, A::Storage, B::Storage);

    type ReadOnlyItem<'a> = (Z::ReadOnlyItem<'a>, A::ReadOnlyItem<'a>, B::ReadOnlyItem<'a>);

    type Item<'a> = (Z::Item<'a>, A::Item<'a>, B::Item<'a>);

    open spec fn present(storage: Self::Storage, entity: Entity) -> bool {
        &&& Z::present(storage.0, entity)
        &&& A::present(storage.1, entity)
        &&& B::present(storage.2, entity)
    }

    open spec fn stored(storage: Self::Storage, entity: Entity) -> Self::DerefItem {
        (Z::stored(storage.0, entity), A::stored(storage.1, entity), B::stored(storage.2, entity))
    }

    open spec fn read_value(item: Self::ReadOnlyItem<'_>) -> Self::DerefItem {
        (Z::read_value(item.0), A::read_value(item.1), B::read_value(item.2))
    }

    open spec fn item_value(item: Self::Item<'_>) -> Self::DerefItem {
        (Z::item_value(item.0), A::item_value(item.1), B::item_value(item.2))
    }

    open spec fn got(
        before: Memory<Self::Executor>,
        storage0: Self::Storage,
        id: DatabaseEntityId,
        request: RequestId,
        after: Memory<Self::Executor>,
        storage1: Self::Storage,
        outcome: Result<Self::DerefItem, DatabaseError>,
    ) -> bool {
        match outcome {
            Ok(seen) => got_all_3::<Z, A, B>(
                before,
                storage0.0,
                storage0.1,
                storage0.2,
                id,
                request,
                after,
                storage1.0,
                storage1.1,
                storage1.2,
                seen.0,
                seen.1,
                seen.2,
            ),
            Err(e) => got_failed_3::<Z, A, B>(
                before,
                storage0.0,
                storage0.1,
                storage0.2,
                id,
                request,
                after,
                storage1.0,
                storage1.1,
                storage1.2,
                e,
            ),
        }
    }

    open spec fn got_mut(
        before: Memory<Self::Executor>,
        storage0: Self::Storage,
        id: DatabaseEntityId,
        request: RequestId,
        after: Memory<Self::Executor>,
        storage1: Self::Storage,
        outcome: Result<Self::DerefItem, DatabaseError>,
    ) -> bool {
        match outcome {
            Ok(seen) => got_mut_all_3::<Z, A, B>(
                before,
                storage0.0,
                storage0.1,
                storage0.2,
                id,
                request,
                after,
                storage1.0,
                storage1.1,
                storage1.2,
                seen.0,
                seen.1,
                seen.2,
            ),
            Err(e) => got_mut_failed_3::<Z, A, B>(
                before,
                storage0.0,
                storage0.1,
                storage0.2,
                id,
                request,
                after,
                storage1.0,
                storage1.1,
                storage1.2,
                e,
            ),
        }
    }

    open spec fn writes(component: Self::DerefItem) -> bool {
        ||| Z::writes(component.0)
        ||| A::writes(component.1)
        ||| B::writes(component.2)
    }

    open spec fn updated(
        db0: HandleView<Self::Executor>,
        db_entity: DatabaseEntity,
        component: Self::DerefItem,
        db1: HandleView<Self::Executor>,
        outcome: Result<(), DatabaseError>,
    ) -> bool {
        match outcome {
            Ok(_) => updated_all_3::<Z, A, B>(db0, db_entity, component.0, component.1, component.2, db1),
            Err(e) => updated_failed_3::<Z, A, B>(db0, db_entity, component.0, component.1, component.2, db1, e),
        }
    }

    open spec fn inserted(
        db0: HandleView<Self::Executor>,
        db_entity: DatabaseEntity,
        component: Self::DerefItem,
        db1: HandleView<Self::Executor>,
        outcome: Result<(), DatabaseError>,
    ) -> bool {
        match outcome {
            Ok(_) => inserted_all_3::<Z, A, B>(db0, db_entity, component.0, component.1, component.2, db1),
            Err(e) => inserted_failed_3::<Z, A, B>(db0, db_entity, component.0, component.1, component.2, db1, e),
        }
    }

    open spec fn keys_needed(component: Self::DerefItem) -> nat {
        Z::keys_needed(component.0) + A::keys_needed(component.1) + B::keys_needed(component.2)
    }

    open spec fn created(
        before: Memory<Self::Executor>,
        storage0: Self::Storage,
        component: Self::DerefItem,
        request: RequestId,
        after: Memory<Self::Executor>,
        storage1: Self::Storage,
    ) -> bool {
        created_all_3::<Z, A, B>(
            before,
            storage0.0,
            storage0.1,
            storage0.2,
            component.0,
            component.1,
            component.2,
            request,
            after,
            storage1.0,
            storage1.1,
            storage1.2,
        )
    }

    open spec fn loaded(
        query: spec_fn(
            Self::Executor,
            Self::Executor,
            Result<Seq<(DatabaseEntity, Self::DerefItem)>, DatabaseError>,
        ) -> bool,
        before: Memory<Self::Executor>,
        storage0: Self::Storage,
        request: RequestId,
        after: Memory<Self::Executor>,
        storage1: Self::Storage,
        entities: Result<Seq<Entity>, DatabaseError>,
    ) -> bool {
        not_loaded(before, storage0, after, storage1, entities)
    }

    fn get<'w, DbEntity: DatabaseEntityWithRequest>(
        db: &mut DatabaseHandle<Self::Executor>,
        world: &mut World,
        storage: &'w mut Self::Storage,
        db_entity: &DbEntity,
    ) -> (r: Result<Self::ReadOnlyItem<'w>, DatabaseError>) {
        let z = match Z::get(db, world, &mut storage.0, db_entity) {
            Ok(item) => item,
            Err(e) => {
                return Err(e);
            },
        };
        let a = match A::get(db, world, &mut storage.1, db_entity) {
            Ok(item) => item,
            Err(e) => {
                return Err(e);
            },
        };
        let b = match B::get(db, world, &mut storage.2, db_entity) {
            Ok(item) => item,
            Err(e) => {
                return Err(e);
            },
        };
        Ok((z, a, b))
    }

    fn get_mut<'w, DbEntity: DatabaseEntityWithRequest>(
        db: &mut DatabaseHandle<Self::Executor>,
        world: &mut World,
        storage: &'w mut Self::Storage,
        db_entity: &DbEntity,
    ) -> (r: Result<Self::Item<'w>, DatabaseError>) {
        let z = match Z::get_mut(db, world, &mut storage.0, db_entity) {
            Ok(item) => item,
            Err(e) => {
                return Err(e);
            },
        };
        let a = match A::get_mut(db, world, &mut storage.1, db_entity) {
            Ok(item) => item,
            Err(e) => {
                return Err(e);
            },
        };
        let b = match B::get_mut(db, world, &mut storage.2, db_entity) {
            Ok(item) => item,
            Err(e) => {
                return Err(e);
            },
        };
        Ok((z, a, b))
    }

    fn read<'w>(storage: &'w Self::Storage, entity: Entity) -> (r: Option<Self::ReadOnlyItem<'w>>) {
        let z = match Z::read(&storage.0, entity) {
            Some(item) => item,
            None => {
                return None;
            },
        };
        let a = match A::read(&storage.1, entity) {
            Some(item) => item,
            None => {
                return None;
            },
        };
        let b = match B::read(&storage.2, entity) {
            Some(item) => item,
            None => {
                return None;
            },
        };
        Some((z, a, b))
    }

    fn update_component<'w>(
        db: &mut DatabaseHandle<Self::Executor>,
        db_entity: &DatabaseEntity,
        component: Self::ReadOnlyItem<'w>,
    ) -> (outcome: Result<(), DatabaseError>) {
        let (z, a, b) = component;
        let done_z = Z::update_component(db, db_entity, z);
        if let Err(e) = done_z {
            return Err(e);
        }
        proof {
            lemma_done(done_z);
        }
        let done_a = A::update_component(db, db_entity, a);
        if let Err(e) = done_a {
            return Err(e);
        }
        proof {
            lemma_done(done_a);
        }
        let done_b = B::update_component(db, db_entity, b);
        if let Err(e) = done_b {
            return Err(e);
        }
        proof {
            lemma_done(done_b);
        }
        Ok(())
    }

    fn insert_component<'w>(
        db: &mut DatabaseHandle<Self::Executor>,
        db_entity: &DatabaseEntity,
        component: Self::ReadOnlyItem<'w>,
    ) -> (outcome: Result<(), DatabaseError>) {
        let (z, a, b) = component;
        let done_z = Z::insert_component(db, db_entity, z);
        if let Err(e) = done_z {
            return Err(e);
        }
        proof {
            lemma_done(done_z);
        }
        let done_a = A::insert_component(db, db_entity, a);
        if let Err(e) = done_a {
            return Err(e);
        }
        proof {
            lemma_done(done_a);
        }
        let done_b = B::insert_component(db, db_entity, b);
        if let Err(e) = done_b {
            return Err(e);
        }
        proof {
            lemma_done(done_b);
        }
        Ok(())
    }

    fn load_components<
        'w,
        R: ReturnSelector<Storage = Self::Storage>,
        CDQ: CustomDatabaseQuery<Self::Executor, Self::DerefItem>,
    >(
        db: &mut DatabaseHandle<Self::Executor>,
        world: &mut World,
        storage: &'w mut Self::Storage,
        request: RequestId,
        get_comp_from_db: CDQ,
    ) -> (r: Result<Vec<R::ReturnItem<'w>>, DatabaseError>) {
        proof {
            assert(selected_all::<R>(
                *storage,
                Err(DatabaseError::Unsupported),
                Err::<Vec<R::ReturnItem<'w>>, DatabaseError>(DatabaseError::Unsupported),
            ));
        }
        Err(DatabaseError::Unsupported)
    }

    fn create(
        db: &mut DatabaseHandle<Self::Executor>,
        world: &mut World,
        storage: &mut Self::Storage,
        component: Self::DerefItem,
        request: RequestId,
    ) -> (outcome: Result<(), DatabaseError>) {
        let (z, a, b) = component;
        let ghost total = Z::keys_needed(z) + A::keys_needed(a) + B::keys_needed(b);
        let _ = Z::create(db, world, &mut storage.0, z, request);
        let ghost world_before = world@;
        proof {
            lemma_keys_free_after(
                old(db)@.min_key,
                old(world)@,
                world_before,
                Z::keys_needed(z),
                A::keys_needed(a),
                total,
            );
        }
        let _ = A::create(db, world, &mut storage.1, a, request);
        proof {
            lemma_minted_only_then(
                old(world)@,
                world_before,
                world@,
                old(db)@.min_key,
                Z::keys_needed(z),
                A::keys_needed(a),
            );
        }
        let ghost world_before = world@;
        proof {
            lemma_keys_free_after(
                old(db)@.min_key,
                old(world)@,
                world_before,
                Z::keys_needed(z) + A::keys_needed(a),
                B::keys_needed(b),
                total,
            );
        }
        let _ = B::create(db, world, &mut storage.2, b, request);
        proof {
            lemma_minted_only_then(
                old(world)@,
                world_before,
                world@,
                old(db)@.min_key,
                Z::keys_needed(z) + A::keys_needed(a),
                B::keys_needed(b),
            );
        }
        Ok(())
    }
}

/// All four parts of a tuple were read, one after the other.
pub open spec fn got_all_4<Z: DBQueryInfo, A: DBQueryInfo<Executor = Z::Executor>, B: DBQueryInfo<Executor = Z::Executor>, C: DBQueryInfo<Executor = Z::Executor>>(
    before: Memory<Z::Executor>,
    z0: Z::Storage,
    a0: A::Storage,
    b0: B::Storage,
    c0: C::Storage,
    id: DatabaseEntityId,
    request: RequestId,
    after: Memory<Z::Executor>,
    z1: Z::Storage,
    a1: A::Storage,
    b1: B::Storage,
    c1: C::Storage,
    seen_z: Z::DerefItem,
    seen_a: A::DerefItem,
    seen_b: B::DerefItem,
    seen_c: C::DerefItem,
) -> bool {
    exists|m_z: Memory<Z::Executor>, m_a: Memory<Z::Executor>, m_b: Memory<Z::Executor>|
        {
            &&& #[trigger] Z::got(before, z0, id, request, m_z, z1, Ok(seen_z))
            &&& #[trigger] A::got(m_z, a0, id, request, m_a, a1, Ok(seen_a))
            &&& #[trigger] B::got(m_a, b0, id, request, m_b, b1, Ok(seen_b))
            &&& C::got(m_b, c0, id, request, after, c1, Ok(seen_c))
        }
}

/// One part of a tuple of four failed when it was read: the parts before
/// it had been read, and the parts behind it were not attempted.
pub open spec fn got_failed_4<Z: DBQueryInfo, A: DBQueryInfo<Executor = Z::Executor>, B: DBQueryInfo<Executor = Z::Executor>, C: DBQueryInfo<Executor = Z::Executor>>(
    before: Memory<Z::Executor>,
    z0: Z::Storage,
    a0: A::Storage,
    b0: B::Storage,
    c0: C::Storage,
    id: DatabaseEntityId,
    request: RequestId,
    after: Memory<Z::Executor>,
    z1: Z::Storage,
    a1: A::Storage,
    b1: B::Storage,
    c1: C::Storage,
    e: DatabaseError,
) -> bool {
    ||| {
        &&& Z::got(before, z0, id, request, after, z1, Err(e))
        &&& a1 == a0
        &&& b1 == b0
        &&& c1 == c0
    }
    ||| exists|m_z: Memory<Z::Executor>, seen_z: Z::DerefItem|
        {
            &&& #[trigger] Z::got(before, z0, id, request, m_z, z1, Ok(seen_z))
            &&& A::got(m_z, a0, id, request, after, a1, Err(e))
            &&& b1 == b0
            &&& c1 == c0
        }
    ||| exists|m_z: Memory<Z::Executor>, m_a: Memory<Z::Executor>, seen_z: Z::DerefItem, seen_a: A::DerefItem|
        {
            &&& #[trigger] Z::got(before, z0, id, request, m_z, z1, Ok(seen_z))
            &&& #[trigger] A::got(m_z, a0, id, request, m_a, a1, Ok(seen_a))
            &&& B::got(m_a, b0, id, request, after, b1, Err(e))
            &&& c1 == c0
        }
    ||| exists|m_z: Memory<Z::Executor>, m_a: Memory<Z::Executor>, m_b: Memory<Z::Executor>, seen_z: Z::DerefItem, seen_a: A::DerefItem, seen_b: B::DerefItem|
        {
            &&& #[trigger] Z::got(before, z0, id, request, m_z, z1, Ok(seen_z))
            &&& #[trigger] A::got(m_z, a0, id, request, m_a, a1, Ok(seen_a))
            &&& #[trigger] B::got(m_a, b0, id, request, m_b, b1, Ok(seen_b))
            &&& C::got(m_b, c0, id, request, after, c1, Err(e))
        }
}

/// All four parts of a tuple were read for change, one after the other.
pub open spec fn got_mut_all_4<Z: DBQueryInfo, A: DBQueryInfo<Executor = Z::Executor>, B: DBQueryInfo<Executor = Z::Executor>, C: DBQueryInfo<Executor = Z::Executor>>(
    before: Memory<Z::Executor>,
    z0: Z::Storage,
    a0: A::Storage,
    b0: B::Storage,
    c0: C::Storage,
    id: DatabaseEntityId,
    request: RequestId,
    after: Memory<Z::Executor>,
    z1: Z::Storage,
    a1: A::Storage,
    b1: B::Storage,
    c1: C::Storage,
    seen_z: Z::DerefItem,
    seen_a: A::DerefItem,
    seen_b: B::DerefItem,
    seen_c: C::DerefItem,
) -> bool {
    exists|m_z: Memory<Z::Executor>, m_a: Memory<Z::Executor>, m_b: Memory<Z::Executor>|
        {
            &&& #[trigger] Z::got_mut(before, z0, id, request, m_z, z1, Ok(seen_z))
            &&& #[trigger] A::got_mut(m_z, a0, id, request, m_a, a1, Ok(seen_a))
            &&& #[trigger] B::got_mut(m_a, b0, id, request, m_b, b1, Ok(seen_b))
            &&& C::got_mut(m_b, c0, id, request, after, c1, Ok(seen_c))
        }
}

/// One part of a tuple of four failed when it was read for change: the parts before
/// it had been read for change, and the parts behind it were not attempted.
pub open spec fn got_mut_failed_4<Z: DBQueryInfo, A: DBQueryInfo<Executor = Z::Executor>, B: DBQueryInfo<Executor = Z::Executor>, C: DBQueryInfo<Executor = Z::Executor>>(
    before: Memory<Z::Executor>,
    z0: Z::Storage,
    a0: A::Storage,
    b0: B::Storage,
    c0: C::Storage,
    id: DatabaseEntityId,
    request: RequestId,
    after: Memory<Z::Executor>,
    z1: Z::Storage,
    a1: A::Storage,
    b1: B::Storage,
    c1: C::Storage,
    e: DatabaseError,
) -> bool {
    ||| {
        &&& Z::got_mut(before, z0, id, request, after, z1, Err(e))
        &&& a1 == a0
        &&& b1 == b0
        &&& c1 == c0
    }
    ||| exists|m_z: Memory<Z::Executor>, seen_z: Z::DerefItem|
        {
            &&& #[trigger] Z::got_mut(before, z0, id, request, m_z, z1, Ok(seen_z))
            &&& A::got_mut(m_z, a0, id, request, after, a1, Err(e))
            &&& b1 == b0
            &&& c1 == c0
        }
    ||| exists|m_z: Memory<Z::Executor>, m_a: Memory<Z::Executor>, seen_z: Z::DerefItem, seen_a: A::DerefItem|
        {
            &&& #[trigger] Z::got_mut(before, z0, id, request, m_z, z1, Ok(seen_z))
            &&& #[trigger] A::got_mut(m_z, a0, id, request, m_a, a1, Ok(seen_a))
            &&& B::got_mut(m_a, b0, id, request, after, b1, Err(e))
            &&& c1 == c0
        }
    ||| exists|m_z: Memory<Z::Executor>, m_a: Memory<Z::Executor>, m_b: Memory<Z::Executor>, seen_z: Z::DerefItem, seen_a: A::DerefItem, seen_b: B::DerefItem|
        {
            &&& #[trigger] Z::got_mut(before, z0, id, request, m_z, z1, Ok(seen_z))
            &&& #[trigger] A::got_mut(m_z, a0, id, request, m_a, a1, Ok(seen_a))
            &&& #[trigger] B::got_mut(m_a, b0, id, request, m_b, b1, Ok(seen_b))
            &&& C::got_mut(m_b, c0, id, request, after, c1, Err(e))
        }
}

/// All four parts of a tuple were updated, one after the other.
pub open spec fn updated_all_4<Z: DBQueryInfo, A: DBQueryInfo<Executor = Z::Executor>, B: DBQueryInfo<Executor = Z::Executor>, C: DBQueryInfo<Executor = Z::Executor>>(
    db0: HandleView<Z::Executor>,
    db_entity: DatabaseEntity,
    c_z: Z::DerefItem,
    c_a: A::DerefItem,
    c_b: B::DerefItem,
    c_c: C::DerefItem,
    db1: HandleView<Z::Executor>,
) -> bool {
    exists|db_z: HandleView<Z::Executor>, db_a: HandleView<Z::Executor>, db_b: HandleView<Z::Executor>|
        {
            &&& #[trigger] Z::updated(db0, db_entity, c_z, db_z, Ok(()))
            &&& #[trigger] A::updated(db_z, db_entity, c_a, db_a, Ok(()))
            &&& #[trigger] B::updated(db_a, db_entity, c_b, db_b, Ok(()))
            &&& C::updated(db_b, db_entity, c_c, db1, Ok(()))
        }
}

/// One part of a tuple of four failed to be updated: the parts before it had
/// been updated, and the parts behind it were not attempted.
pub open spec fn updated_failed_4<Z: DBQueryInfo, A: DBQueryInfo<Executor = Z::Executor>, B: DBQueryInfo<Executor = Z::Executor>, C: DBQueryInfo<Executor = Z::Executor>>(
    db0: HandleView<Z::Executor>,
    db_entity: DatabaseEntity,
    c_z: Z::DerefItem,
    c_a: A::DerefItem,
    c_b: B::DerefItem,
    c_c: C::DerefItem,
    db1: HandleView<Z::Executor>,
    e: DatabaseError,
) -> bool {
    ||| Z::updated(db0, db_entity, c_z, db1, Err(e))
    ||| exists|db_z: HandleView<Z::Executor>|
        {
            &&& #[trigger] Z::updated(db0, db_entity, c_z, db_z, Ok(()))
            &&& A::updated(db_z, db_entity, c_a, db1, Err(e))
        }
    ||| exists|db_z: HandleView<Z::Executor>, db_a: HandleView<Z::Executor>|
        {
            &&& #[trigger] Z::updated(db0, db_entity, c_z, db_z, Ok(()))
            &&& #[trigger] A::updated(db_z, db_entity, c_a, db_a, Ok(()))
            &&& B::updated(db_a, db_entity, c_b, db1, Err(e))
        }
    ||| exists|db_z: HandleView<Z::Executor>, db_a: HandleView<Z::Executor>, db_b: HandleView<Z::Executor>|
        {
            &&& #[trigger] Z::updated(db0, db_entity, c_z, db_z, Ok(()))
            &&& #[trigger] A::updated(db_z, db_entity, c_a, db_a, Ok(()))
            &&& #[trigger] B::updated(db_a, db_entity, c_b, db_b, Ok(()))
            &&& C::updated(db_b, db_entity, c_c, db1, Err(e))
        }
}

/// All four parts of a tuple were inserted, one after the other.
pub open spec fn inserted_all_4<Z: DBQueryInfo, A: DBQueryInfo<Executor = Z::Executor>, B: DBQueryInfo<Executor = Z::Executor>, C: DBQueryInfo<Executor = Z::Executor>>(
    db0: HandleView<Z::Executor>,
    db_entity: DatabaseEntity,
    c_z: Z::DerefItem,
    c_a: A::DerefItem,
    c_b: B::DerefItem,
    c_c: C::DerefItem,
    db1: HandleView<Z::Executor>,
) -> bool {
    exists|db_z: HandleView<Z::Executor>, db_a: HandleView<Z::Executor>, db_b: HandleView<Z::Executor>|
        {
            &&& #[trigger] Z::inserted(db0, db_entity, c_z, db_z, Ok(()))
            &&& #[trigger] A::inserted(db_z, db_entity, c_a, db_a, Ok(()))
            &&& #[trigger] B::inserted(db_a, db_entity, c_b, db_b, Ok(()))
            &&& C::inserted(db_b, db_entity, c_c, db1, Ok(()))
        }
}

/// One part of a tuple of four failed to be inserted: the parts before it had
/// been inserted, and the parts behind it were not attempted.
pub open spec fn inserted_failed_4<Z: DBQueryInfo, A: DBQueryInfo<Executor = Z::Executor>, B: DBQueryInfo<Executor = Z::Executor>, C: DBQueryInfo<Executor = Z::Executor>>(
    db0: HandleView<Z::Executor>,
    db_entity: DatabaseEntity,
    c_z: Z::DerefItem,
    c_a: A::DerefItem,
    c_b: B::DerefItem,
    c_c: C::DerefItem,
    db1: HandleView<Z::Executor>,
    e: DatabaseError,
) -> bool {
    ||| Z::inserted(db0, db_entity, c_z, db1, Err(e))
    ||| exists|db_z: HandleView<Z::Executor>|
        {
            &&& #[trigger] Z::inserted(db0, db_entity, c_z, db_z, Ok(()))
            &&& A::inserted(db_z, db_entity, c_a, db1, Err(e))
        }
    ||| exists|db_z: HandleView<Z::Executor>, db_a: HandleView<Z::Executor>|
        {
            &&& #[trigger] Z::inserted(db0, db_entity, c_z, db_z, Ok(()))
            &&& #[trigger] A::inserted(db_z, db_entity, c_a, db_a, Ok(()))
            &&& B::inserted(db_a, db_entity, c_b, db1, Err(e))
        }
    ||| exists|db_z: HandleView<Z::Executor>, db_a: HandleView<Z::Executor>, db_b: HandleView<Z::Executor>|
        {
            &&& #[trigger] Z::inserted(db0, db_entity, c_z, db_z, Ok(()))
            &&& #[trigger] A::inserted(db_z, db_entity, c_a, db_a, Ok(()))
            &&& #[trigger] B::inserted(db_a, db_entity, c_b, db_b, Ok(()))
            &&& C::inserted(db_b, db_entity, c_c, db1, Err(e))
        }
}

/// All four parts of a tuple were created, one after the other.
pub open spec fn created_all_4<Z: DBQueryInfo, A: DBQueryInfo<Executor = Z::Executor>, B: DBQueryInfo<Executor = Z::Executor>, C: DBQueryInfo<Executor = Z::Executor>>(
    before: Memory<Z::Executor>,
    z0: Z::Storage,
    a0: A::Storage,
    b0: B::Storage,
    c0: C::Storage,
    c_z: Z::DerefItem,
    c_a: A::DerefItem,
    c_b: B::DerefItem,
    c_c: C::DerefItem,
    request: RequestId,
    after: Memory<Z::Executor>,
    z1: Z::Storage,
    a1: A::Storage,
    b1: B::Storage,
    c1: C::Storage,
) -> bool {
    exists|m_z: Memory<Z::Executor>, m_a: Memory<Z::Executor>, m_b: Memory<Z::Executor>|
        {
            &&& #[trigger] Z::created(before, z0, c_z, request, m_z, z1)
            &&& #[trigger] A::created(m_z, a0, c_a, request, m_a, a1)
            &&& #[trigger] B::created(m_a, b0, c_b, request, m_b, b1)
            &&& C::created(m_b, c0, c_c, request, after, c1)
        }
}

/// A tuple of four shapes over one database: the operations of the parts run
/// in the order of the parts, and the first failure ends the operation, so
/// that the parts behind it are not attempted.
impl<Z: TupleMarker, A: TupleMarker<Executor = Z::Executor>, B: TupleMarker<Executor = Z::Executor>, C: TupleMarker<Executor = Z::Executor>> DBQueryInfo for (Z, A, B, C) {
    type Executor = Z::Executor;

    type DerefItem = (Z::DerefItem, A::DerefItem, B::DerefItem, C::DerefItem);

    type Storage = (Z::Storage, A::Storage, B::Storage, C::Storage);

    type ReadOnlyItem<'a> = (Z::ReadOnlyItem<'a>, A::ReadOnlyItem<'a>, B::ReadOnlyItem<'a>, C::ReadOnlyItem<'a>);

    type Item<'a> = (Z::Item<'a>, A::Item<'a>, B::Item<'a>, C::Item<'a>);

    open spec fn present(storage: Self::Storage, entity: Entity) -> bool {
        &&& Z::present(storage.0, entity)
        &&& A::present(storage.1, entity)
        &&& B::present(storage.2, entity)
        &&& C::present(storage.3, entity)
    }

    open spec fn stored(storage: Self::Storage, entity: Entity) -> Self::DerefItem {
        (Z::stored(storage.0, entity), A::stored(storage.1, entity), B::stored(storage.2, entity), C::stored(storage.3, entity))
    }

    open spec fn read_value(item: Self::ReadOnlyItem<'_>) -> Self::DerefItem {
        (Z::read_value(item.0), A::read_value(item.1), B::read_value(item.2), C::read_value(item.3))
    }

    open spec fn item_value(item: Self::Item<'_>) -> Self::DerefItem {
        (Z::item_value(item.0), A::item_value(item.1), B::item_value(item.2), C::item_value(item.3))
    }

    open spec fn got(
        before: Memory<Self::Executor>,
        storage0: Self::Storage,
        id: DatabaseEntityId,
        request: RequestId,
        after: Memory<Self::Executor>,
        storage1: Self::Storage,
        outcome: Result<Self::DerefItem, DatabaseError>,
    ) -> bool {
        match outcome {
            Ok(seen) => got_all_4::<Z, A, B, C>(
                before,
                storage0.0,
                storage0.1,
                storage0.2,
                storage0.3,
                id,
                request,
                after,
                storage1.0,
                storage1.1,
                storage1.2,
                storage1.3,
                seen.0,
                seen.1,
                seen.2,
                seen.3,
            ),
            Err(e) => got_failed_4::<Z, A, B, C>(
                before,
                storage0.0,
                storage0.1,
                storage0.2,
                storage0.3,
                id,
                request,
                after,
                storage1.0,
                storage1.1,
                storage1.2,
                storage1.3,
                e,
            ),
        }
    }

    open spec fn got_mut(
        before: Memory<Self::Executor>,
        storage0: Self::Storage,
        id: DatabaseEntityId,
        request: RequestId,
        after: Memory<Self::Executor>,
        storage1: Self::Storage,
        outcome: Result<Self::DerefItem, DatabaseError>,
    ) -> bool {
        match outcome {
            Ok(seen) => got_mut_all_4::<Z, A, B, C>(
                before,
                storage0.0,
                storage0.1,
                storage0.2,
                storage0.3,
                id,
                request,
                after,
                storage1.0,
                storage1.1,
                storage1.2,
                storage1.3,
                seen.0,
                seen.1,
                seen.2,
                seen.3,
            ),
            Err(e) => got_mut_failed_4::<Z, A, B, C>(
                before,
                storage0.0,
                storage0.1,
                storage0.2,
                storage0.3,
                id,
                request,
                after,
                storage1.0,
                storage1.1,
                storage1.2,
                storage1.3,
                e,
            ),
        }
    }

    open spec fn writes(component: Self::DerefItem) -> bool {
        ||| Z::writes(component.0)
        ||| A::writes(component.1)
        ||| B::writes(component.2)
        ||| C::writes(component.3)
    }

    open spec fn updated(
        db0: HandleView<Self::Executor>,
        db_entity: DatabaseEntity,
        component: Self::DerefItem,
        db1: HandleView<Self::Executor>,
        outcome: Result<(), DatabaseError>,
    ) -> bool {
        match outcome {
            Ok(_) => updated_all_4::<Z, A, B, C>(db0, db_entity, component.0, component.1, component.2, component.3, db1),
            Err(e) => updated_failed_4::<Z, A, B, C>(db0, db_entity, component.0, component.1, component.2, component.3, db1, e),
        }
    }

    open spec fn inserted(
        db0: HandleView<Self::Executor>,
        db_entity: DatabaseEntity,
        component: Self::DerefItem,
        db1: HandleView<Self::Executor>,
        outcome: Result<(), DatabaseError>,
    ) -> bool {
        match outcome {
            Ok(_) => inserted_all_4::<Z, A, B, C>(db0, db_entity, component.0, component.1, component.2, component.3, db1),
            Err(e) => inserted_failed_4::<Z, A, B, C>(db0, db_entity, component.0, component.1, component.2, component.3, db1, e),
        }
    }

    open spec fn keys_needed(component: Self::DerefItem) -> nat {
        Z::keys_needed(component.0) + A::keys_needed(component.1) + B::keys_needed(component.2) + C::keys_needed(component.3)
    }

    open spec fn created(
        before: Memory<Self::Executor>,
        storage0: Self::Storage,
        component: Self::DerefItem,
        request: RequestId,
        after: Memory<Self::Executor>,
        storage1: Self::Storage,
    ) -> bool {
        created_all_4::<Z, A, B, C>(
            before,
            storage0.0,
            storage0.1,
            storage0.2,
            storage0.3,
            component.0,
            component.1,
            component.2,
            component.3,
            request,
            after,
            storage1.0,
            storage1.1,
            storage1.2,
            storage1.3,
        )
    }

    open spec fn loaded(
        query: spec_fn(
            Self::Executor,
            Self::Executor,
            Result<Seq<(DatabaseEntity, Self::DerefItem)>, DatabaseError>,
        ) -> bool,
        before: Memory<Self::Executor>,
        storage0: Self::Storage,
        request: RequestId,
        after: Memory<Self::Executor>,
        storage1: Self::Storage,
        entities: Result<Seq<Entity>, DatabaseError>,
    ) -> bool {
        not_loaded(before, storage0, after, storage1, entities)
    }

    fn get<'w, DbEntity: DatabaseEntityWithRequest>(
        db: &mut DatabaseHandle<Self::Executor>,
        world: &mut World,
        storage: &'w mut Self::Storage,
        db_entity: &DbEntity,
    ) -> (r: Result<Self::ReadOnlyItem<'w>, DatabaseError>) {
        let z = match Z::get(db, world, &mut storage.0, db_entity) {
            Ok(item) => item,
            Err(e) => {
                return Err(e);
            },
        };
        let a = match A::get(db, world, &mut storage.1, db_entity) {
            Ok(item) => item,
            Err(e) => {
                return Err(e);
            },
        };
        let b = match B::get(db, world, &mut storage.2, db_entity) {
            Ok(item) => item,
            Err(e) => {
                return Err(e);
            },
        };
        let c = match C::get(db, world, &mut storage.3, db_entity) {
            Ok(item) => item,
            Err(e) => {
                return Err(e);
            },
        };
        Ok((z, a, b, c))
    }

    fn get_mut<'w, DbEntity: DatabaseEntityWithRequest>(
        db: &mut DatabaseHandle<Self::Executor>,
        world: &mut World,
        storage: &'w mut Self::Storage,
        db_entity: &DbEntity,
    ) -> (r: Result<Self::Item<'w>, DatabaseError>) {
        let z = match Z::get_mut(db, world, &mut storage.0, db_entity) {
            Ok(item) => item,
            Err(e) => {
                return Err(e);
            },
        };
        let a = match A::get_mut(db, world, &mut storage.1, db_entity) {
            Ok(item) => item,
            Err(e) => {
                return Err(e);
            },
        };
        let b = match B::get_mut(db, world, &mut storage.2, db_entity) {
            Ok(item) => item,
            Err(e) => {
                return Err(e);
            },
        };
        let c = match C::get_mut(db, world, &mut storage.3, db_entity) {
            Ok(item) => item,
            Err(e) => {
                return Err(e);
            },
        };
        Ok((z, a, b, c))
    }

    fn read<'w>(storage: &'w Self::Storage, entity: Entity) -> (r: Option<Self::ReadOnlyItem<'w>>) {
        let z = match Z::read(&storage.0, entity) {
            Some(item) => item,
            None => {
                return None;
            },
        };
        let a = match A::read(&storage.1, entity) {
            Some(item) => item,
            None => {
                return None;
            },
        };
        let b = match B::read(&storage.2, entity) {
            Some(item) => item,
            None => {
                return None;
            },
        };
        let c = match C::read(&storage.3, entity) {
            Some(item) => item,
            None => {
                return None;
            },
        };
        Some((z, a, b, c))
    }

    fn update_component<'w>(
        db: &mut DatabaseHandle<Self::Executor>,
        db_entity: &DatabaseEntity,
        component: Self::ReadOnlyItem<'w>,
    ) -> (outcome: Result<(), DatabaseError>) {
        let (z, a, b, c) = component;
        let done_z = Z::update_component(db, db_entity, z);
        if let Err(e) = done_z {
            return Err(e);
        }
        proof {
            lemma_done(done_z);
        }
        let done_a = A::update_component(db, db_entity, a);
        if let Err(e) = done_a {
            return Err(e);
        }
        proof {
            lemma_done(done_a);
        }
        let done_b = B::update_component(db, db_entity, b);
        if let Err(e) = done_b {
            return Err(e);
        }
        proof {
            lemma_done(done_b);
        }
        let done_c = C::update_component(db, db_entity, c);
        if let Err(e) = done_c {
            return Err(e);
        }
        proof {
            lemma_done(done_c);
        }
        Ok(())
    }

    fn insert_component<'w>(
        db: &mut DatabaseHandle<Self::Executor>,
        db_entity: &DatabaseEntity,
        component: Self::ReadOnlyItem<'w>,
    ) -> (outcome: Result<(), DatabaseError>) {
        let (z, a, b, c) = component;
        let done_z = Z::insert_component(db, db_entity, z);
        if let Err(e) = done_z {
            return Err(e);
        }
        proof {
            lemma_done(done_z);
        }
        let done_a = A::insert_component(db, db_entity, a);
        if let Err(e) = done_a {
            return Err(e);
        }
        proof {
            lemma_done(done_a);
        }
        let done_b = B::insert_component(db, db_entity, b);
        if let Err(e) = done_b {
            return Err(e);
        }
        proof {
            lemma_done(done_b);
        }
        let done_c = C::insert_component(db, db_entity, c);
        if let Err(e) = done_c {
            return Err(e);
        }
        proof {
            lemma_done(done_c);
        }
        Ok(())
    }

    fn load_components<
        'w,
        R: ReturnSelector<Storage = Self::Storage>,
        CDQ: CustomDatabaseQuery<Self::Executor, Self::DerefItem>,
    >(
        db: &mut DatabaseHandle<Self::Executor>,
        world: &mut World,
        storage: &'w mut Self::Storage,
        request: RequestId,
        get_comp_from_db: CDQ,
    ) -> (r: Result<Vec<R::ReturnItem<'w>>, DatabaseError>) {
        proof {
            assert(selected_all::<R>(
                *storage,
                Err(DatabaseError::Unsupported),
                Err::<Vec<R::ReturnItem<'w>>, DatabaseError>(DatabaseError::Unsupported),
            ));
        }
        Err(DatabaseError::Unsupported)
    }

    fn create(
        db: &mut DatabaseHandle<Self::Executor>,
        world: &mut World,
        storage: &mut Self::Storage,
        component: Self::DerefItem,
        request: RequestId,
    ) -> (outcome: Result<(), DatabaseError>) {
        let (z, a, b, c) = component;
        let ghost total = Z::keys_needed(z) + A::keys_needed(a) + B::keys_needed(b) + C::keys_needed(c);
        let _ = Z::create(db, world, &mut storage.0, z, request);
        let ghost world_before = world@;
        proof {
            lemma_keys_free_after(
                old(db)@.min_key,
                old(world)@,
                world_before,
                Z::keys_needed(z),
                A::keys_needed(a),
                total,
            );
        }
        let _ = A::create(db, world, &mut storage.1, a, request);
        proof {
            lemma_minted_only_then(
                old(world)@,
                world_before,
                world@,
                old(db)@.min_key,
                Z::keys_needed(z),
                A::keys_needed(a),
            );
        }
        let ghost world_before = world@;
        proof {
            lemma_keys_free_after(
                old(db)@.min_key,
                old(world)@,
                world_before,
                Z::keys_needed(z) + A::keys_needed(a),
                B::keys_needed(b),
                total,
            );
        }
        let _ = B::create(db, world, &mut storage.2, b, request);
        proof {
            lemma_minted_only_then(
                old(world)@,
                world_before,
                world@,
                old(db)@.min_key,
                Z::keys_needed(z) + A::keys_needed(a),
                B::keys_needed(b),
            );
        }
        let ghost world_before = world@;
        proof {
            lemma_keys_free_after(
                old(db)@.min_key,
                old(world)@,
                world_before,
                Z::keys_needed(z) + A::keys_needed(a) + B::keys_needed(b),
                C::keys_needed(c),
                total,
            );
        }
        let _ = C::create(db, world, &mut storage.3, c, request);
        proof {
            lemma_minted_only_then(
                old(world)@,
                world_before,
                world@,
                old(db)@.min_key,
                Z::keys_needed(z) + A::keys_needed(a) + B::keys_needed(b),
                C::keys_needed(c),
            );
        }
        Ok(())
    }
}

/// All five parts of a tuple were read, one after the other.
pub open spec fn got_all_5<Z: DBQueryInfo, A: DBQueryInfo<Executor = Z::Executor>, B: DBQueryInfo<Executor = Z::Executor>, C: DBQueryInfo<Executor = Z::Executor>, D: DBQueryInfo<Executor = Z::Executor>>(
    before: Memory<Z::Executor>,
    z0: Z::Storage,
    a0: A::Storage,
    b0: B::Storage,
    c0: C::Storage,
    d0: D::Storage,
    id: DatabaseEntityId,
    request: RequestId,
    after: Memory<Z::Executor>,
    z1: Z::Storage,
    a1: A::Storage,
    b1: B::Storage,
    c1: C::Storage,
    d1: D::Storage,
    seen_z: Z::DerefItem,
    seen_a: A::DerefItem,
    seen_b: B::DerefItem,
    seen_c: C::DerefItem,
    seen_d: D::DerefItem,
) -> bool {
    exists|m_z: Memory<Z::Executor>, m_a: Memory<Z::Executor>, m_b: Memory<Z::Executor>, m_c: Memory<Z::Executor>|
        {
            &&& #[trigger] Z::got(before, z0, id, request, m_z, z1, Ok(seen_z))
            &&& #[trigger] A::got(m_z, a0, id, request, m_a, a1, Ok(seen_a))
            &&& #[trigger] B::got(m_a, b0, id, request, m_b, b1, Ok(seen_b))
            &&& #[trigger] C::got(m_b, c0, id, request, m_c, c1, Ok(seen_c))
            &&& D::got(m_c, d0, id, request, after, d1, Ok(seen_d))
        }
}

/// One part of a tuple of five failed when it was read: the parts before
/// it had been read, and the parts behind it were not attempted.
pub open spec fn got_failed_5<Z: DBQueryInfo, A: DBQueryInfo<Executor = Z::Executor>, B: DBQueryInfo<Executor = Z::Executor>, C: DBQueryInfo<Executor = Z::Executor>, D: DBQueryInfo<Executor = Z::Executor>>(
    before: Memory<Z::Executor>,
    z0: Z::Storage,
    a0: A::Storage,
    b0: B::Storage,
    c0: C::Storage,
    d0: D::Storage,
    id: DatabaseEntityId,
    request: RequestId,
    after: Memory<Z::Executor>,
    z1: Z::Storage,
    a1: A::Storage,
    b1: B::Storage,
    c1: C::Storage,
    d1: D::Storage,
    e: DatabaseError,
) -> bool {
    ||| {
        &&& Z::got(before, z0, id, request, after, z1, Err(e))
        &&& a1 == a0
        &&& b1 == b0
        &&& c1 == c0
        &&& d1 == d0
    }
    ||| exists|m_z: Memory<Z::Executor>, seen_z: Z::DerefItem|
        {
            &&& #[trigger] Z::got(before, z0, id, request, m_z, z1, Ok(seen_z))
            &&& A::got(m_z, a0, id, request, after, a1, Err(e))
            &&& b1 == b0
            &&& c1 == c0
            &&& d1 == d0
        }
    ||| exists|m_z: Memory<Z::Executor>, m_a: Memory<Z::Executor>, seen_z: Z::DerefItem, seen_a: A::DerefItem|
        {
            &&& #[trigger] Z::got(before, z0, id, request, m_z, z1, Ok(seen_z))
            &&& #[trigger] A::got(m_z, a0, id, request, m_a, a1, Ok(seen_a))
            &&& B::got(m_a, b0, id, request, after, b1, Err(e))
            &&& c1 == c0
            &&& d1 == d0
        }
    ||| exists|m_z: Memory<Z::Executor>, m_a: Memory<Z::Executor>, m_b: Memory<Z::Executor>, seen_z: Z::DerefItem, seen_a: A::DerefItem, seen_b: B::DerefItem|
        {
            &&& #[trigger] Z::got(before, z0, id, request, m_z, z1, Ok(seen_z))
            &&& #[trigger] A::got(m_z, a0, id, request, m_a, a1, Ok(seen_a))
            &&& #[trigger] B::got(m_a, b0, id, request, m_b, b1, Ok(seen_b))
            &&& C::got(m_b, c0, id, request, after, c1, Err(e))
            &&& d1 == d0
        }
    ||| exists|m_z: Memory<Z::Executor>, m_a: Memory<Z::Executor>, m_b: Memory<Z::Executor>, m_c: Memory<Z::Executor>, seen_z: Z::DerefItem, seen_a: A::DerefItem, seen_b: B::DerefItem, seen_c: C::DerefItem|
        {
            &&& #[trigger] Z::got(before, z0, id, request, m_z, z1, Ok(seen_z))
            &&& #[trigger] A::got(m_z, a0, id, request, m_a, a1, Ok(seen_a))
            &&& #[trigger] B::got(m_a, b0, id, request, m_b, b1, Ok(seen_b))
            &&& #[trigger] C::got(m_b, c0, id, request, m_c, c1, Ok(seen_c))
            &&& D::got(m_c, d0, id, request, after, d1, Err(e))
        }
}

/// All five parts of a tuple were read for change, one after the other.
pub open spec fn got_mut_all_5<Z: DBQueryInfo, A: DBQueryInfo<Executor = Z::Executor>, B: DBQueryInfo<Executor = Z::Executor>, C: DBQueryInfo<Executor = Z::Executor>, D: DBQueryInfo<Executor = Z::Executor>>(
    before: Memory<Z::Executor>,
    z0: Z::Storage,
    a0: A::Storage,
    b0: B::Storage,
    c0: C::Storage,
    d0: D::Storage,
    id: DatabaseEntityId,
    request: RequestId,
    after: Memory<Z::Executor>,
    z1: Z::Storage,
    a1: A::Storage,
    b1: B::Storage,
    c1: C::Storage,
    d1: D::Storage,
    seen_z: Z::DerefItem,
    seen_a: A::DerefItem,
    seen_b: B::DerefItem,
    seen_c: C::DerefItem,
    seen_d: D::DerefItem,
) -> bool {
    exists|m_z: Memory<Z::Executor>, m_a: Memory<Z::Executor>, m_b: Memory<Z::Executor>, m_c: Memory<Z::Executor>|
        {
            &&& #[trigger] Z::got_mut(before, z0, id, request, m_z, z1, Ok(seen_z))
            &&& #[trigger] A::got_mut(m_z, a0, id, request, m_a, a1, Ok(seen_a))
            &&& #[trigger] B::got_mut(m_a, b0, id, request, m_b, b1, Ok(seen_b))
            &&& #[trigger] C::got_mut(m_b, c0, id, request, m_c, c1, Ok(seen_c))
            &&& D::got_mut(m_c, d0, id, request, after, d1, Ok(seen_d))
        }
}

/// One part of a tuple of five failed when it was read for change: the parts before
/// it had been read for change, and the parts behind it were not attempted.
pub open spec fn got_mut_failed_5<Z: DBQueryInfo, A: DBQueryInfo<Executor = Z::Executor>, B: DBQueryInfo<Executor = Z::Executor>, C: DBQueryInfo<Executor = Z::Executor>, D: DBQueryInfo<Executor = Z::Executor>>(
    before: Memory<Z::Executor>,
    z0: Z::Storage,
    a0: A::Storage,
    b0: B::Storage,
    c0: C::Storage,
    d0: D::Storage,
    id: DatabaseEntityId,
    request: RequestId,
    after: Memory<Z::Executor>,
    z1: Z::Storage,
    a1: A::Storage,
    b1: B::Storage,
    c1: C::Storage,
    d1: D::Storage,
    e: DatabaseError,
) -> bool {
    ||| {
        &&& Z::got_mut(before, z0, id, request, after, z1, Err(e))
        &&& a1 == a0
        &&& b1 == b0
        &&& c1 == c0
        &&& d1 == d0
    }
    ||| exists|m_z: Memory<Z::Executor>, seen_z: Z::DerefItem|
        {
            &&& #[trigger] Z::got_mut(before, z0, id, request, m_z, z1, Ok(seen_z))
            &&& A::got_mut(m_z, a0, id, request, after, a1, Err(e))
            &&& b1 == b0
            &&& c1 == c0
            &&& d1 == d0
        }
    ||| exists|m_z: Memory<Z::Executor>, m_a: Memory<Z::Executor>, seen_z: Z::DerefItem, seen_a: A::DerefItem|
        {
            &&& #[trigger] Z::got_mut(before, z0, id, request, m_z, z1, Ok(seen_z))
            &&& #[trigger] A::got_mut(m_z, a0, id, request, m_a, a1, Ok(seen_a))
            &&& B::got_mut(m_a, b0, id, request, after, b1, Err(e))
            &&& c1 == c0
            &&& d1 == d0
        }
    ||| exists|m_z: Memory<Z::Executor>, m_a: Memory<Z::Executor>, m_b: Memory<Z::Executor>, seen_z: Z::DerefItem, seen_a: A::DerefItem, seen_b: B::DerefItem|
        {
            &&& #[trigger] Z::got_mut(before, z0, id, request, m_z, z1, Ok(seen_z))
            &&& #[trigger] A::got_mut(m_z, a0, id, request, m_a, a1, Ok(seen_a))
            &&& #[trigger] B::got_mut(m_a, b0, id, request, m_b, b1, Ok(seen_b))
            &&& C::got_mut(m_b, c0, id, request, after, c1, Err(e))
            &&& d1 == d0
        }
    ||| exists|m_z: Memory<Z::Executor>, m_a: Memory<Z::Executor>, m_b: Memory<Z::Executor>, m_c: Memory<Z::Executor>, seen_z: Z::DerefItem, seen_a: A::DerefItem, seen_b: B::DerefItem, seen_c: C::DerefItem|
        {
            &&& #[trigger] Z::got_mut(before, z0, id, request, m_z, z1, Ok(seen_z))
            &&& #[trigger] A::got_mut(m_z, a0, id, request, m_a, a1, Ok(seen_a))
            &&& #[trigger] B::got_mut(m_a, b0, id, request, m_b, b1, Ok(seen_b))
            &&& #[trigger] C::got_mut(m_b, c0, id, request, m_c, c1, Ok(seen_c))
            &&& D::got_mut(m_c, d0, id, request, after, d1, Err(e))
        }
}

/// All five parts of a tuple were updated, one after the other.
pub open spec fn updated_all_5<Z: DBQueryInfo, A: DBQueryInfo<Executor = Z::Executor>, B: DBQueryInfo<Executor = Z::Executor>, C: DBQueryInfo<Executor = Z::Executor>, D: DBQueryInfo<Executor = Z::Executor>>(
    db0: HandleView<Z::Executor>,
    db_entity: DatabaseEntity,
    c_z: Z::DerefItem,
    c_a: A::DerefItem,
    c_b: B::DerefItem,
    c_c: C::DerefItem,
    c_d: D::DerefItem,
    db1: HandleView<Z::Executor>,
) -> bool {
    exists|db_z: HandleView<Z::Executor>, db_a: HandleView<Z::Executor>, db_b: HandleView<Z::Executor>, db_c: HandleView<Z::Executor>|
        {
            &&& #[trigger] Z::updated(db0, db_entity, c_z, db_z, Ok(()))
            &&& #[trigger] A::updated(db_z, db_entity, c_a, db_a, Ok(()))
            &&& #[trigger] B::updated(db_a, db_entity, c_b, db_b, Ok(()))
            &&& #[trigger] C::updated(db_b, db_entity, c_c, db_c, Ok(()))
            &&& D::updated(db_c, db_entity, c_d, db1, Ok(()))
        }
}

/// One part of a tuple of five failed to be updated: the parts before it had
/// been updated, and the parts behind it were not attempted.
pub open spec fn updated_failed_5<Z: DBQueryInfo, A: DBQueryInfo<Executor = Z::Executor>, B: DBQueryInfo<Executor = Z::Executor>, C: DBQueryInfo<Executor = Z::Executor>, D: DBQueryInfo<Executor = Z::Executor>>(
    db0: HandleView<Z::Executor>,
    db_entity: DatabaseEntity,
    c_z: Z::DerefItem,
    c_a: A::DerefItem,
    c_b: B::DerefItem,
    c_c: C::DerefItem,
    c_d: D::DerefItem,
    db1: HandleView<Z::Executor>,
    e: DatabaseError,
) -> bool {
    ||| Z::updated(db0, db_entity, c_z, db1, Err(e))
    ||| exists|db_z: HandleView<Z::Executor>|
        {
            &&& #[trigger] Z::updated(db0, db_entity, c_z, db_z, Ok(()))
            &&& A::updated(db_z, db_entity, c_a, db1, Err(e))
        }
    ||| exists|db_z: HandleView<Z::Executor>, db_a: HandleView<Z::Executor>|
        {
            &&& #[trigger] Z::updated(db0, db_entity, c_z, db_z, Ok(()))
            &&& #[trigger] A::updated(db_z, db_entity, c_a, db_a, Ok(()))
            &&& B::updated(db_a, db_entity, c_b, db1, Err(e))
        }
    ||| exists|db_z: HandleView<Z::Executor>, db_a: HandleView<Z::Executor>, db_b: HandleView<Z::Executor>|
        {
            &&& #[trigger] Z::updated(db0, db_entity, c_z, db_z, Ok(()))
            &&& #[trigger] A::updated(db_z, db_entity, c_a, db_a, Ok(()))
            &&& #[trigger] B::updated(db_a, db_entity, c_b, db_b, Ok(()))
            &&& C::updated(db_b, db_entity, c_c, db1, Err(e))
        }
    ||| exists|db_z: HandleView<Z::Executor>, db_a: HandleView<Z::Executor>, db_b: HandleView<Z::Executor>, db_c: HandleView<Z::Executor>|
        {
            &&& #[trigger] Z::updated(db0, db_entity, c_z, db_z, Ok(()))
            &&& #[trigger] A::updated(db_z, db_entity, c_a, db_a, Ok(()))
            &&& #[trigger] B::updated(db_a, db_entity, c_b, db_b, Ok(()))
            &&& #[trigger] C::updated(db_b, db_entity, c_c, db_c, Ok(()))
            &&& D::updated(db_c, db_entity, c_d, db1, Err(e))
        }
}

/// All five parts of a tuple were inserted, one after the other.
pub open spec fn inserted_all_5<Z: DBQueryInfo, A: DBQueryInfo<Executor = Z::Executor>, B: DBQueryInfo<Executor = Z::Executor>, C: DBQueryInfo<Executor = Z::Executor>, D: DBQueryInfo<Executor = Z::Executor>>(
    db0: HandleView<Z::Executor>,
    db_entity: DatabaseEntity,
    c_z: Z::DerefItem,
    c_a: A::DerefItem,
    c_b: B::DerefItem,
    c_c: C::DerefItem,
    c_d: D::DerefItem,
    db1: HandleView<Z::Executor>,
) -> bool {
    exists|db_z: HandleView<Z::Executor>, db_a: HandleView<Z::Executor>, db_b: HandleView<Z::Executor>, db_c: HandleView<Z::Executor>|
        {
            &&& #[trigger] Z::inserted(db0, db_entity, c_z, db_z, Ok(()))
            &&& #[trigger] A::inserted(db_z, db_entity, c_a, db_a, Ok(()))
            &&& #[trigger] B::inserted(db_a, db_entity, c_b, db_b, Ok(()))
            &&& #[trigger] C::inserted(db_b, db_entity, c_c, db_c, Ok(()))
            &&& D::inserted(db_c, db_entity, c_d, db1, Ok(()))
        }
}

/// One part of a tuple of five failed to be inserted: the parts before it had
/// been inserted, and the parts behind it were not attempted.
pub open spec fn inserted_failed_5<Z: DBQueryInfo, A: DBQueryInfo<Executor = Z::Executor>, B: DBQueryInfo<Executor = Z::Executor>, C: DBQueryInfo<Executor = Z::Executor>, D: DBQueryInfo<Executor = Z::Executor>>(
    db0: HandleView<Z::Executor>,
    db_entity: DatabaseEntity,
    c_z: Z::DerefItem,
    c_a: A::DerefItem,
    c_b: B::DerefItem,
    c_c: C::DerefItem,
    c_d: D::DerefItem,
    db1: HandleView<Z::Executor>,
    e: DatabaseError,
) -> bool {
    ||| Z::inserted(db0, db_entity, c_z, db1, Err(e))
    ||| exists|db_z: HandleView<Z::Executor>|
        {
            &&& #[trigger] Z::inserted(db0, db_entity, c_z, db_z, Ok(()))
            &&& A::inserted(db_z, db_entity, c_a, db1, Err(e))
        }
    ||| exists|db_z: HandleView<Z::Executor>, db_a: HandleView<Z::Executor>|
        {
            &&& #[trigger] Z::inserted(db0, db_entity, c_z, db_z, Ok(()))
            &&& #[trigger] A::inserted(db_z, db_entity, c_a, db_a, Ok(()))
            &&& B::inserted(db_a, db_entity, c_b, db1, Err(e))
        }
    ||| exists|db_z: HandleView<Z::Executor>, db_a: HandleView<Z::Executor>, db_b: HandleView<Z::Executor>|
        {
            &&& #[trigger] Z::inserted(db0, db_entity, c_z, db_z, Ok(()))
            &&& #[trigger] A::inserted(db_z, db_entity, c_a, db_a, Ok(()))
            &&& #[trigger] B::inserted(db_a, db_entity, c_b, db_b, Ok(()))
            &&& C::inserted(db_b, db_entity, c_c, db1, Err(e))
        }
    ||| exists|db_z: HandleView<Z::Executor>, db_a: HandleView<Z::Executor>, db_b: HandleView<Z::Executor>, db_c: HandleView<Z::Executor>|
        {
            &&& #[trigger] Z::inserted(db0, db_entity, c_z, db_z, Ok(()))
            &&& #[trigger] A::inserted(db_z, db_entity, c_a, db_a, Ok(()))
            &&& #[trigger] B::inserted(db_a, db_entity, c_b, db_b, Ok(()))
            &&& #[trigger] C::inserted(db_b, db_entity, c_c, db_c, Ok(()))
            &&& D::inserted(db_c, db_entity, c_d, db1, Err(e))
        }
}

/// All five parts of a tuple were created, one after the other.
pub open spec fn created_all_5<Z: DBQueryInfo, A: DBQueryInfo<Executor = Z::Executor>, B: DBQueryInfo<Executor = Z::Executor>, C: DBQueryInfo<Executor = Z::Executor>, D: DBQueryInfo<Executor = Z::Executor>>(
    before: Memory<Z::Executor>,
    z0: Z::Storage,
    a0: A::Storage,
    b0: B::Storage,
    c0: C::Storage,
    d0: D::Storage,
    c_z: Z::DerefItem,
    c_a: A::DerefItem,
    c_b: B::DerefItem,
    c_c: C::DerefItem,
    c_d: D::DerefItem,
    request: RequestId,
    after: Memory<Z::Executor>,
    z1: Z::Storage,
    a1: A::Storage,
    b1: B::Storage,
    c1: C::Storage,
    d1: D::Storage,
) -> bool {
    exists|m_z: Memory<Z::Executor>, m_a: Memory<Z::Executor>, m_b: Memory<Z::Executor>, m_c: Memory<Z::Executor>|
        {
            &&& #[trigger] Z::created(before, z0, c_z, request, m_z, z1)
            &&& #[trigger] A::created(m_z, a0, c_a, request, m_a, a1)
            &&& #[trigger] B::created(m_a, b0, c_b, request, m_b, b1)
            &&& #[trigger] C::created(m_b, c0, c_c, request, m_c, c1)
            &&& D::created(m_c, d0, c_d, request, after, d1)
        }
}

/// A tuple of five shapes over one database: the operations of the parts run
/// in the order of the parts, and the first failure ends the operation, so
/// that the parts behind it are not attempted.
impl<Z: TupleMarker, A: TupleMarker<Executor = Z::Executor>, B: TupleMarker<Executor = Z::Executor>, C: TupleMarker<Executor = Z::Executor>, D: TupleMarker<Executor = Z::Executor>> DBQueryInfo for (Z, A, B, C, D) {
    type Executor = Z::Executor;

    type DerefItem = (Z::DerefItem, A::DerefItem, B::DerefItem, C::DerefItem, D::DerefItem);

    type Storage = (Z::Storage, A::Storage, B::Storage, C::Storage, D::Storage);

    type ReadOnlyItem<'a> = (Z::ReadOnlyItem<'a>, A::ReadOnlyItem<'a>, B::ReadOnlyItem<'a>, C::ReadOnlyItem<'a>, D::ReadOnlyItem<'a>);

    type Item<'a> = (Z::Item<'a>, A::Item<'a>, B::Item<'a>, C::Item<'a>, D::Item<'a>);

    open spec fn present(storage: Self::Storage, entity: Entity) -> bool {
        &&& Z::present(storage.0, entity)
        &&& A::present(storage.1, entity)
        &&& B::present(storage.2, entity)
        &&& C::present(storage.3, entity)
        &&& D::present(storage.4, entity)
    }

    open spec fn stored(storage: Self::Storage, entity: Entity) -> Self::DerefItem {
        (Z::stored(storage.0, entity), A::stored(storage.1, entity), B::stored(storage.2, entity), C::stored(storage.3, entity), D::stored(storage.4, entity))
    }

    open spec fn read_value(item: Self::ReadOnlyItem<'_>) -> Self::DerefItem {
        (Z::read_value(item.0), A::read_value(item.1), B::read_value(item.2), C::read_value(item.3), D::read_value(item.4))
    }

    open spec fn item_value(item: Self::Item<'_>) -> Self::DerefItem {
        (Z::item_value(item.0), A::item_value(item.1), B::item_value(item.2), C::item_value(item.3), D::item_value(item.4))
    }

    open spec fn got(
        before: Memory<Self::Executor>,
        storage0: Self::Storage,
        id: DatabaseEntityId,
        request: RequestId,
        after: Memory<Self::Executor>,
        storage1: Self::Storage,
        outcome: Result<Self::DerefItem, DatabaseError>,
    ) -> bool {
        match outcome {
            Ok(seen) => got_all_5::<Z, A, B, C, D>(
                before,
                storage0.0,
                storage0.1,
                storage0.2,
                storage0.3,
                storage0.4,
                id,
                request,
                after,
                storage1.0,
                storage1.1,
                storage1.2,
                storage1.3,
                storage1.4,
                seen.0,
                seen.1,
                seen.2,
                seen.3,
                seen.4,
            ),
            Err(e) => got_failed_5::<Z, A, B, C, D>(
                before,
                storage0.0,
                storage0.1,
                storage0.2,
                storage0.3,
                storage0.4,
                id,
                request,
                after,
                storage1.0,
                storage1.1,
                storage1.2,
                storage1.3,
                storage1.4,
                e,
            ),
        }
    }

    open spec fn got_mut(
        before: Memory<Self::Executor>,
        storage0: Self::Storage,
        id: DatabaseEntityId,
        request: RequestId,
        after: Memory<Self::Executor>,
        storage1: Self::Storage,
        outcome: Result<Self::DerefItem, DatabaseError>,
    ) -> bool {
        match outcome {
            Ok(seen) => got_mut_all_5::<Z, A, B, C, D>(
                before,
                storage0.0,
                storage0.1,
                storage0.2,
                storage0.3,
                storage0.4,
                id,
                request,
                after,
                storage1.0,
                storage1.1,
                storage1.2,
                storage1.3,
                storage1.4,
                seen.0,
                seen.1,
                seen.2,
                seen.3,
                seen.4,
            ),
            Err(e) => got_mut_failed_5::<Z, A, B, C, D>(
                before,
                storage0.0,
                storage0.1,
                storage0.2,
                storage0.3,
                storage0.4,
                id,
                request,
                after,
                storage1.0,
                storage1.1,
                storage1.2,
                storage1.3,
                storage1.4,
                e,
            ),
        }
    }

    open spec fn writes(component: Self::DerefItem) -> bool {
        ||| Z::writes(component.0)
        ||| A::writes(component.1)
        ||| B::writes(component.2)
        ||| C::writes(component.3)
        ||| D::writes(component.4)
    }

    open spec fn updated(
        db0: HandleView<Self::Executor>,
        db_entity: DatabaseEntity,
        component: Self::DerefItem,
        db1: HandleView<Self::Executor>,
        outcome: Result<(), DatabaseError>,
    ) -> bool {
        match outcome {
            Ok(_) => updated_all_5::<Z, A, B, C, D>(db0, db_entity, component.0, component.1, component.2, component.3, component.4, db1),
            Err(e) => updated_failed_5::<Z, A, B, C, D>(db0, db_entity, component.0, component.1, component.2, component.3, component.4, db1, e),
        }
    }

    open spec fn inserted(
        db0: HandleView<Self::Executor>,
        db_entity: DatabaseEntity,
        component: Self::DerefItem,
        db1: HandleView<Self::Executor>,
        outcome: Result<(), DatabaseError>,
    ) -> bool {
        match outcome {
            Ok(_) => inserted_all_5::<Z, A, B, C, D>(db0, db_entity, component.0, component.1, component.2, component.3, component.4, db1),
            Err(e) => inserted_failed_5::<Z, A, B, C, D>(db0, db_entity, component.0, component.1, component.2, component.3, component.4, db1, e),
        }
    }

    open spec fn keys_needed(component: Self::DerefItem) -> nat {
        Z::keys_needed(component.0) + A::keys_needed(component.1) + B::keys_needed(component.2) + C::keys_needed(component.3) + D::keys_needed(component.4)
    }

    open spec fn created(
        before: Memory<Self::Executor>,
        storage0: Self::Storage,
        component: Self::DerefItem,
        request: RequestId,
        after: Memory<Self::Executor>,
        storage1: Self::Storage,
    ) -> bool {
        created_all_5::<Z, A, B, C, D>(
            before,
            storage0.0,
            storage0.1,
            storage0.2,
            storage0.3,
            storage0.4,
            component.0,
            component.1,
            component.2,
            component.3,
            component.4,
            request,
            after,
            storage1.0,
            storage1.1,
            storage1.2,
            storage1.3,
            storage1.4,
        )
    }

    open spec fn loaded(
        query: spec_fn(
            Self::Executor,
            Self::Executor,
            Result<Seq<(DatabaseEntity, Self::DerefItem)>, DatabaseError>,
        ) -> bool,
        before: Memory<Self::Executor>,
        storage0: Self::Storage,
        request: RequestId,
        after: Memory<Self::Executor>,
        storage1: Self::Storage,
        entities: Result<Seq<Entity>, DatabaseError>,
    ) -> bool {
        not_loaded(before, storage0, after, storage1, entities)
    }

    fn get<'w, DbEntity: DatabaseEntityWithRequest>(
        db: &mut DatabaseHandle<Self::Executor>,
        world: &mut World,
        storage: &'w mut Self::Storage,
        db_entity: &DbEntity,
    ) -> (r: Result<Self::ReadOnlyItem<'w>, DatabaseError>) {
        let z = match Z::get(db, world, &mut storage.0, db_entity) {
            Ok(item) => item,
            Err(e) => {
                return Err(e);
            },
        };
        let a = match A::get(db, world, &mut storage.1, db_entity) {
            Ok(item) => item,
            Err(e) => {
                return Err(e);
            },
        };
        let b = match B::get(db, world, &mut storage.2, db_entity) {
            Ok(item) => item,
            Err(e) => {
                return Err(e);
            },
        };
        let c = match C::get(db, world, &mut storage.3, db_entity) {
            Ok(item) => item,
            Err(e) => {
                return Err(e);
            },
        };
        let d = match D::get(db, world, &mut storage.4, db_entity) {
            Ok(item) => item,
            Err(e) => {
                return Err(e);
            },
        };
        Ok((z, a, b, c, d))
    }

    fn get_mut<'w, DbEntity: DatabaseEntityWithRequest>(
        db: &mut DatabaseHandle<Self::Executor>,
        world: &mut World,
        storage: &'w mut Self::Storage,
        db_entity: &DbEntity,
    ) -> (r: Result<Self::Item<'w>, DatabaseError>) {
        let z = match Z::get_mut(db, world, &mut storage.0, db_entity) {
            Ok(item) => item,
            Err(e) => {
                return Err(e);
            },
        };
        let a = match A::get_mut(db, world, &mut storage.1, db_entity) {
            Ok(item) => item,
            Err(e) => {
                return Err(e);
            },
        };
        let b = match B::get_mut(db, world, &mut storage.2, db_entity) {
            Ok(item) => item,
            Err(e) => {
                return Err(e);
            },
        };
        let c = match C::get_mut(db, world, &mut storage.3, db_entity) {
            Ok(item) => item,
            Err(e) => {
                return Err(e);
            },
        };
        let d = match D::get_mut(db, world, &mut storage.4, db_entity) {
            Ok(item) => item,
            Err(e) => {
                return Err(e);
            },
        };
        Ok((z, a, b, c, d))
    }

    fn read<'w>(storage: &'w Self::Storage, entity: Entity) -> (r: Option<Self::ReadOnlyItem<'w>>) {
        let z = match Z::read(&storage.0, entity) {
            Some(item) => item,
            None => {
                return None;
            },
        };
        let a = match A::read(&storage.1, entity) {
            Some(item) => item,
            None => {
                return None;
            },
        };
        let b = match B::read(&storage.2, entity) {
            Some(item) => item,
            None => {
                return None;
            },
        };
        let c = match C::read(&storage.3, entity) {
            Some(item) => item,
            None => {
                return None;
            },
        };
        let d = match D::read(&storage.4, entity) {
            Some(item) => item,
            None => {
                return None;
            },
        };
        Some((z, a, b, c, d))
    }

    fn update_component<'w>(
        db: &mut DatabaseHandle<Self::Executor>,
        db_entity: &DatabaseEntity,
        component: Self::ReadOnlyItem<'w>,
    ) -> (outcome: Result<(), DatabaseError>) {
        let (z, a, b, c, d) = component;
        let done_z = Z::update_component(db, db_entity, z);
        if let Err(e) = done_z {
            return Err(e);
        }
        proof {
            lemma_done(done_z);
        }
        let done_a = A::update_component(db, db_entity, a);
        if let Err(e) = done_a {
            return Err(e);
        }
        proof {
            lemma_done(done_a);
        }
        let done_b = B::update_component(db, db_entity, b);
        if let Err(e) = done_b {
            return Err(e);
        }
        proof {
            lemma_done(done_b);
        }
        let done_c = C::update_component(db, db_entity, c);
        if let Err(e) = done_c {
            return Err(e);
        }
        proof {
            lemma_done(done_c);
        }
        let done_d = D::update_component(db, db_entity, d);
        if let Err(e) = done_d {
            return Err(e);
        }
        proof {
            lemma_done(done_d);
        }
        Ok(())
    }

    fn insert_component<'w>(
        db: &mut DatabaseHandle<Self::Executor>,
        db_entity: &DatabaseEntity,
        component: Self::ReadOnlyItem<'w>,
    ) -> (outcome: Result<(), DatabaseError>) {
        let (z, a, b, c, d) = component;
        let done_z = Z::insert_component(db, db_entity, z);
        if let Err(e) = done_z {
            return Err(e);
        }
        proof {
            lemma_done(done_z);
        }
        let done_a = A::insert_component(db, db_entity, a);
        if let Err(e) = done_a {
            return Err(e);
        }
        proof {
            lemma_done(done_a);
        }
        let done_b = B::insert_component(db, db_entity, b);
        if let Err(e) = done_b {
            return Err(e);
        }
        proof {
            lemma_done(done_b);
        }
        let done_c = C::insert_component(db, db_entity, c);
        if let Err(e) = done_c {
            return Err(e);
        }
        proof {
            lemma_done(done_c);
        }
        let done_d = D::insert_component(db, db_entity, d);
        if let Err(e) = done_d {
            return Err(e);
        }
        proof {
            lemma_done(done_d);
        }
        Ok(())
    }

    fn load_components<
        'w,
        R: ReturnSelector<Storage = Self::Storage>,
        CDQ: CustomDatabaseQuery<Self::Executor, Self::DerefItem>,
    >(
        db: &mut DatabaseHandle<Self::Executor>,
        world: &mut World,
        storage: &'w mut Self::Storage,
        request: RequestId,
        get_comp_from_db: CDQ,
    ) -> (r: Result<Vec<R::ReturnItem<'w>>, DatabaseError>) {
        proof {
            assert(selected_all::<R>(
                *storage,
                Err(DatabaseError::Unsupported),
                Err::<Vec<R::ReturnItem<'w>>, DatabaseError>(DatabaseError::Unsupported),
            ));
        }
        Err(DatabaseError::Unsupported)
    }

    fn create(
        db: &mut DatabaseHandle<Self::Executor>,
        world: &mut World,
        storage: &mut Self::Storage,
        component: Self::DerefItem,
        request: RequestId,
    ) -> (outcome: Result<(), DatabaseError>) {
        let (z, a, b, c, d) = component;
        let ghost total = Z::keys_needed(z) + A::keys_needed(a) + B::keys_needed(b) + C::keys_needed(c) + D::keys_needed(d);
        let _ = Z::create(db, world, &mut storage.0, z, request);
        let ghost world_before = world@;
        proof {
            lemma_keys_free_after(
                old(db)@.min_key,
                old(world)@,
                world_before,
                Z::keys_needed(z),
                A::keys_needed(a),
                total,
            );
        }
        let _ = A::create(db, world, &mut storage.1, a, request);
        proof {
            lemma_minted_only_then(
                old(world)@,
                world_before,
                world@,
                old(db)@.min_key,
                Z::keys_needed(z),
                A::keys_needed(a),
            );
        }
        let ghost world_before = world@;
        proof {
            lemma_keys_free_after(
                old(db)@.min_key,
                old(world)@,
                world_before,
                Z::keys_needed(z) + A::keys_needed(a),
                B::keys_needed(b),
                total,
            );
        }
        let _ = B::create(db, world, &mut storage.2, b, request);
        proof {
            lemma_minted_only_then(
                old(world)@,
                world_before,
                world@,
                old(db)@.min_key,
                Z::keys_needed(z) + A::keys_needed(a),
                B::keys_needed(b),
            );
        }
        let ghost world_before = world@;
        proof {
            lemma_keys_free_after(
                old(db)@.min_key,
                old(world)@,
                world_before,
                Z::keys_needed(z) + A::keys_needed(a) + B::keys_needed(b),
                C::keys_needed(c),
                total,
            );
        }
        let _ = C::create(db, world, &mut storage.3, c, request);
        proof {
            lemma_minted_only_then(
                old(world)@,
                world_before,
                world@,
                old(db)@.min_key,
                Z::keys_needed(z) + A::keys_needed(a) + B::keys_needed(b),
                C::keys_needed(c),
            );
        }
        let ghost world_before = world@;
        proof {
            lemma_keys_free_after(
                old(db)@.min_key,
                old(world)@,
                world_before,
                Z::keys_needed(z) + A::keys_needed(a) + B::keys_needed(b) + C::keys_needed(c),
                D::keys_needed(d),
                total,
            );
        }
        let _ = D::create(db, world, &mut storage.4, d, request);
        proof {
            lemma_minted_only_then(
                old(world)@,
                world_before,
                world@,
                old(db)@.min_key,
                Z::keys_needed(z) + A::keys_needed(a) + B::keys_needed(b) + C::keys_needed(c),
                D::keys_needed(d),
            );
        }
        Ok(())
    }
}
} // verus!
