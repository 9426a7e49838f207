//! The table of open transactions, one per request, and the source of keys
//! for rows that are created in memory.

use crate::database_entity::{DatabaseEntity, DatabaseEntityId, FlushEvent, RequestId};
use crate::database_query::{written_back, DBQueryInfo, DatabaseError, DatabaseQuery};
use crate::world::{flushed_records, lists_matching, Entity, RequestIdIndex};
use vstd::prelude::*;

verus! {

/// `generational_arena::Arena`, carried as a value that nothing is known of
/// but what the functions below say.
#[verifier::external_type_specification]
#[verifier::external_body]
#[verifier::reject_recursive_types(T)]
pub struct ExArena<T>(generational_arena::Arena<T>);

/// The slot allocator of the table: an arena that holds nothing but the
/// generation tag of each slot it has handed out.
pub type SlotArena = generational_arena::Arena<()>;

/// The occupied slots of an arena, each with the generation tag under which it
/// was handed out.
pub uninterp spec fn arena_occupied(a: SlotArena) -> Map<usize, u64>;

/// The generation counter of an arena: the tag that the next slot gets.
pub uninterp spec fn arena_generation(a: SlotArena) -> u64;

/// `generational_arena::Arena::new`: an arena with no occupied slot, whose
/// generation counter stands at zero.
#[verifier::external_body]
fn arena_new() -> (a: SlotArena)
    ensures
        arena_occupied(a) == (Map::<usize, u64>::empty()),
        arena_generation(a) == 0,
{
    generational_arena::Arena::new()
}

/// `generational_arena::Arena::insert`: occupies a slot that was free, a
/// position in the arena's vector, and tags it with the current generation,
/// which stays as it is. The other slots are untouched.
#[verifier::external_body]
fn arena_insert(a: &mut SlotArena) -> (r: RequestId)
    ensures
        !arena_occupied(*old(a)).dom().contains(r.index),
        r.index < usize::MAX,
        r.generation == arena_generation(*old(a)),
        arena_occupied(*final(a)) == arena_occupied(*old(a)).insert(r.index, r.generation),
        arena_generation(*final(a)) == arena_generation(*old(a)),
{
    let (index, generation) = a.insert(()).into_raw_parts();
    RequestId { index, generation }
}

/// `generational_arena::Arena::remove`: frees the slot if it is occupied under
/// the given generation tag, and then advances the generation counter by one;
/// otherwise nothing changes. Says whether the slot was freed.
#[verifier::external_body]
fn arena_remove(a: &mut SlotArena, request: RequestId) -> (removed: bool)
    requires
        arena_generation(*old(a)) < u64::MAX,
    ensures
        removed == arena_occupied(*old(a)).contains_pair(request.index, request.generation),
        removed ==> arena_occupied(*final(a)) == arena_occupied(*old(a)).remove(request.index),
        removed ==> arena_generation(*final(a)) == arena_generation(*old(a)) + 1,
        !removed ==> arena_occupied(*final(a)) == arena_occupied(*old(a)),
        !removed ==> arena_generation(*final(a)) == arena_generation(*old(a)),
{
    a.remove(generational_arena::Index::from_raw_parts(request.index, request.generation)).is_some()
}

/// `generational_arena::Arena::contains`: whether the slot is occupied under
/// the given generation tag.
#[verifier::external_body]
fn arena_contains(a: &SlotArena, request: RequestId) -> (found: bool)
    ensures
        found == arena_occupied(*a).contains_pair(request.index, request.generation),
{
    a.contains(generational_arena::Index::from_raw_parts(request.index, request.generation))
}

/// What a table of transactions stands for.
pub struct HandleView<Tr> {
    /// The open transactions, by request.
    pub transactions: Map<RequestId, Tr>,
    /// The last key that was minted; zero before the first.
    pub min_key: i64,
    /// How many transactions have been taken out for commit.
    pub commits: u64,
    /// The handles whose transactions have been taken out for commit.
    pub retired: Set<RequestId>,
}

impl<Tr> HandleView<Tr> {
    /// True of a request whose transaction is open.
    pub open spec fn is_live(self, request: RequestId) -> bool {
        self.transactions.dom().contains(request)
    }

    /// The same table with another transaction standing for a request.
    pub open spec fn with(self, request: RequestId, transaction: Tr) -> Self {
        HandleView { transactions: self.transactions.insert(request, transaction), ..self }
    }

    /// True of a table that differs from an earlier one at most in what the
    /// open transactions have seen: the same requests are open, the same
    /// handles retired, and no key was minted.
    pub open spec fn ran_since(self, before: Self) -> bool {
        &&& self.transactions.dom() =~= before.transactions.dom()
        &&& self.min_key == before.min_key
        &&& self.commits == before.commits
        &&& self.retired =~= before.retired
    }

    /// True of a table in which, since an earlier one, one request was retired
    /// and nothing else happened but what the open transactions have seen:
    /// the other requests are open still, the handle of the retired one is
    /// retired, one more commit is counted, and no key was minted.
    pub open spec fn retired_since(self, before: Self, request: RequestId) -> bool {
        &&& self.transactions.dom() =~= before.transactions.dom().remove(request)
        &&& self.min_key == before.min_key
        &&& self.commits == before.commits + 1
        &&& self.retired =~= before.retired.insert(request)
    }

    /// The table after a request was retired: its transaction is gone, its
    /// handle is retired, and one more commit is counted.
    pub open spec fn committed(self, request: RequestId) -> Self {
        HandleView {
            transactions: self.transactions.remove(request),
            retired: self.retired.insert(request),
            commits: (self.commits + 1) as u64,
            min_key: self.min_key,
        }
    }

    /// The table after a key was minted: one below the last.
    pub open spec fn keyed(self) -> Self {
        HandleView { min_key: (self.min_key - 1) as i64, ..self }
    }
}

/// The table of open transactions. Each request owns one slot; a slot is
/// reached only through the handle under which it was started, and a handle
/// dies when its transaction is taken out for commit.
pub struct DatabaseHandle<Tr> {
    arena: SlotArena,
    transactions: Vec<Option<Tr>>,
    min_key: i64,
    commits: u64,
    retired: Ghost<Set<RequestId>>,
}

impl<Tr> View for DatabaseHandle<Tr> {
    type V = HandleView<Tr>;

    closed spec fn view(&self) -> HandleView<Tr> {
        HandleView {
            transactions: Map::new(
                |r: RequestId| arena_occupied(self.arena).contains_pair(r.index, r.generation),
                |r: RequestId| self.transactions@[r.index as int]->0,
            ),
            min_key: self.min_key,
            commits: self.commits,
            retired: self.retired@,
        }
    }
}

impl<Tr> DatabaseHandle<Tr> {
    /// True of a request whose transaction is open.
    pub open spec fn is_live(&self, request: RequestId) -> bool {
        self@.is_live(request)
    }

    /// The table's invariant: a slot holds a transaction exactly when it is
    /// occupied, no tag is ahead of the generation counter, and every retired
    /// handle has a tag behind it.
    pub closed spec fn wf(&self) -> bool {
        let occupied = arena_occupied(self.arena);
        &&& arena_generation(self.arena) == self.commits
        &&& forall|i: usize| #[trigger]
            occupied.dom().contains(i) ==> i < self.transactions@.len()
                && self.transactions@[i as int] is Some && occupied[i] <= self.commits
        &&& forall|i: usize|
            i < self.transactions@.len() && (#[trigger] self.transactions@[i as int]) is Some
                ==> occupied.dom().contains(i)
        &&& forall|r: RequestId| #[trigger]
            self.retired@.contains(r) ==> r.generation < self.commits && !occupied.contains_pair(
                r.index,
                r.generation,
            )
        &&& self.min_key <= 0
    }

    /// An empty table.
    pub fn new() -> (db: Self)
        ensures
            db.wf(),
            db@.transactions == (Map::<RequestId, Tr>::empty()),
            db@.min_key == 0,
            db@.commits == 0,
            db@.retired == Set::<RequestId>::empty(),
    {
        let db = DatabaseHandle {
            arena: arena_new(),
            transactions: Vec::new(),
            min_key: 0,
            commits: 0,
            retired: Ghost(Set::empty()),
        };
        assert(db@.transactions =~= Map::<RequestId, Tr>::empty());
        db
    }

    /// A handle that was retired is open no more, whatever was started since.
    pub proof fn lemma_retired_not_live(&self, request: RequestId)
        requires
            self.wf(),
            self@.retired.contains(request),
        ensures
            !self.is_live(request),
    {
    }

    /// No live handle is retired, and none carries a tag ahead of the count of
    /// commits.
    pub proof fn lemma_live_not_retired(&self, request: RequestId)
        requires
            self.wf(),
            self.is_live(request),
        ensures
            !self@.retired.contains(request),
            request.generation <= self@.commits,
    {
        assert(arena_occupied(self.arena).dom().contains(request.index));
    }

    /// A slot holds one transaction at most: two open requests never share a
    /// slot.
    pub proof fn lemma_one_request_for_each_slot(&self, first: RequestId, second: RequestId)
        requires
            self.is_live(first),
            self.is_live(second),
            first.index == second.index,
        ensures
            first == second,
    {
    }

    /// Mints a key for a row that is created in memory: one below the last.
    pub fn get_key(&mut self) -> (key: DatabaseEntityId)
        requires
            old(self).wf(),
            old(self)@.min_key > i64::MIN,
        ensures
            final(self).wf(),
            key.0 == old(self)@.min_key - 1,
            key.is_local(),
            final(self)@ == old(self)@.keyed(),
    {
        proof {
            old(self).lemma_keys_below_zero();
        }
        self.min_key = self.min_key - 1;
        DatabaseEntityId(self.min_key)
    }

    /// Whether the transaction of a request is open.
    pub fn contains(&self, request: RequestId) -> (found: bool)
        ensures
            found == self.is_live(request),
    {
        arena_contains(&self.arena, request)
    }

    /// The last key that was minted; zero before the first.
    pub fn last_key(&self) -> (key: DatabaseEntityId)
        ensures
            key.0 == self@.min_key,
    {
        DatabaseEntityId(self.min_key)
    }

    /// The number of transactions that have been taken out for commit.
    pub fn commit_count(&self) -> (n: u64)
        ensures
            n == self@.commits,
    {
        self.commits
    }

    /// Opens a slot for a transaction that has just begun and returns the
    /// handle of the new request. The handle was never live or retired before.
    pub fn start_new_transaction(&mut self, transaction: Tr) -> (request: RequestId)
        requires
            old(self).wf(),
        ensures
            final(self).wf(),
            !old(self).is_live(request),
            !old(self)@.retired.contains(request),
            request.generation == old(self)@.commits,
            final(self)@ == old(self)@.with(request, transaction),
    {
        let request = arena_insert(&mut self.arena);
        let ghost arena = self.arena;
        while self.transactions.len() <= request.index
            invariant
                request.index < usize::MAX,
                self.arena == arena,
                self.min_key == old(self).min_key,
                self.commits == old(self).commits,
                self.retired == old(self).retired,
                old(self).transactions@.len() <= self.transactions@.len(),
                forall|i: int|
                    0 <= i < old(self).transactions@.len() ==> self.transactions@[i] == old(
                        self,
                    ).transactions@[i],
                forall|i: int|
                    old(self).transactions@.len() <= i < self.transactions@.len()
                        ==> self.transactions@[i] is None,
            decreases request.index + 1 - self.transactions@.len(),
        {
            self.transactions.push(None);
        }
        self.transactions[request.index] = Some(transaction);
        proof {
            assert(self@.transactions =~= old(self)@.transactions.insert(request, transaction));
        }
        request
    }

    /// As `start_new_transaction`, for a caller that may have been refused a
    /// transaction: without one, no slot is opened and the table stays as it is.
    pub fn try_start_new_transaction(&mut self, transaction: Option<Tr>) -> (request: Option<
        RequestId,
    >)
        requires
            old(self).wf(),
        ensures
            final(self).wf(),
            transaction is None ==> request is None && final(self)@ == old(self)@,
            transaction matches Some(t) ==> request matches Some(r) && !old(self).is_live(r)
                && !old(self)@.retired.contains(r) && r.generation == old(self)@.commits
                && final(self)@ == old(self)@.with(r, t),
    {
        match transaction {
            Some(t) => Some(self.start_new_transaction(t)),
            None => None,
        }
    }

    /// The open transaction of a request.
    pub fn get_transaction(&self, request: RequestId) -> (transaction: &Tr)
        requires
            self.wf(),
            self.is_live(request),
        ensures
            *transaction == self@.transactions[request],
    {
        assert(arena_occupied(self.arena).dom().contains(request.index));
        match &self.transactions[request.index] {
            Some(t) => t,
            None => vstd::pervasive::unreached(),
        }
    }

    /// The open transaction of a request, for use. What the caller leaves in it
    /// is what the table holds for the request afterwards.
    pub fn get_transaction_mut(&mut self, request: RequestId) -> (transaction: &mut Tr)
        requires
            old(self).wf(),
            old(self).is_live(request),
        ensures
            *transaction == old(self)@.transactions[request],
            final(self).wf(),
            final(self)@.transactions =~= old(self)@.transactions.insert(request, *final(transaction)),
            final(self)@.min_key == old(self)@.min_key,
            final(self)@.commits == old(self)@.commits,
            final(self)@.retired == old(self)@.retired,
    {
        assert(arena_occupied(self.arena).dom().contains(request.index));
        match &mut self.transactions[request.index] {
            Some(t) => t,
            None => vstd::pervasive::unreached(),
        }
    }

    /// Retires a request: its slot is freed, its handle is dead from now on,
    /// and its transaction is handed out to be committed.
    pub fn commit_transaction(&mut self, request: RequestId) -> (transaction: Tr)
        requires
            old(self).wf(),
            old(self).is_live(request),
            old(self)@.commits < u64::MAX,
        ensures
            final(self).wf(),
            transaction == old(self)@.transactions[request],
            final(self)@ == old(self)@.committed(request),
    {
        assert(arena_occupied(self.arena).dom().contains(request.index));
        let removed = arena_remove(&mut self.arena, request);
        let mut slot: Option<Tr> = None;
        core::mem::swap(&mut self.transactions[request.index], &mut slot);
        self.commits = self.commits + 1;
        proof {
            self.retired@ = self.retired@.insert(request);
            assert(self@.transactions =~= old(self)@.transactions.remove(request));
        }
        match slot {
            Some(t) => t,
            None => vstd::pervasive::unreached(),
        }
    }

    /// Keys are minted downwards from zero: the last one is never above it.
    pub proof fn lemma_keys_below_zero(&self)
        requires
            self.wf(),
        ensures
            self@.min_key <= 0,
    {
    }
}

/// What writing one entity back does: the write-back of its shape as the
/// columns hold it, for its record.
pub open spec fn wrote_one<Q: DBQueryInfo>(
    db0: HandleView<Q::Executor>,
    world: Seq<DatabaseEntity>,
    storage: Q::Storage,
    entity: Entity,
    db1: HandleView<Q::Executor>,
    outcome: Result<(), DatabaseError>,
) -> bool {
    written_back::<Q>(
        db0,
        world[entity.0 as int],
        Q::stored(storage, entity),
        db1,
        outcome,
    )
}

/// The first `count` entities of a list were written back, one after the
/// other in the order of the list, and none of the writes failed: `states`
/// holds the table as it stood before each write and after the last.
pub open spec fn wrote_run<Q: DBQueryInfo>(
    states: Seq<HandleView<Q::Executor>>,
    world: Seq<DatabaseEntity>,
    storage: Q::Storage,
    entities: Seq<Entity>,
    count: int,
) -> bool {
    &&& 0 <= count <= entities.len()
    &&& states.len() == count + 1
    &&& forall|i: int|
        0 <= i < count ==> wrote_one::<Q>(
            states[i],
            world,
            storage,
            #[trigger] entities[i],
            states[i + 1],
            Ok(()),
        )
}

/// True of a list that names, in ascending order and once each, exactly the
/// entities that a request owns.
pub open spec fn lists_owned(
    entities: Seq<Entity>,
    world: Seq<DatabaseEntity>,
    request: RequestId,
) -> bool {
    lists_matching(entities, world, |r: DatabaseEntity| r.request == request)
}

/// What a flush does. The entities that the request owns are written back in
/// ascending order, each as the write-back policy decides.
///   - If every write succeeds, the records of the request are marked
///     persisted and clean, the request is retired, and its transaction is
///     handed out to be committed.
///   - If a write fails, the entities behind it are not attempted, no record is
///     marked, and the request stays open, its transaction uncommitted.
pub open spec fn flushed<Q: DBQueryInfo>(
    db0: HandleView<Q::Executor>,
    world0: Seq<DatabaseEntity>,
    storage: Q::Storage,
    request: RequestId,
    db1: HandleView<Q::Executor>,
    world1: Seq<DatabaseEntity>,
    outcome: Result<Q::Executor, DatabaseError>,
) -> bool {
    exists|entities: Seq<Entity>, states: Seq<HandleView<Q::Executor>>|
        {
            &&& lists_owned(entities, world0, request)
            &&& #[trigger] wrote_run::<Q>(states, world0, storage, entities, states.len() - 1)
            &&& states[0] == db0
            &&& match outcome {
                Ok(transaction) => {
                    &&& states.len() == entities.len() + 1
                    &&& states.last().is_live(request)
                    &&& transaction == states.last().transactions[request]
                    &&& db1 == states.last().committed(request)
                    &&& world1 == flushed_records(world0, request)
                },
                Err(e) => {
                    &&& states.len() <= entities.len()
                    &&& wrote_one::<Q>(
                        states.last(),
                        world0,
                        storage,
                        entities[states.len() - 1],
                        db1,
                        Err(e),
                    )
                    &&& db1.is_live(request)
                    &&& world1 == world0
                },
            }
        }
}

/// Writes back every entity that a finished request owns, marks their
/// records, and retires the request. The transaction of the request is handed
/// out: it is the caller's to commit.
pub fn flush_component_to_db<DBQ: DBQueryInfo>(
    flush_event: &FlushEvent,
    db_query: &mut DatabaseQuery<DBQ>,
) -> (outcome: Result<DBQ::Executor, DatabaseError>)
    requires
        old(db_query).wf(),
        old(db_query).db.is_live(flush_event.request),
        old(db_query).db@.commits < u64::MAX,
        forall|e: Entity|
            old(db_query).world.has(e) && old(db_query).world@[e.0 as int].request
                == flush_event.request ==> #[trigger] DBQ::present(old(db_query).storage, e),
    ensures
        final(db_query).wf(),
        final(db_query).storage == old(db_query).storage,
        outcome is Err ==> final(db_query).db@.ran_since(old(db_query).db@),
        outcome is Ok ==> final(db_query).db@.retired_since(old(db_query).db@, flush_event.request),
        flushed::<DBQ>(
            old(db_query).db@,
            old(db_query).world@,
            old(db_query).storage,
            flush_event.request,
            final(db_query).db@,
            final(db_query).world@,
            outcome,
        ),
{
    let request = flush_event.request;
    let entities = RequestIdIndex::lookup(&db_query.world, &request);
    let ghost world0 = db_query.world@;
    let ghost storage = db_query.storage;
    let ghost mut states: Seq<HandleView<DBQ::Executor>> = seq![db_query.db@];
    let mut i: usize = 0;
    while i < entities.len()
        invariant
            i <= entities@.len(),
            db_query.wf(),
            db_query.world@ == world0,
            db_query.storage == storage,
            world0 == old(db_query).world@,
            storage == old(db_query).storage,
            request == flush_event.request,
            lists_owned(entities@, world0, request),
            old(db_query).db.is_live(request),
            db_query.db@.ran_since(old(db_query).db@),
            forall|e: Entity|
                db_query.world.has(e) && world0[e.0 as int].request == request
                    ==> #[trigger] DBQ::present(storage, e),
            wrote_run::<DBQ>(states, world0, storage, entities@, i as int),
            states[0] == old(db_query).db@,
            states[i as int] == db_query.db@,
        decreases entities@.len() - i,
    {
        let entity = entities[i];
        proof {
            assert(entity == entities@[i as int]);
            assert(world0[entity.0 as int].request == request);
            assert(DBQ::present(storage, entity));
            assert(db_query.db.is_live(request));
        }
        let written = db_query.update_or_insert_component(entity);
        if let Err(e) = written {
            proof {
                assert(db_query.db@.is_live(request));
                assert(states.last() == states[i as int]);
            }
            return Err(e);
        }
        proof {
            assert(written->Ok_0 == ());
            let before = states;
            states = states.push(db_query.db@);
            assert forall|k: int| 0 <= k < i + 1 implies wrote_one::<DBQ>(
                states[k],
                world0,
                storage,
                #[trigger] entities@[k],
                states[k + 1],
                Ok(()),
            ) by {
                if k < i {
                    assert(states[k] == before[k]);
                    assert(states[k + 1] == before[k + 1]);
                }
            }
        }
        i = i + 1;
    }
    db_query.world.mark_all_written(&request);
    proof {
        assert(db_query.db.is_live(request));
        assert(states.last() == db_query.db@);
    }
    db_query.commit(request)
}

} // verus!
