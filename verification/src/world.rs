//! The in-memory store: the records of the rows that were brought into memory,
//! the components attached to them, and the two indices over the records.

use crate::database_entity::{DatabaseEntity, DatabaseEntityId, Persisted, RequestId};
use vstd::prelude::*;

verus! {

/// The handle of a record in memory: its position in the store.
#[derive(Clone, Copy, PartialEq, Eq, Structural, PartialOrd, Ord, Debug, Hash)]
pub struct Entity(pub usize);

/// The records in memory. No two of them carry the same identity.
pub struct World {
    records: Vec<DatabaseEntity>,
}

impl View for World {
    type V = Seq<DatabaseEntity>;

    closed spec fn view(&self) -> Seq<DatabaseEntity> {
        self.records@
    }
}

/// True of a sequence of records in which each identity occurs once at most.
pub open spec fn distinct_ids(records: Seq<DatabaseEntity>) -> bool {
    forall|i: int, j: int|
        0 <= i < records.len() && 0 <= j < records.len() && i != j
            ==> (#[trigger] records[i]).id != (#[trigger] records[j]).id
}

/// True if some record of the sequence carries the identity.
pub open spec fn holds_id(records: Seq<DatabaseEntity>, id: DatabaseEntityId) -> bool {
    exists|i: int| 0 <= i < records.len() && (#[trigger] records[i]).id == id
}

/// The entity that carries the identity, if there is one: with distinct
/// identities, the only one.
pub open spec fn entity_of(records: Seq<DatabaseEntity>, id: DatabaseEntityId) -> Option<Entity> {
    if holds_id(records, id) {
        let i = choose|i: int| 0 <= i < records.len() && (#[trigger] records[i]).id == id;
        Some(Entity(i as usize))
    } else {
        None
    }
}

/// With distinct identities, the entity that carries an identity is the one at
/// any position where the identity stands.
pub proof fn lemma_entity_of(records: Seq<DatabaseEntity>, i: int)
    requires
        distinct_ids(records),
        0 <= i < records.len(),
        records.len() <= usize::MAX,
    ensures
        entity_of(records, records[i].id) == Some(Entity(i as usize)),
{
    let id = records[i].id;
    let j = choose|j: int| 0 <= j < records.len() && (#[trigger] records[j]).id == id;
    assert(j == i);
}

/// A record that is added under a new identity changes no earlier answer of
/// `entity_of`, and answers for its own identity with the new position.
pub proof fn lemma_entity_of_push(
    records: Seq<DatabaseEntity>,
    record: DatabaseEntity,
    id: DatabaseEntityId,
)
    requires
        distinct_ids(records),
        !holds_id(records, record.id),
        records.len() < usize::MAX,
    ensures
        distinct_ids(records.push(record)),
        entity_of(records.push(record), record.id) == Some(Entity(records.len() as usize)),
        id != record.id ==> entity_of(records.push(record), id) == entity_of(records, id),
{
    let after = records.push(record);
    assert forall|i: int, j: int|
        0 <= i < after.len() && 0 <= j < after.len() && i != j implies (#[trigger] after[i]).id != (
    #[trigger] after[j]).id by {
        if i < records.len() {
            assert(after[i] == records[i]);
        }
        if j < records.len() {
            assert(after[j] == records[j]);
        }
    }
    assert(after[records.len() as int] == record);
    lemma_entity_of(after, records.len() as int);
    if id != record.id {
        if holds_id(records, id) {
            let i = choose|i: int| 0 <= i < records.len() && (#[trigger] records[i]).id == id;
            assert(after[i] == records[i]);
            lemma_entity_of(records, i);
            lemma_entity_of(after, i);
        } else {
            if holds_id(after, id) {
                let i = choose|i: int| 0 <= i < after.len() && (#[trigger] after[i]).id == id;
                assert(after[i] == records[i]);
                assert(false);
            }
        }
    }
}

impl World {
    /// The store's invariant: identities are distinct.
    pub open spec fn wf(&self) -> bool {
        distinct_ids(self@)
    }

    /// True of a handle that names a record of the store.
    pub open spec fn has(&self, entity: Entity) -> bool {
        entity.0 < self@.len()
    }

    /// An empty store.
    pub fn new() -> (world: Self)
        ensures
            world@ == Seq::<DatabaseEntity>::empty(),
            world.wf(),
    {
        World { records: Vec::new() }
    }

    /// The number of records.
    pub fn len(&self) -> (n: usize)
        ensures
            n == self@.len(),
    {
        self.records.len()
    }

    /// Whether the handle names a record of the store.
    pub fn contains(&self, entity: Entity) -> (found: bool)
        ensures
            found == self.has(entity),
    {
        entity.0 < self.records.len()
    }

    /// The record behind a handle, if the handle names one.
    pub fn get(&self, entity: Entity) -> (record: Option<&DatabaseEntity>)
        ensures
            self.has(entity) ==> record == Some(&self@[entity.0 as int]),
            !self.has(entity) ==> record is None,
    {
        if entity.0 < self.records.len() {
            Some(&self.records[entity.0])
        } else {
            None
        }
    }

    /// The entity that carries an identity, if one does.
    pub fn find(&self, id: &DatabaseEntityId) -> (found: Option<Entity>)
        requires
            self.wf(),
        ensures
            found == entity_of(self@, *id),
            found matches Some(e) ==> self.has(e) && e.0 < usize::MAX && self@[e.0 as int].id == *id,
            found is None ==> !holds_id(self@, *id),
    {
        let mut i: usize = 0;
        while i < self.records.len()
            invariant
                i <= self.records@.len(),
                self.wf(),
                forall|k: int| 0 <= k < i ==> (#[trigger] self.records@[k]).id != *id,
            decreases self.records@.len() - i,
        {
            if self.records[i].id == *id {
                proof {
                    lemma_entity_of(self@, i as int);
                }
                return Some(Entity(i));
            }
            i = i + 1;
        }
        None
    }

    /// Adds a record under an identity that the store does not hold yet, and
    /// returns its handle: the next position.
    pub fn spawn(&mut self, record: DatabaseEntity) -> (entity: Entity)
        requires
            old(self).wf(),
            !holds_id(old(self)@, record.id),
        ensures
            final(self).wf(),
            final(self)@ == old(self)@.push(record),
            entity == Entity(old(self)@.len() as usize),
            entity.0 < usize::MAX,
            final(self).has(entity),
            final(self)@[entity.0 as int] == record,
            entity_of(final(self)@, record.id) == Some(entity),
    {
        let entity = Entity(self.records.len());
        self.records.push(record);
        let after = self.records.len();
        proof {
            lemma_entity_of_push(old(self)@, record, record.id);
        }
        entity
    }

    /// The record behind a handle of the store.
    pub fn record(&self, entity: Entity) -> (record: &DatabaseEntity)
        requires
            self.has(entity),
        ensures
            *record == self@[entity.0 as int],
    {
        &self.records[entity.0]
    }

    /// Marks a record as changed in memory.
    pub fn mark_dirty(&mut self, entity: Entity)
        requires
            old(self).wf(),
            old(self).has(entity),
        ensures
            final(self).wf(),
            final(self)@ == old(self)@.update(entity.0 as int, old(self)@[entity.0 as int].touched()),
    {
        self.records[entity.0].dirty = true;
        proof {
            assert(self@ =~= old(self)@.update(entity.0 as int, old(self)@[entity.0 as int].touched()));
        }
    }

    /// Marks a record as written back: persisted, and clean again.
    pub fn mark_written(&mut self, entity: Entity)
        requires
            old(self).wf(),
            old(self).has(entity),
        ensures
            final(self).wf(),
            final(self)@ == old(self)@.update(
                entity.0 as int,
                old(self)@[entity.0 as int].written_back(),
            ),
    {
        self.records[entity.0].persisted = Persisted(true);
        self.records[entity.0].dirty = false;
        proof {
            assert(self@ =~= old(self)@.update(
                entity.0 as int,
                old(self)@[entity.0 as int].written_back(),
            ));
        }
    }

    /// Marks every record that a request owns as written back.
    pub fn mark_all_written(&mut self, request: &RequestId)
        requires
            old(self).wf(),
        ensures
            final(self).wf(),
            final(self)@ == flushed_records(old(self)@, *request),
    {
        let mut i: usize = 0;
        while i < self.records.len()
            invariant
                i <= self.records@.len(),
                self.wf(),
                self@.len() == old(self)@.len(),
                forall|k: int|
                    0 <= k < self@.len() ==> #[trigger] self@[k] == if k < i && old(self)@[k].request
                        == *request {
                        old(self)@[k].written_back()
                    } else {
                        old(self)@[k]
                    },
            decreases self.records@.len() - i,
        {
            if self.records[i].request == *request {
                self.mark_written(Entity(i));
            }
            i = i + 1;
        }
        assert(self@ =~= flushed_records(old(self)@, *request));
    }

    fn matching(&self, by_id: bool, id: DatabaseEntityId, request: RequestId) -> (found: Vec<Entity>)
        ensures
            by_id ==> lists_matching(found@, self@, |r: DatabaseEntity| r.id == id),
            !by_id ==> lists_matching(found@, self@, |r: DatabaseEntity| r.request == request),
    {
        let ghost pred = if by_id {
            |r: DatabaseEntity| r.id == id
        } else {
            |r: DatabaseEntity| r.request == request
        };
        let mut found: Vec<Entity> = Vec::new();
        let mut i: usize = 0;
        while i < self.records.len()
            invariant
                i <= self.records@.len(),
                pred == if by_id {
                    |r: DatabaseEntity| r.id == id
                } else {
                    |r: DatabaseEntity| r.request == request
                },
                forall|k: int|
                    0 <= k < found@.len() ==> (#[trigger] found@[k]).0 < i && pred(
                        self@[found@[k].0 as int],
                    ),
                forall|j: int|
                    0 <= j < i && pred(#[trigger] self@[j]) ==> found@.contains(Entity(j as usize)),
                forall|k: int, l: int|
                    0 <= k < l < found@.len() ==> (#[trigger] found@[k]).0 < (#[trigger] found@[l]).0,
            decreases self.records@.len() - i,
        {
            let hit = if by_id {
                self.records[i].id == id
            } else {
                self.records[i].request == request
            };
            if hit {
                let ghost before = found@;
                found.push(Entity(i));
                proof {
                    assert(found@[before.len() as int] == Entity(i));
                    assert forall|j: int| 0 <= j < i + 1 && pred(#[trigger] self@[j]) implies found@.contains(
                        Entity(j as usize),
                    ) by {
                        if j < i {
                            let k = choose|k: int| 0 <= k < before.len() && before[k] == Entity(j as usize);
                            assert(found@[k] == Entity(j as usize));
                        }
                    }
                }
            }
            i = i + 1;
        }
        found
    }
}

/// The records after a request was flushed: those that the request owns are
/// persisted and clean, the others are as they were.
pub open spec fn flushed_records(world: Seq<DatabaseEntity>, request: RequestId) -> Seq<
    DatabaseEntity,
> {
    Seq::new(
        world.len(),
        |i: int|
            if world[i].request == request {
                world[i].written_back()
            } else {
                world[i]
            },
    )
}

/// True of a list that names, in ascending order and once each, exactly the
/// entities whose records meet a condition.
pub open spec fn lists_matching(
    found: Seq<Entity>,
    records: Seq<DatabaseEntity>,
    pred: spec_fn(DatabaseEntity) -> bool,
) -> bool {
    &&& forall|k: int|
        0 <= k < found.len() ==> (#[trigger] found[k]).0 < records.len() && pred(
            records[found[k].0 as int],
        )
    &&& forall|j: int|
        0 <= j < records.len() && pred(#[trigger] records[j]) ==> found.contains(Entity(j as usize))
    &&& forall|k: int, l: int|
        0 <= k < l < found.len() ==> (#[trigger] found[k]).0 < (#[trigger] found[l]).0
}

/// The index of the records by identity.
pub struct DatabaseEntityIndex;

impl DatabaseEntityIndex {
    /// The key under which the index files a record.
    pub fn value(c: &DatabaseEntity) -> (r: DatabaseEntityId)
        ensures
            r == c.id,
    {
        c.id
    }

    /// The entities that carry an identity: one at most in a store with
    /// distinct identities.
    pub fn lookup(world: &World, id: &DatabaseEntityId) -> (found: Vec<Entity>)
        ensures
            lists_matching(found@, world@, |r: DatabaseEntity| r.id == *id),
            world.wf() ==> found@.len() <= 1,
            world.wf() ==> (found@.len() == 1 <==> holds_id(world@, *id)),
            world.wf() && found@.len() == 1 ==> entity_of(world@, *id) == Some(found@[0]),
    {
        let found = world.matching(true, *id, RequestId { index: 0, generation: 0 });
        let n = world.len();
        proof {
            if world.wf() {
                if found@.len() > 1 {
                    assert(found@[0].0 < found@[1].0);
                    assert(world@[found@[0].0 as int].id == world@[found@[1].0 as int].id);
                }
                if found@.len() == 1 {
                    lemma_entity_of(world@, found@[0].0 as int);
                }
                if holds_id(world@, *id) {
                    let i = choose|i: int| 0 <= i < world@.len() && (#[trigger] world@[i]).id == *id;
                    assert(found@.contains(Entity(i as usize)));
                }
            }
        }
        found
    }
}

/// The index of the records by owning request.
pub struct RequestIdIndex;

impl RequestIdIndex {
    /// The key under which the index files a record.
    pub fn value(c: &DatabaseEntity) -> (r: RequestId)
        ensures
            r == c.request,
    {
        c.request
    }

    /// The entities that a request owns, in ascending order, once each.
    pub fn lookup(world: &World, request: &RequestId) -> (found: Vec<Entity>)
        ensures
            lists_matching(found@, world@, |r: DatabaseEntity| r.request == *request),
    {
        world.matching(false, DatabaseEntityId(0), *request)
    }
}

} // verus!

verus! {

/// The components of one type, by the entity they are attached to.
pub struct Column<C> {
    cells: Vec<Option<C>>,
}

impl<C> View for Column<C> {
    type V = Map<Entity, C>;

    closed spec fn view(&self) -> Map<Entity, C> {
        Map::new(
            |e: Entity| e.0 < self.cells@.len() && self.cells@[e.0 as int] is Some,
            |e: Entity| self.cells@[e.0 as int]->0,
        )
    }
}

impl<C> Column<C> {
    /// True of an entity that has a component in this column.
    pub open spec fn has(&self, entity: Entity) -> bool {
        self@.dom().contains(entity)
    }

    /// A column without components.
    pub fn new() -> (column: Self)
        ensures
            column@ == Map::<Entity, C>::empty(),
    {
        let column = Column { cells: Vec::new() };
        assert(column@ =~= Map::<Entity, C>::empty());
        column
    }

    /// Whether the entity has a component in this column.
    pub fn contains(&self, entity: Entity) -> (found: bool)
        ensures
            found == self.has(entity),
    {
        entity.0 < self.cells.len() && self.cells[entity.0].is_some()
    }

    /// The component of an entity, if it has one.
    pub fn get(&self, entity: Entity) -> (component: Option<&C>)
        ensures
            self.has(entity) ==> component == Some(&self@[entity]),
            !self.has(entity) ==> component is None,
    {
        if entity.0 < self.cells.len() {
            self.cells[entity.0].as_ref()
        } else {
            None
        }
    }

    /// The component of an entity that has one, for change. What the caller
    /// leaves in it is what the column holds for the entity afterwards.
    pub fn get_mut(&mut self, entity: Entity) -> (component: &mut C)
        requires
            old(self).has(entity),
        ensures
            *component == old(self)@[entity],
            final(self)@ =~= old(self)@.insert(entity, *final(component)),
    {
        match &mut self.cells[entity.0] {
            Some(c) => c,
            None => vstd::pervasive::unreached(),
        }
    }

    /// Attaches a component to an entity, in place of the one it had, if any.
    pub fn insert(&mut self, entity: Entity, component: C)
        requires
            entity.0 < usize::MAX,
        ensures
            final(self)@ == old(self)@.insert(entity, component),
    {
        while self.cells.len() <= entity.0
            invariant
                entity.0 < usize::MAX,
                self@ =~= old(self)@,
            decreases entity.0 + 1 - self.cells@.len(),
        {
            self.cells.push(None);
        }
        self.cells[entity.0] = Some(component);
        assert(self@ =~= old(self)@.insert(entity, component));
    }
}

} // verus!
