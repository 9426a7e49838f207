//! Identities, request handles and the in-memory record kept for each row.

use crate::text::{decimal, i64_text, signed_decimal, u64_text, usize_text};
use vstd::prelude::*;
use vstd::string::StringExecFns;

verus! {

/// Whether a row has ever been written to the database.
#[derive(Clone, Copy, PartialEq, Eq, Structural, PartialOrd, Ord, Debug)]
pub struct Persisted(pub bool);

impl Default for Persisted {
    /// A record is taken to be persisted unless it is known to be new.
    fn default() -> (r: Self)
        ensures
            r == Persisted(true),
    {
        Persisted(true)
    }
}

impl From<bool> for Persisted {
    fn from(b: bool) -> (r: Self) {
        Persisted(b)
    }
}

impl vstd::std_specs::convert::FromSpecImpl<bool> for Persisted {
    open spec fn obeys_from_spec() -> bool {
        true
    }

    open spec fn from_spec(b: bool) -> Self {
        Persisted(b)
    }
}

impl From<Persisted> for bool {
    fn from(val: Persisted) -> (r: Self) {
        val.0
    }
}

impl vstd::std_specs::convert::FromSpecImpl<Persisted> for bool {
    open spec fn obeys_from_spec() -> bool {
        true
    }

    open spec fn from_spec(val: Persisted) -> Self {
        val.0
    }
}

/// The key of a row. Keys below zero are minted locally for rows that the
/// database has not seen yet; the others come from the database.
#[derive(Clone, Copy, PartialEq, Eq, Structural, PartialOrd, Ord, Debug, Default, Hash)]
pub struct DatabaseEntityId(pub i64);

impl DatabaseEntityId {
    /// True of a key that was minted locally.
    pub open spec fn is_local(self) -> bool {
        self.0 < 0
    }

    /// The key as text: the number in decimal.
    pub fn to_text(&self) -> (text: String)
        ensures
            text@ == signed_decimal(self.0 as int),
    {
        i64_text(self.0)
    }

    /// Tells a locally minted key from one that the database issued.
    pub fn minted_locally(&self) -> (r: bool)
        ensures
            r == self.is_local(),
    {
        self.0 < 0
    }
}

/// The handle of one open request: a slot of the transaction table and the
/// generation tag under which the slot was handed out.
#[derive(Clone, Copy, PartialEq, Eq, Structural, PartialOrd, Ord, Debug, Hash)]
pub struct RequestId {
    pub index: usize,
    pub generation: u64,
}

impl RequestId {
    /// The handle for a slot and a generation tag.
    pub fn from_raw_parts(index: usize, generation: u64) -> (r: Self)
        ensures
            r == (RequestId { index, generation }),
    {
        RequestId { index, generation }
    }

    /// The handle as text: the slot, the letter v, and the generation tag.
    pub fn to_text(&self) -> (text: String)
        ensures
            text@ == decimal(self.index as nat) + seq!['v'] + decimal(self.generation as nat),
    {
        let mut text = usize_text(self.index);
        text.append("v");
        let generation = u64_text(self.generation);
        text.append(generation.as_str());
        proof {
            reveal_strlit("v");
            assert("v"@ =~= seq!['v']);
        }
        text
    }

    /// The slot and the generation tag of the handle.
    pub fn into_raw_parts(self) -> (r: (usize, u64))
        ensures
            r == (self.index, self.generation),
    {
        (self.index, self.generation)
    }
}

/// The record kept in memory for a row.
#[derive(Clone, Copy, PartialEq, Eq, Structural, PartialOrd, Ord, Debug)]
pub struct DatabaseEntity {
    pub id: DatabaseEntityId,
    /// False while the row exists in memory only: it has to be inserted, not
    /// updated.
    pub persisted: Persisted,
    /// True once the copy in memory may differ from the row.
    pub dirty: bool,
    /// The request that owns the copy in memory.
    pub request: RequestId,
}

impl DatabaseEntity {
    /// The record of a row that was just read from the database.
    pub open spec fn loaded(id: DatabaseEntityId, request: RequestId) -> DatabaseEntity {
        DatabaseEntity { id, persisted: Persisted(true), dirty: false, request }
    }

    /// The record of a row that was just created in memory.
    pub open spec fn created(id: DatabaseEntityId, request: RequestId) -> DatabaseEntity {
        DatabaseEntity { id, persisted: Persisted(false), dirty: false, request }
    }

    /// The record that a row of the database decodes to, before it is known
    /// which request asked for it: persisted and clean, with a request handle
    /// that names no request yet.
    pub fn from_row(id: DatabaseEntityId) -> (record: DatabaseEntity)
        ensures
            record == DatabaseEntity::loaded(id, RequestId { index: 0, generation: 0 }),
    {
        DatabaseEntity {
            id,
            persisted: Persisted(true),
            dirty: false,
            request: RequestId::from_raw_parts(0, 0),
        }
    }

    /// The record after its row was written back.
    pub open spec fn written_back(self) -> DatabaseEntity {
        DatabaseEntity { persisted: Persisted(true), dirty: false, ..self }
    }

    /// The record after a mutable view on its component was handed out.
    pub open spec fn touched(self) -> DatabaseEntity {
        DatabaseEntity { dirty: true, ..self }
    }
}

/// Anything that names a row together with the request that asks for it.
pub trait DatabaseEntityWithRequest {
    spec fn spec_request(&self) -> RequestId;

    spec fn spec_id(&self) -> DatabaseEntityId;

    fn request(&self) -> (r: &RequestId)
        ensures
            *r == self.spec_request(),
    ;

    fn id(&self) -> (r: &DatabaseEntityId)
        ensures
            *r == self.spec_id(),
    ;
}

impl DatabaseEntityWithRequest for DatabaseEntity {
    open spec fn spec_request(&self) -> RequestId {
        self.request
    }

    open spec fn spec_id(&self) -> DatabaseEntityId {
        self.id
    }

    fn request(&self) -> (r: &RequestId) {
        &self.request
    }

    fn id(&self) -> (r: &DatabaseEntityId) {
        &self.id
    }
}

impl DatabaseEntityWithRequest for (DatabaseEntityId, RequestId) {
    open spec fn spec_request(&self) -> RequestId {
        self.1
    }

    open spec fn spec_id(&self) -> DatabaseEntityId {
        self.0
    }

    fn request(&self) -> (r: &RequestId) {
        &self.1
    }

    fn id(&self) -> (r: &DatabaseEntityId) {
        &self.0
    }
}

impl DatabaseEntityWithRequest for (RequestId, DatabaseEntityId) {
    open spec fn spec_request(&self) -> RequestId {
        self.0
    }

    open spec fn spec_id(&self) -> DatabaseEntityId {
        self.1
    }

    fn request(&self) -> (r: &RequestId) {
        &self.0
    }

    fn id(&self) -> (r: &DatabaseEntityId) {
        &self.1
    }
}

/// The signal that a request is complete and has to be written back.
#[derive(Clone, Copy, Debug)]
pub struct FlushEvent {
    pub request: RequestId,
}

} // verus!
