//! The marker under which the layer is registered with a host.

use vstd::prelude::*;

verus! {

/// Registers the flush signal and the table of transactions with a host.
pub struct EntityRelationMapperPlugin;

} // verus!
