//! Payloads of the collection context-menu actions.

use vstd::prelude::*;

verus! {

/// Reload the collection with this numeric id.
#[derive(Clone, Copy, Debug, PartialEq, Eq, Structural)]
pub struct ReloadCollection {
    /// The numeric id of the collection to reload.
    pub id: u64,
}

/// Delete the collection with this numeric id.
#[derive(Clone, Copy, Debug, PartialEq, Eq, Structural)]
pub struct DeleteCollection {
    /// The numeric id of the collection to delete.
    pub id: u64,
}

} // verus!
