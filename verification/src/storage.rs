//! The identity of the local store: every store carries a durable
//! identifier, and a path is never silently adopted or overwritten.

use vstd::prelude::*;
use vstd::string::StringExecFns;
use crate::errors::{MetaError, MetaResult};

verus! {

/// What was found at the path of a store.
#[derive(Debug, Clone, Copy, PartialEq, Eq)]
pub enum Slot {
    /// Nothing is there.
    Empty,
    /// A store with this identifier.
    Holds(u64),
    /// Something that cannot be read as a store.
    Unreadable,
}

/// An opened store, known by its identifier.
#[derive(Debug, Clone, Copy, PartialEq, Eq)]
pub struct Store {
    pub id: u64,
}

/// What is said of a path whose content cannot be read as a store.
pub open spec fn unreadable_text() -> Seq<char> {
    "the store at this path cannot be read"@
}

/// Whether `r` reports a path that cannot be read.
pub open spec fn reports_unreadable(r: MetaResult<Store>) -> bool {
    r is Err && r->Err_0 is MetaStoreDamaged && r->Err_0->MetaStoreDamaged_0@ == unreadable_text()
}

/// What `open` returns for each state of the path.
pub open spec fn opened(slot: Slot, r: MetaResult<Store>) -> bool {
    match slot {
        Slot::Holds(id) => r == Ok::<Store, MetaError>(Store { id }),
        Slot::Empty => r == Err::<Store, MetaError>(MetaError::MetaStoreNotFound),
        Slot::Unreadable => reports_unreadable(r),
    }
}

/// What `create` returns for each state of the path, for a new store `id`.
pub open spec fn created(slot: Slot, id: u64, r: MetaResult<Store>) -> bool {
    match slot {
        Slot::Empty => r == Ok::<Store, MetaError>(Store { id }),
        Slot::Holds(existing) => if existing == id {
            r == Ok::<Store, MetaError>(Store { id })
        } else {
            r == Err::<Store, MetaError>(MetaError::MetaStoreAlreadyExists(existing))
        },
        Slot::Unreadable => reports_unreadable(r),
    }
}

fn damaged() -> (r: MetaError)
    ensures
        r is MetaStoreDamaged,
        r->MetaStoreDamaged_0@ == unreadable_text(),
{
    MetaError::MetaStoreDamaged(String::from_str("the store at this path cannot be read"))
}

impl Store {
    /// Opens the store found at a path. A path that holds none is not
    /// turned into a store, and one that cannot be read is reported.
    pub fn open(slot: Slot) -> (r: MetaResult<Store>)
        ensures
            opened(slot, r),
    {
        match slot {
            Slot::Holds(id) => Ok(Store { id }),
            Slot::Empty => Err(MetaError::MetaStoreNotFound),
            Slot::Unreadable => Err(damaged()),
        }
    }

    /// Creates the store `id` at a path. A store of another identity that is
    /// already there stays, and is named in the error.
    pub fn create(slot: Slot, id: u64) -> (r: MetaResult<Store>)
        ensures
            created(slot, id, r),
    {
        match slot {
            Slot::Empty => Ok(Store { id }),
            Slot::Holds(existing) => {
                if existing == id {
                    Ok(Store { id })
                } else {
                    Err(MetaError::MetaStoreAlreadyExists(existing))
                }
            },
            Slot::Unreadable => Err(damaged()),
        }
    }

    /// The durable identifier of the store.
    pub fn id(&self) -> (r: u64)
        ensures
            r == self.id,
    {
        self.id
    }
}

} // verus!
