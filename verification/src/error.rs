//! The error taxonomy shared by the store and the sync engine.

use vstd::prelude::*;

verus! {

/// How an operation on the store or the sync engine can fail.
///
/// `NotFound` and `LockContention` are recoverable; `ConstraintViolation`
/// and `Corruption` signal that a stored invariant is broken; `Divergence`
/// is resolved by repeating the operation with `force`.
#[derive(Clone, Copy, Debug, PartialEq, Eq, Structural)]
pub enum StoreError {
    /// A requested document or remote store file is absent.
    NotFound,
    /// Two visible documents would share one `(project, key)` pair, or more
    /// than one visible row matched a lookup.
    ConstraintViolation,
    /// Local and remote mutated independently: equal generations, different
    /// hashes. Repeating with `force` overwrites one side.
    Divergence,
    /// Another sync operation holds the lock on the local store.
    LockContention,
    /// A filesystem or database operation failed.
    IoFailure,
    /// A persisted value is outside its closed domain, such as an unknown
    /// source tag.
    Corruption,
}

impl StoreError {
    /// A fixed description of the error, suitable for showing to the user.
    /// The divergence message names the `force` remedy, and the contention
    /// message names the lock, as the surrounding tooling expects.
    pub fn message(&self) -> (r: &'static str)
        ensures
            *self == StoreError::NotFound ==> r@ == "not found"@,
            *self == StoreError::ConstraintViolation ==> r@
                == "constraint violation: duplicate visible (project, key)"@,
            *self == StoreError::Divergence ==> r@
                == "local and remote have diverged; rerun with --force to overwrite"@,
            *self == StoreError::LockContention ==> r@
                == "could not obtain sync lock: another sync operation is in progress"@,
            *self == StoreError::IoFailure ==> r@ == "i/o failure"@,
            *self == StoreError::Corruption ==> r@ == "corrupt stored value"@,
    {
        match self {
            StoreError::NotFound => "not found",
            StoreError::ConstraintViolation => {
                "constraint violation: duplicate visible (project, key)"
            },
            StoreError::Divergence => {
                "local and remote have diverged; rerun with --force to overwrite"
            },
            StoreError::LockContention => {
                "could not obtain sync lock: another sync operation is in progress"
            },
            StoreError::IoFailure => "i/o failure",
            StoreError::Corruption => "corrupt stored value",
        }
    }
}

} // verus!
