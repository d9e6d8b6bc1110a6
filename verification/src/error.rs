//! The reasons for which an operation is refused.

use vstd::prelude::*;

verus! {

/// Why an operation was rejected. A rejected operation leaves the persisted
/// state exactly as it was.
#[derive(Clone, Copy, Debug, PartialEq, Eq, Structural)]
pub enum StoreError {
    /// A product of that name is already in the catalog.
    AlreadyExists,
    /// No catalog has ever been persisted.
    NotInitialized,
    /// The catalog holds no product of that name.
    NotFound,
    /// No record is stored under that id.
    AbsentRecord,
    /// The caller is not the owner of the record.
    Unauthorized,
}

} // verus!
