use vstd::prelude::*;

verus! {

/// The outcomes of an operation that did not succeed.
#[derive(Clone, Copy, Debug, PartialEq, Eq, Structural)]
pub enum ServiceError {
    /// No valid identity: the token is missing or resolves to no user.
    Unauthenticated,
    /// A valid identity whose role does not allow the operation.
    Unauthorized,
    /// No record matches the scoped key or the username.
    NotFound,
    /// A uniqueness rule would be broken by the new record.
    Conflict,
    /// The store could not complete the operation for another reason.
    StorageError,
}

} // verus!
