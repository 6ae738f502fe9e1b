use vstd::prelude::*;

verus! {

/// Failure taxonomy of the store.
///
/// Lifecycle errors (`AlreadyExists`, `NotFound`), the credential gate
/// (`WrongCredentials`), cryptographic failures (`AuthenticationFailure`),
/// structural decode failures (`MalformedBlob`, `CorruptRecord`),
/// referential lookups (`GroupNotFound`, `EntryNotFound`), and storage-engine
/// failures (`Storage`), which are propagated, never retried.
#[derive(Clone, Copy, Debug, PartialEq, Eq, Structural)]
pub enum StoreError {
    AlreadyExists,
    NotFound,
    WrongCredentials,
    AuthenticationFailure,
    MalformedBlob,
    CorruptRecord,
    GroupNotFound,
    EntryNotFound,
    Storage,
}

} // verus!
