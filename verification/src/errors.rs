//! Per-operation error kinds. Nothing here is fatal: the engine stays
//! usable after any single failure.

use vstd::prelude::*;

verus! {

/// Why an operation was not carried out.
#[derive(Clone, Copy, PartialEq, Eq, Structural, Debug)]
pub enum EngineError {
    /// An identifier named no known conversation or participant.
    NotFound,
    /// A creation named an identifier that already exists.
    Conflict,
    /// The permission check failed for a mutating or query operation.
    Denied,
    /// A join named a participant that already belongs; informational,
    /// not fatal.
    AlreadyMember,
}

} // verus!
