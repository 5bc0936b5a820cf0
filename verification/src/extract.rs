//! Request-context extraction helpers: the newtype under which a resolved
//! user is attached to, and read back from, a request's context. The
//! framework-facing extraction impls live with the surrounding service
//! code, outside this crate's verified core.

use vstd::prelude::*;

verus! {

/// A user attached to a request that has passed the user-resolution
/// stage: extracting one asserts that the stage ran and resolved a user.
pub struct ProtectedUser<U>(pub U);

} // verus!
