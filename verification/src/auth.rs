//! The authentication backend contract: how an application turns
//! credentials into a user, and looks a user up again by identifier.
//! Implemented outside this crate, by whatever owns the user records.

use vstd::prelude::*;

use crate::user::AuthUser;

verus! {

/// An authentication backend. `authenticate` checks credentials and, on
/// success, yields the user whose identifier is then stored in the
/// session under [`crate::user::USER_UID_KEY`]; `get_user` resolves such
/// an identifier back into a user.
pub trait AuthBackend {
    type User: AuthUser;

    type Credentials;

    type Error;

    fn authenticate(&self, credentials: Self::Credentials) -> Result<
        Option<Self::User>,
        Self::Error,
    >;

    fn get_user(&self, id: u128) -> Result<Option<Self::User>, Self::Error>;
}

} // verus!
