//! The user-resolution pipeline stage: it resolves a [`crate::session::Session`]'s
//! stored identity reference into a user through a user store, and decides
//! whether the request may proceed.

use vstd::prelude::*;

use crate::session::{spec_get_uid, Session};
use crate::store::{lookup_spec, Identifiable, Store as StoreTrait, StoreObject};
use crate::value::SpecValue;

verus! {

/// The fixed session data key under which the authenticated user's
/// identifier is stored (by whatever performs the login).
pub const USER_UID_KEY: &'static str = "user_uid";

/// A user which can be authenticated and identified.
pub trait AuthUser {
    /// The user's identifier, as specifications see it.
    spec fn id_spec(&self) -> u128;

    /// Returns the identifier of this user.
    fn id(&self) -> (r: u128)
        ensures
            r == self.id_spec(),
    ;
}

/// The smallest user record the resolution stage can attach; applications
/// with richer users supply their own [`AuthUser`] implementor instead.
pub struct User {
    pub id: u128,
}

impl View for User {
    type V = u128;

    open spec fn view(&self) -> u128 {
        self.id
    }
}

impl AuthUser for User {
    open spec fn id_spec(&self) -> u128 {
        self.id
    }

    fn id(&self) -> (r: u128) {
        self.id
    }
}

impl Identifiable for User {
    open spec fn uid_spec(&self) -> u128 {
        self.id
    }

    fn uid(&self) -> (r: u128) {
        self.id
    }
}

impl StoreObject for User {
    /// A user record does not expire.
    open spec fn valid_view_at(v: u128, now: u64) -> bool {
        true
    }

    fn valid_at(&self, now: u64) -> (b: bool) {
        true
    }

    fn duplicate(&self) -> (r: Self) {
        User { id: self.id }
    }
}

/// What the user-resolution stage decides for one request: attach this
/// user and invoke the handler; refuse with an unauthorized status; or
/// refuse with a server-error status.
pub enum Resolution<U> {
    User(U),
    Unauthorized,
    ServerError,
}

/// What the user-resolution stage decides once the user store has
/// answered for the session's stored identifier: a resolved user is
/// attached; a miss — the session references a user no longer resolvable
/// — is refused as unauthorized; a store failure is a server error.
pub fn resolution_after_load<U: AuthUser + StoreObject>(
    loaded: Result<Option<U>, crate::store::Error>,
) -> (r: Resolution<U>)
    ensures
        r == (match loaded {
            Ok(Some(u)) => Resolution::User(u),
            Ok(None) => Resolution::<U>::Unauthorized,
            Err(_) => Resolution::<U>::ServerError,
        }),
{
    match loaded {
        Ok(Some(user)) => Resolution::User(user),
        Ok(None) => Resolution::Unauthorized,
        Err(_) => Resolution::ServerError,
    }
}

/// The user-resolution pipeline stage. It must run downstream of a
/// session-binding stage: that ordering is a composition-time obligation
/// of whoever assembles the pipeline, not something this stage can
/// enforce, which is why an absent session is handled rather than assumed
/// impossible. It never writes to the session or to the store.
pub struct UserManager<U: AuthUser + StoreObject, St: StoreTrait<U>> {
    store: St,
    user: core::marker::PhantomData<U>,
}

impl<U: AuthUser + StoreObject, St: StoreTrait<U>> UserManager<U, St> {
    /// The user records the backing store currently holds.
    pub closed spec fn store_contents(&self) -> Map<u128, U::V> {
        self.store.contents()
    }

    pub fn new(store: St) -> (m: Self)
        ensures
            m.store_contents() == store.contents(),
    {
        UserManager { store, user: core::marker::PhantomData }
    }

    /// Decide one request, as of the instant `now`. An absent session is
    /// refused as unauthorized before anything else; a session without the
    /// [`USER_UID_KEY`] entry is unauthorized (anonymous); an entry of the
    /// wrong shape is a server error; an identifier the store does not
    /// resolve is unauthorized; a store failure is a server error. Only
    /// with a resolved user does the handler run.
    pub fn resolve(&self, session: Option<&Session>, now: u64) -> (r: Resolution<U>)
        ensures
            match session {
                None => r is Unauthorized,
                Some(s) => match spec_get_uid(s@.data, USER_UID_KEY@) {
                    Err(_) => r is ServerError,
                    Ok(None) => r is Unauthorized,
                    Ok(Some(user_uid)) => {
                        &&& r matches Resolution::User(u) ==> lookup_spec::<U>(
                            self.store_contents(),
                            user_uid,
                            now,
                        ) == Some(u@)
                        &&& r is Unauthorized ==> lookup_spec::<U>(
                            self.store_contents(),
                            user_uid,
                            now,
                        ) is None
                    },
                },
            },
    {
        match session {
            None => Resolution::Unauthorized,
            Some(s) => match s.get_uid(USER_UID_KEY) {
                Err(_) => Resolution::ServerError,
                Ok(None) => Resolution::Unauthorized,
                Ok(Some(user_uid)) => resolution_after_load(self.store.load(user_uid, now)),
            },
        }
    }
}

} // verus!
