//! The generic keyed persistence contract: load, save and delete over
//! (object, 128-bit id) pairs, with expiry enforced transparently by `load`.

use vstd::prelude::*;

verus! {

/// Failure taxonomy shared by every store operation: a value could not be
/// serialized (`Encode`), a stored value is incompatible with the requested
/// shape (`Decode`), or the backing storage failed (`Backend`).
#[derive(Clone, Copy, Debug, PartialEq, Eq, Structural)]
pub enum Error {
    Encode,
    Decode,
    Backend,
}

/// An object that can be identified by a unique 128-bit identifier.
pub trait Identifiable {
    /// The identifier, as seen by specifications.
    spec fn uid_spec(&self) -> u128;

    /// Returns the unique identifier for `self`.
    fn uid(&self) -> (r: u128)
        ensures
            r == self.uid_spec(),
    ;
}

/// What a store needs of the objects it holds: a validity check (an expired
/// record must be reported as absent by `load`, so a backend invokes this on
/// what it finds, rather than inspecting the object's type) and a
/// value-preserving copy (a backend hands out copies, never aliases into its
/// own storage).
pub trait StoreObject: View + Sized {
    /// Whether an object whose view is `v` is still valid at the instant
    /// `now` (milliseconds since the epoch). Objects that cannot expire are
    /// valid at every instant.
    spec fn valid_view_at(v: Self::V, now: u64) -> bool;

    /// Executable form of [`StoreObject::valid_view_at`].
    fn valid_at(&self, now: u64) -> (b: bool)
        ensures
            b == Self::valid_view_at(self@, now),
    ;

    /// A copy equal in value to `self`.
    fn duplicate(&self) -> (r: Self)
        ensures
            r@ == self@,
    ;
}

/// What `load` must answer on a store whose contents are `m`: the object at
/// `uid`, unless there is none or it is no longer valid at `now`.
pub open spec fn lookup_spec<Object: StoreObject>(
    m: Map<u128, Object::V>,
    uid: u128,
    now: u64,
) -> Option<Object::V> {
    if m.dom().contains(uid) && Object::valid_view_at(m[uid], now) {
        Some(m[uid])
    } else {
        None
    }
}

/// The persistence contract over (object, id) pairs. Backends choose their
/// own representation; only the externally observable behaviour is fixed,
/// through the abstract `contents` map. Any call may fail with an [`Error`];
/// what a successful call returns or changes is pinned exactly.
pub trait Store<Object: StoreObject> {
    /// The records the store currently holds, as specifications see them.
    spec fn contents(&self) -> Map<u128, Object::V>;

    /// Fetch the record at `uid`, as of the instant `now`. Idempotent; a
    /// record that exists but is no longer valid at `now` is reported as
    /// absent, exactly as a missing one is.
    fn load(&self, uid: u128, now: u64) -> (r: Result<Option<Object>, Error>)
        ensures
            r matches Ok(Some(o)) ==> lookup_spec::<Object>(self.contents(), uid, now)
                == Some(o@),
            r matches Ok(None) ==> lookup_spec::<Object>(self.contents(), uid, now) is None,
    ;

    /// Upsert: create the record at `uid` if absent, overwrite it if present.
    fn save(&mut self, uid: u128, obj: &Object) -> (r: Result<(), Error>)
        ensures
            r matches Ok(x) ==> final(self).contents() == old(self).contents().insert(
                uid,
                obj@,
            ),
    ;

    /// Remove the record at `uid`. Idempotent: deleting an absent id
    /// succeeds and leaves the store as it is.
    fn delete(&mut self, uid: u128) -> (r: Result<(), Error>)
        ensures
            r matches Ok(x) ==> final(self).contents() == old(self).contents().remove(uid),
    ;
}

/// Round trip: saving an object and then looking the same id up, while the
/// object is still valid, yields that very object.
pub proof fn lemma_save_then_lookup<Object: StoreObject>(
    m: Map<u128, Object::V>,
    uid: u128,
    v: Object::V,
    now: u64,
)
    requires
        Object::valid_view_at(v, now),
    ensures
        lookup_spec::<Object>(m.insert(uid, v), uid, now) == Some(v),
{
}

/// A record whose validity has lapsed is reported as absent by `load`, even
/// though the record itself is still held until deleted.
pub proof fn lemma_expired_is_absent<Object: StoreObject>(
    m: Map<u128, Object::V>,
    uid: u128,
    now: u64,
)
    requires
        m.dom().contains(uid),
        !Object::valid_view_at(m[uid], now),
    ensures
        lookup_spec::<Object>(m, uid, now) is None,
        m.dom().contains(uid),
{
}

/// Deleting is idempotent: a second delete of the same id changes nothing,
/// and a lookup after a delete finds nothing.
pub proof fn lemma_delete_idempotent<Object: StoreObject>(
    m: Map<u128, Object::V>,
    uid: u128,
    now: u64,
)
    ensures
        m.remove(uid).remove(uid) == m.remove(uid),
        lookup_spec::<Object>(m.remove(uid), uid, now) is None,
{
    assert(m.remove(uid).remove(uid) =~= m.remove(uid));
}

} // verus!
