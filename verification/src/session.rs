//! The session entity: per-client state with identity, expiry, key/value
//! data and a dirty flag; and the pipeline stage that binds a cookie to it.

use vstd::prelude::*;

use crate::kv::{
    keys_unique, lemma_map_of_absent_key, lemma_map_of_index, lemma_map_of_push,
    lemma_map_of_remove, lemma_map_of_update, map_of,
};
use crate::store::{lookup_spec, Error, Identifiable, Store as StoreTrait, StoreObject};
use crate::uid::{fresh_uid_distinct_from, now_millis, parse_uid, parse_uid_spec, random_uid};
use crate::value::{SpecValue, Value};

verus! {

/// Sessions expire one week after creation unless told otherwise
/// (milliseconds).
pub const DEFAULT_EXPIRATION: u64 = 1000 * 60 * 60 * 24 * 7;

/// `a + b`, stopping at the largest representable instant instead of
/// wrapping.
pub open spec fn sat_add(a: u64, b: u64) -> u64 {
    if a + b > u64::MAX {
        u64::MAX
    } else {
        (a + b) as u64
    }
}

/// What a [`Session`] is to specifications: its identifier, its expiry
/// instant, its data as a map, and its dirty flag.
pub struct SessionView {
    pub uid: u128,
    pub expires_at: u64,
    pub data: Map<Seq<char>, SpecValue>,
    pub modified: bool,
}

/// Per-client server-side state: a 128-bit identifier (the only value ever
/// exposed to the client, via the cookie), an absolute expiry instant, a
/// map from string keys to [`Value`]s, and a dirty flag that is true iff
/// the in-memory state may differ from the last known persisted state.
pub struct Session {
    uid: u128,
    expires_at: u64,
    data: Vec<(String, Value)>,
    modified: bool,
}

impl View for Session {
    type V = SessionView;

    closed spec fn view(&self) -> SessionView {
        SessionView {
            uid: self.uid,
            expires_at: self.expires_at,
            data: map_of(self.entry_views()),
            modified: self.modified,
        }
    }
}

spec fn views_of(s: Seq<(String, Value)>) -> Seq<(Seq<char>, SpecValue)> {
    s.map_values(|p: (String, Value)| (p.0@, p.1@))
}

impl Session {
    spec fn entry_views(&self) -> Seq<(Seq<char>, SpecValue)> {
        views_of(self.data@)
    }

    #[verifier::type_invariant]
    spec fn inv(&self) -> bool {
        keys_unique(self.entry_views())
    }

    /// A fresh session: new random id, expiry `expires_in` past `now`
    /// (saturating), empty data, and — because none of this has ever been
    /// persisted — the dirty flag already set.
    pub fn new_at(expires_in: u64, now: u64) -> (s: Session)
        ensures
            s@.data == Map::<Seq<char>, SpecValue>::empty(),
            s@.modified,
            s@.expires_at == sat_add(now, expires_in),
    {
        let expires_at = if expires_in > u64::MAX - now {
            u64::MAX
        } else {
            now + expires_in
        };
        let s = Session { uid: random_uid(), expires_at, data: Vec::new(), modified: true };
        proof {
            assert(s.entry_views() =~= Seq::<(Seq<char>, SpecValue)>::empty());
        }
        s
    }

    /// A fresh session expiring `expires_in` milliseconds from now, read
    /// off the system clock.
    pub fn new(expires_in: u64) -> (s: Session)
        ensures
            s@.data == Map::<Seq<char>, SpecValue>::empty(),
            s@.modified,
    {
        let now = now_millis();
        Session::new_at(expires_in, now)
    }

    /// The unique identifier of this session.
    pub fn uid(&self) -> (r: u128)
        ensures
            r == self@.uid,
    {
        self.uid
    }

    /// When the session expires (milliseconds since the epoch).
    pub fn expires_at(&self) -> (r: u64)
        ensures
            r == self@.expires_at,
    {
        self.expires_at
    }

    /// The number of entries currently stored in the session's data.
    pub fn len(&self) -> (r: usize)
        ensures
            r == self@.data.dom().len(),
    {
        proof {
            use_type_invariant(&*self);
            crate::kv::lemma_map_of_len(self.entry_views());
        }
        self.data.len()
    }

    /// Whether the session may differ from its last known persisted state.
    pub fn is_modified(&self) -> (r: bool)
        ensures
            r == self@.modified,
    {
        self.modified
    }

    /// Record that the current state has just been persisted: the session
    /// no longer differs from the stored copy. Everything else is kept.
    pub fn mark_saved(&mut self)
        ensures
            final(self)@ == (SessionView { modified: false, ..old(self)@ }),
    {
        proof {
            use_type_invariant(&*self);
        }
        self.modified = false;
    }

    /// Replace the identifier with a fresh random one and return the prior
    /// identifier. The new identifier differs from the old; the stored data
    /// is untouched; the session is marked dirty. Nothing is done about a
    /// record persisted under the old identifier — that remains the
    /// caller's responsibility.
    pub fn cycle_uid(&mut self) -> (r: u128)
        ensures
            r == old(self)@.uid,
            final(self)@.uid != old(self)@.uid,
            final(self)@.data == old(self)@.data,
            final(self)@.expires_at == old(self)@.expires_at,
            final(self)@.modified,
    {
        proof {
            use_type_invariant(&*self);
        }
        let old_uid = self.uid;
        self.uid = fresh_uid_distinct_from(old_uid);
        self.modified = true;
        old_uid
    }

    fn index_of(&self, key: &String) -> (r: Option<usize>)
        ensures
            r matches Some(i) ==> i < self.entry_views().len() && self.entry_views()[
                i as int
            ].0 == key@,
            r is None ==> forall|j: int|
                0 <= j < self.entry_views().len() ==> (#[trigger] self.entry_views()[j]).0
                    != key@,
    {
        let mut i: usize = 0;
        while i < self.data.len()
            invariant
                i <= self.data.len(),
                forall|j: int|
                    0 <= j < i ==> (#[trigger] self.entry_views()[j]).0 != key@,
            decreases self.data.len() - i,
        {
            if self.data[i].0 == *key {
                return Some(i);
            }
            i += 1;
        }
        None
    }

    /// Store `value` under `key`, overwriting any existing entry, and mark
    /// the session dirty. A first-class [`Value`] always has an encoding,
    /// so this never fails.
    pub fn insert(&mut self, key: &str, value: Value) -> (r: Result<(), Error>)
        ensures
            r is Ok,
            final(self)@.data == old(self)@.data.insert(key@, value@),
            final(self)@.modified,
            final(self)@.uid == old(self)@.uid,
            final(self)@.expires_at == old(self)@.expires_at,
    {
        proof {
            use_type_invariant(&*self);
        }
        let key_s = key.to_owned();
        let ghost ev = self.entry_views();
        let idx = self.index_of(&key_s);
        let mut d: Vec<(String, Value)> = Vec::new();
        core::mem::swap(&mut self.data, &mut d);
        proof {
            assert(self.entry_views() =~= Seq::<(Seq<char>, SpecValue)>::empty());
        }
        match idx {
            Some(i) => {
                proof {
                    lemma_map_of_update(ev, i as int, value@);
                }
                d[i] = (key_s, value);
                proof {
                    assert(views_of(d@) =~= ev.update(i as int, (key@, value@)));
                    assert(keys_unique(views_of(d@)));
                }
            },
            None => {
                proof {
                    lemma_map_of_push(ev, key@, value@);
                }
                d.push((key_s, value));
                proof {
                    assert(views_of(d@) =~= ev.push((key@, value@)));
                    assert(keys_unique(views_of(d@)));
                }
            },
        }
        core::mem::swap(&mut self.data, &mut d);
        self.modified = true;
        Ok(())
    }

    /// Look `key` up; absence is not an error. The dirty flag is never
    /// touched by a read.
    pub fn get(&self, key: &str) -> (r: Option<Value>)
        ensures
            r is Some <==> self@.data.dom().contains(key@),
            r matches Some(v) ==> v@ == self@.data[key@],
    {
        proof {
            use_type_invariant(&*self);
        }
        let key_s = key.to_owned();
        match self.index_of(&key_s) {
            Some(i) => {
                proof {
                    lemma_map_of_index(self.entry_views(), i as int);
                }
                Some(self.data[i].1.duplicate())
            },
            None => {
                proof {
                    lemma_map_of_absent_key(self.entry_views(), key@);
                }
                None
            },
        }
    }

    /// Look `key` up and decode it as a 128-bit identifier: absent keys are
    /// not an error, but a value of any other shape is a decode failure.
    /// The dirty flag is never touched by a read.
    pub fn get_uid(&self, key: &str) -> (r: Result<Option<u128>, Error>)
        ensures
            r == spec_get_uid(self@.data, key@),
    {
        match self.get(key) {
            None => Ok(None),
            Some(v) => match v {
                Value::Uid(u) => Ok(Some(u)),
                _ => Err(Error::Decode),
            },
        }
    }

    /// Remove `key` if present, returning the removed value; the session is
    /// marked dirty only when something was actually removed.
    pub fn remove(&mut self, key: &str) -> (r: Option<Value>)
        ensures
            final(self)@.data == old(self)@.data.remove(key@),
            r is Some <==> old(self)@.data.dom().contains(key@),
            r matches Some(v) ==> v@ == old(self)@.data[key@],
            r is Some ==> final(self)@.modified,
            r is None ==> *final(self) == *old(self),
            final(self)@.uid == old(self)@.uid,
            final(self)@.expires_at == old(self)@.expires_at,
    {
        proof {
            use_type_invariant(&*self);
        }
        let key_s = key.to_owned();
        let ghost ev = self.entry_views();
        match self.index_of(&key_s) {
            Some(i) => {
                proof {
                    lemma_map_of_index(ev, i as int);
                    lemma_map_of_remove(ev, i as int);
                }
                let mut d: Vec<(String, Value)> = Vec::new();
                core::mem::swap(&mut self.data, &mut d);
                proof {
                    assert(self.entry_views() =~= Seq::<(Seq<char>, SpecValue)>::empty());
                }
                let kv = d.remove(i);
                proof {
                    assert(views_of(d@) =~= ev.remove(i as int));
                    assert(keys_unique(views_of(d@)));
                }
                core::mem::swap(&mut self.data, &mut d);
                self.modified = true;
                Some(kv.1)
            },
            None => {
                proof {
                    lemma_map_of_absent_key(ev, key@);
                    assert(old(self)@.data.remove(key@) =~= old(self)@.data);
                }
                None
            },
        }
    }

    /// Empty the session's data. Always marks the session dirty, even when
    /// there was nothing to empty.
    pub fn clear(&mut self)
        ensures
            final(self)@.data == Map::<Seq<char>, SpecValue>::empty(),
            final(self)@.modified,
            final(self)@.uid == old(self)@.uid,
            final(self)@.expires_at == old(self)@.expires_at,
    {
        proof {
            use_type_invariant(&*self);
        }
        let mut d: Vec<(String, Value)> = Vec::new();
        core::mem::swap(&mut self.data, &mut d);
        self.modified = true;
        proof {
            assert(self.entry_views() =~= Seq::<(Seq<char>, SpecValue)>::empty());
        }
    }
}

/// What a typed identifier read from session data yields, for every state
/// of the data.
pub open spec fn spec_get_uid(m: Map<Seq<char>, SpecValue>, key: Seq<char>) -> Result<
    Option<u128>,
    Error,
> {
    if !m.dom().contains(key) {
        Ok(None)
    } else {
        match m[key] {
            SpecValue::Uid(u) => Ok(Some(u)),
            _ => Err(Error::Decode),
        }
    }
}

impl Identifiable for Session {
    open spec fn uid_spec(&self) -> u128 {
        self@.uid
    }

    fn uid(&self) -> (r: u128) {
        self.uid
    }
}

impl StoreObject for Session {
    /// A session is valid until its expiry instant has passed.
    open spec fn valid_view_at(v: SessionView, now: u64) -> bool {
        v.expires_at >= now
    }

    fn valid_at(&self, now: u64) -> (b: bool) {
        self.expires_at >= now
    }

    fn duplicate(&self) -> (r: Self) {
        proof {
            use_type_invariant(&*self);
        }
        let mut data: Vec<(String, Value)> = Vec::new();
        let mut i: usize = 0;
        while i < self.data.len()
            invariant
                i <= self.data.len(),
                data@.len() == i,
                forall|j: int|
                    0 <= j < i ==> #[trigger] data@[j].0@ == self.data@[j].0@ && data@[
                        j
                    ].1@ == self.data@[j].1@,
            decreases self.data.len() - i,
        {
            let p = &self.data[i];
            data.push((p.0.clone(), p.1.duplicate()));
            i += 1;
        }
        proof {
            assert(views_of(data@) =~= self.entry_views());
        }
        let s = Session {
            uid: self.uid,
            expires_at: self.expires_at,
            data,
            modified: self.modified,
        };
        s
    }
}

/// Inserting a value and then reading the same key yields exactly that
/// value, whatever the session held before: [`Session::insert`] makes the
/// data `old.insert(key, value)`, and [`Session::get`] answers from that
/// map.
pub proof fn lemma_insert_then_get(
    data: Map<Seq<char>, SpecValue>,
    key: Seq<char>,
    value: SpecValue,
)
    ensures
        data.insert(key, value).dom().contains(key),
        data.insert(key, value)[key] == value,
{
}

/// The session the binding stage attaches when no stored one is usable:
/// empty, expiring a default lifetime past `now`, and — unlike a bare
/// [`Session::new`] — with a clean flag, so that the flag tracks
/// modification since the attach and a request that never touches its
/// fresh session leaves no trace behind.
pub open spec fn fresh_view(v: SessionView, now: u64) -> bool {
    v.data == Map::<Seq<char>, SpecValue>::empty() && !v.modified && v.expires_at == sat_add(
        now,
        DEFAULT_EXPIRATION,
    )
}

/// The id a request's cookie resolves to, if any: a missing cookie and an
/// unparseable one are treated exactly alike.
pub open spec fn spec_token(cookie: Option<&str>) -> Option<u128> {
    match cookie {
        Some(c) => parse_uid_spec(c@),
        None => None,
    }
}

/// What the session-binding stage attaches once the store has answered:
/// the loaded session as it is, or — on a miss, be the record absent or
/// expired — a fresh one, handed over clean (see [`fresh_view`]). The
/// stale record, if any, is not deleted.
pub fn session_after_load(loaded: Option<Session>, now: u64) -> (s: Session)
    ensures
        match loaded {
            Some(l) => s == l,
            None => fresh_view(s@, now),
        },
{
    match loaded {
        Some(s) => s,
        None => {
            let mut s = Session::new_at(DEFAULT_EXPIRATION, now);
            s.mark_saved();
            s
        },
    }
}

/// Whether and what the session-binding stage persists once the handler
/// has returned: nothing when the session was never modified — an
/// unmodified session leaves no trace — and otherwise the session, marked
/// clean, keyed by its current id, which the response cookie must then
/// carry (it may differ from the request's token if the id was cycled).
pub fn persist_plan(session: Session) -> (r: Option<(u128, Session)>)
    ensures
        r is Some <==> session@.modified,
        r matches Some(p) ==> p.0 == session@.uid && p.1@ == (SessionView {
            modified: false,
            ..session@
        }),
{
    if session.is_modified() {
        let mut s = session;
        s.mark_saved();
        let uid = s.uid();
        Some((uid, s))
    } else {
        None
    }
}

/// The session-binding pipeline stage: it turns a request's cookie into
/// exactly one [`Session`] before the handler runs ([`SessionManager::prepare`]),
/// and persists that session afterwards if and only if the handler left it
/// modified ([`SessionManager::finish`]). The surrounding service loop
/// performs the transport: it hands in the cookie value read under
/// [`SessionManager::cookie_name`] and writes back the cookie value
/// `finish` asks for.
pub struct SessionManager<St: StoreTrait<Session>> {
    store: St,
    cookie_name: &'static str,
}

impl<St: StoreTrait<Session>> SessionManager<St> {
    /// The session records the backing store currently holds.
    pub closed spec fn store_contents(&self) -> Map<u128, SessionView> {
        self.store.contents()
    }

    /// The configured cookie name, as specifications see it.
    pub closed spec fn cookie_name_spec(&self) -> Seq<char> {
        self.cookie_name@
    }

    pub fn new(store: St, cookie_name: &'static str) -> (m: Self)
        ensures
            m.store_contents() == store.contents(),
            m.cookie_name_spec() == cookie_name@,
    {
        SessionManager { store, cookie_name }
    }

    /// The backing store.
    pub fn store(&self) -> (r: &St)
        ensures
            r.contents() == self.store_contents(),
    {
        &self.store
    }

    /// The configured cookie name.
    pub fn cookie_name(&self) -> (r: &'static str)
        ensures
            r@ == self.cookie_name_spec(),
    {
        self.cookie_name
    }

    /// Bind a session for one request, as of the instant `now`: no usable
    /// token (no cookie, or one that does not parse) yields a fresh
    /// session; a token resolving to a live record yields that record as
    /// it is; a token resolving to a missing or expired record yields a
    /// fresh session, the stale record untouched. Only a store failure is
    /// an error; the caller then answers with a server error and never
    /// invokes the handler.
    pub fn prepare(&self, cookie: Option<&str>, now: u64) -> (r: Result<Session, Error>)
        ensures
            r matches Ok(s) ==> match spec_token(cookie) {
                None => fresh_view(s@, now),
                Some(id) => match lookup_spec::<Session>(self.store_contents(), id, now) {
                    Some(v) => s@ == v,
                    None => fresh_view(s@, now),
                },
            },
            spec_token(cookie) is None ==> r is Ok,
            r is Err ==> spec_token(cookie) is Some,
    {
        let token = match cookie {
            Some(c) => parse_uid(c),
            None => None,
        };
        match token {
            None => Ok(session_after_load(None, now)),
            Some(id) => match self.store.load(id, now) {
                Ok(loaded) => Ok(session_after_load(loaded, now)),
                Err(e) => Err(e),
            },
        }
    }

    /// Conclude one request: an unmodified session is let go — no save, no
    /// cookie — while a modified one is persisted under its current id,
    /// marked clean. `Ok(Some(uid))` instructs the caller to write the
    /// cookie with `uid`; `Ok(None)` to leave the response alone. On a
    /// save failure the caller must discard the handler's response and
    /// substitute a server error, with no cookie set.
    pub fn finish(&mut self, session: Session) -> (r: Result<Option<u128>, Error>)
        ensures
            r matches Ok(x) ==> x == (if session@.modified {
                Some(session@.uid)
            } else {
                None
            }),
            !session@.modified ==> r is Ok && final(self).store_contents() == old(
                self,
            ).store_contents(),
            session@.modified && r is Ok ==> final(self).store_contents() == old(
                self,
            ).store_contents().insert(
                session@.uid,
                (SessionView { modified: false, ..session@ }),
            ),
            r is Err ==> session@.modified,
    {
        match persist_plan(session) {
            None => Ok(None),
            Some((uid, clean)) => match self.store.save(uid, &clean) {
                Ok(()) => Ok(Some(uid)),
                Err(e) => Err(e),
            },
        }
    }
}

} // verus!
