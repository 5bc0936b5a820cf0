//! An in-memory store backend: records held in a vector keyed by 128-bit
//! identifiers, satisfying the [`crate::store::Store`] contract.

use vstd::prelude::*;

use crate::kv::{
    keys_unique, lemma_map_of_absent_key, lemma_map_of_index, lemma_map_of_push,
    lemma_map_of_remove, lemma_map_of_update, map_of,
};
use crate::store::{Error, Store as StoreTrait, StoreObject};

verus! {

spec fn views_of<Object: StoreObject>(s: Seq<(u128, Object)>) -> Seq<(u128, Object::V)> {
    s.map_values(|p: (u128, Object)| (p.0, p.1@))
}

/// An in-memory store: one record per identifier, each held by value.
/// `load` hands out copies, never aliases into the storage, so mutation of
/// what a caller obtained cannot leak into the stored record before a
/// `save`.
pub struct Store<Object: StoreObject> {
    items: Vec<(u128, Object)>,
}

impl<Object: StoreObject> Store<Object> {
    spec fn entry_views(&self) -> Seq<(u128, Object::V)> {
        views_of::<Object>(self.items@)
    }

    #[verifier::type_invariant]
    spec fn inv(&self) -> bool {
        keys_unique(self.entry_views())
    }

    /// An empty store.
    pub fn new() -> (s: Self)
        ensures
            s.contents() == Map::<u128, Object::V>::empty(),
    {
        let s = Store { items: Vec::new() };
        proof {
            assert(s.entry_views() =~= Seq::<(u128, Object::V)>::empty());
        }
        s
    }

    fn index_of(&self, uid: u128) -> (r: Option<usize>)
        ensures
            r matches Some(i) ==> i < self.entry_views().len() && self.entry_views()[
                i as int
            ].0 == uid,
            r is None ==> forall|j: int|
                0 <= j < self.entry_views().len() ==> (#[trigger] self.entry_views()[j]).0
                    != uid,
    {
        let mut i: usize = 0;
        while i < self.items.len()
            invariant
                i <= self.items.len(),
                forall|j: int|
                    0 <= j < i ==> (#[trigger] self.entry_views()[j]).0 != uid,
            decreases self.items.len() - i,
        {
            if self.items[i].0 == uid {
                return Some(i);
            }
            i += 1;
        }
        None
    }

    /// Whether a record is physically held at `uid`, regardless of whether
    /// it is still valid.
    pub fn contains_record(&self, uid: u128) -> (r: bool)
        ensures
            r == self.contents().dom().contains(uid),
    {
        proof {
            use_type_invariant(&*self);
        }
        match self.index_of(uid) {
            Some(i) => {
                proof {
                    lemma_map_of_index(self.entry_views(), i as int);
                }
                true
            },
            None => {
                proof {
                    lemma_map_of_absent_key(self.entry_views(), uid);
                }
                false
            },
        }
    }
}

impl<Object: StoreObject> StoreTrait<Object> for Store<Object> {
    closed spec fn contents(&self) -> Map<u128, Object::V> {
        map_of(self.entry_views())
    }

    fn load(&self, uid: u128, now: u64) -> (r: Result<Option<Object>, Error>)
        ensures
            r is Ok,
    {
        proof {
            use_type_invariant(&*self);
        }
        match self.index_of(uid) {
            Some(i) => {
                proof {
                    lemma_map_of_index(self.entry_views(), i as int);
                }
                let o = &self.items[i].1;
                if o.valid_at(now) {
                    Ok(Some(o.duplicate()))
                } else {
                    Ok(None)
                }
            },
            None => {
                proof {
                    lemma_map_of_absent_key(self.entry_views(), uid);
                }
                Ok(None)
            },
        }
    }

    fn save(&mut self, uid: u128, obj: &Object) -> (r: Result<(), Error>)
        ensures
            r is Ok,
    {
        proof {
            use_type_invariant(&*self);
        }
        let ghost ev = self.entry_views();
        let idx = self.index_of(uid);
        let mut d: Vec<(u128, Object)> = Vec::new();
        core::mem::swap(&mut self.items, &mut d);
        proof {
            assert(self.entry_views() =~= Seq::<(u128, Object::V)>::empty());
        }
        match idx {
            Some(i) => {
                proof {
                    lemma_map_of_update(ev, i as int, obj@);
                }
                d[i] = (uid, obj.duplicate());
                proof {
                    assert(views_of::<Object>(d@) =~= ev.update(i as int, (uid, obj@)));
                    assert(keys_unique(views_of::<Object>(d@)));
                }
            },
            None => {
                proof {
                    lemma_map_of_push(ev, uid, obj@);
                }
                d.push((uid, obj.duplicate()));
                proof {
                    assert(views_of::<Object>(d@) =~= ev.push((uid, obj@)));
                    assert(keys_unique(views_of::<Object>(d@)));
                }
            },
        }
        core::mem::swap(&mut self.items, &mut d);
        Ok(())
    }

    fn delete(&mut self, uid: u128) -> (r: Result<(), Error>)
        ensures
            r is Ok,
    {
        proof {
            use_type_invariant(&*self);
        }
        let ghost ev = self.entry_views();
        match self.index_of(uid) {
            Some(i) => {
                proof {
                    lemma_map_of_remove(ev, i as int);
                }
                let mut d: Vec<(u128, Object)> = Vec::new();
                core::mem::swap(&mut self.items, &mut d);
                proof {
                    assert(self.entry_views() =~= Seq::<(u128, Object::V)>::empty());
                }
                let _removed = d.remove(i);
                proof {
                    assert(views_of::<Object>(d@) =~= ev.remove(i as int));
                    assert(keys_unique(views_of::<Object>(d@)));
                }
                core::mem::swap(&mut self.items, &mut d);
                Ok(())
            },
            None => {
                proof {
                    lemma_map_of_absent_key(ev, uid);
                    assert(map_of(ev).remove(uid) =~= map_of(ev));
                }
                Ok(())
            },
        }
    }
}

} // verus!
