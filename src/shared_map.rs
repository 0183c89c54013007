use vstd::prelude::*;
use vstd::laws_eq::obeys_concrete_eq;
use vstd::rwlock::{ReadHandle, RwLock, RwLockPredicate};
use crate::vecmap::VecMap;

verus! {

/// What the lock keeps true of the map it guards: its keys are distinct.
pub struct MapInv;

impl<K: PartialEq, V> RwLockPredicate<VecMap<K, V>> for MapInv {
    open spec fn inv(self, m: VecMap<K, V>) -> bool {
        m.wf()
    }
}

/// A keyed map shared between threads behind one reader-writer lock: any number of
/// readers, or one writer.
pub struct SharedMap<K: PartialEq, V> {
    lock: RwLock<VecMap<K, V>, MapInv>,
}

/// A value of the map together with the read lock that keeps it valid; writers wait
/// until it is released.
pub struct Handle<'a, K: PartialEq, V> {
    guard: ReadHandle<'a, VecMap<K, V>, MapInv>,
    index: usize,
    key: Ghost<K>,
}

impl<K: PartialEq, V> SharedMap<K, V> {
    /// An empty map.
    pub fn new() -> (r: Self) {
        SharedMap { lock: RwLock::new(VecMap::new(), Ghost(MapInv)) }
    }

    /// Looks `k` up under the read lock. On a hit the handle keeps the lock until it is
    /// released; on a miss the lock is released at once.
    pub fn get(&self, k: &K) -> (r: Option<Handle<'_, K, V>>)
        requires
            obeys_concrete_eq::<K>(),
        ensures
            r matches Some(h) ==> h.spec_key() == *k && h.snapshot()@.contains_key(*k),
    {
        let guard = self.lock.acquire_read();
        let found = guard.borrow().find(k);
        match found {
            Some(i) => Some(Handle { guard, index: i, key: Ghost(*k) }),
            None => {
                guard.release_read();
                None
            },
        }
    }

    /// Removes the entry for `k` under the write lock and returns its value, if there
    /// was one.
    pub fn take(&self, k: &K) -> (r: Option<V>)
        requires
            obeys_concrete_eq::<K>(),
    {
        let (mut m, w) = self.lock.acquire_write();
        let r = m.remove(k);
        w.release_write(m);
        r
    }

    /// Stores `v` under `k` under the write lock, replacing any value stored there.
    pub fn insert(&self, k: K, v: V)
        requires
            obeys_concrete_eq::<K>(),
    {
        let (mut m, w) = self.lock.acquire_write();
        m.insert(k, v);
        w.release_write(m);
    }
}

impl<'a, K: PartialEq, V> Handle<'a, K, V> {
    /// The map as the held read lock shows it; no writer can change it meanwhile.
    pub closed spec fn snapshot(&self) -> VecMap<K, V> {
        self.guard.view()
    }

    pub closed spec fn spec_key(&self) -> K {
        self.key@
    }

    /// The handle's position is that of its key in the map it holds locked.
    #[verifier::type_invariant]
    closed spec fn wf(&self) -> bool {
        &&& self.guard.view().wf()
        &&& self.guard.view().key_index(self.key@, self.index as int)
    }

    /// The value found, as stored in the map.
    pub fn value(&self) -> (r: &V)
        ensures
            self.snapshot()@.contains_key(self.spec_key()),
            *r == self.snapshot()@[self.spec_key()],
    {
        proof {
            use_type_invariant(self);
        }
        self.guard.borrow().value_at(self.index, self.key)
    }

    /// Releases the read lock. A handle dropped without this call keeps the lock, and
    /// writers then wait forever.
    pub fn release(self) {
        self.guard.release_read();
    }
}

impl<'a, K: PartialEq, V> core::ops::Deref for Handle<'a, K, V> {
    type Target = V;

    /// The handle reads as the value it found.
    fn deref(&self) -> &V {
        self.value()
    }
}

} // verus!
