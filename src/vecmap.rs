use vstd::prelude::*;
use vstd::laws_eq::obeys_concrete_eq;
use vstd::std_specs::cmp::PartialEqSpec;

verus! {

/// Whether `k` is the key of entry `i` of `s`.
pub open spec fn key_at<K, V>(s: Seq<(K, V)>, k: K, i: int) -> bool {
    0 <= i < s.len() && s[i].0 == k
}

/// The association held by a list of entries with distinct keys.
pub open spec fn entries_map<K, V>(s: Seq<(K, V)>) -> Map<K, V> {
    Map::new(
        |k: K| exists|i: int| key_at(s, k, i),
        |k: K| s[choose|i: int| key_at(s, k, i)].1,
    )
}

pub open spec fn keys_distinct<K, V>(s: Seq<(K, V)>) -> bool {
    forall|i: int, j: int| 0 <= i < s.len() && 0 <= j < s.len() && s[i].0 == s[j].0 ==> i == j
}

proof fn lemma_lookup<K, V>(s: Seq<(K, V)>, i: int)
    requires
        keys_distinct(s),
        0 <= i < s.len(),
    ensures
        entries_map(s).contains_key(s[i].0),
        entries_map(s)[s[i].0] == s[i].1,
{
    assert(key_at(s, s[i].0, i));
    let j = choose|j: int| key_at(s, s[i].0, j);
    assert(j == i);
}

/// A keyed association with distinct keys, kept as a list of entries.
pub struct VecMap<K, V> {
    entries: Vec<(K, V)>,
}

impl<K, V> View for VecMap<K, V> {
    type V = Map<K, V>;

    closed spec fn view(&self) -> Map<K, V> {
        entries_map(self.entries@)
    }
}

impl<K: PartialEq, V> VecMap<K, V> {
    pub closed spec fn wf(&self) -> bool {
        keys_distinct(self.entries@)
    }

    pub fn new() -> (r: Self)
        ensures
            r.wf(),
            r@ == Map::<K, V>::empty(),
    {
        let r = VecMap { entries: Vec::new() };
        assert(r@ =~= Map::<K, V>::empty());
        r
    }

    /// Whether entry `i` is the entry for key `k`.
    pub closed spec fn key_index(&self, k: K, i: int) -> bool {
        key_at(self.entries@, k, i)
    }

    /// Position of the entry for `k`, if any.
    pub fn find(&self, k: &K) -> (r: Option<usize>)
        requires
            self.wf(),
            obeys_concrete_eq::<K>(),
        ensures
            r matches Some(i) ==> self.key_index(*k, i as int)
                && self@.contains_key(*k),
            r is None ==> !self@.contains_key(*k),
    {
        proof {
            reveal(obeys_concrete_eq);
        }
        let mut i: usize = 0;
        while i < self.entries.len()
            invariant
                i <= self.entries@.len(),
                obeys_concrete_eq::<K>(),
                K::obeys_eq_spec(),
                forall|x: K, y: K| x.eq_spec(&y) <==> (x == y),
                forall|j: int| 0 <= j < i ==> self.entries@[j].0 != *k,
            decreases self.entries@.len() - i,
        {
            if self.entries[i].0 == *k {
                assert(key_at(self.entries@, *k, i as int));
                return Some(i);
            }
            i = i + 1;
        }
        None
    }

    /// The value of the entry at position `i`, found for key `k`.
    pub fn value_at(&self, i: usize, Ghost(k): Ghost<K>) -> (r: &V)
        requires
            self.wf(),
            self.key_index(k, i as int),
        ensures
            self@.contains_key(k),
            *r == self@[k],
    {
        proof {
            lemma_lookup(self.entries@, i as int);
        }
        &self.entries[i].1
    }

    /// The value stored under `k`, if any.
    pub fn get(&self, k: &K) -> (r: Option<&V>)
        requires
            self.wf(),
            obeys_concrete_eq::<K>(),
        ensures
            self@.contains_key(*k) ==> r == Some(&self@[*k]),
            !self@.contains_key(*k) ==> r is None,
    {
        match self.find(k) {
            Some(i) => {
                proof {
                    lemma_lookup(self.entries@, i as int);
                }
                Some(&self.entries[i].1)
            },
            None => None,
        }
    }

    /// Stores `v` under `k`, replacing any value stored there.
    pub fn insert(&mut self, k: K, v: V)
        requires
            old(self).wf(),
            obeys_concrete_eq::<K>(),
        ensures
            final(self).wf(),
            final(self)@ == old(self)@.insert(k, v),
    {
        let ghost key = k;
        let ghost val = v;
        match self.find(&k) {
            Some(i) => {
                self.entries.set(i, (k, v));
                proof {
                    let s = self.entries@;
                    let o = old(self).entries@;
                    assert(s == o.update(i as int, (key, val)));
                    assert forall|x: K| #[trigger] self@.contains_key(x) <==> old(self)@.insert(key, val).contains_key(x) by {
                        if old(self)@.contains_key(x) {
                            let j = choose|j: int| key_at(o, x, j);
                            assert(key_at(s, x, j));
                        }
                        if self@.contains_key(x) {
                            let j = choose|j: int| key_at(s, x, j);
                            if j != i {
                                assert(key_at(o, x, j));
                            }
                        }
                    }
                    assert forall|x: K| #[trigger] self@.contains_key(x) implies self@[x] == old(self)@.insert(key, val)[x] by {
                        let j = choose|j: int| key_at(s, x, j);
                        lemma_lookup(s, j);
                        if j != i {
                            lemma_lookup(o, j);
                        }
                    }
                    assert(self@ =~= old(self)@.insert(key, val));
                }
            },
            None => {
                self.entries.push((k, v));
                proof {
                    let s = self.entries@;
                    let o = old(self).entries@;
                    assert(s == o.push((key, val)));
                    assert forall|j: int| 0 <= j < o.len() implies o[j].0 != key by {
                        if o[j].0 == key {
                            assert(key_at(o, key, j));
                        }
                    }
                    assert(keys_distinct(s));
                    assert forall|x: K| #[trigger] self@.contains_key(x) <==> old(self)@.insert(key, val).contains_key(x) by {
                        if old(self)@.contains_key(x) {
                            let j = choose|j: int| key_at(o, x, j);
                            assert(key_at(s, x, j));
                        }
                        if x == key {
                            assert(key_at(s, x, o.len() as int));
                        }
                        if self@.contains_key(x) {
                            let j = choose|j: int| key_at(s, x, j);
                            if j < o.len() {
                                assert(key_at(o, x, j));
                            }
                        }
                    }
                    assert forall|x: K| #[trigger] self@.contains_key(x) implies self@[x] == old(self)@.insert(key, val)[x] by {
                        let j = choose|j: int| key_at(s, x, j);
                        lemma_lookup(s, j);
                        if j < o.len() {
                            lemma_lookup(o, j);
                        }
                    }
                    assert(self@ =~= old(self)@.insert(key, val));
                }
            },
        }
    }

    /// Removes the entry for `k` and returns its value, if there was one.
    pub fn remove(&mut self, k: &K) -> (r: Option<V>)
        requires
            old(self).wf(),
            obeys_concrete_eq::<K>(),
        ensures
            final(self).wf(),
            final(self)@ == old(self)@.remove(*k),
            old(self)@.contains_key(*k) ==> r == Some(old(self)@[*k]),
            !old(self)@.contains_key(*k) ==> r is None,
    {
        match self.find(k) {
            Some(i) => {
                proof {
                    lemma_lookup(self.entries@, i as int);
                }
                let (_, v) = self.entries.remove(i);
                proof {
                    let s = self.entries@;
                    let o = old(self).entries@;
                    assert(s == o.remove(i as int));
                    assert forall|x: K| #[trigger] self@.contains_key(x) <==> old(self)@.remove(*k).contains_key(x) by {
                        if old(self)@.contains_key(x) && x != *k {
                            let j = choose|j: int| key_at(o, x, j);
                            if j < i {
                                assert(key_at(s, x, j));
                            } else {
                                assert(key_at(s, x, j - 1));
                            }
                        }
                        if self@.contains_key(x) {
                            let j = choose|j: int| key_at(s, x, j);
                            if j < i {
                                assert(key_at(o, x, j));
                            } else {
                                assert(key_at(o, x, j + 1));
                            }
                        }
                    }
                    assert forall|x: K| #[trigger] self@.contains_key(x) implies self@[x] == old(self)@.remove(*k)[x] by {
                        let j = choose|j: int| key_at(s, x, j);
                        lemma_lookup(s, j);
                        if j < i {
                            lemma_lookup(o, j);
                        } else {
                            lemma_lookup(o, j + 1);
                        }
                    }
                    assert(self@ =~= old(self)@.remove(*k));
                }
                Some(v)
            },
            None => {
                assert(old(self)@ =~= old(self)@.remove(*k));
                None
            },
        }
    }
}

/// A value stored under a key is what a later lookup of that key finds, until the key
/// is written again or removed.
pub proof fn lemma_insert_then_get<K, V>(m: Map<K, V>, k: K, v: V)
    ensures
        m.insert(k, v).contains_key(k),
        m.insert(k, v)[k] == v,
{
}

/// Removing a key right after storing `v` under it hands back `v`, and the key is then
/// absent.
pub proof fn lemma_insert_then_take<K, V>(m: Map<K, V>, k: K, v: V)
    ensures
        m.insert(k, v).contains_key(k) && m.insert(k, v)[k] == v,
        !m.insert(k, v).remove(k).contains_key(k),
        forall|j: K| j != k ==> m.insert(k, v).remove(k).contains_key(j) == m.contains_key(j),
{
}

} // verus!
