use vstd::prelude::*;

verus! {

/// A map from keys to values that can also find, for a key that it does not
/// hold, the value of the next key up. The entries are kept in increasing key
/// order; the ordered list of keys is cached on request, and an insertion
/// drops the cache.
pub struct SparseVec<K, V> {
    entries: Vec<(K, V)>,
    cached_sorted_keys: Option<Vec<K>>,
}

impl<V> SparseVec<u16, V> {
    /// The keys in increasing order.
    pub closed spec fn keys(&self) -> Seq<u16> {
        self.entries@.map_values(|e: (u16, V)| e.0)
    }

    /// The values, in the order of their keys.
    pub closed spec fn values(&self) -> Seq<V> {
        self.entries@.map_values(|e: (u16, V)| e.1)
    }

    /// Whether the ordered keys are cached.
    pub closed spec fn is_cached(&self) -> bool {
        self.cached_sorted_keys is Some
    }

    /// Keys strictly increasing; a cache holds exactly the keys.
    pub closed spec fn wf(&self) -> bool {
        &&& forall|i: int, j: int|
            0 <= i < j < self.entries@.len() ==> #[trigger] self.entries@[i].0 < #[trigger] self.entries@[j].0
        &&& self.cached_sorted_keys matches Some(c) ==> c@ == self.keys()
    }

    proof fn lemma_views(&self)
        ensures
            self.keys().len() == self.entries@.len(),
            self.values().len() == self.entries@.len(),
            forall|i: int| 0 <= i < self.entries@.len() ==> #[trigger] self.keys()[i] == self.entries@[i].0,
            forall|i: int| 0 <= i < self.entries@.len() ==> #[trigger] self.values()[i] == self.entries@[i].1,
    {
    }

    /// There is one value for each key.
    pub proof fn lemma_lengths(&self)
        ensures
            self.values().len() == self.keys().len(),
    {
    }

    /// The keys of a well-formed map are strictly increasing.
    pub proof fn lemma_keys_increasing(&self)
        requires
            self.wf(),
        ensures
            forall|i: int, j: int|
                0 <= i < j < self.keys().len() ==> #[trigger] self.keys()[i] < #[trigger] self.keys()[j],
    {
        self.lemma_views();
    }

    pub fn new() -> (r: Self)
        ensures
            r.wf(),
            r.keys().len() == 0,
            !r.is_cached(),
    {
        SparseVec { entries: Vec::new(), cached_sorted_keys: None }
    }

    /// The first position whose key is at least `k`.
    fn position(&self, k: u16) -> (i: usize)
        requires
            self.wf(),
        ensures
            i <= self.keys().len(),
            forall|j: int| 0 <= j < i ==> #[trigger] self.keys()[j] < k,
            forall|j: int| i <= j < self.keys().len() ==> #[trigger] self.keys()[j] >= k,
    {
        let mut i: usize = 0;
        while i < self.entries.len() && self.entries[i].0 < k
            invariant
                i <= self.entries@.len(),
                forall|j: int| 0 <= j < i ==> #[trigger] self.entries@[j].0 < k,
            decreases self.entries@.len() - i,
        {
            i = i + 1;
        }
        proof {
            if i < self.entries@.len() {
                assert forall|j: int| i <= j < self.keys().len() implies #[trigger] self.keys()[j] >= k by {
                    if j > i {
                        assert(self.entries@[i as int].0 < self.entries@[j].0);
                    }
                }
            }
        }
        i
    }

    /// Maps `key` to `value`, replacing a value it had; drops the key cache.
    pub fn insert(&mut self, key: u16, value: V)
        requires
            old(self).wf(),
        ensures
            final(self).wf(),
            !final(self).is_cached(),
            old(self).keys().contains(key) ==> final(self).keys() == old(self).keys(),
            !old(self).keys().contains(key) ==> final(self).keys().len() == old(self).keys().len() + 1,
            final(self).keys().contains(key),
            forall|k: u16| k != key ==> (#[trigger] final(self).keys().contains(k) <==> old(self).keys().contains(k)),
            forall|i: int| 0 <= i < final(self).keys().len() && final(self).keys()[i] == key ==> #[trigger] final(self).values()[i] == value,
            forall|i: int, j: int| 0 <= i < final(self).keys().len() && 0 <= j < old(self).keys().len()
                && #[trigger] final(self).keys()[i] == #[trigger] old(self).keys()[j] && old(self).keys()[j] != key
                ==> final(self).values()[i] == old(self).values()[j],
    {
        let i = self.position(key);
        let ghost old_entries = self.entries@;
        proof {
            self.lemma_views();
        }
        if i < self.entries.len() && self.entries[i].0 == key {
            self.entries.set(i, (key, value));
            proof {
                self.lemma_views();
            }
            assert(self.keys() =~= old(self).keys());
            assert forall|k: u16| k != key implies (#[trigger] self.keys().contains(k) <==> old(self).keys().contains(k)) by {}
            assert(self.keys()[i as int] == key);
        } else {
            assert(!old(self).keys().contains(key)) by {
                if old(self).keys().contains(key) {
                    let j = choose|j: int| 0 <= j < old(self).keys().len() && old(self).keys()[j] == key;
                    if j < i {
                        assert(old(self).keys()[j] < key);
                    } else if j > i {
                        assert(old(self).keys()[i as int] >= key);
                        assert(old_entries[i as int].0 < old_entries[j].0);
                    }
                }
            }
            self.entries.insert(i, (key, value));
            proof {
                self.lemma_views();
            }
            assert(self.entries@[i as int].0 == key);
            assert(self.keys()[i as int] == key);
            assert forall|k: u16| k != key implies (#[trigger] self.keys().contains(k) <==> old(self).keys().contains(k)) by {
                if old(self).keys().contains(k) {
                    let j = choose|j: int| 0 <= j < old(self).keys().len() && old(self).keys()[j] == k;
                    if j < i {
                        assert(self.keys()[j] == k);
                    } else {
                        assert(self.keys()[j + 1] == k);
                    }
                }
                if self.keys().contains(k) {
                    let j = choose|j: int| 0 <= j < self.keys().len() && self.keys()[j] == k;
                    if j < i {
                        assert(old(self).keys()[j] == k);
                    } else if j > i {
                        assert(old(self).keys()[j - 1] == k);
                    }
                }
            }
            assert forall|a: int, b: int|
                0 <= a < b < self.entries@.len() implies #[trigger] self.entries@[a].0 < #[trigger] self.entries@[b].0 by {
                if b < i {
                    assert(old_entries[a].0 < old_entries[b].0);
                    assert(old_entries[a] == self.entries@[a]);
                    assert(old_entries[b] == self.entries@[b]);
                } else if b == i {
                    assert(old(self).keys()[a] < key);
                    assert(old_entries[a] == self.entries@[a]);
                } else if a < i {
                    assert(old_entries[a] == self.entries@[a]);
                    assert(old_entries[b - 1] == self.entries@[b]);
                    assert(old(self).keys()[a] < key);
                    assert(old(self).keys()[b - 1] >= key);
                } else if a == i {
                    assert(old_entries[b - 1] == self.entries@[b]);
                    assert(old(self).keys()[b - 1] >= key);
                    assert(old(self).keys()[b - 1] != key);
                } else {
                    assert(old_entries[a - 1].0 < old_entries[b - 1].0);
                    assert(old_entries[a - 1] == self.entries@[a]);
                    assert(old_entries[b - 1] == self.entries@[b]);
                }
            }
            assert forall|x: int, y: int| 0 <= x < self.keys().len() && 0 <= y < old(self).keys().len()
                && #[trigger] self.keys()[x] == #[trigger] old(self).keys()[y] && old(self).keys()[y] != key
                implies self.values()[x] == old(self).values()[y] by {
                if x < i {
                    if y != x {
                        if y < x { assert(old_entries[y].0 < old_entries[x].0); }
                        else { assert(old_entries[x].0 < old_entries[y].0); }
                    }
                } else if x > i {
                    if y != x - 1 {
                        if y < x - 1 { assert(old_entries[y].0 < old_entries[x - 1].0); }
                        else { assert(old_entries[x - 1].0 < old_entries[y].0); }
                    }
                }
            }
        }
        self.cached_sorted_keys = None;
    }

    /// Whether `key` has a value.
    pub fn contains_key(&self, key: &u16) -> (r: bool)
        requires
            self.wf(),
        ensures
            r == self.keys().contains(*key),
    {
        let i = self.position(*key);
        let r = i < self.entries.len() && self.entries[i].0 == *key;
        proof {
            self.lemma_views();
            if r {
                assert(self.keys()[i as int] == *key);
            }
            if self.keys().contains(*key) {
                let j = choose|j: int| 0 <= j < self.keys().len() && self.keys()[j] == *key;
                if j < i {
                    assert(self.keys()[j] < *key);
                } else if j > i {
                    assert(self.keys()[i as int] >= *key);
                    assert(self.entries@[i as int].0 < self.entries@[j].0);
                } else {
                    assert(self.entries@[i as int].0 == *key);
                }
            }
        }
        r
    }

    /// Removes every entry and the key cache.
    pub fn clear(&mut self)
        ensures
            final(self).wf(),
            final(self).keys().len() == 0,
            !final(self).is_cached(),
    {
        self.entries.clear();
        self.cached_sorted_keys = None;
        assert(self.keys() =~= Seq::<u16>::empty());
    }

    /// Takes the value of `key` out of the map.
    pub fn remove(&mut self, key: &u16) -> (r: Option<V>)
        requires
            old(self).wf(),
        ensures
            final(self).wf(),
            !final(self).is_cached(),
            r is Some <==> old(self).keys().contains(*key),
            !final(self).keys().contains(*key),
            forall|k: u16| k != *key ==> (#[trigger] final(self).keys().contains(k) <==> old(self).keys().contains(k)),
            forall|i: int| 0 <= i < old(self).keys().len() && old(self).keys()[i] == *key ==> r == Some(#[trigger] old(self).values()[i]),
            forall|i: int, j: int| 0 <= i < final(self).keys().len() && 0 <= j < old(self).keys().len()
                && #[trigger] final(self).keys()[i] == #[trigger] old(self).keys()[j]
                ==> final(self).values()[i] == old(self).values()[j],
    {
        let i = self.position(*key);
        proof {
            self.lemma_views();
        }
        self.cached_sorted_keys = None;
        if i < self.entries.len() && self.entries[i].0 == *key {
            let ghost old_entries = self.entries@;
            assert(old(self).keys()[i as int] == *key);
            let (_, v) = self.entries.remove(i);
            proof {
                self.lemma_views();
            }
            assert forall|a: int, b: int|
                0 <= a < b < self.entries@.len() implies #[trigger] self.entries@[a].0 < #[trigger] self.entries@[b].0 by {
                if a < i {
                    if b < i {
                        assert(old_entries[a].0 < old_entries[b].0);
                    } else {
                        assert(old_entries[a].0 < old_entries[b + 1].0);
                    }
                } else {
                    assert(old_entries[a + 1].0 < old_entries[b + 1].0);
                }
            }
            assert forall|k: u16| k != *key implies (#[trigger] self.keys().contains(k) <==> old(self).keys().contains(k)) by {
                if old(self).keys().contains(k) {
                    let j = choose|j: int| 0 <= j < old(self).keys().len() && old(self).keys()[j] == k;
                    if j < i {
                        assert(self.keys()[j] == k);
                    } else {
                        assert(self.keys()[j - 1] == k);
                    }
                }
                if self.keys().contains(k) {
                    let j = choose|j: int| 0 <= j < self.keys().len() && self.keys()[j] == k;
                    if j < i {
                        assert(old(self).keys()[j] == k);
                    } else {
                        assert(old(self).keys()[j + 1] == k);
                    }
                }
            }
            assert(!self.keys().contains(*key)) by {
                if self.keys().contains(*key) {
                    let j = choose|j: int| 0 <= j < self.keys().len() && self.keys()[j] == *key;
                    if j < i {
                        assert(old_entries[j].0 < old_entries[i as int].0);
                    } else {
                        assert(old_entries[i as int].0 < old_entries[j + 1].0);
                    }
                }
            }
            assert forall|x: int| 0 <= x < old(self).keys().len() && old(self).keys()[x] == *key implies Some(v) == Some(#[trigger] old(self).values()[x]) by {
                if x != i {
                    if x < i { assert(old_entries[x].0 < old_entries[i as int].0); }
                    else { assert(old_entries[i as int].0 < old_entries[x].0); }
                }
            }
            assert forall|x: int, y: int| 0 <= x < self.keys().len() && 0 <= y < old(self).keys().len()
                && #[trigger] self.keys()[x] == #[trigger] old(self).keys()[y]
                implies self.values()[x] == old(self).values()[y] by {
                let xo = if x < i { x } else { x + 1 };
                assert(self.entries@[x] == old_entries[xo]);
                if y != xo {
                    if y < xo { assert(old_entries[y].0 < old_entries[xo].0); }
                    else { assert(old_entries[xo].0 < old_entries[y].0); }
                }
            }
            Some(v)
        } else {
            proof {
                if old(self).keys().contains(*key) {
                    let j = choose|j: int| 0 <= j < old(self).keys().len() && old(self).keys()[j] == *key;
                    if j > i {
                        assert(self.entries@[i as int].0 < self.entries@[j].0);
                    }
                }
            }
            None
        }
    }

    /// Caches the ordered keys, if they are not cached yet.
    pub fn cache_keys(&mut self)
        requires
            old(self).wf(),
        ensures
            final(self).wf(),
            final(self).is_cached(),
            final(self).keys() == old(self).keys(),
            final(self).values() == old(self).values(),
    {
        proof {
            self.lemma_views();
        }
        if self.cached_sorted_keys.is_none() {
            let mut keys: Vec<u16> = Vec::new();
            let mut i: usize = 0;
            while i < self.entries.len()
                invariant
                    i <= self.entries@.len(),
                    keys@ == self.keys().subrange(0, i as int),
                decreases self.entries@.len() - i,
            {
                keys.push(self.entries[i].0);
                i = i + 1;
                assert(keys@ =~= self.keys().subrange(0, i as int));
            }
            assert(keys@ =~= self.keys());
            self.cached_sorted_keys = Some(keys);
        }
    }

    /// The value of `key`, or else of the next key up; `None` when no key is
    /// at least `key`. Finding the next key needs the key cache: without it
    /// a key that has no value of its own is an error.
    pub fn get_or_next(&self, key: &u16) -> (r: Result<Option<&V>, &'static str>)
        requires
            self.wf(),
        ensures
            r is Err <==> (self.keys().len() > 0 && !self.keys().contains(*key) && !self.is_cached()),
            r matches Ok(o) ==> (o is None <==> forall|j: int|
                0 <= j < self.keys().len() ==> #[trigger] self.keys()[j] < *key),
            r matches Ok(Some(v)) ==> exists|i: int|
                0 <= i < self.keys().len() && self.keys()[i] >= *key && (forall|j: int|
                    0 <= j < self.keys().len() && #[trigger] self.keys()[j] >= *key ==> self.keys()[i]
                    <= self.keys()[j]) && *v == #[trigger] self.values()[i],
    {
        let i = self.position(*key);
        proof {
            self.lemma_views();
        }
        if self.entries.len() == 0 {
            return Ok(None);
        }
        if i < self.entries.len() && self.entries[i].0 == *key {
            assert(self.keys()[i as int] == *key);
            assert(self.values()[i as int] == self.entries@[i as int].1);
            return Ok(Some(&self.entries[i].1));
        }
        proof {
            if self.keys().contains(*key) {
                let j = choose|j: int| 0 <= j < self.keys().len() && self.keys()[j] == *key;
                if j > i {
                    assert(self.entries@[i as int].0 < self.entries@[j].0);
                }
            }
        }
        if self.cached_sorted_keys.is_none() {
            return Err("Call cache_keys first");
        }
        if i < self.entries.len() {
            assert(self.values()[i as int] == self.entries@[i as int].1);
            assert(self.keys()[i as int] >= *key);
            Ok(Some(&self.entries[i].1))
        } else {
            Ok(None)
        }
    }

    /// The cached keys in increasing order.
    pub fn iter_keys_ordered(&self) -> (r: Result<&[u16], &'static str>)
        requires
            self.wf(),
        ensures
            r is Err <==> !self.is_cached(),
            r matches Ok(s) ==> s@ == self.keys(),
            r matches Ok(s) ==> forall|i: int, j: int|
                0 <= i < j < s@.len() ==> #[trigger] s@[i] < #[trigger] s@[j],
    {
        proof {
            self.lemma_views();
        }
        match &self.cached_sorted_keys {
            None => Err("Call cache_keys first"),
            Some(v) => Ok(v.as_slice()),
        }
    }
}

} // verus!
