//! Keyed stores: a map from keys to values, and a map from keys to bounded lists.

use crate::primitives::StoreKey;
use vstd::prelude::*;

verus! {

/// A finite map held as a list of entries with pairwise distinct keys.
#[derive(Clone, Debug)]
pub struct StorageMap<K: StoreKey, V> {
    entries: Vec<(K, V)>,
}

impl<K: StoreKey, V> StorageMap<K, V> {
    /// The entries as a mathematical map.
    pub closed spec fn view(&self) -> Map<K, V> {
        Map::new(
            |k: K| exists|i: int| 0 <= i < self.entries@.len() && self.entries@[i].0 == k,
            |k: K|
                self.entries@[choose|i: int|
                    0 <= i < self.entries@.len() && self.entries@[i].0 == k].1,
        )
    }

    /// No key occurs in two entries.
    pub closed spec fn wf(&self) -> bool {
        forall|i: int, j: int|
            0 <= i < j < self.entries@.len() ==> self.entries@[i].0 != self.entries@[j].0
    }

    proof fn lemma_entry(&self, i: int)
        requires
            self.wf(),
            0 <= i < self.entries@.len(),
        ensures
            self@.contains_key(self.entries@[i].0),
            self@[self.entries@[i].0] == self.entries@[i].1,
    {
        let k = self.entries@[i].0;
        let j = choose|j: int| 0 <= j < self.entries@.len() && self.entries@[j].0 == k;
        assert(j == i);
    }

    /// The empty map.
    pub fn new() -> (r: Self)
        ensures
            r.wf(),
            r@ == Map::<K, V>::empty(),
    {
        let r = StorageMap { entries: Vec::new() };
        assert(r@ =~= Map::<K, V>::empty());
        r
    }

    fn position(&self, key: &K) -> (r: Option<usize>)
        requires
            self.wf(),
        ensures
            match r {
                Some(i) => i < self.entries@.len() && self.entries@[i as int].0 == *key,
                None => forall|i: int| 0 <= i < self.entries@.len() ==> self.entries@[i].0 != *key,
            },
    {
        let mut i: usize = 0;
        while i < self.entries.len()
            invariant
                i <= self.entries@.len(),
                forall|j: int| 0 <= j < i ==> self.entries@[j].0 != *key,
            decreases self.entries@.len() - i,
        {
            if self.entries[i].0.key_eq(key) {
                return Some(i);
            }
            i += 1;
        }
        None
    }

    /// Whether `key` has a value.
    pub fn contains_key(&self, key: &K) -> (r: bool)
        requires
            self.wf(),
        ensures
            r == self@.contains_key(*key),
    {
        match self.position(key) {
            Some(i) => {
                proof {
                    self.lemma_entry(i as int);
                }
                true
            },
            None => false,
        }
    }

    /// The value of `key`, if it has one.
    pub fn get(&self, key: &K) -> (r: Option<&V>)
        requires
            self.wf(),
        ensures
            match r {
                Some(v) => self@.contains_key(*key) && *v == self@[*key],
                None => !self@.contains_key(*key),
            },
    {
        match self.position(key) {
            Some(i) => {
                proof {
                    self.lemma_entry(i as int);
                }
                Some(&self.entries[i].1)
            },
            None => None,
        }
    }

    /// Sets the value of `key`, replacing the one it had.
    pub fn insert(&mut self, key: K, value: V)
        requires
            old(self).wf(),
        ensures
            final(self).wf(),
            final(self)@ == old(self)@.insert(key, value),
    {
        let ghost before = *self;
        match self.position(&key) {
            Some(i) => {
                self.entries.set(i, (key, value));
                assert forall|k: K| #[trigger] self@.contains_key(k) == before@.insert(key, value).contains_key(k) by {
                    if self@.contains_key(k) {
                        let j = choose|j: int| 0 <= j < self.entries@.len() && self.entries@[j].0 == k;
                        assert(before.entries@[j].0 == k);
                    }
                    if before@.insert(key, value).contains_key(k) {
                        if k == key {
                            assert(self.entries@[i as int].0 == k);
                        } else {
                            let j = choose|j: int| 0 <= j < before.entries@.len() && before.entries@[j].0 == k;
                            assert(self.entries@[j].0 == k);
                        }
                    }
                }
                assert forall|k: K| self@.contains_key(k) implies #[trigger] self@[k] == before@.insert(key, value)[k] by {
                    let j = choose|j: int| 0 <= j < self.entries@.len() && self.entries@[j].0 == k;
                    self.lemma_entry(j);
                    if j != i {
                        before.lemma_entry(j);
                    }
                }
            },
            None => {
                self.entries.push((key, value));
                let ghost n = before.entries@.len() as int;
                assert forall|k: K| #[trigger] self@.contains_key(k) == before@.insert(key, value).contains_key(k) by {
                    if self@.contains_key(k) {
                        let j = choose|j: int| 0 <= j < self.entries@.len() && self.entries@[j].0 == k;
                        if j < n {
                            assert(before.entries@[j].0 == k);
                        }
                    }
                    if before@.insert(key, value).contains_key(k) {
                        if k == key {
                            assert(self.entries@[n].0 == k);
                        } else {
                            let j = choose|j: int| 0 <= j < before.entries@.len() && before.entries@[j].0 == k;
                            assert(self.entries@[j].0 == k);
                        }
                    }
                }
                assert forall|k: K| self@.contains_key(k) implies #[trigger] self@[k] == before@.insert(key, value)[k] by {
                    let j = choose|j: int| 0 <= j < self.entries@.len() && self.entries@[j].0 == k;
                    self.lemma_entry(j);
                    if j < n {
                        before.lemma_entry(j);
                    }
                }
            },
        }
        assert(self@ =~= before@.insert(key, value));
    }

    /// Removes `key` and returns the value it had.
    pub fn take(&mut self, key: &K) -> (r: Option<V>)
        requires
            old(self).wf(),
        ensures
            final(self).wf(),
            final(self)@ == old(self)@.remove(*key),
            match r {
                Some(v) => old(self)@.contains_key(*key) && v == old(self)@[*key],
                None => !old(self)@.contains_key(*key),
            },
    {
        let ghost before = *self;
        match self.position(key) {
            Some(i) => {
                proof {
                    before.lemma_entry(i as int);
                }
                let entry = self.entries.remove(i);
                assert forall|k: K| #[trigger] self@.contains_key(k) == before@.remove(*key).contains_key(k) by {
                    if self@.contains_key(k) {
                        let j = choose|j: int| 0 <= j < self.entries@.len() && self.entries@[j].0 == k;
                        if j < i {
                            assert(before.entries@[j].0 == k);
                        } else {
                            assert(before.entries@[j + 1].0 == k);
                        }
                    }
                    if before@.remove(*key).contains_key(k) {
                        let j = choose|j: int| 0 <= j < before.entries@.len() && before.entries@[j].0 == k;
                        if j < i {
                            assert(self.entries@[j].0 == k);
                        } else {
                            assert(self.entries@[j - 1].0 == k);
                        }
                    }
                }
                assert forall|k: K| self@.contains_key(k) implies #[trigger] self@[k] == before@.remove(*key)[k] by {
                    let j = choose|j: int| 0 <= j < self.entries@.len() && self.entries@[j].0 == k;
                    self.lemma_entry(j);
                    if j < i {
                        before.lemma_entry(j);
                    } else {
                        before.lemma_entry(j + 1);
                    }
                }
                assert(self@ =~= before@.remove(*key));
                Some(entry.1)
            },
            None => {
                assert(self@ =~= before@.remove(*key));
                None
            },
        }
    }

    /// Removes `key`.
    pub fn remove(&mut self, key: &K)
        requires
            old(self).wf(),
        ensures
            final(self).wf(),
            final(self)@ == old(self)@.remove(*key),
    {
        let _ = self.take(key);
    }

    /// Removes the first `count` keys of `keys`.
    pub fn remove_all(&mut self, keys: &Vec<K>, count: usize)
        requires
            old(self).wf(),
            count <= keys@.len(),
        ensures
            final(self).wf(),
            final(self)@ == without_keys(old(self)@, keys@.take(count as int)),
    {
        let mut j: usize = 0;
        assert(self@ =~= without_keys(old(self)@, keys@.take(0)));
        while j < count
            invariant
                j <= count <= keys@.len(),
                self.wf(),
                self@ == without_keys(old(self)@, keys@.take(j as int)),
            decreases count - j,
        {
            self.remove(&keys[j]);
            proof {
                lemma_without_keys_step(old(self)@, keys@, j as int);
            }
            j += 1;
        }
    }
}

/// The map `m` without the keys that occur in `keys`.
pub open spec fn without_keys<K, V>(m: Map<K, V>, keys: Seq<K>) -> Map<K, V> {
    Map::new(|k: K| m.contains_key(k) && !keys.contains(k), |k: K| m[k])
}

/// Taking out one key more is removing that key.
pub proof fn lemma_without_keys_step<K, V>(m: Map<K, V>, keys: Seq<K>, j: int)
    requires
        0 <= j < keys.len(),
    ensures
        without_keys(m, keys.take(j)).remove(keys[j]) == without_keys(m, keys.take(j + 1)),
{
    let before = keys.take(j);
    let after = keys.take(j + 1);
    assert(after =~= before.push(keys[j]));
    assert forall|k: K| after.contains(k) <==> (before.contains(k) || k == keys[j]) by {
        if before.contains(k) {
            let i = choose|i: int| 0 <= i < before.len() && before[i] == k;
            assert(after[i] == k);
        }
        if k == keys[j] {
            assert(after[j] == k);
        }
    }
    assert(without_keys(m, before).remove(keys[j]) =~= without_keys(m, after));
}

/// A map from keys to lists that never grow past a bound fixed at creation.
#[derive(Clone, Debug)]
pub struct BoundedListMap<K: StoreKey, T> {
    lists: StorageMap<K, Vec<T>>,
    bound: u32,
}

impl<K: StoreKey, T> BoundedListMap<K, T> {
    /// The lists as a mathematical map to sequences.
    pub closed spec fn view(&self) -> Map<K, Seq<T>> {
        Map::new(|k: K| self.lists@.contains_key(k), |k: K| self.lists@[k]@)
    }

    /// The greatest length a list may have.
    pub closed spec fn bound(&self) -> nat {
        self.bound as nat
    }

    /// The entries are distinct and every list is within the bound.
    pub closed spec fn wf(&self) -> bool {
        &&& self.lists.wf()
        &&& forall|k: K| #[trigger]
            self.lists@.contains_key(k) ==> self.lists@[k]@.len() <= self.bound
    }

    /// Every list of a well-formed map is within the bound.
    pub proof fn lemma_within_bound(&self, key: K)
        requires
            self.wf(),
            self@.contains_key(key),
        ensures
            self@[key].len() <= self.bound(),
    {
    }

    /// The empty map, with `bound` as the greatest length of a list.
    pub fn new(bound: u32) -> (r: Self)
        ensures
            r.wf(),
            r@ == Map::<K, Seq<T>>::empty(),
            r.bound() == bound,
    {
        let r = BoundedListMap { lists: StorageMap::new(), bound };
        assert(r@ =~= Map::<K, Seq<T>>::empty());
        r
    }

    /// The bound that the map was made with.
    pub fn limit(&self) -> (r: u32)
        ensures
            r == self.bound(),
    {
        self.bound
    }

    /// The list of `key`, if it has one.
    pub fn get(&self, key: &K) -> (r: Option<&Vec<T>>)
        requires
            self.wf(),
        ensures
            match r {
                Some(v) => self@.contains_key(*key) && v@ == self@[*key] && v@.len() <= self.bound(),
                None => !self@.contains_key(*key),
            },
    {
        self.lists.get(key)
    }

    /// Removes `key` and returns the list it had.
    pub fn take(&mut self, key: &K) -> (r: Option<Vec<T>>)
        requires
            old(self).wf(),
        ensures
            final(self).wf(),
            final(self).bound() == old(self).bound(),
            final(self)@ == old(self)@.remove(*key),
            match r {
                Some(v) => old(self)@.contains_key(*key) && v@ == old(self)@[*key] && v@.len()
                    <= old(self).bound(),
                None => !old(self)@.contains_key(*key),
            },
    {
        let r = self.lists.take(key);
        assert(self@ =~= old(self)@.remove(*key));
        r
    }

    /// Removes `key` and its list.
    pub fn remove(&mut self, key: &K)
        requires
            old(self).wf(),
        ensures
            final(self).wf(),
            final(self).bound() == old(self).bound(),
            final(self)@ == old(self)@.remove(*key),
    {
        let _ = self.take(key);
    }

    /// Sets the list of `key`, replacing the one it had.
    pub fn insert(&mut self, key: K, list: Vec<T>)
        requires
            old(self).wf(),
            list@.len() <= old(self).bound(),
        ensures
            final(self).wf(),
            final(self).bound() == old(self).bound(),
            final(self)@ == old(self)@.insert(key, list@),
    {
        self.lists.insert(key, list);
        assert(self@ =~= old(self)@.insert(key, list@));
    }

    /// Appends `item` to the list of `key`, starting a list where it has none.
    /// Fails, and changes nothing, where the list is already at the bound.
    pub fn try_append(&mut self, key: K, item: T) -> (r: Result<(), ()>)
        requires
            old(self).wf(),
        ensures
            final(self).wf(),
            final(self).bound() == old(self).bound(),
            r is Ok <==> list_or_empty(old(self)@, key).len() < old(self).bound(),
            r is Ok ==> final(self)@ == old(self)@.insert(
                key,
                list_or_empty(old(self)@, key).push(item),
            ),
            r is Err ==> final(self)@ == old(self)@,
    {
        let full = match self.lists.get(&key) {
            Some(list) => list.len() >= self.bound as usize,
            None => self.bound == 0,
        };
        if full {
            return Err(());
        }
        let mut list = match self.lists.take(&key) {
            Some(list) => list,
            None => Vec::new(),
        };
        list.push(item);
        self.lists.insert(key, list);
        assert(self@ =~= old(self)@.insert(key, list_or_empty(old(self)@, key).push(item)));
        Ok(())
    }
}

/// The list that `m` holds under `key`, or the empty list where it holds none.
pub open spec fn list_or_empty<K, T>(m: Map<K, Seq<T>>, key: K) -> Seq<T> {
    if m.contains_key(key) {
        m[key]
    } else {
        Seq::empty()
    }
}

/// A copy of `list`.
pub fn copy_list<T: Copy>(list: &Vec<T>) -> (r: Vec<T>)
    ensures
        r@ == list@,
{
    let mut r: Vec<T> = Vec::new();
    let mut i: usize = 0;
    while i < list.len()
        invariant
            i <= list@.len(),
            r@ == list@.take(i as int),
        decreases list@.len() - i,
    {
        r.push(list[i]);
        assert(list@.take(i as int).push(list@[i as int]) =~= list@.take(i + 1));
        i += 1;
    }
    assert(list@.take(list@.len() as int) =~= list@);
    r
}

impl<K: StoreKey, V: Copy> StorageMap<K, V> {
    /// A second map with the same entries.
    pub fn duplicate(&self) -> (r: Self)
        requires
            self.wf(),
        ensures
            r.wf(),
            r@ == self@,
    {
        let mut entries: Vec<(K, V)> = Vec::new();
        let mut i: usize = 0;
        while i < self.entries.len()
            invariant
                i <= self.entries@.len(),
                entries@ == self.entries@.take(i as int),
            decreases self.entries@.len() - i,
        {
            entries.push((self.entries[i].0, self.entries[i].1));
            assert(self.entries@.take(i as int).push(self.entries@[i as int]) =~= self.entries@.take(
                i + 1,
            ));
            i += 1;
        }
        assert(self.entries@.take(self.entries@.len() as int) =~= self.entries@);
        StorageMap { entries }
    }
}

impl<K: StoreKey, T: Copy> StorageMap<K, Vec<T>> {
    fn duplicate_lists(&self) -> (r: Self)
        requires
            self.wf(),
        ensures
            r.wf(),
            forall|k: K| r@.contains_key(k) == self@.contains_key(k),
            forall|k: K| self@.contains_key(k) ==> #[trigger] r@[k]@ == self@[k]@,
    {
        let mut entries: Vec<(K, Vec<T>)> = Vec::new();
        let mut i: usize = 0;
        while i < self.entries.len()
            invariant
                i <= self.entries@.len(),
                entries@.len() == i,
                forall|j: int|
                    0 <= j < i ==> (#[trigger] entries@[j]).0 == self.entries@[j].0 && entries@[j].1@
                        == self.entries@[j].1@,
            decreases self.entries@.len() - i,
        {
            entries.push((self.entries[i].0, copy_list(&self.entries[i].1)));
            i += 1;
        }
        let r = StorageMap { entries };
        proof {
            assert forall|k: K| r@.contains_key(k) == self@.contains_key(k) by {
                if r@.contains_key(k) {
                    let j = choose|j: int| 0 <= j < r.entries@.len() && r.entries@[j].0 == k;
                    assert(self.entries@[j].0 == k);
                }
                if self@.contains_key(k) {
                    let j = choose|j: int| 0 <= j < self.entries@.len() && self.entries@[j].0 == k;
                    assert(r.entries@[j].0 == k);
                }
            }
            assert forall|k: K| self@.contains_key(k) implies #[trigger] r@[k]@ == self@[k]@ by {
                let j = choose|j: int| 0 <= j < self.entries@.len() && self.entries@[j].0 == k;
                assert(r.entries@[j].0 == k);
                self.lemma_entry(j);
                r.lemma_entry(j);
            }
        }
        r
    }
}

impl<K: StoreKey, T: Copy> BoundedListMap<K, T> {
    /// A second map with the same lists and the same bound.
    pub fn duplicate(&self) -> (r: Self)
        requires
            self.wf(),
        ensures
            r.wf(),
            r@ == self@,
            r.bound() == self.bound(),
    {
        let r = BoundedListMap { lists: self.lists.duplicate_lists(), bound: self.bound };
        assert(r@ =~= self@);
        r
    }
}

} // verus!
