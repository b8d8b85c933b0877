//! Key-value storage with an exact map view, used for every storage item of the pallets.

use vstd::prelude::*;

verus! {

/// A storage key: keys are compared and copied by their views.
pub trait StorageKey: View + Sized {
    fn key_eq(&self, other: &Self) -> (r: bool)
        ensures
            r == (self@ == other@),
    ;

    fn key_clone(&self) -> (r: Self)
        ensures
            r@ == self@,
    ;
}

impl StorageKey for u32 {
    fn key_eq(&self, other: &Self) -> (r: bool) {
        *self == *other
    }

    fn key_clone(&self) -> (r: Self) {
        *self
    }
}

impl StorageKey for u64 {
    fn key_eq(&self, other: &Self) -> (r: bool) {
        *self == *other
    }

    fn key_clone(&self) -> (r: Self) {
        *self
    }
}

impl<A: StorageKey, B: StorageKey> StorageKey for (A, B) {
    fn key_eq(&self, other: &Self) -> (r: bool) {
        self.0.key_eq(&other.0) && self.1.key_eq(&other.1)
    }

    fn key_clone(&self) -> (r: Self) {
        (self.0.key_clone(), self.1.key_clone())
    }
}

impl StorageKey for Vec<u8> {
    fn key_eq(&self, other: &Self) -> (r: bool) {
        if self.len() != other.len() {
            return false;
        }
        let mut i: usize = 0;
        while i < self.len()
            invariant
                self.len() == other.len(),
                i <= self.len(),
                forall|j: int| 0 <= j < i ==> self@[j] == other@[j],
            decreases self.len() - i,
        {
            if self[i] != other[i] {
                return false;
            }
            i = i + 1;
        }
        assert(self@ =~= other@);
        true
    }

    fn key_clone(&self) -> (r: Self) {
        let r = self.clone();
        assert(r@ =~= self@);
        r
    }
}

/// A map from keys to values, kept as two parallel vectors with no key twice.
pub struct StorageMap<K, V> {
    keys: Vec<K>,
    vals: Vec<V>,
}

impl<K: StorageKey, V> StorageMap<K, V> {
    /// The views of the stored keys, in the order the store keeps them: a new key is
    /// appended, and removing a key moves the last entry into its place.
    pub closed spec fn key_views(&self) -> Seq<K::V> {
        self.keys@.map_values(|k: K| k@)
    }

    /// The stored values, in the order of their keys.
    pub closed spec fn values(&self) -> Seq<V> {
        self.vals@
    }

    /// No key is stored twice, and every key has its value.
    pub closed spec fn wf(&self) -> bool {
        &&& self.keys.len() == self.vals.len()
        &&& forall|i: int, j: int|
            0 <= i < self.keys.len() && 0 <= j < self.keys.len() && i != j ==> #[trigger] self.keys@[i]@
                != #[trigger] self.keys@[j]@
    }

    /// The position of a stored key.
    pub closed spec fn index_of(&self, k: K::V) -> int {
        choose|i: int| 0 <= i < self.keys.len() && #[trigger] self.keys@[i]@ == k
    }

    /// The map that the storage holds.
    pub closed spec fn view(&self) -> Map<K::V, V> {
        Map::new(
            |k: K::V| exists|i: int| 0 <= i < self.keys.len() && #[trigger] self.keys@[i]@ == k,
            |k: K::V| self.vals@[self.index_of(k)],
        )
    }

    /// Number of stored entries.
    pub closed spec fn spec_len(&self) -> nat {
        self.keys.len() as nat
    }

    pub proof fn lemma_entry(&self, i: int)
        requires
            self.wf(),
            0 <= i < self.spec_len(),
        ensures
            self.key_views().len() == self.spec_len(),
            self.values().len() == self.spec_len(),
            self.view().contains_key(self.key_views()[i]),
            self.view()[self.key_views()[i]] == self.values()[i],
    {
        let k = self.keys@[i]@;
        assert(self.key_views()[i] == k);
        assert(self.view().dom().contains(k));
        let j = self.index_of(k);
        assert(0 <= j < self.keys.len() && self.keys@[j]@ == k);
    }

    pub proof fn lemma_contains(&self, k: K::V)
        requires
            self.wf(),
            self.view().contains_key(k),
        ensures
            0 <= self.index_of(k) < self.spec_len(),
            self.key_views()[self.index_of(k)] == k,
            self.values()[self.index_of(k)] == self.view()[k],
    {
    }

    /// A key is stored exactly when it occurs among the stored keys.
    pub proof fn lemma_contains_iff(&self, k: K::V)
        requires
            self.wf(),
        ensures
            self.key_views().len() == self.spec_len(),
            self.values().len() == self.spec_len(),
            self.view().contains_key(k) == exists|j: int|
                0 <= j < self.spec_len() && #[trigger] self.key_views()[j] == k,
    {
        if self.view().contains_key(k) {
            let j = self.index_of(k);
            assert(self.key_views()[j] == k);
        }
        if exists|j: int| 0 <= j < self.spec_len() && #[trigger] self.key_views()[j] == k {
            let j = choose|j: int| 0 <= j < self.spec_len() && #[trigger] self.key_views()[j] == k;
            assert(self.keys@[j]@ == k);
        }
    }

    /// Distinct positions hold distinct keys.
    pub proof fn lemma_keys_distinct(&self, i: int, j: int)
        requires
            self.wf(),
            0 <= i < self.spec_len(),
            0 <= j < self.spec_len(),
            i != j,
        ensures
            self.key_views()[i] != self.key_views()[j],
    {
        assert(self.keys@[i]@ != self.keys@[j]@);
    }

    pub fn new() -> (r: Self)
        ensures
            r.wf(),
            r@ == Map::<K::V, V>::empty(),
            r.spec_len() == 0,
    {
        let r = StorageMap { keys: Vec::new(), vals: Vec::new() };
        assert(r@ =~= Map::<K::V, V>::empty());
        r
    }

    pub fn len(&self) -> (r: usize)
        requires
            self.wf(),
        ensures
            r == self.spec_len(),
    {
        self.keys.len()
    }

    pub fn key_at(&self, i: usize) -> (r: &K)
        requires
            self.wf(),
            i < self.spec_len(),
        ensures
            r@ == self.key_views()[i as int],
    {
        &self.keys[i]
    }

    pub fn value_at(&self, i: usize) -> (r: &V)
        requires
            self.wf(),
            i < self.spec_len(),
        ensures
            *r == self.values()[i as int],
    {
        &self.vals[i]
    }

    /// Position of `k` among the stored keys, if it is stored.
    fn find(&self, k: &K) -> (r: Option<usize>)
        requires
            self.wf(),
        ensures
            match r {
                Some(i) => i < self.keys.len() && self.keys@[i as int]@ == k@,
                None => !self@.contains_key(k@),
            },
    {
        let mut i: usize = 0;
        while i < self.keys.len()
            invariant
                self.wf(),
                i <= self.keys.len(),
                forall|j: int| 0 <= j < i ==> self.keys@[j]@ != k@,
            decreases self.keys.len() - i,
        {
            if self.keys[i].key_eq(k) {
                return Some(i);
            }
            i = i + 1;
        }
        None
    }

    pub fn contains_key(&self, k: &K) -> (r: bool)
        requires
            self.wf(),
        ensures
            r == self@.contains_key(k@),
    {
        match self.find(k) {
            Some(i) => {
                assert(self@.contains_key(k@));
                true
            },
            None => false,
        }
    }

    pub fn get(&self, k: &K) -> (r: Option<&V>)
        requires
            self.wf(),
        ensures
            match r {
                Some(v) => self@.contains_key(k@) && *v == self@[k@],
                None => !self@.contains_key(k@),
            },
    {
        match self.find(k) {
            Some(i) => {
                proof {
                    self.lemma_entry(i as int);
                    assert(self.key_views()[i as int] == k@);
                }
                Some(&self.vals[i])
            },
            None => None,
        }
    }

    /// Removes the entry of `k`, if any. The last entry takes the place of the removed one.
    pub fn remove(&mut self, k: &K)
        requires
            old(self).wf(),
        ensures
            final(self).wf(),
            final(self)@ == old(self)@.remove(k@),
    {
        match self.find(k) {
            None => {
                assert(self@ =~= self@.remove(k@));
            },
            Some(i) => {
                let ghost old_self = *self;
                let ghost n = old_self.keys.len() as int;
                let ghost old_pos = |j: int| if j == i as int { n - 1 } else { j };
                self.keys.swap_remove(i);
                self.vals.swap_remove(i);
                assert forall|j: int| 0 <= j < n - 1 implies #[trigger] self.keys@[j] == old_self.keys@[old_pos(j)]
                    && self.vals@[j] == old_self.vals@[old_pos(j)] by {}
                assert forall|a: int, b: int|
                    0 <= a < self.keys.len() && 0 <= b < self.keys.len() && a != b implies #[trigger] self.keys@[a]@
                        != #[trigger] self.keys@[b]@ by {
                    assert(self.keys@[a] == old_self.keys@[old_pos(a)]);
                    assert(self.keys@[b] == old_self.keys@[old_pos(b)]);
                }
                assert forall|kk: K::V| #[trigger] self@.contains_key(kk) == old_self@.remove(k@).contains_key(kk) by {
                    if self@.contains_key(kk) {
                        let j = choose|j: int| 0 <= j < self.keys.len() && #[trigger] self.keys@[j]@ == kk;
                        assert(old_self.keys@[old_pos(j)]@ == kk);
                        assert(old_pos(j) != i as int);
                    }
                    if old_self@.remove(k@).contains_key(kk) {
                        let j = choose|j: int| 0 <= j < old_self.keys.len() && #[trigger] old_self.keys@[j]@ == kk;
                        assert(j != i as int);
                        if j == n - 1 {
                            assert(self.keys@[i as int]@ == kk);
                        } else {
                            assert(self.keys@[j]@ == kk);
                        }
                    }
                }
                assert forall|kk: K::V| #[trigger] self@.contains_key(kk) implies self@[kk] == old_self@.remove(k@)[kk] by {
                    let j = self.index_of(kk);
                    assert(old_self.keys@[old_pos(j)]@ == kk);
                    old_self.lemma_contains(kk);
                    let oj = old_self.index_of(kk);
                    if oj != old_pos(j) {
                        assert(old_self.keys@[oj]@ != old_self.keys@[old_pos(j)]@);
                    }
                }
                assert(self@ =~= old_self@.remove(k@));
            },
        }
    }

    pub fn insert(&mut self, k: K, v: V)
        requires
            old(self).wf(),
        ensures
            final(self).wf(),
            final(self)@ == old(self)@.insert(k@, v),
            old(self)@.contains_key(k@) ==> final(self).key_views() == old(self).key_views()
                && final(self).values() == old(self).values().update(old(self).index_of(k@), v),
            !old(self)@.contains_key(k@) ==> final(self).key_views() == old(self).key_views().push(k@)
                && final(self).values() == old(self).values().push(v),
    {
        match self.find(&k) {
            Some(i) => {
                let ghost old_self = *self;
                self.vals.set(i, v);
                assert forall|kk: K::V| #[trigger] self@.contains_key(kk) == old_self@.insert(k@, v).contains_key(kk) by {
                    if kk == k@ {
                        assert(self.keys@[i as int]@ == kk);
                    }
                }
                assert forall|kk: K::V| #[trigger] self@.contains_key(kk) implies self@[kk] == old_self@.insert(k@, v)[kk] by {
                    let j = self.index_of(kk);
                    if kk == k@ {
                        assert(j == i);
                    } else {
                        old_self.lemma_contains(kk);
                        assert(old_self.index_of(kk) == j);
                    }
                }
                assert(self@ =~= old_self@.insert(k@, v));
            },
            None => {
                let ghost old_self = *self;
                let ghost kv = k@;
                self.keys.push(k);
                self.vals.push(v);
                let ghost n = old_self.keys.len() as int;
                assert(self.keys@[n]@ == kv);
                assert forall|kk: K::V| #[trigger] self@.contains_key(kk) == old_self@.insert(kv, v).contains_key(kk) by {
                    if kk == kv {
                    } else if self@.contains_key(kk) {
                        let j = choose|j: int| 0 <= j < self.keys.len() && #[trigger] self.keys@[j]@ == kk;
                        assert(old_self.keys@[j]@ == kk);
                    } else if old_self@.contains_key(kk) {
                        let j = choose|j: int| 0 <= j < old_self.keys.len() && #[trigger] old_self.keys@[j]@ == kk;
                        assert(self.keys@[j]@ == kk);
                    }
                }
                assert forall|kk: K::V| #[trigger] self@.contains_key(kk) implies self@[kk] == old_self@.insert(kv, v)[kk] by {
                    let j = self.index_of(kk);
                    if kk == kv {
                        assert(j == n);
                    } else {
                        assert(j != n);
                        assert(old_self.keys@[j]@ == kk);
                        old_self.lemma_contains(kk);
                        assert(old_self.index_of(kk) == j);
                    }
                }
                assert(self@ =~= old_self@.insert(kv, v));
            },
        }
    }
}

/// Mapping a sequence after a push is pushing the mapped element.
pub proof fn lemma_seq_map_values_push<A, B>(s: Seq<A>, a: A, f: spec_fn(A) -> B)
    ensures
        s.push(a).map_values(f) == s.map_values(f).push(f(a)),
{
    assert(s.push(a).map_values(f) =~= s.map_values(f).push(f(a)));
}

/// Viewing the values of a map after an insertion is inserting the viewed value.
pub proof fn lemma_map_values_insert<K, V, W>(m: Map<K, V>, k: K, v: V, f: spec_fn(V) -> W)
    ensures
        m.insert(k, v).map_values(f) == m.map_values(f).insert(k, f(v)),
{
    assert(m.insert(k, v).map_values(f) =~= m.map_values(f).insert(k, f(v)));
}

} // verus!
