//! A keyed store backed by a vector of entries with distinct keys, viewed as
//! a finite map. It holds the per-service, per-user and per-name registries.
use vstd::prelude::*;

verus! {

/// Keys of a [`VecMap`]: comparable and duplicable by their view.
pub trait MapKey: View + Sized {
    fn same_key(&self, other: &Self) -> (r: bool)
        ensures
            r == (self@ == other@),
    ;

    fn copy_key(&self) -> (r: Self)
        ensures
            r@ == self@,
    ;
}

impl MapKey for u128 {
    fn same_key(&self, other: &Self) -> (r: bool) {
        *self == *other
    }

    fn copy_key(&self) -> (r: Self) {
        *self
    }
}

impl MapKey for Vec<char> {
    fn same_key(&self, other: &Self) -> (r: bool) {
        crate::text::eq(self.as_slice(), other.as_slice())
    }

    fn copy_key(&self) -> (r: Self) {
        let r = crate::text::slice(self.as_slice(), 0, self.len());
        assert(r@ =~= self@);
        r
    }
}

/// A map from keys to values, kept as a vector of entries with distinct keys.
pub struct VecMap<K: MapKey, V> {
    entries: Vec<(K, V)>,
}

impl<K: MapKey, V> VecMap<K, V> {
    /// No two entries share a key.
    #[verifier::type_invariant]
    pub closed spec fn distinct_keys(&self) -> bool {
        forall|i: int, j: int|
            0 <= i < self.entries@.len() && 0 <= j < self.entries@.len() && i != j
                ==> #[trigger] self.entries@[i].0@ != #[trigger] self.entries@[j].0@
    }

    pub closed spec fn has(&self, k: K::V) -> bool {
        exists|i: int| 0 <= i < self.entries@.len() && #[trigger] self.entries@[i].0@ == k
    }

    pub closed spec fn index_of(&self, k: K::V) -> int {
        choose|i: int| 0 <= i < self.entries@.len() && #[trigger] self.entries@[i].0@ == k
    }

    /// The map that the entries stand for.
    pub closed spec fn map(&self) -> Map<K::V, V> {
        Map::new(|k: K::V| self.has(k), |k: K::V| self.entries@[self.index_of(k)].1)
    }

    /// The keys in the order the entries are kept.
    pub closed spec fn keys(&self) -> Seq<K::V> {
        self.entries@.map_values(|e: (K, V)| e.0@)
    }

    proof fn lemma_index(&self, i: int)
        requires
            self.distinct_keys(),
            0 <= i < self.entries@.len(),
        ensures
            self.has(self.entries@[i].0@),
            self.index_of(self.entries@[i].0@) == i,
            self.map().contains_key(self.entries@[i].0@),
            self.map()[self.entries@[i].0@] == self.entries@[i].1,
    {
        let k = self.entries@[i].0@;
        assert(self.has(k));
        let j = self.index_of(k);
        if j != i {
            assert(self.entries@[i].0@ != self.entries@[j].0@);
        }
    }

    pub fn new() -> (m: Self)
        ensures
            m.map() == Map::<K::V, V>::empty(),
            m.keys() == Seq::<K::V>::empty(),
    {
        let m = VecMap { entries: Vec::new() };
        assert(m.map() =~= Map::<K::V, V>::empty());
        assert(m.keys() =~= Seq::<K::V>::empty());
        m
    }

    /// Number of entries; the keys are distinct and are exactly the domain.
    pub fn len(&self) -> (n: usize)
        ensures
            n == self.keys().len(),
            self.keys().no_duplicates(),
            forall|k: K::V| self.map().contains_key(k) <==> self.keys().contains(k),
    {
        proof {
            use_type_invariant(self);
            assert forall|i: int, j: int|
                0 <= i < self.keys().len() && 0 <= j < self.keys().len() && i != j implies
                self.keys()[i] != self.keys()[j] by {
                assert(self.entries@[i].0@ != self.entries@[j].0@);
            }
            assert forall|k: K::V| self.map().contains_key(k) <==> self.keys().contains(k) by {
                if self.map().contains_key(k) {
                    let i = self.index_of(k);
                    assert(self.keys()[i] == k);
                }
                if self.keys().contains(k) {
                    let i = choose|i: int| 0 <= i < self.keys().len() && self.keys()[i] == k;
                    assert(self.entries@[i].0@ == k);
                }
            }
        }
        self.entries.len()
    }

    /// Position of the entry with key `k`, if any.
    fn find(&self, k: &K) -> (r: Option<usize>)
        ensures
            match r {
                Some(i) => i < self.entries@.len() && self.entries@[i as int].0@ == k@,
                None => !self.has(k@),
            },
    {
        let mut i: usize = 0;
        while i < self.entries.len()
            invariant
                i <= self.entries@.len(),
                forall|j: int| 0 <= j < i ==> #[trigger] self.entries@[j].0@ != k@,
            decreases self.entries@.len() - i,
        {
            if self.entries[i].0.same_key(k) {
                return Some(i);
            }
            i = i + 1;
        }
        None
    }

    /// Position of the key in the key order, if present.
    pub fn position(&self, k: &K) -> (r: Option<usize>)
        ensures
            match r {
                Some(i) => i < self.keys().len() && self.keys()[i as int] == k@ && self.map().contains_key(k@),
                None => !self.map().contains_key(k@),
            },
    {
        proof {
            use_type_invariant(self);
        }
        let r = self.find(k);
        proof {
            if let Some(i) = r {
                self.lemma_index(i as int);
            }
        }
        r
    }

    /// Whether the key is present.
    pub fn contains(&self, k: &K) -> (r: bool)
        ensures
            r == self.map().contains_key(k@),
    {
        self.find(k).is_some()
    }

    /// The value under `k`, if any.
    pub fn get(&self, k: &K) -> (r: Option<&V>)
        ensures
            match r {
                Some(v) => self.map().contains_key(k@) && *v == self.map()[k@],
                None => !self.map().contains_key(k@),
            },
    {
        proof {
            use_type_invariant(self);
        }
        match self.find(k) {
            Some(i) => {
                proof {
                    self.lemma_index(i as int);
                }
                Some(&self.entries[i].1)
            },
            None => None,
        }
    }

    /// Puts `v` under `k`, replacing any earlier value.
    pub fn insert(&mut self, k: K, v: V)
        ensures
            final(self).map() == old(self).map().insert(k@, v),
            old(self).map().contains_key(k@) ==> final(self).keys() == old(self).keys(),
            !old(self).map().contains_key(k@) ==> final(self).keys() == old(self).keys().push(
                k@,
            ),
    {
        proof {
            use_type_invariant(&*self);
        }
        let ghost old_self = *self;
        let ghost kv = k@;
        match self.find(&k) {
            Some(i) => {
                proof {
                    old_self.lemma_index(i as int);
                }
                let mut entries = Vec::new();
                std::mem::swap(&mut entries, &mut self.entries);
                entries.set(i, (k, v));
                self.entries = entries;
                proof {
                    assert(self.keys() =~= old_self.keys());
                    assert forall|key: K::V| #[trigger]
                        self.map().contains_key(key) == old_self.map().insert(
                            kv,
                            v,
                        ).contains_key(key) by {
                        if old_self.has(key) {
                            let j = old_self.index_of(key);
                            assert(self.entries@[j].0@ == key);
                        }
                        if self.has(key) {
                            let j = self.index_of(key);
                            if j != i {
                                assert(old_self.entries@[j].0@ == key);
                            }
                        }
                    }
                    assert forall|key: K::V| #[trigger]
                        self.map().contains_key(key) implies self.map()[key] == old_self.map().insert(
                            kv,
                            v,
                        )[key] by {
                        let j = self.index_of(key);
                        self.lemma_index(j);
                        if key != kv {
                            assert(j != i);
                            old_self.lemma_index(j);
                        } else {
                            self.lemma_index(i as int);
                        }
                    }
                    assert(self.map() =~= old_self.map().insert(kv, v));
                }
            },
            None => {
                let mut entries = Vec::new();
                std::mem::swap(&mut entries, &mut self.entries);
                entries.push((k, v));
                self.entries = entries;
                proof {
                    let n = old_self.entries@.len() as int;
                    assert(self.keys() =~= old_self.keys().push(kv));
                    assert forall|key: K::V| #[trigger]
                        self.map().contains_key(key) == old_self.map().insert(
                            kv,
                            v,
                        ).contains_key(key) by {
                        if old_self.has(key) {
                            let j = old_self.index_of(key);
                            assert(self.entries@[j].0@ == key);
                        }
                        if key == kv {
                            assert(self.entries@[n].0@ == key);
                        }
                        if self.has(key) && key != kv {
                            let j = self.index_of(key);
                            assert(j != n);
                            assert(old_self.entries@[j].0@ == key);
                        }
                    }
                    assert forall|key: K::V| #[trigger]
                        self.map().contains_key(key) implies self.map()[key] == old_self.map().insert(
                            kv,
                            v,
                        )[key] by {
                        let j = self.index_of(key);
                        self.lemma_index(j);
                        if key != kv {
                            assert(j != n);
                            old_self.lemma_index(j);
                        } else {
                            self.lemma_index(n);
                        }
                    }
                    assert(self.map() =~= old_self.map().insert(kv, v));
                }
            },
        }
    }

    /// Takes the value under `k` out of the map.
    pub fn remove(&mut self, k: &K) -> (r: Option<V>)
        ensures
            match r {
                Some(v) => old(self).map().contains_key(k@) && v == old(self).map()[k@],
                None => !old(self).map().contains_key(k@),
            },
            final(self).map() == old(self).map().remove(k@),
            final(self).keys() == old(self).keys().filter(|x: K::V| x != k@),
    {
        proof {
            use_type_invariant(&*self);
        }
        let ghost old_self = *self;
        let ghost kv = k@;
        match self.find(k) {
            Some(i) => {
                proof {
                    old_self.lemma_index(i as int);
                }
                let mut entries = Vec::new();
                std::mem::swap(&mut entries, &mut self.entries);
                let e = entries.remove(i);
                self.entries = entries;
                proof {
                    let os = old_self.entries@;
                    assert(self.entries@ =~= os.subrange(0, i as int) + os.subrange(
                        i + 1,
                        os.len() as int,
                    ));
                    assert forall|key: K::V| #[trigger]
                        self.map().contains_key(key) == old_self.map().remove(kv).contains_key(
                            key,
                        ) by {
                        if old_self.has(key) && key != kv {
                            let j = old_self.index_of(key);
                            assert(j != i);
                            if j < i {
                                assert(self.entries@[j].0@ == key);
                            } else {
                                assert(self.entries@[j - 1].0@ == key);
                            }
                        }
                        if self.has(key) {
                            let j = self.index_of(key);
                            if j < i {
                                assert(os[j].0@ == key);
                                assert(j != i);
                            } else {
                                assert(os[j + 1].0@ == key);
                                assert(j + 1 != i);
                            }
                        }
                    }
                    assert forall|key: K::V| #[trigger]
                        self.map().contains_key(key) implies self.map()[key] == old_self.map().remove(
                            kv,
                        )[key] by {
                        let j = self.index_of(key);
                        self.lemma_index(j);
                        if j < i {
                            old_self.lemma_index(j);
                        } else {
                            old_self.lemma_index(j + 1);
                        }
                    }
                    assert(self.map() =~= old_self.map().remove(kv));
                    lemma_filter_remove_at(old_self.keys(), i as int, kv);
                    assert(self.keys() =~= old_self.keys().subrange(0, i as int)
                        + old_self.keys().subrange(i + 1, old_self.keys().len() as int));
                }
                Some(e.1)
            },
            None => {
                proof {
                    assert(old_self.map().remove(kv) =~= old_self.map());
                    assert forall|j: int| 0 <= j < old_self.keys().len() implies #[trigger]
                        old_self.keys()[j] != kv by {
                        assert(old_self.entries@[j].0@ == old_self.keys()[j]);
                    }
                    lemma_filter_keep_all(old_self.keys(), kv);
                }
                None
            },
        }
    }

    /// Takes the entry at position `i` out of the map.
    pub fn take_at(&mut self, i: usize) -> (r: (K, V))
        requires
            i < old(self).keys().len(),
        ensures
            r.0@ == old(self).keys()[i as int],
            old(self).map().contains_key(r.0@),
            r.1 == old(self).map()[r.0@],
            final(self).map() == old(self).map().remove(r.0@),
            final(self).keys() == old(self).keys().remove(i as int),
    {
        proof {
            use_type_invariant(&*self);
            self.lemma_index(i as int);
        }
        let ghost old_self = *self;
        let ghost kv = self.entries@[i as int].0@;
        let mut entries = Vec::new();
        std::mem::swap(&mut entries, &mut self.entries);
        let e = entries.remove(i);
        self.entries = entries;
        proof {
            let os = old_self.entries@;
            assert(self.keys() =~= old_self.keys().remove(i as int));
            assert forall|key: K::V| #[trigger]
                self.map().contains_key(key) == old_self.map().remove(kv).contains_key(key) by {
                if old_self.has(key) && key != kv {
                    let j = old_self.index_of(key);
                    assert(j != i);
                    if j < i {
                        assert(self.entries@[j].0@ == key);
                    } else {
                        assert(self.entries@[j - 1].0@ == key);
                    }
                }
                if self.has(key) {
                    let j = self.index_of(key);
                    if j < i {
                        assert(os[j].0@ == key);
                        assert(j != i);
                    } else {
                        assert(os[j + 1].0@ == key);
                        assert(j + 1 != i);
                    }
                }
            }
            assert forall|key: K::V| #[trigger]
                self.map().contains_key(key) implies self.map()[key] == old_self.map().remove(kv)[key] by {
                let j = self.index_of(key);
                self.lemma_index(j);
                if j < i {
                    old_self.lemma_index(j);
                } else {
                    old_self.lemma_index(j + 1);
                }
            }
            assert(self.map() =~= old_self.map().remove(kv));
        }
        e
    }

    /// Puts a new key at position `i` of the key order.
    pub fn insert_at(&mut self, i: usize, k: K, v: V)
        requires
            i <= old(self).keys().len(),
            !old(self).map().contains_key(k@),
        ensures
            final(self).map() == old(self).map().insert(k@, v),
            final(self).keys() == old(self).keys().insert(i as int, k@),
    {
        proof {
            use_type_invariant(&*self);
        }
        let ghost old_self = *self;
        let ghost kv = k@;
        proof {
            assert forall|j: int| 0 <= j < old_self.entries@.len() implies #[trigger] old_self.entries@[j].0@ != kv by {
                if old_self.entries@[j].0@ == kv {
                    assert(old_self.has(kv));
                }
            }
        }
        let mut entries = Vec::new();
        std::mem::swap(&mut entries, &mut self.entries);
        entries.insert(i, (k, v));
        self.entries = entries;
        proof {
            let os = old_self.entries@;
            assert(self.keys() =~= old_self.keys().insert(i as int, kv));
            assert forall|key: K::V| #[trigger]
                self.map().contains_key(key) == old_self.map().insert(kv, v).contains_key(key) by {
                if old_self.has(key) {
                    let j = old_self.index_of(key);
                    if j < i {
                        assert(self.entries@[j].0@ == key);
                    } else {
                        assert(self.entries@[j + 1].0@ == key);
                    }
                }
                if key == kv {
                    assert(self.entries@[i as int].0@ == key);
                }
                if self.has(key) && key != kv {
                    let j = self.index_of(key);
                    if j < i {
                        assert(os[j].0@ == key);
                    } else {
                        assert(j != i);
                        assert(os[j - 1].0@ == key);
                    }
                }
            }
            assert forall|key: K::V| #[trigger]
                self.map().contains_key(key) implies self.map()[key] == old_self.map().insert(kv, v)[key] by {
                let j = self.index_of(key);
                self.lemma_index(j);
                if key == kv {
                    self.lemma_index(i as int);
                } else if j < i {
                    old_self.lemma_index(j);
                } else {
                    assert(j != i);
                    old_self.lemma_index(j - 1);
                }
            }
            assert(self.map() =~= old_self.map().insert(kv, v));
        }
    }

    /// The entry at position `i`, in key order.
    pub fn entry_at(&self, i: usize) -> (r: (&K, &V))
        requires
            i < self.keys().len(),
        ensures
            r.0@ == self.keys()[i as int],
            self.map().contains_key(r.0@),
            *r.1 == self.map()[r.0@],
    {
        proof {
            use_type_invariant(self);
            self.lemma_index(i as int);
        }
        let e = &self.entries[i];
        (&e.0, &e.1)
    }
}

proof fn lemma_filter_keep_all<A>(s: Seq<A>, x: A)
    requires
        forall|j: int| 0 <= j < s.len() ==> #[trigger] s[j] != x,
    ensures
        s.filter(|y: A| y != x) == s,
    decreases s.len(),
{
    reveal_with_fuel(Seq::filter, 1);
    if s.len() > 0 {
        lemma_filter_keep_all(s.drop_last(), x);
        assert(s.drop_last().push(s.last()) =~= s);
    } else {
        assert(s.filter(|y: A| y != x) =~= s);
    }
}

proof fn lemma_filter_remove_at<A>(s: Seq<A>, i: int, x: A)
    requires
        0 <= i < s.len(),
        s[i] == x,
        forall|j: int| 0 <= j < s.len() && j != i ==> #[trigger] s[j] != x,
    ensures
        s.filter(|y: A| y != x) == s.subrange(0, i) + s.subrange(i + 1, s.len() as int),
    decreases s.len(),
{
    reveal_with_fuel(Seq::filter, 1);
    if i == s.len() - 1 {
        lemma_filter_keep_all(s.drop_last(), x);
        assert(s.subrange(0, i) =~= s.drop_last());
        assert(s.subrange(i + 1, s.len() as int) =~= Seq::<A>::empty());
        assert(s.subrange(0, i) + s.subrange(i + 1, s.len() as int) =~= s.drop_last());
    } else {
        let t = s.drop_last();
        lemma_filter_remove_at(t, i, x);
        assert(t.subrange(0, i) =~= s.subrange(0, i));
        assert((t.subrange(0, i) + t.subrange(i + 1, t.len() as int)).push(s.last()) =~= s.subrange(
            0,
            i,
        ) + s.subrange(i + 1, s.len() as int));
    }
}

/// A map whose domain is exactly the distinct keys of a sequence has as many
/// entries as the sequence.
pub proof fn lemma_dom_len<K, V>(keys: Seq<K>, m: Map<K, V>)
    requires
        keys.no_duplicates(),
        forall|k: K| m.contains_key(k) <==> keys.contains(k),
    ensures
        m.dom().finite(),
        m.len() == keys.len(),
{
    assert(m.dom() =~= keys.to_set());
    keys.unique_seq_to_set();
}

} // verus!
