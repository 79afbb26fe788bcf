use vstd::prelude::*;

verus! {

/// A map from string keys to values.  Keys are unique; entries keep the order in
/// which they were inserted, and the map is viewed as a `Map` from the keys' characters.
#[derive(Debug)]
pub struct StringMap<V> {
    keys: Vec<String>,
    vals: Vec<V>,
}

/// The characters of each string of a sequence.
pub open spec fn chars_of(keys: Seq<String>) -> Seq<Seq<char>> {
    keys.map_values(|s: String| s@)
}

impl<V> StringMap<V> {
    /// Keys are unique and each has a value.
    pub closed spec fn wf(&self) -> bool {
        &&& self.keys.len() == self.vals.len()
        &&& chars_of(self.keys@).no_duplicates()
    }

    /// The keys, in insertion order.
    pub closed spec fn key_seq(&self) -> Seq<Seq<char>> {
        chars_of(self.keys@)
    }

    /// The values, in the order of `key_seq`.
    pub closed spec fn val_seq(&self) -> Seq<V> {
        self.vals@
    }

    pub open spec fn view(&self) -> Map<Seq<char>, V> {
        Map::new(
            |k: Seq<char>| self.key_seq().contains(k),
            |k: Seq<char>| self.val_seq()[self.key_seq().index_of(k)],
        )
    }

    /// Key order and values are a faithful enumeration of the map.
    pub proof fn lemma_enumeration(&self)
        requires
            self.wf(),
        ensures
            self.key_seq().len() == self.val_seq().len(),
            self.key_seq().no_duplicates(),
            forall|i: int|
                0 <= i < self.key_seq().len() ==> #[trigger] self@[self.key_seq()[i]]
                    == self.val_seq()[i],
            self@.dom().finite(),
            self@.dom().len() == self.key_seq().len(),
            self@.dom() == self.key_seq().to_set(),
    {
        let ks = self.key_seq();
        assert forall|i: int| 0 <= i < ks.len() implies #[trigger] self@[ks[i]] == self.val_seq()[i] by {
            assert(ks.contains(ks[i]));
            let j = ks.index_of(ks[i]);
            assert(ks[j] == ks[i]);
        }
        assert(self@.dom() =~= ks.to_set());
        ks.unique_seq_to_set();
    }

    pub fn new() -> (m: Self)
        ensures
            m.wf(),
            m@ == Map::<Seq<char>, V>::empty(),
            m.key_seq() == Seq::<Seq<char>>::empty(),
    {
        let m = StringMap { keys: Vec::new(), vals: Vec::new() };
        assert(m@ =~= Map::<Seq<char>, V>::empty());
        m
    }

    pub fn len(&self) -> (n: usize)
        requires
            self.wf(),
        ensures
            n == self@.dom().len(),
            n == self.key_seq().len(),
    {
        proof {
            self.lemma_enumeration();
        }
        self.keys.len()
    }

    /// The position of `key` in `key_seq`, if it is there.
    pub fn find(&self, key: &str) -> (r: Option<usize>)
        requires
            self.wf(),
        ensures
            match r {
                Some(i) => i < self.key_seq().len() && self.key_seq()[i as int] == key@,
                None => !self@.dom().contains(key@),
            },
    {
        let k = String::from_str(key);
        let mut i: usize = 0;
        while i < self.keys.len()
            invariant
                0 <= i <= self.keys.len(),
                k@ == key@,
                forall|j: int| 0 <= j < i ==> self.key_seq()[j] != key@,
                self.key_seq().len() == self.keys.len(),
            decreases self.keys.len() - i,
        {
            if self.keys[i] == k {
                return Some(i);
            }
            i += 1;
        }
        None
    }

    pub fn contains_key(&self, key: &str) -> (b: bool)
        requires
            self.wf(),
        ensures
            b == self@.dom().contains(key@),
    {
        proof {
            self.lemma_enumeration();
        }
        match self.find(key) {
            Some(i) => {
                assert(self.key_seq().contains(key@));
                true
            },
            None => false,
        }
    }

    pub fn key_at(&self, i: usize) -> (k: &String)
        requires
            self.wf(),
            i < self.key_seq().len(),
        ensures
            k@ == self.key_seq()[i as int],
    {
        &self.keys[i]
    }

    pub fn value_at(&self, i: usize) -> (v: &V)
        requires
            self.wf(),
            i < self.key_seq().len(),
        ensures
            *v == self@[self.key_seq()[i as int]],
            *v == self.val_seq()[i as int],
    {
        proof {
            self.lemma_enumeration();
        }
        &self.vals[i]
    }

    pub fn get(&self, key: &str) -> (r: Option<&V>)
        requires
            self.wf(),
        ensures
            match r {
                Some(v) => self@.dom().contains(key@) && *v == self@[key@],
                None => !self@.dom().contains(key@),
            },
    {
        proof {
            self.lemma_enumeration();
        }
        match self.find(key) {
            Some(i) => Some(&self.vals[i]),
            None => None,
        }
    }

    /// The keys, in insertion order.
    pub fn keys(&self) -> (ks: Vec<String>)
        requires
            self.wf(),
        ensures
            chars_of(ks@) == self.key_seq(),
    {
        let mut ks: Vec<String> = Vec::new();
        let mut i: usize = 0;
        while i < self.keys.len()
            invariant
                i <= self.keys.len(),
                ks@.len() == i,
                chars_of(ks@) == chars_of(self.keys@.subrange(0, i as int)),
            decreases self.keys.len() - i,
        {
            let ghost prev = ks@;
            ks.push(self.keys[i].clone());
            proof {
                assert(ks@[i as int] == self.keys@[i as int]);
                assert forall|j: int| 0 <= j < i implies ks@[j] == prev[j] by {}
                assert forall|j: int| 0 <= j < i + 1 implies #[trigger] chars_of(ks@)[j] == chars_of(
                    self.keys@.subrange(0, i + 1),
                )[j] by {
                    if j < i {
                        assert(chars_of(prev)[j] == chars_of(self.keys@.subrange(0, i as int))[j]);
                        assert(chars_of(prev)[j] == prev[j]@);
                        assert(self.keys@.subrange(0, i as int)[j] == self.keys@[j]);
                    }
                }
                assert(chars_of(ks@) =~= chars_of(self.keys@.subrange(0, i + 1)));
            }
            i += 1;
        }
        assert(self.keys@.subrange(0, self.keys@.len() as int) =~= self.keys@);
        ks
    }

    /// Removes the entry for `key` and returns its value.
    pub fn take(&mut self, key: &str) -> (r: Option<V>)
        requires
            old(self).wf(),
        ensures
            final(self).wf(),
            final(self)@ == old(self)@.remove(key@),
            match r {
                Some(v) => old(self)@.dom().contains(key@) && v == old(self)@[key@],
                None => !old(self)@.dom().contains(key@),
            },
            final(self).key_seq() == old(self).key_seq().filter(|k: Seq<char>| k != key@),
    {
        proof {
            self.lemma_enumeration();
        }
        match self.find(key) {
            None => {
                proof {
                    let ks = self.key_seq();
                    assert(ks.filter(|k: Seq<char>| k != key@) =~= ks) by {
                        assert forall|j: int| 0 <= j < ks.len() implies ks[j] != key@ by {
                            assert(ks.contains(ks[j]));
                        }
                        lemma_filter_all(ks, |k: Seq<char>| k != key@);
                    }
                    assert(self@.remove(key@) =~= self@);
                }
                None
            },
            Some(i) => {
                let ghost old_keys = self.key_seq();
                let ghost old_vals = self.vals@;
                let ghost old_view = self@;
                let _k = self.keys.remove(i);
                let v = self.vals.remove(i);
                proof {
                    let ks = self.key_seq();
                    assert(ks =~= old_keys.remove(i as int));
                    lemma_remove_unique(old_keys, i as int);
                    assert(ks.no_duplicates());
                    lemma_filter_remove_unique(old_keys, i as int);
                    assert forall|k: Seq<char>| #[trigger] self@.dom().contains(k)
                        <==> old_view.remove(key@).dom().contains(k) by {
                        if ks.contains(k) {
                            let j = choose|j: int| 0 <= j < ks.len() && ks[j] == k;
                            if j < i {
                                assert(old_keys[j] == k);
                            } else {
                                assert(old_keys[j + 1] == k);
                            }
                            assert(old_keys.contains(k));
                        }
                        if old_keys.contains(k) && k != key@ {
                            let j = choose|j: int| 0 <= j < old_keys.len() && old_keys[j] == k;
                            if j < i {
                                assert(ks[j] == k);
                            } else {
                                assert(j != i);
                                assert(ks[j - 1] == k);
                            }
                        }
                    }
                    assert forall|k: Seq<char>| #[trigger] self@.dom().contains(k)
                        implies self@[k] == old_view[k] by {
                        let j = ks.index_of(k);
                        assert(ks.contains(k));
                        if j < i {
                            assert(old_keys[j] == k);
                            assert(old_view[old_keys[j]] == old_vals[j]);
                        } else {
                            assert(old_keys[j + 1] == k);
                            assert(old_view[old_keys[j + 1]] == old_vals[j + 1]);
                        }
                    }
                    assert(self@ =~= old_view.remove(key@));
                    assert(old_view[old_keys[i as int]] == old_vals[i as int]);
                }
                Some(v)
            },
        }
    }

    /// Inserts a new entry or replaces the value of an existing one.
    pub fn insert(&mut self, key: String, value: V)
        requires
            old(self).wf(),
        ensures
            final(self).wf(),
            final(self)@ == old(self)@.insert(key@, value),
    {
        proof {
            self.lemma_enumeration();
        }
        let _old = self.take(key.as_str());
        let ghost mid_keys = self.key_seq();
        let ghost mid_view = self@;
        proof {
            self.lemma_enumeration();
            assert(!mid_keys.contains(key@));
        }
        self.keys.push(key);
        self.vals.push(value);
        proof {
            let ks = self.key_seq();
            assert(ks =~= mid_keys.push(key@));
            assert(ks.no_duplicates()) by {
                assert forall|a: int, b: int| 0 <= a < ks.len() && 0 <= b < ks.len() && a != b
                    implies ks[a] != ks[b] by {
                    if a == mid_keys.len() as int {
                        assert(mid_keys.contains(ks[b]));
                    } else if b == mid_keys.len() as int {
                        assert(mid_keys.contains(ks[a]));
                    }
                }
            }
            assert forall|k: Seq<char>| #[trigger] self@.dom().contains(k) implies self@[k]
                == mid_view.insert(key@, value)[k] by {
                let j = ks.index_of(k);
                assert(ks.contains(k));
                if k == key@ {
                    assert(ks[mid_keys.len() as int] == k);
                    assert(j == mid_keys.len() as int);
                } else {
                    assert(j < mid_keys.len());
                    assert(mid_keys[j] == k);
                    assert(mid_keys.contains(k));
                    let j2 = mid_keys.index_of(k);
                    assert(mid_keys[j2] == k);
                    assert(j2 == j);
                }
            }
            assert forall|k: Seq<char>| #[trigger] self@.dom().contains(k) <==> mid_view.insert(
                key@,
                value,
            ).dom().contains(k) by {
                if ks.contains(k) && k != key@ {
                    let j = choose|j: int| 0 <= j < ks.len() && ks[j] == k;
                    assert(j < mid_keys.len());
                    assert(mid_keys[j] == k);
                }
                if mid_keys.contains(k) {
                    let j = choose|j: int| 0 <= j < mid_keys.len() && mid_keys[j] == k;
                    assert(ks[j] == k);
                }
                assert(ks[mid_keys.len() as int] == key@);
            }
            assert(self@ =~= mid_view.insert(key@, value));
        }
    }
}

impl StringMap<String> {
    /// The entries, in key order.
    pub fn entries(&self) -> (r: Vec<(String, String)>)
        requires
            self.wf(),
        ensures
            r@.len() == self.key_seq().len(),
            forall|i: int|
                0 <= i < r@.len() ==> (#[trigger] r@[i]).0@ == self.key_seq()[i] && r@[i].1 == self@[self.key_seq()[i]],
    {
        proof {
            self.lemma_enumeration();
        }
        let mut r: Vec<(String, String)> = Vec::new();
        let mut i: usize = 0;
        while i < self.keys.len()
            invariant
                self.wf(),
                self.key_seq().len() == self.val_seq().len(),
                self.key_seq().no_duplicates(),
                forall|j: int| 0 <= j < self.key_seq().len() ==> #[trigger] self@[self.key_seq()[j]] == self.val_seq()[j],
                i <= self.keys@.len(),
                r@.len() == i,
                forall|j: int|
                    0 <= j < i ==> (#[trigger] r@[j]).0@ == self.key_seq()[j] && r@[j].1 == self@[self.key_seq()[j]],
            decreases self.keys@.len() - i,
        {
            let k = self.keys[i].clone();
            let v = self.vals[i].clone();
            proof {
                assert(self.key_seq()[i as int] == self.keys@[i as int]@);
            }
            r.push((k, v));
            i += 1;
        }
        r
    }

    /// A copy of this map, in the same order.
    pub fn duplicate(&self) -> (r: StringMap<String>)
        requires
            self.wf(),
        ensures
            r.wf(),
            r@ == self@,
            r.key_seq() == self.key_seq(),
    {
        let keys = crate::error::clone_strings(&self.keys);
        let vals = crate::error::clone_strings(&self.vals);
        let r = StringMap { keys, vals };
        assert(r.key_seq() =~= self.key_seq());
        assert(r@ =~= self@);
        r
    }
}

impl<V: Copy> StringMap<V> {
    /// The same map, its values copied.
    pub fn copied(&self) -> (r: StringMap<V>)
        requires
            self.wf(),
        ensures
            r.wf(),
            r@ == self@,
            r.key_seq() == self.key_seq(),
    {
        let keys = crate::error::clone_strings(&self.keys);
        let mut vals: Vec<V> = Vec::new();
        let mut i: usize = 0;
        while i < self.vals.len()
            invariant
                i <= self.vals@.len(),
                vals@ == self.vals@.take(i as int),
            decreases self.vals@.len() - i,
        {
            vals.push(self.vals[i]);
            proof {
                assert(self.vals@.take(i as int + 1) =~= self.vals@.take(i as int).push(self.vals@[i as int]));
            }
            i += 1;
        }
        proof {
            assert(self.vals@.take(self.vals@.len() as int) =~= self.vals@);
        }
        let r = StringMap { keys, vals };
        assert(r.key_seq() =~= self.key_seq());
        assert(r@ =~= self@);
        r
    }
}

proof fn lemma_filter_all<A>(s: Seq<A>, p: spec_fn(A) -> bool)
    requires
        forall|i: int| 0 <= i < s.len() ==> p(s[i]),
    ensures
        s.filter(p) == s,
    decreases s.len(),
{
    reveal_with_fuel(Seq::filter, 1);
    if s.len() > 0 {
        lemma_filter_all(s.drop_last(), p);
        assert(s.drop_last().push(s.last()) =~= s);
    } else {
        assert(s.filter(p) =~= s);
    }
}

proof fn lemma_remove_unique<A>(s: Seq<A>, i: int)
    requires
        s.no_duplicates(),
        0 <= i < s.len(),
    ensures
        s.remove(i).no_duplicates(),
{
    let r = s.remove(i);
    assert forall|a: int, b: int| 0 <= a < r.len() && 0 <= b < r.len() && a != b implies r[a]
        != r[b] by {
        let a2 = if a < i { a } else { a + 1 };
        let b2 = if b < i { b } else { b + 1 };
        assert(r[a] == s[a2]);
        assert(r[b] == s[b2]);
    }
}

proof fn lemma_filter_remove_unique<A>(s: Seq<A>, i: int)
    requires
        s.no_duplicates(),
        0 <= i < s.len(),
    ensures
        s.filter(|k: A| k != s[i]) == s.remove(i),
    decreases s.len(),
{
    let key = s[i];
    let p = |k: A| k != key;
    reveal_with_fuel(Seq::filter, 1);
    if i == s.len() - 1 {
        assert forall|j: int| 0 <= j < s.drop_last().len() implies p(s.drop_last()[j]) by {
            assert(s[j] != s[i]);
        }
        lemma_filter_all(s.drop_last(), p);
        assert(s.remove(i) =~= s.drop_last());
    } else {
        let d = s.drop_last();
        assert(d[i] == key);
        assert(d.no_duplicates());
        lemma_filter_remove_unique(d, i);
        assert(s.last() != key);
        assert(s.remove(i) =~= d.remove(i).push(s.last()));
    }
}

} // verus!
