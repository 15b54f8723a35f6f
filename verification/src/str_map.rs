//! A small map from strings to values, kept as a list of entries with distinct keys.
//! Its model is a `Map` from the keys' character sequences to the values' views.
use vstd::prelude::*;
use crate::text::str_equals;

verus! {

/// A string-keyed map; entries keep the order in which their keys were first inserted.
#[derive(Debug)]
pub struct StrMap<V> {
    pub entries: Vec<(String, V)>,
}

impl<V: View> StrMap<V> {
    /// No two entries share a key.
    pub open spec fn wf(&self) -> bool {
        forall|i: int, j: int|
            0 <= i < self.entries@.len() && 0 <= j < self.entries@.len() && i != j
                ==> #[trigger] self.entries@[i].0@ != #[trigger] self.entries@[j].0@
    }

    /// The keys, in entry order.
    pub open spec fn key_seq(&self) -> Seq<Seq<char>> {
        self.entries@.map_values(|e: (String, V)| e.0@)
    }

    /// Whether `k` is a key.
    pub open spec fn has(&self, k: Seq<char>) -> bool {
        exists|i: int| 0 <= i < self.entries@.len() && self.entries@[i].0@ == k
    }

    /// The index of the entry with key `k`.
    pub open spec fn index_of(&self, k: Seq<char>) -> int {
        choose|i: int| 0 <= i < self.entries@.len() && self.entries@[i].0@ == k
    }

    /// The model: each key mapped to its value's view.
    pub open spec fn view(&self) -> Map<Seq<char>, V::V> {
        Map::new(|k: Seq<char>| self.has(k), |k: Seq<char>| self.entries@[self.index_of(k)].1@)
    }

    /// In a well-formed map the entry at `i` holds the value of its key.
    pub proof fn lemma_entry(&self, i: int)
        requires
            self.wf(),
            0 <= i < self.entries@.len(),
        ensures
            self.view().contains_key(self.entries@[i].0@),
            self.view()[self.entries@[i].0@] == self.entries@[i].1@,
            self.index_of(self.entries@[i].0@) == i,
    {
        let k = self.entries@[i].0@;
        assert(self.has(k));
        let j = self.index_of(k);
        if j != i {
            assert(self.entries@[j].0@ != self.entries@[i].0@);
        }
    }

    /// In a well-formed map the number of keys is the number of entries.
    pub proof fn lemma_len_matches(&self)
        requires
            self.wf(),
        ensures
            self.view().len() == self.entries@.len(),
            self.view().dom().finite(),
        decreases self.entries@.len(),
    {
        let ks = self.key_seq();
        assert forall|k: Seq<char>| #[trigger] self.view().dom().contains(k) == ks.to_set().contains(k) by {
            if self.has(k) {
                let i = self.index_of(k);
                assert(ks[i] == k);
            }
            if ks.to_set().contains(k) {
                let i = choose|i: int| 0 <= i < ks.len() && ks[i] == k;
                assert(self.entries@[i].0@ == k);
            }
        }
        assert(self.view().dom() =~= ks.to_set());
        assert(ks.no_duplicates()) by {
            assert forall|i: int, j: int| 0 <= i < ks.len() && 0 <= j < ks.len() && i != j implies ks[i] != ks[j] by {
                assert(self.entries@[i].0@ != self.entries@[j].0@);
            }
        }
        ks.unique_seq_to_set();
    }

    /// An empty map.
    pub fn new() -> (r: Self)
        ensures
            r.wf(),
            r.entries@.len() == 0,
            r.view() == Map::<Seq<char>, V::V>::empty(),
    {
        let r = StrMap { entries: Vec::new() };
        assert(r.view() =~= Map::<Seq<char>, V::V>::empty());
        r
    }

    /// The number of entries.
    pub fn len(&self) -> (n: usize)
        ensures
            n == self.entries@.len(),
    {
        self.entries.len()
    }

    /// The index of the entry with key `key`, if there is one.
    pub fn find(&self, key: &str) -> (r: Option<usize>)
        requires
            self.wf(),
        ensures
            match r {
                Some(i) => i < self.entries@.len() && self.entries@[i as int].0@ == key@,
                None => !self.view().contains_key(key@),
            },
    {
        let n = self.entries.len();
        let mut i: usize = 0;
        while i < n
            invariant
                n == self.entries@.len(),
                i <= n,
                forall|j: int| 0 <= j < i ==> self.entries@[j].0@ != key@,
            decreases n - i,
        {
            if str_equals(self.entries[i].0.as_str(), key) {
                return Some(i);
            }
            i = i + 1;
        }
        None
    }

    /// The value of `key`, if present.
    pub fn get(&self, key: &str) -> (r: Option<&V>)
        requires
            self.wf(),
        ensures
            match r {
                Some(v) => self.view().contains_key(key@) && v@ == self.view()[key@],
                None => !self.view().contains_key(key@),
            },
    {
        match self.find(key) {
            Some(i) => {
                proof {
                    self.lemma_entry(i as int);
                }
                Some(&self.entries[i].1)
            },
            None => None,
        }
    }

    /// Whether `key` is present.
    pub fn contains(&self, key: &str) -> (r: bool)
        requires
            self.wf(),
        ensures
            r == self.view().contains_key(key@),
    {
        match self.find(key) {
            Some(i) => {
                proof {
                    self.lemma_entry(i as int);
                }
                true
            },
            None => false,
        }
    }

    /// Sets the value of `key`, adding an entry at the end when the key is new.
    pub fn insert(&mut self, key: String, value: V)
        requires
            old(self).wf(),
        ensures
            final(self).wf(),
            final(self).view() == old(self).view().insert(key@, value@),
            old(self).view().contains_key(key@) ==> final(self).key_seq() == old(self).key_seq(),
            !old(self).view().contains_key(key@) ==> final(self).key_seq() == old(self).key_seq().push(key@),
    {
        let ghost k = key@;
        let ghost v = value@;
        match self.find(key.as_str()) {
            Some(i) => {
                proof {
                    old(self).lemma_entry(i as int);
                }
                self.entries.set(i, (key, value));
                proof {
                    assert forall|a: int, b: int|
                        0 <= a < self.entries@.len() && 0 <= b < self.entries@.len() && a != b
                        implies #[trigger] self.entries@[a].0@ != #[trigger] self.entries@[b].0@ by {
                        assert(old(self).entries@[a].0@ != old(self).entries@[b].0@);
                    }
                    assert forall|q: Seq<char>| #[trigger] self.has(q) == old(self).has(q) by {
                        if self.has(q) {
                            let j = self.index_of(q);
                            assert(old(self).entries@[j].0@ == q);
                        }
                        if old(self).has(q) {
                            let j = old(self).index_of(q);
                            assert(self.entries@[j].0@ == q);
                        }
                    }
                    assert forall|q: Seq<char>| self.has(q) implies
                        #[trigger] self.view()[q] == old(self).view().insert(k, v)[q] by {
                        let j = self.index_of(q);
                        self.lemma_entry(j);
                        if q != k {
                            old(self).lemma_entry(j);
                        }
                    }
                    assert(self.view() =~= old(self).view().insert(k, v));
                    assert(self.key_seq() =~= old(self).key_seq());
                }
            },
            None => {
                self.entries.push((key, value));
                proof {
                    let n = old(self).entries@.len() as int;
                    assert forall|a: int, b: int|
                        0 <= a < self.entries@.len() && 0 <= b < self.entries@.len() && a != b
                        implies #[trigger] self.entries@[a].0@ != #[trigger] self.entries@[b].0@ by {
                        if a < n && b < n {
                            assert(old(self).entries@[a].0@ != old(self).entries@[b].0@);
                        } else if a < n {
                            assert(old(self).has(old(self).entries@[a].0@));
                        } else if b < n {
                            assert(old(self).has(old(self).entries@[b].0@));
                        }
                    }
                    assert forall|q: Seq<char>| #[trigger] self.has(q) == (old(self).has(q) || q == k) by {
                        if self.has(q) {
                            let j = self.index_of(q);
                            if j < n {
                                assert(old(self).entries@[j].0@ == q);
                            }
                        }
                        if old(self).has(q) {
                            let j = old(self).index_of(q);
                            assert(self.entries@[j].0@ == q);
                        }
                        if q == k {
                            assert(self.entries@[n].0@ == q);
                        }
                    }
                    assert forall|q: Seq<char>| self.has(q) implies
                        #[trigger] self.view()[q] == old(self).view().insert(k, v)[q] by {
                        let j = self.index_of(q);
                        self.lemma_entry(j);
                        if j < n {
                            old(self).lemma_entry(j);
                        }
                    }
                    assert(self.view() =~= old(self).view().insert(k, v));
                    assert(self.key_seq() =~= old(self).key_seq().push(k));
                }
            },
        }
    }

    /// Replaces the value of the entry at `i`, keeping its key and position.
    pub fn set_value_at(&mut self, i: usize, value: V)
        requires
            old(self).wf(),
            i < old(self).entries@.len(),
        ensures
            final(self).wf(),
            final(self).view() == old(self).view().insert(old(self).entries@[i as int].0@, value@),
            final(self).key_seq() == old(self).key_seq(),
            final(self).entries@.len() == old(self).entries@.len(),
            final(self).entries@[i as int].0@ == old(self).entries@[i as int].0@,
            final(self).entries@[i as int].1 == value,
            forall|j: int| 0 <= j < old(self).entries@.len() && j != i ==> #[trigger] final(self).entries@[j] == old(self).entries@[j],
    {
        let key = self.entries[i].0.clone();
        let ghost k = key@;
        let ghost v = value@;
        proof {
            old(self).lemma_entry(i as int);
        }
        self.entries.set(i, (key, value));
        proof {
            assert forall|a: int, b: int|
                0 <= a < self.entries@.len() && 0 <= b < self.entries@.len() && a != b
                implies #[trigger] self.entries@[a].0@ != #[trigger] self.entries@[b].0@ by {
                assert(old(self).entries@[a].0@ != old(self).entries@[b].0@);
            }
            assert forall|q: Seq<char>| #[trigger] self.has(q) == old(self).has(q) by {
                if self.has(q) {
                    let j = self.index_of(q);
                    assert(old(self).entries@[j].0@ == q);
                }
                if old(self).has(q) {
                    let j = old(self).index_of(q);
                    assert(self.entries@[j].0@ == q);
                }
            }
            assert forall|q: Seq<char>| self.has(q) implies
                #[trigger] self.view()[q] == old(self).view().insert(k, v)[q] by {
                let j = self.index_of(q);
                self.lemma_entry(j);
                if q != k {
                    old(self).lemma_entry(j);
                }
            }
            assert(self.view() =~= old(self).view().insert(k, v));
            assert(self.key_seq() =~= old(self).key_seq());
        }
    }

    /// Removes `key` and its value, if present; the other entries keep their order.
    pub fn remove(&mut self, key: &str) -> (removed: bool)
        requires
            old(self).wf(),
        ensures
            final(self).wf(),
            removed == old(self).view().contains_key(key@),
            final(self).view() == old(self).view().remove(key@),
    {
        match self.find(key) {
            Some(i) => {
                proof {
                    old(self).lemma_entry(i as int);
                }
                let _ = self.entries.remove(i);
                proof {
                    let k = key@;
                    assert forall|a: int, b: int|
                        0 <= a < self.entries@.len() && 0 <= b < self.entries@.len() && a != b
                        implies #[trigger] self.entries@[a].0@ != #[trigger] self.entries@[b].0@ by {
                        let oa = if a < i { a } else { a + 1 };
                        let ob = if b < i { b } else { b + 1 };
                        assert(old(self).entries@[oa].0@ != old(self).entries@[ob].0@);
                    }
                    assert forall|q: Seq<char>| #[trigger] self.has(q) == (old(self).has(q) && q != k) by {
                        if self.has(q) {
                            let j = self.index_of(q);
                            let oj = if j < i { j } else { j + 1 };
                            assert(old(self).entries@[oj].0@ == q);
                            assert(oj != i);
                        }
                        if old(self).has(q) && q != k {
                            let j = old(self).index_of(q);
                            assert(j != i);
                            let nj = if j < i { j } else { j - 1 };
                            assert(self.entries@[nj].0@ == q);
                        }
                    }
                    assert forall|q: Seq<char>| self.has(q) implies
                        #[trigger] self.view()[q] == old(self).view()[q] by {
                        let j = self.index_of(q);
                        self.lemma_entry(j);
                        let oj = if j < i { j } else { j + 1 };
                        old(self).lemma_entry(oj);
                    }
                    assert(self.view() =~= old(self).view().remove(k));
                }
                true
            },
            None => {
                assert(self.view() =~= old(self).view().remove(key@));
                false
            },
        }
    }
}


/// A map whose entries agree, place by place, with those of a well-kept map `m` (keys by
/// text, values by view) is well kept and has the same model and key order.
pub proof fn lemma_entrywise_equal<V: View>(m: &StrMap<V>, r: &StrMap<V>)
    requires
        m.wf(),
        r.entries@.len() == m.entries@.len(),
        forall|j: int| 0 <= j < m.entries@.len() ==> {
            &&& (#[trigger] r.entries@[j]).0@ == m.entries@[j].0@
            &&& r.entries@[j].1@ == m.entries@[j].1@
        },
    ensures
        r.wf(),
        r.view() == m.view(),
        r.key_seq() == m.key_seq(),
{
    assert forall|a: int, b: int|
        0 <= a < r.entries@.len() && 0 <= b < r.entries@.len() && a != b
        implies #[trigger] r.entries@[a].0@ != #[trigger] r.entries@[b].0@ by {
        assert(m.entries@[a].0@ != m.entries@[b].0@);
    }
    assert forall|q: Seq<char>| #[trigger] r.has(q) == m.has(q) by {
        if r.has(q) {
            let j = r.index_of(q);
            assert(m.entries@[j].0@ == q);
        }
        if m.has(q) {
            let j = m.index_of(q);
            assert(r.entries@[j].0@ == q);
        }
    }
    assert forall|q: Seq<char>| r.has(q) implies #[trigger] r.view()[q] == m.view()[q] by {
        let j = r.index_of(q);
        r.lemma_entry(j);
        m.lemma_entry(j);
    }
    assert(r.view() =~= m.view());
    assert(r.key_seq() =~= m.key_seq());
}

/// Copies a map from strings to strings.
pub fn clone_string_map(m: &StrMap<String>) -> (r: StrMap<String>)
    requires
        m.wf(),
    ensures
        r.wf(),
        r.view() == m.view(),
        r.key_seq() == m.key_seq(),
{
    let n = m.entries.len();
    let mut entries: Vec<(String, String)> = Vec::new();
    let mut i: usize = 0;
    while i < n
        invariant
            n == m.entries@.len(),
            i <= n,
            entries@.len() == i,
            forall|j: int| 0 <= j < i ==> {
                &&& (#[trigger] entries@[j]).0@ == m.entries@[j].0@
                &&& entries@[j].1@ == m.entries@[j].1@
            },
        decreases n - i,
    {
        let e = &m.entries[i];
        entries.push((e.0.clone(), e.1.clone()));
        i = i + 1;
    }
    let r = StrMap { entries };
    proof {
        lemma_entrywise_equal(m, &r);
    }
    r
}

} // verus!
