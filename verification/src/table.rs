//! A table of values under names.

use vstd::prelude::*;

use crate::text::same_text;

verus! {

/// Values under names. No name occurs twice.
pub struct Table<V> {
    entries: Vec<(String, V)>,
}

impl<V> Table<V> {
    /// The position of the entry `k`, if there is one.
    closed spec fn position(self, k: Seq<char>) -> int {
        choose|i: int| 0 <= i < self.entries@.len() && #[trigger] self.entries@[i].0@ == k
    }

    closed spec fn holds(self, k: Seq<char>) -> bool {
        exists|i: int| 0 <= i < self.entries@.len() && #[trigger] self.entries@[i].0@ == k
    }

    /// No name occurs twice.
    pub closed spec fn wf(self) -> bool {
        forall|i: int, j: int|
            0 <= i < j < self.entries@.len() ==> #[trigger] self.entries@[i].0@
                != #[trigger] self.entries@[j].0@
    }
}

impl<V> View for Table<V> {
    type V = Map<Seq<char>, V>;

    closed spec fn view(&self) -> Map<Seq<char>, V> {
        Map::new(
            |k: Seq<char>| self.holds(k),
            |k: Seq<char>| self.entries@[self.position(k)].1,
        )
    }
}

impl<V> Table<V> {
    proof fn lemma_entry(self, i: int)
        requires
            self.wf(),
            0 <= i < self.entries@.len(),
        ensures
            self@.contains_key(self.entries@[i].0@),
            self@[self.entries@[i].0@] == self.entries@[i].1,
    {
        let k = self.entries@[i].0@;
        assert(self.holds(k));
        let p = self.position(k);
        assert(0 <= p < self.entries@.len() && self.entries@[p].0@ == k);
        if p < i {
            assert(self.entries@[p].0@ != self.entries@[i].0@);
        } else if i < p {
            assert(self.entries@[i].0@ != self.entries@[p].0@);
        }
    }

    proof fn lemma_no_entry(self, k: Seq<char>)
        requires
            forall|i: int| 0 <= i < self.entries@.len() ==> #[trigger] self.entries@[i].0@ != k,
        ensures
            !self@.contains_key(k),
    {
        assert(!self.holds(k));
    }

    /// An empty table.
    pub fn new() -> (t: Self)
        ensures
            t.wf(),
            t@ == Map::<Seq<char>, V>::empty(),
    {
        let t = Table { entries: Vec::new() };
        assert(t@ =~= Map::<Seq<char>, V>::empty());
        t
    }

    fn find(&self, key: &str) -> (r: Option<usize>)
        requires
            self.wf(),
        ensures
            r is Some == self@.contains_key(key@),
            r matches Some(i) ==> i < self.entries@.len() && self.entries@[i as int].0@ == key@
                && self.entries@[i as int].1 == self@[key@],
    {
        let n: usize = self.entries.len();
        let mut i: usize = 0;
        while i < n
            invariant
                self.wf(),
                n == self.entries@.len(),
                i <= n,
                forall|j: int| 0 <= j < i ==> #[trigger] self.entries@[j].0@ != key@,
            decreases n - i,
        {
            if same_text(self.entries[i].0.as_str(), key) {
                proof {
                    self.lemma_entry(i as int);
                }
                return Some(i);
            }
            i += 1;
        }
        proof {
            self.lemma_no_entry(key@);
        }
        None
    }

    /// Whether there is a value under `key`.
    pub fn contains(&self, key: &str) -> (r: bool)
        requires
            self.wf(),
        ensures
            r == self@.contains_key(key@),
    {
        self.find(key).is_some()
    }

    /// The value under `key`.
    pub fn get(&self, key: &str) -> (r: Option<&V>)
        requires
            self.wf(),
        ensures
            r is Some == self@.contains_key(key@),
            r matches Some(v) ==> *v == self@[key@],
    {
        match self.find(key) {
            Some(i) => Some(&self.entries[i].1),
            None => None,
        }
    }

    /// Takes out the value under `key`.
    pub fn remove(&mut self, key: &str) -> (r: Option<V>)
        requires
            old(self).wf(),
        ensures
            final(self).wf(),
            final(self)@ == old(self)@.remove(key@),
            r is Some == old(self)@.contains_key(key@),
            r matches Some(v) ==> v == old(self)@[key@],
    {
        match self.find(key) {
            Some(i) => {
                let ghost before = *self;
                let (_, v) = self.entries.remove(i);
                proof {
                    let after = *self;
                    assert(after.entries@ =~= before.entries@.remove(i as int));
                    assert forall|a: int, b: int|
                        0 <= a < b < after.entries@.len() implies #[trigger] after.entries@[a].0@
                        != #[trigger] after.entries@[b].0@ by {
                        let x = if a < i { a } else { a + 1 };
                        let y = if b < i { b } else { b + 1 };
                        assert(after.entries@[a] == before.entries@[x]);
                        assert(after.entries@[b] == before.entries@[y]);
                        assert(before.entries@[x].0@ != before.entries@[y].0@);
                    }
                    assert forall|k: Seq<char>| #[trigger]
                        after@.contains_key(k) == before@.remove(key@).contains_key(k) by {
                        if before@.contains_key(k) && k != key@ {
                            let p = before.position(k);
                            let q = if p < i { p } else { p - 1 };
                            assert(after.entries@[q] == before.entries@[p]);
                            after.lemma_entry(q);
                        }
                        if after@.contains_key(k) {
                            let q = after.position(k);
                            let p = if q < i { q } else { q + 1 };
                            assert(after.entries@[q] == before.entries@[p]);
                            before.lemma_entry(p);
                            if p < i {
                                assert(before.entries@[p].0@ != before.entries@[i as int].0@);
                            } else {
                                assert(before.entries@[i as int].0@ != before.entries@[p].0@);
                            }
                        }
                    }
                    assert forall|k: Seq<char>| #[trigger] after@.contains_key(k) implies after@[k]
                        == before@[k] by {
                        let q = after.position(k);
                        let p = if q < i { q } else { q + 1 };
                        assert(after.entries@[q] == before.entries@[p]);
                        before.lemma_entry(p);
                        after.lemma_entry(q);
                    }
                    assert(after@ =~= before@.remove(key@));
                }
                Some(v)
            },
            None => {
                assert(self@ =~= self@.remove(key@));
                None
            },
        }
    }

    /// Puts `value` under `key`, in place of what was there.
    pub fn insert(&mut self, key: &str, value: V)
        requires
            old(self).wf(),
        ensures
            final(self).wf(),
            final(self)@ == old(self)@.insert(key@, value),
    {
        let _ = self.remove(key);
        let ghost before = *self;
        self.entries.push((key.to_owned(), value));
        proof {
            let after = *self;
            let n = before.entries@.len() as int;
            assert(after.entries@.take(n) =~= before.entries@);
            assert forall|i: int| 0 <= i < n implies #[trigger] before.entries@[i].0@ != key@ by {
                before.lemma_entry(i);
            }
            assert forall|a: int, b: int|
                0 <= a < b < after.entries@.len() implies #[trigger] after.entries@[a].0@
                != #[trigger] after.entries@[b].0@ by {
                assert(after.entries@[a] == before.entries@[a]);
                if b < n {
                    assert(after.entries@[b] == before.entries@[b]);
                }
            }
            after.lemma_entry(n);
            assert forall|k: Seq<char>| #[trigger]
                after@.contains_key(k) == before@.insert(key@, value).contains_key(k) by {
                if before@.contains_key(k) {
                    let p = before.position(k);
                    assert(after.entries@[p] == before.entries@[p]);
                    after.lemma_entry(p);
                }
                if after@.contains_key(k) && k != key@ {
                    let p = after.position(k);
                    assert(p < n);
                    assert(after.entries@[p] == before.entries@[p]);
                    before.lemma_entry(p);
                }
            }
            assert forall|k: Seq<char>| #[trigger] after@.contains_key(k) implies after@[k]
                == before@.insert(key@, value)[k] by {
                if k != key@ {
                    let p = after.position(k);
                    assert(p < n);
                    assert(after.entries@[p] == before.entries@[p]);
                    before.lemma_entry(p);
                    after.lemma_entry(p);
                }
            }
            assert(after@ =~= before@.insert(key@, value));
            assert(after@ =~= old(self)@.insert(key@, value));
        }
    }

    /// The number of names.
    pub fn len(&self) -> (n: usize)
        requires
            self.wf(),
        ensures
            self@.dom().finite(),
            n == self@.dom().len(),
    {
        proof {
            self.lemma_size();
        }
        self.entries.len()
    }

    /// The names, each once.
    pub closed spec fn names(self) -> Seq<Seq<char>> {
        Seq::new(self.entries@.len(), |i: int| self.entries@[i].0@)
    }

    proof fn lemma_size(self)
        requires
            self.wf(),
        ensures
            self@.dom().finite(),
            self@.dom().len() == self.entries@.len(),
            self.names().no_duplicates(),
            self.names().to_set() == self@.dom(),
    {
        let names = self.names();
        assert forall|i: int, j: int|
            0 <= i < names.len() && 0 <= j < names.len() && i != j implies names[i] != names[j] by {
            if i < j {
                assert(self.entries@[i].0@ != self.entries@[j].0@);
            } else {
                assert(self.entries@[j].0@ != self.entries@[i].0@);
            }
        }
        names.unique_seq_to_set();
        assert forall|k: Seq<char>| #[trigger]
            names.to_set().contains(k) == self@.dom().contains(k) by {
            if names.contains(k) {
                let i = choose|i: int| 0 <= i < names.len() && names[i] == k;
                self.lemma_entry(i);
            }
            if self@.contains_key(k) {
                let p = self.position(k);
                assert(names[p] == k);
            }
        }
        assert(names.to_set() =~= self@.dom());
    }

    /// Every name in the table, in the order in which they were put in.
    pub fn keys(&self) -> (r: Vec<String>)
        requires
            self.wf(),
        ensures
            r@.map_values(|s: String| s@).no_duplicates(),
            r@.map_values(|s: String| s@).to_set() == self@.dom(),
    {
        let n: usize = self.entries.len();
        let mut r: Vec<String> = Vec::new();
        let mut i: usize = 0;
        while i < n
            invariant
                n == self.entries@.len(),
                i <= n,
                r@.len() == i,
                forall|j: int| 0 <= j < i ==> (#[trigger] r@[j])@ == self.entries@[j].0@,
            decreases n - i,
        {
            r.push(self.entries[i].0.clone());
            i += 1;
        }
        proof {
            self.lemma_size();
            assert(r@.map_values(|s: String| s@) =~= self.names());
        }
        r
    }
}

} // verus!
