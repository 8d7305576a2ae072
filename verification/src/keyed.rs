//! A table of values keyed by strings, each key at most once; the model of the
//! string-keyed maps the service keeps in memory and on disk.
use vstd::prelude::*;

verus! {

/// Values keyed by strings. Keys are unique; the order of entries is the order of first
/// insertion and carries no meaning.
pub struct KeyedTable<V> {
    entries: Vec<(String, V)>,
}

/// The keys of a sequence of entries.
pub open spec fn keys_of<V>(v: Seq<(String, V)>) -> Seq<Seq<char>> {
    v.map_values(|e: (String, V)| e.0@)
}

/// No key occurs twice.
pub open spec fn keys_distinct<V>(v: Seq<(String, V)>) -> bool {
    forall|i: int, j: int|
        0 <= i < v.len() && 0 <= j < v.len() && i != j ==> #[trigger] v[i].0@ != #[trigger] v[j].0@
}

/// Whether a key occurs among the entries.
pub open spec fn has_key<V>(v: Seq<(String, V)>, k: Seq<char>) -> bool {
    exists|i: int| 0 <= i < v.len() && #[trigger] v[i].0@ == k
}

/// The entries without the one under key `k`, in table order.
pub open spec fn without_key<V>(v: Seq<(String, V)>, k: Seq<char>) -> Seq<(String, V)>
    decreases v.len(),
{
    if v.len() == 0 {
        v
    } else if v.last().0@ == k {
        without_key(v.drop_last(), k)
    } else {
        without_key(v.drop_last(), k).push(v.last())
    }
}

/// Without a key it does not hold, a table's entries stay as they are.
pub proof fn lemma_without_absent<V>(v: Seq<(String, V)>, k: Seq<char>)
    requires
        !has_key(v, k),
    ensures
        without_key(v, k) == v,
    decreases v.len(),
{
    if v.len() > 0 {
        let d = v.drop_last();
        assert(!has_key(d, k)) by {
            if has_key(d, k) {
                let i = choose|i: int| 0 <= i < d.len() && #[trigger] d[i].0@ == k;
                assert(v[i] == d[i]);
            }
        }
        lemma_without_absent(d, k);
        assert(v[v.len() - 1].0@ != k);
        assert(d.push(v.last()) =~= v);
    }
}

proof fn lemma_without_at<V>(v: Seq<(String, V)>, k: Seq<char>, i: int)
    requires
        keys_distinct(v),
        0 <= i < v.len(),
        v[i].0@ == k,
    ensures
        without_key(v, k) == v.remove(i),
    decreases v.len(),
{
    let d = v.drop_last();
    if i == v.len() - 1 {
        assert(!has_key(d, k)) by {
            if has_key(d, k) {
                let j = choose|j: int| 0 <= j < d.len() && #[trigger] d[j].0@ == k;
                assert(v[j] == d[j]);
            }
        }
        lemma_without_absent(d, k);
        assert(v.remove(i) =~= d);
    } else {
        assert(keys_distinct(d)) by {
            assert forall|a: int, b: int| 0 <= a < d.len() && 0 <= b < d.len() && a != b implies #[trigger] d[a].0@
                != #[trigger] d[b].0@ by {
                assert(d[a] == v[a] && d[b] == v[b]);
            }
        }
        assert(d[i] == v[i]);
        lemma_without_at(d, k, i);
        assert(v.last().0@ != k) by {
            assert(v[v.len() - 1].0@ != v[i].0@);
        }
        assert(d.remove(i).push(v.last()) =~= v.remove(i));
    }
}

/// The entries as a map.
pub open spec fn entries_map<V>(v: Seq<(String, V)>) -> Map<Seq<char>, V> {
    Map::new(
        |k: Seq<char>| has_key(v, k),
        |k: Seq<char>| v[choose|i: int| 0 <= i < v.len() && #[trigger] v[i].0@ == k].1,
    )
}

/// With distinct keys, the map holds each entry.
pub proof fn lemma_entries_map_index<V>(v: Seq<(String, V)>, i: int)
    requires
        keys_distinct(v),
        0 <= i < v.len(),
    ensures
        entries_map(v).dom().contains(v[i].0@),
        entries_map(v)[v[i].0@] == v[i].1,
{
    let k = v[i].0@;
    assert(has_key(v, k));
    let j = choose|j: int| 0 <= j < v.len() && #[trigger] v[j].0@ == k;
    if j != i {
        assert(v[i].0@ != v[j].0@);
    }
}

proof fn lemma_keys_distinct_no_dup<V>(v: Seq<(String, V)>)
    requires
        keys_distinct(v),
    ensures
        keys_of(v).no_duplicates(),
        keys_of(v).to_set() == entries_map(v).dom(),
        entries_map(v).dom().len() == v.len(),
        entries_map(v).dom().finite(),
{
    let ks = keys_of(v);
    assert forall|i: int, j: int| 0 <= i < ks.len() && 0 <= j < ks.len() && i != j implies ks[i]
        != ks[j] by {
        assert(ks[i] == v[i].0@ && ks[j] == v[j].0@);
    }
    assert forall|k: Seq<char>| #[trigger] ks.to_set().contains(k) <==> entries_map(v).dom().contains(k) by {
        if ks.to_set().contains(k) {
            assert(ks.contains(k));
            let i = choose|i: int| 0 <= i < ks.len() && ks[i] == k;
            assert(v[i].0@ == k);
        }
        if entries_map(v).dom().contains(k) {
            let i = choose|i: int| 0 <= i < v.len() && #[trigger] v[i].0@ == k;
            assert(ks[i] == k);
            assert(ks.contains(k));
        }
    }
    assert(ks.to_set() =~= entries_map(v).dom());
    ks.unique_seq_to_set();
}

impl<V> KeyedTable<V> {
    /// The table as a map from key to value.
    pub closed spec fn view(&self) -> Map<Seq<char>, V> {
        entries_map(self.entries@)
    }

    /// The entries in table order.
    pub closed spec fn pairs(&self) -> Seq<(String, V)> {
        self.entries@
    }

    /// The table's invariant: no key occurs twice.
    pub closed spec fn wf(&self) -> bool {
        keys_distinct(self.entries@)
    }

    /// The entries in table order are exactly the map's, each key once.
    pub proof fn lemma_pairs(&self)
        requires
            self.wf(),
        ensures
            keys_distinct(self.pairs()),
            self.view() == entries_map(self.pairs()),
            self.view().dom().finite(),
            self.view().dom().len() == self.pairs().len(),
            forall|i: int|
                0 <= i < self.pairs().len() ==> #[trigger] self.view().dom().contains(self.pairs()[i].0@)
                    && self.view()[self.pairs()[i].0@] == self.pairs()[i].1,
    {
        lemma_keys_distinct_no_dup(self.entries@);
        assert forall|i: int| 0 <= i < self.pairs().len() implies #[trigger] self.view().dom().contains(
            self.pairs()[i].0@,
        ) && self.view()[self.pairs()[i].0@] == self.pairs()[i].1 by {
            lemma_entries_map_index(self.entries@, i);
        }
    }

    /// An empty table.
    pub fn new() -> (t: Self)
        ensures
            t.wf(),
            t.view() == Map::<Seq<char>, V>::empty(),
            t.pairs().len() == 0,
    {
        let t = KeyedTable { entries: Vec::new() };
        assert(t.view() =~= Map::<Seq<char>, V>::empty());
        t
    }

    /// The number of entries.
    pub fn len(&self) -> (n: usize)
        requires
            self.wf(),
        ensures
            n == self.view().dom().len(),
            n == self.pairs().len(),
    {
        proof {
            lemma_keys_distinct_no_dup(self.entries@);
        }
        self.entries.len()
    }

    /// The key of the `i`-th entry.
    pub fn key_at(&self, i: usize) -> (k: &String)
        requires
            i < self.pairs().len(),
        ensures
            *k == self.pairs()[i as int].0,
    {
        &self.entries[i].0
    }

    /// The value of the `i`-th entry.
    pub fn value_at(&self, i: usize) -> (v: &V)
        requires
            i < self.pairs().len(),
        ensures
            *v == self.pairs()[i as int].1,
    {
        &self.entries[i].1
    }

    fn find(&self, key: &str) -> (r: Option<usize>)
        ensures
            match r {
                Some(i) => i < self.entries@.len() && self.entries@[i as int].0@ == key@,
                None => !has_key(self.entries@, key@),
            },
    {
        let mut i: usize = 0;
        while i < self.entries.len()
            invariant
                i <= self.entries@.len(),
                forall|j: int| 0 <= j < i ==> #[trigger] self.entries@[j].0@ != key@,
            decreases self.entries@.len() - i,
        {
            if crate::text::str_eq(self.entries[i].0.as_str(), key) {
                return Some(i);
            }
            i = i + 1;
        }
        None
    }

    /// Whether the table holds a key.
    pub fn contains_key(&self, key: &str) -> (r: bool)
        ensures
            r == self.view().dom().contains(key@),
    {
        self.find(key).is_some()
    }

    /// The value of a key.
    pub fn get(&self, key: &str) -> (r: Option<&V>)
        requires
            self.wf(),
        ensures
            match r {
                Some(v) => self.view().dom().contains(key@) && self.view()[key@] == *v,
                None => !self.view().dom().contains(key@),
            },
    {
        match self.find(key) {
            Some(i) => {
                proof {
                    lemma_entries_map_index(self.entries@, i as int);
                }
                Some(&self.entries[i].1)
            },
            None => None,
        }
    }

    fn remove_at(&mut self, i: usize) -> (e: (String, V))
        requires
            old(self).wf(),
            i < old(self).entries@.len(),
        ensures
            final(self).wf(),
            e == old(self).entries@[i as int],
            final(self).view() == old(self).view().remove(old(self).entries@[i as int].0@),
            final(self).pairs().len() + 1 == old(self).pairs().len(),
            final(self).pairs() == old(self).pairs().remove(i as int),
    {
        let ghost v0 = self.entries@;
        let e = self.entries.remove(i);
        proof {
            let k = v0[i as int].0@;
            let v1 = self.entries@;
            assert forall|a: int, b: int|
                0 <= a < v1.len() && 0 <= b < v1.len() && a != b implies #[trigger] v1[a].0@
                != #[trigger] v1[b].0@ by {
                let a0 = if a < i { a } else { a + 1 };
                let b0 = if b < i { b } else { b + 1 };
                assert(v1[a] == v0[a0]);
                assert(v1[b] == v0[b0]);
            }
            let m = entries_map(v0).remove(k);
            assert forall|kk: Seq<char>| #[trigger] entries_map(v1).dom().contains(kk) <==> m.dom().contains(kk) by {
                if entries_map(v1).dom().contains(kk) {
                    let j = choose|j: int| 0 <= j < v1.len() && #[trigger] v1[j].0@ == kk;
                    let j0 = if j < i { j } else { j + 1 };
                    assert(v1[j] == v0[j0]);
                    assert(has_key(v0, kk));
                    assert(v0[j0].0@ != v0[i as int].0@);
                }
                if m.dom().contains(kk) {
                    let j0 = choose|j0: int| 0 <= j0 < v0.len() && #[trigger] v0[j0].0@ == kk;
                    assert(j0 != i);
                    let j = if j0 < i { j0 } else { j0 - 1 };
                    assert(v1[j] == v0[j0]);
                }
            }
            assert forall|kk: Seq<char>| #[trigger] entries_map(v1).dom().contains(kk) implies entries_map(
                v1,
            )[kk] == m[kk] by {
                let j = choose|j: int| 0 <= j < v1.len() && #[trigger] v1[j].0@ == kk;
                lemma_entries_map_index(v1, j);
                let j0 = if j < i { j } else { j + 1 };
                assert(v1[j] == v0[j0]);
                lemma_entries_map_index(v0, j0);
            }
            assert(entries_map(v1) =~= m);
        }
        e
    }

    /// Removes a key and returns its value.
    pub fn remove(&mut self, key: &str) -> (r: Option<V>)
        requires
            old(self).wf(),
        ensures
            final(self).wf(),
            final(self).view() == old(self).view().remove(key@),
            final(self).pairs() == without_key(old(self).pairs(), key@),
            match r {
                Some(v) => old(self).view().dom().contains(key@) && old(self).view()[key@] == v,
                None => !old(self).view().dom().contains(key@),
            },
    {
        match self.find(key) {
            Some(i) => {
                proof {
                    lemma_entries_map_index(self.entries@, i as int);
                    lemma_without_at(self.entries@, key@, i as int);
                }
                let e = self.remove_at(i);
                Some(e.1)
            },
            None => {
                assert(self.view().remove(key@) =~= self.view());
                proof {
                    lemma_without_absent(self.entries@, key@);
                }
                None
            },
        }
    }

    /// Sets the value of a key, replacing any previous value.
    pub fn insert(&mut self, key: String, value: V)
        requires
            old(self).wf(),
        ensures
            final(self).wf(),
            final(self).view() == old(self).view().insert(key@, value),
            final(self).pairs() == without_key(old(self).pairs(), key@).push((key, value)),
    {
        let ghost v0 = self.entries@;
        let ghost k = key@;
        match self.find(key.as_str()) {
            Some(i) => {
                proof {
                    lemma_without_at(v0, k, i as int);
                }
                self.remove_at(i);
                assert(!self.view().dom().contains(k));
            },
            None => {
                assert(entries_map(v0).remove(k) =~= entries_map(v0));
                proof {
                    lemma_without_absent(v0, k);
                }
            },
        }
        let ghost v1 = self.entries@;
        assert(!entries_map(v1).dom().contains(k));
        assert(!has_key(v1, k));
        self.entries.push((key, value));
        proof {
            let v2 = self.entries@;
            assert forall|a: int, b: int|
                0 <= a < v2.len() && 0 <= b < v2.len() && a != b implies #[trigger] v2[a].0@
                != #[trigger] v2[b].0@ by {
                if a < v1.len() && b < v1.len() {
                    assert(v2[a] == v1[a] && v2[b] == v1[b]);
                } else if a == v1.len() {
                    assert(v2[b] == v1[b]);
                } else {
                    assert(v2[a] == v1[a]);
                }
            }
            let m = entries_map(v0).insert(k, value);
            assert(entries_map(v1) == entries_map(v0).remove(k));
            assert forall|kk: Seq<char>| #[trigger] entries_map(v2).dom().contains(kk) <==> m.dom().contains(kk) by {
                if entries_map(v2).dom().contains(kk) && kk != k {
                    let j = choose|j: int| 0 <= j < v2.len() && #[trigger] v2[j].0@ == kk;
                    assert(j < v1.len());
                    assert(v2[j] == v1[j]);
                    assert(entries_map(v1).dom().contains(kk));
                }
                if m.dom().contains(kk) {
                    if kk == k {
                        assert(v2[v1.len() as int].0@ == k);
                    } else {
                        assert(entries_map(v1).dom().contains(kk));
                        let j = choose|j: int| 0 <= j < v1.len() && #[trigger] v1[j].0@ == kk;
                        assert(v2[j] == v1[j]);
                    }
                }
            }
            assert forall|kk: Seq<char>| #[trigger] entries_map(v2).dom().contains(kk) implies entries_map(
                v2,
            )[kk] == m[kk] by {
                let j = choose|j: int| 0 <= j < v2.len() && #[trigger] v2[j].0@ == kk;
                lemma_entries_map_index(v2, j);
                if j < v1.len() {
                    assert(v2[j] == v1[j]);
                    lemma_entries_map_index(v1, j);
                }
            }
            assert(entries_map(v2) =~= m);
        }
    }
}

} // verus!
