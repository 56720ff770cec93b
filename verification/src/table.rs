//! A key-value table kept as a list of entries with pairwise distinct keys.
//!
//! Its view is the map from each key's view to the view of the value stored
//! under it.
use vstd::prelude::*;

verus! {

/// Keys of a [`Table`]: values that can be compared by their view.
pub trait TableKey: View + Sized {
    fn same_key(&self, other: &Self) -> (b: bool)
        ensures
            b == (self@ == other@),
    ;
}

impl TableKey for u64 {
    fn same_key(&self, other: &Self) -> (b: bool) {
        *self == *other
    }
}

/// Byte strings compared byte by byte.
pub fn bytes_equal(a: &Vec<u8>, b: &Vec<u8>) -> (r: bool)
    ensures
        r == (a@ == b@),
{
    if a.len() != b.len() {
        return false;
    }
    let mut i: usize = 0;
    while i < a.len()
        invariant
            i <= a.len(),
            a.len() == b.len(),
            forall|j: int| 0 <= j < i ==> a@[j] == b@[j],
        decreases a.len() - i,
    {
        if a[i] != b[i] {
            return false;
        }
        i = i + 1;
    }
    assert(a@ =~= b@);
    true
}

impl TableKey for Vec<u8> {
    fn same_key(&self, other: &Self) -> (b: bool) {
        bytes_equal(self, other)
    }
}

/// An ordered pair of accounts: `from` lets `to` act on its behalf.
#[derive(Clone, Copy, Debug, PartialEq, Eq)]
pub struct AccountPair {
    pub from: u64,
    pub to: u64,
}

impl View for AccountPair {
    type V = (u64, u64);

    open spec fn view(&self) -> (u64, u64) {
        (self.from, self.to)
    }
}

impl TableKey for AccountPair {
    fn same_key(&self, other: &Self) -> (b: bool) {
        self.from == other.from && self.to == other.to
    }
}

/// No two entries have keys with the same view.
pub open spec fn distinct_keys<K: View, V>(s: Seq<(K, V)>) -> bool {
    forall|i: int, j: int|
        0 <= i < s.len() && 0 <= j < s.len() && i != j ==> (#[trigger] s[i]).0@ != (#[trigger] s[j]).0@
}

/// Some entry has a key whose view is `k`.
pub open spec fn has_key<K: View, V>(s: Seq<(K, V)>, k: K::V) -> bool {
    exists|i: int| 0 <= i < s.len() && (#[trigger] s[i]).0@ == k
}

/// An entry whose key has view `k`, where there is one.
pub open spec fn index_of<K: View, V>(s: Seq<(K, V)>, k: K::V) -> int {
    choose|i: int| 0 <= i < s.len() && (#[trigger] s[i]).0@ == k
}

/// The map that a list of entries stands for.
pub open spec fn entries_map<K: View, V: View>(s: Seq<(K, V)>) -> Map<K::V, V::V> {
    Map::new(|k: K::V| has_key(s, k), |k: K::V| s[index_of(s, k)].1@)
}

proof fn lemma_entry_in_map<K: View, V: View>(s: Seq<(K, V)>, i: int)
    requires
        distinct_keys(s),
        0 <= i < s.len(),
    ensures
        entries_map(s).contains_key(s[i].0@),
        entries_map(s)[s[i].0@] == s[i].1@,
{
    let k = s[i].0@;
    assert(has_key(s, k));
    let j = index_of(s, k);
    assert(s[j].0@ == k);
    assert(j == i);
}

proof fn lemma_key_absent<K: View, V: View>(s: Seq<(K, V)>, k: K::V)
    requires
        forall|i: int| 0 <= i < s.len() ==> (#[trigger] s[i]).0@ != k,
    ensures
        !entries_map(s).contains_key(k),
{
}

proof fn lemma_update_entry<K: View, V: View>(s: Seq<(K, V)>, i: int, e: (K, V))
    requires
        distinct_keys(s),
        0 <= i < s.len(),
        e.0@ == s[i].0@,
    ensures
        distinct_keys(s.update(i, e)),
        entries_map(s.update(i, e)) == entries_map(s).insert(e.0@, e.1@),
{
    let s2 = s.update(i, e);
    let m = entries_map(s);
    let m2 = entries_map(s2);
    assert forall|a: int, b: int|
        0 <= a < s2.len() && 0 <= b < s2.len() && a != b implies (#[trigger] s2[a]).0@ != (
        #[trigger] s2[b]).0@ by {
        assert(s[a].0@ != s[b].0@);
    }
    assert forall|k: K::V| #[trigger]
        m2.contains_key(k) == m.insert(e.0@, e.1@).contains_key(k) by {
        if has_key(s2, k) {
            let j = choose|j: int| 0 <= j < s2.len() && (#[trigger] s2[j]).0@ == k;
            if j != i {
                assert(s[j].0@ == k);
            }
        }
        if has_key(s, k) {
            let j = choose|j: int| 0 <= j < s.len() && (#[trigger] s[j]).0@ == k;
            assert(s2[j].0@ == k);
        }
        if k == e.0@ {
            assert(s2[i].0@ == k);
        }
    }
    assert forall|k: K::V| #[trigger] m2.contains_key(k) implies m2[k] == m.insert(
        e.0@,
        e.1@,
    )[k] by {
        if k == e.0@ {
            lemma_entry_in_map(s2, i);
        } else {
            let j = choose|j: int| 0 <= j < s2.len() && (#[trigger] s2[j]).0@ == k;
            assert(j != i);
            lemma_entry_in_map(s2, j);
            lemma_entry_in_map(s, j);
        }
    }
    assert(m2 =~= m.insert(e.0@, e.1@));
}

proof fn lemma_push_entry<K: View, V: View>(s: Seq<(K, V)>, e: (K, V))
    requires
        distinct_keys(s),
        !has_key(s, e.0@),
    ensures
        distinct_keys(s.push(e)),
        entries_map(s.push(e)) == entries_map(s).insert(e.0@, e.1@),
{
    let s2 = s.push(e);
    let n = s.len() as int;
    let m = entries_map(s);
    let m2 = entries_map(s2);
    assert forall|a: int, b: int|
        0 <= a < s2.len() && 0 <= b < s2.len() && a != b implies (#[trigger] s2[a]).0@ != (
        #[trigger] s2[b]).0@ by {
        if a < n && b < n {
            assert(s[a].0@ != s[b].0@);
        } else if a < n {
            assert(s[a].0@ == s2[a].0@);
        } else {
            assert(s[b].0@ == s2[b].0@);
        }
    }
    assert forall|k: K::V| #[trigger]
        m2.contains_key(k) == m.insert(e.0@, e.1@).contains_key(k) by {
        if has_key(s2, k) {
            let j = choose|j: int| 0 <= j < s2.len() && (#[trigger] s2[j]).0@ == k;
            if j != n {
                assert(s[j].0@ == k);
            }
        }
        if has_key(s, k) {
            let j = choose|j: int| 0 <= j < s.len() && (#[trigger] s[j]).0@ == k;
            assert(s2[j].0@ == k);
        }
        if k == e.0@ {
            assert(s2[n].0@ == k);
        }
    }
    assert forall|k: K::V| #[trigger] m2.contains_key(k) implies m2[k] == m.insert(
        e.0@,
        e.1@,
    )[k] by {
        if k == e.0@ {
            lemma_entry_in_map(s2, n);
        } else {
            let j = choose|j: int| 0 <= j < s2.len() && (#[trigger] s2[j]).0@ == k;
            assert(j != n);
            lemma_entry_in_map(s2, j);
            lemma_entry_in_map(s, j);
        }
    }
    assert(m2 =~= m.insert(e.0@, e.1@));
}

proof fn lemma_swap_remove_entry<K: View, V: View>(s: Seq<(K, V)>, i: int)
    requires
        distinct_keys(s),
        0 <= i < s.len(),
    ensures
        distinct_keys(s.update(i, s.last()).drop_last()),
        entries_map(s.update(i, s.last()).drop_last()) == entries_map(s).remove(s[i].0@),
{
    let n = s.len() - 1;
    let s2 = s.update(i, s.last()).drop_last();
    let k0 = s[i].0@;
    let m = entries_map(s);
    let m2 = entries_map(s2);
    // each entry of s2 sits at index `if a == i { n } else { a }` of s
    assert forall|a: int| 0 <= a < s2.len() implies #[trigger] s2[a] == (if a == i {
        s[n]
    } else {
        s[a]
    }) by {}
    assert forall|a: int, b: int|
        0 <= a < s2.len() && 0 <= b < s2.len() && a != b implies (#[trigger] s2[a]).0@ != (
        #[trigger] s2[b]).0@ by {
        let fa = if a == i {
            n
        } else {
            a
        };
        let fb = if b == i {
            n
        } else {
            b
        };
        assert(s[fa].0@ != s[fb].0@);
    }
    assert forall|k: K::V| #[trigger] m2.contains_key(k) == m.remove(k0).contains_key(k) by {
        if has_key(s2, k) {
            let j = choose|j: int| 0 <= j < s2.len() && (#[trigger] s2[j]).0@ == k;
            let fj = if j == i {
                n
            } else {
                j
            };
            assert(s[fj].0@ == k);
            assert(fj != i);
        }
        if has_key(s, k) && k != k0 {
            let j = choose|j: int| 0 <= j < s.len() && (#[trigger] s[j]).0@ == k;
            assert(j != i);
            if j == n {
                assert(s2[i].0@ == k);
            } else {
                assert(s2[j].0@ == k);
            }
        }
    }
    assert forall|k: K::V| #[trigger] m2.contains_key(k) implies m2[k] == m.remove(k0)[k] by {
        let j = choose|j: int| 0 <= j < s2.len() && (#[trigger] s2[j]).0@ == k;
        let fj = if j == i {
            n
        } else {
            j
        };
        lemma_entry_in_map(s2, j);
        lemma_entry_in_map(s, fj);
    }
    assert(m2 =~= m.remove(k0));
}

/// A table from keys to values; no two entries have keys with the same view.
pub struct Table<K: TableKey, V: View> {
    entries: Vec<(K, V)>,
}

impl<K: TableKey, V: View> Table<K, V> {
    #[verifier::type_invariant]
    spec fn keys_are_distinct(self) -> bool {
        distinct_keys(self.entries@)
    }

    /// What the table holds.
    pub closed spec fn map(&self) -> Map<K::V, V::V> {
        entries_map(self.entries@)
    }

    /// An empty table.
    pub fn new() -> (t: Self)
        ensures
            t.map() == Map::<K::V, V::V>::empty(),
    {
        let t = Table { entries: Vec::new() };
        assert(entries_map(t.entries@) =~= Map::<K::V, V::V>::empty());
        t
    }

    fn find(&self, k: &K) -> (r: Option<usize>)
        ensures
            match r {
                Some(i) => i < self.entries@.len() && self.entries@[i as int].0@ == k@,
                None => forall|i: int|
                    0 <= i < self.entries@.len() ==> (#[trigger] self.entries@[i]).0@ != k@,
            },
    {
        let mut i: usize = 0;
        while i < self.entries.len()
            invariant
                i <= self.entries@.len(),
                forall|j: int| 0 <= j < i ==> (#[trigger] self.entries@[j]).0@ != k@,
            decreases self.entries@.len() - i,
        {
            if self.entries[i].0.same_key(k) {
                return Some(i);
            }
            i = i + 1;
        }
        None
    }

    /// The value stored under `k`, if any.
    pub fn get(&self, k: &K) -> (r: Option<&V>)
        ensures
            r is Some <==> self.map().contains_key(k@),
            r is Some ==> r.unwrap()@ == self.map()[k@],
    {
        proof {
            use_type_invariant(self);
        }
        match self.find(k) {
            Some(i) => {
                proof {
                    lemma_entry_in_map(self.entries@, i as int);
                }
                Some(&self.entries[i].1)
            },
            None => {
                proof {
                    lemma_key_absent(self.entries@, k@);
                }
                None
            },
        }
    }

    /// Stores `v` under `k`, replacing what was stored there.
    pub fn insert(&mut self, k: K, v: V)
        ensures
            final(self).map() == old(self).map().insert(k@, v@),
    {
        proof {
            use_type_invariant(&*self);
        }
        let found = self.find(&k);
        let mut entries: Vec<(K, V)> = Vec::new();
        std::mem::swap(&mut entries, &mut self.entries);
        match found {
            Some(i) => {
                proof {
                    lemma_update_entry(entries@, i as int, (k, v));
                }
                entries.set(i, (k, v));
            },
            None => {
                proof {
                    lemma_push_entry(entries@, (k, v));
                }
                entries.push((k, v));
            },
        }
        self.entries = entries;
    }

    /// Removes the entry under `k` and hands its value back, if there is one.
    pub fn take(&mut self, k: &K) -> (r: Option<V>)
        ensures
            r is Some <==> old(self).map().contains_key(k@),
            r is Some ==> r.unwrap()@ == old(self).map()[k@],
            final(self).map() == old(self).map().remove(k@),
    {
        proof {
            use_type_invariant(&*self);
        }
        match self.find(k) {
            Some(i) => {
                proof {
                    lemma_entry_in_map(self.entries@, i as int);
                    lemma_swap_remove_entry(self.entries@, i as int);
                }
                let mut entries: Vec<(K, V)> = Vec::new();
                std::mem::swap(&mut entries, &mut self.entries);
                let (_, v) = entries.swap_remove(i);
                self.entries = entries;
                Some(v)
            },
            None => {
                proof {
                    lemma_key_absent(self.entries@, k@);
                    assert(self.entries@.len() == old(self).entries@.len());
                    assert(entries_map(self.entries@).remove(k@) =~= entries_map(
                        self.entries@,
                    ));
                }
                None
            },
        }
    }
}

} // verus!
