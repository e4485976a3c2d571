//! Keyed storage as a list of entries.

use vstd::prelude::*;

use crate::base::address::Address;
use crate::base::symbol::Symbol;

verus! {

/// A key whose equality can be tested.
pub trait TableKey: Sized {
    /// Whether the two keys are the same.
    fn same(&self, other: &Self) -> (b: bool)
        ensures
            b == (*self == *other),
    ;
}

impl TableKey for u64 {
    fn same(&self, other: &u64) -> (b: bool) {
        *self == *other
    }
}

impl TableKey for u32 {
    fn same(&self, other: &u32) -> (b: bool) {
        *self == *other
    }
}

impl TableKey for Address {
    fn same(&self, other: &Address) -> (b: bool) {
        *self == *other
    }
}

impl TableKey for Symbol {
    fn same(&self, other: &Symbol) -> (b: bool) {
        *self == *other
    }
}

impl<A: TableKey, B: TableKey> TableKey for (A, B) {
    fn same(&self, other: &(A, B)) -> (b: bool) {
        self.0.same(&other.0) && self.1.same(&other.1)
    }
}

impl<A: TableKey, B: TableKey, C: TableKey> TableKey for (A, B, C) {
    fn same(&self, other: &(A, B, C)) -> (b: bool) {
        self.0.same(&other.0) && self.1.same(&other.1) && self.2.same(&other.2)
    }
}

/// Whether some entry has the key.
pub open spec fn entries_have<K, V>(s: Seq<(K, V)>, k: K) -> bool {
    exists|i: int| 0 <= i < s.len() && #[trigger] s[i].0 == k
}

/// Position of the first entry with the key, or the length.
pub open spec fn entry_index<K, V>(s: Seq<(K, V)>, k: K) -> int
    decreases s.len(),
{
    if s.len() == 0 {
        0
    } else if s[0].0 == k {
        0
    } else {
        1 + entry_index(s.skip(1), k)
    }
}

proof fn lemma_entry_index<K, V>(s: Seq<(K, V)>, k: K)
    ensures
        0 <= entry_index(s, k) <= s.len(),
        entries_have(s, k) <==> entry_index(s, k) < s.len(),
        entry_index(s, k) < s.len() ==> s[entry_index(s, k)].0 == k,
        forall|i: int| 0 <= i < entry_index(s, k) ==> #[trigger] s[i].0 != k,
    decreases s.len(),
{
    if s.len() > 0 {
        let t = s.skip(1);
        lemma_entry_index(t, k);
        if s[0].0 != k {
            let n = entry_index(t, k);
            assert forall|i: int| 0 <= i < n + 1 implies #[trigger] s[i].0 != k by {
                if i > 0 {
                    assert(t[i - 1].0 != k);
                }
            }
            if n < t.len() {
                assert(t[n] == s[n + 1]);
            }
            assert(entries_have(s, k) ==> entry_index(s, k) < s.len());
        }
    }
}

/// The value of a key, or a default where it has none.
pub open spec fn value_or<K, V>(m: Map<K, V>, k: K, default: V) -> V {
    if m.contains_key(k) {
        m[k]
    } else {
        default
    }
}

/// A map from keys to values that keeps the first entry of each key.
#[derive(Debug)]
pub struct Table<K, V> {
    /// The entries.
    pub entries: Vec<(K, V)>,
}

impl<K, V: View> View for Table<K, V> {
    type V = Map<K, V::V>;

    open spec fn view(&self) -> Map<K, V::V> {
        Map::new(
            |k: K| entries_have(self.entries@, k),
            |k: K| self.entries@[entry_index(self.entries@, k)].1@,
        )
    }
}

impl<K: TableKey, V: View> Table<K, V> {
    /// The empty table.
    pub fn new() -> (t: Table<K, V>)
        ensures
            t@ == Map::<K, V::V>::empty(),
    {
        let t = Table { entries: Vec::new() };
        assert(t@ =~= Map::<K, V::V>::empty());
        t
    }

    fn find(&self, k: &K) -> (i: usize)
        ensures
            i == entry_index(self.entries@, *k),
            i <= self.entries@.len(),
            self@.contains_key(*k) <==> i < self.entries@.len(),
            i < self.entries@.len() ==> self.entries@[i as int].1@ == self@[*k],
    {
        let mut i: usize = 0;
        let n: usize = self.entries.len();
        proof {
            lemma_entry_index(self.entries@, *k);
        }
        while i < n
            invariant
                i <= n == self.entries@.len(),
                forall|j: int| 0 <= j < i ==> (#[trigger] self.entries@[j]).0 != *k,
                0 <= entry_index(self.entries@, *k) <= n,
                entry_index(self.entries@, *k) < n ==> self.entries@[entry_index(self.entries@, *k)].0
                    == *k,
                forall|j: int|
                    0 <= j < entry_index(self.entries@, *k) ==> #[trigger] self.entries@[j].0 != *k,
            ensures
                i == entry_index(self.entries@, *k),
                i <= n == self.entries@.len(),
            decreases n - i,
        {
            if self.entries[i].0.same(k) {
                break;
            }
            i += 1;
        }
        i
    }

    /// Whether the key has a value.
    pub fn has(&self, k: K) -> (b: bool)
        ensures
            b == self@.contains_key(k),
    {
        self.find(&k) < self.entries.len()
    }

    /// The key's value.
    pub fn get(&self, k: K) -> (r: Option<&V>)
        ensures
            match r {
                Some(v) => self@.contains_key(k) && v@ == self@[k],
                None => !self@.contains_key(k),
            },
    {
        let i: usize = self.find(&k);
        if i < self.entries.len() {
            Some(&self.entries[i].1)
        } else {
            None
        }
    }

    /// A copy of the key's value.
    pub fn copied(&self, k: K) -> (r: Option<V>) where V: Copy
        ensures
            match r {
                Some(v) => self@.contains_key(k) && v@ == self@[k],
                None => !self@.contains_key(k),
            },
    {
        match self.get(k) {
            Some(v) => Some(*v),
            None => None,
        }
    }

    /// Gives the key a value.
    pub fn set(&mut self, k: K, v: V)
        ensures
            final(self)@ == old(self)@.insert(k, v@),
    {
        let i: usize = self.find(&k);
        let ghost before = self.entries@;
        if i < self.entries.len() {
            self.entries.set(i, (k, v));
            proof {
                assert forall|j: K|
                    entries_have(self.entries@, j) == entries_have(before, j) || j == k by {
                    lemma_update_keeps_keys(before, i as int, (k, v), j);
                }
                assert forall|j: K| j != k && entries_have(before, j) implies entry_index(
                    self.entries@,
                    j,
                ) == entry_index(before, j) && 0 <= entry_index(before, j) < before.len() && entry_index(
                    before,
                    j,
                ) != i by {
                    lemma_update_keeps_keys(before, i as int, (k, v), j);
                }
                lemma_update_keeps_keys(before, i as int, (k, v), k);
                assert(self@ =~= old(self)@.insert(k, v@));
            }
        } else {
            self.entries.push((k, v));
            proof {
                assert forall|j: K| #[trigger] entries_have(before, j) implies entry_index(
                    self.entries@,
                    j,
                ) == entry_index(before, j) && 0 <= entry_index(before, j) < before.len()
                    && entries_have(self.entries@, j) by {
                    lemma_push_keeps_keys(before, (k, v), j);
                }
                assert forall|j: K| j != k && entries_have(self.entries@, j) implies entries_have(
                    before,
                    j,
                ) by {
                    lemma_push_keeps_keys(before, (k, v), j);
                }
                lemma_push_keeps_keys(before, (k, v), k);
                assert(self@ =~= old(self)@.insert(k, v@));
            }
        }
    }

    /// Takes the key's value away, if it has one.
    pub fn remove(&mut self, k: K)
        ensures
            final(self)@ == old(self)@.remove(k),
    {
        let mut i: usize = self.entries.len();
        while i > 0
            invariant
                i <= self.entries@.len(),
                forall|j: int| i <= j < self.entries@.len() ==> #[trigger] self.entries@[j].0 != k,
                self@.remove(k) == old(self)@.remove(k),
            decreases i,
        {
            i -= 1;
            if self.entries[i].0.same(&k) {
                let ghost before = *self;
                self.entries.remove(i);
                proof {
                    assert forall|j: K| j != k implies #[trigger] self@.contains_key(j)
                        == before@.contains_key(j) by {
                        lemma_remove_keeps_keys(before.entries@, i as int, j);
                    }
                    assert forall|j: K| j != k && #[trigger] before@.contains_key(j) implies self@[j]
                        == before@[j] by {
                        lemma_remove_keeps_keys(before.entries@, i as int, j);
                    }
                    assert(self@.remove(k) =~= before@.remove(k));
                    assert forall|j: int| i <= j < self.entries@.len() implies #[trigger] self.entries@[j].0
                        != k by {
                        assert(self.entries@[j] == before.entries@[j + 1]);
                    }
                }
            }
        }
        assert(!entries_have(self.entries@, k));
        assert(self@ =~= self@.remove(k));
    }
}

proof fn lemma_update_keeps_keys<K, V>(s: Seq<(K, V)>, i: int, e: (K, V), j: K)
    requires
        0 <= i < s.len(),
        i == entry_index(s, e.0),
    ensures
        entries_have(s.update(i, e), j) == entries_have(s, j),
        entry_index(s.update(i, e), j) == entry_index(s, j),
        entries_have(s, j) ==> 0 <= entry_index(s, j) < s.len(),
        entries_have(s, j) && j != e.0 ==> entry_index(s, j) != i,
{
    let t = s.update(i, e);
    lemma_entry_index(s, j);
    lemma_entry_index(t, j);
    lemma_entry_index(s, e.0);
    let a = entry_index(s, j);
    let b = entry_index(t, j);
    assert forall|n: int| 0 <= n < s.len() implies #[trigger] t[n].0 == s[n].0 by {}
    if a < b {
        assert(t[a].0 == s[a].0);
        assert(false);
    }
    if b < a {
        assert(s[b].0 == t[b].0);
        assert(false);
    }
}

proof fn lemma_push_keeps_keys<K, V>(s: Seq<(K, V)>, e: (K, V), j: K)
    requires
        !entries_have(s, e.0),
    ensures
        entries_have(s.push(e), j) == (entries_have(s, j) || j == e.0),
        entries_have(s, j) ==> entry_index(s.push(e), j) == entry_index(s, j),
        entries_have(s, j) ==> 0 <= entry_index(s, j) < s.len(),
        entry_index(s.push(e), e.0) == s.len(),
{
    let t = s.push(e);
    lemma_entry_index(s, j);
    lemma_entry_index(t, j);
    lemma_entry_index(t, e.0);
    assert forall|n: int| 0 <= n < s.len() implies #[trigger] t[n] == s[n] by {}
    assert(t[s.len() as int] == e);
    let a = entry_index(s, j);
    let b = entry_index(t, j);
    if entries_have(s, j) {
        assert(t[a].0 == j);
        if b < a {
            assert(s[b].0 == t[b].0);
        }
    }
    let c = entry_index(t, e.0);
    if c < s.len() {
        assert(s[c].0 == t[c].0);
    }
    if b < s.len() {
        assert(s[b].0 == t[b].0);
    }
}

proof fn lemma_remove_keeps_keys<K, V>(s: Seq<(K, V)>, i: int, j: K)
    requires
        0 <= i < s.len(),
        s[i].0 != j,
    ensures
        entries_have(s.remove(i), j) == entries_have(s, j),
        entries_have(s, j) ==> s.remove(i)[entry_index(s.remove(i), j)] == s[entry_index(s, j)],
{
    let t = s.remove(i);
    lemma_entry_index(s, j);
    lemma_entry_index(t, j);
    let a = entry_index(s, j);
    let b = entry_index(t, j);
    if a < s.len() {
        let a2: int = if a < i { a } else { a - 1 };
        assert(t[a2] == s[a]);
        assert(b <= a2);
    }
    if b < t.len() {
        let b2: int = if b < i { b } else { b + 1 };
        assert(s[b2] == t[b]);
        assert(a <= b2);
    }
}

} // verus!
