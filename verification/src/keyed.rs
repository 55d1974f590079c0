//! An insertion-ordered table keyed by strings. It stands where a hash map
//! keyed by `String` would: no key occurs twice, and entries keep the order
//! in which they were first inserted.

use vstd::prelude::*;
use crate::text::{views_of, same_text};

verus! {

/// Whether some entry of `m` has key `k`.
pub open spec fn has_key<T>(m: Seq<(Seq<char>, T)>, k: Seq<char>) -> bool {
    exists|i: int| 0 <= i < m.len() && (#[trigger] m[i]).0 == k
}

/// The position of an entry with key `k`, if there is one.
pub open spec fn key_index<T>(m: Seq<(Seq<char>, T)>, k: Seq<char>) -> int {
    choose|i: int| 0 <= i < m.len() && (#[trigger] m[i]).0 == k
}

/// The value stored under `k`.
pub open spec fn lookup<T>(m: Seq<(Seq<char>, T)>, k: Seq<char>) -> Option<T> {
    if has_key(m, k) {
        Some(m[key_index(m, k)].1)
    } else {
        None
    }
}

/// No key occurs twice.
pub open spec fn distinct_keys<T>(m: Seq<(Seq<char>, T)>) -> bool {
    forall|i: int, j: int| 0 <= i < j < m.len() ==> (#[trigger] m[i]).0 != (#[trigger] m[j]).0
}

/// `m` after storing `v` under `k`: an existing entry keeps its place, a new
/// one goes to the end.
pub open spec fn with_entry<T>(m: Seq<(Seq<char>, T)>, k: Seq<char>, v: T) -> Seq<(Seq<char>, T)> {
    if has_key(m, k) {
        m.update(key_index(m, k), (k, v))
    } else {
        m.push((k, v))
    }
}

/// `m` without the entry for `k`.
pub open spec fn without_key<T>(m: Seq<(Seq<char>, T)>, k: Seq<char>) -> Seq<(Seq<char>, T)> {
    if has_key(m, k) {
        m.remove(key_index(m, k))
    } else {
        m
    }
}

/// In a table without repeated keys, the position of a key is the one place
/// where it stands.
pub proof fn lemma_key_index_unique<T>(m: Seq<(Seq<char>, T)>, i: int)
    requires
        distinct_keys(m),
        0 <= i < m.len(),
    ensures
        has_key(m, m[i].0),
        key_index(m, m[i].0) == i,
        lookup(m, m[i].0) == Some(m[i].1),
{
    let j = key_index(m, m[i].0);
    assert(0 <= j < m.len() && m[j].0 == m[i].0);
    if j < i {
        assert(m[j].0 != m[i].0);
    } else if i < j {
        assert(m[i].0 != m[j].0);
    }
}

/// Storing under a key keeps keys distinct, makes the key present with the
/// new value and leaves every other key as it was.
pub proof fn lemma_with_entry<T>(m: Seq<(Seq<char>, T)>, k: Seq<char>, v: T)
    requires
        distinct_keys(m),
    ensures
        distinct_keys(with_entry(m, k, v)),
        lookup(with_entry(m, k, v), k) == Some(v),
        forall|other: Seq<char>| other != k ==> lookup(with_entry(m, k, v), other) == lookup(m, other),
{
    let n = with_entry(m, k, v);
    let at: int = if has_key(m, k) { key_index(m, k) } else { m.len() as int };
    assert(n[at] == (k, v));
    assert forall|i: int, j: int| 0 <= i < j < n.len() implies (#[trigger] n[i]).0 != (#[trigger] n[j]).0 by {
        if has_key(m, k) {
            assert(n[i].0 == m[i].0 && n[j].0 == m[j].0);
        } else {
            if j < m.len() {
                assert(n[i] == m[i] && n[j] == m[j]);
            } else {
                assert(n[i] == m[i]);
            }
        }
    }
    lemma_key_index_unique(n, at);
    assert forall|other: Seq<char>| other != k implies lookup(n, other) == lookup(m, other) by {
        if has_key(m, other) {
            let i = key_index(m, other);
            assert(m[i].0 == other);
            assert(n[i] == m[i]);
            lemma_key_index_unique(m, i);
            lemma_key_index_unique(n, i);
        } else if has_key(n, other) {
            let i = key_index(n, other);
            assert(n[i].0 == other);
            assert(i != at);
            assert(n[i] == m[i]);
            assert(false);
        }
    }
}

/// Taking a key out keeps keys distinct, makes the key absent and leaves
/// every other key as it was.
pub proof fn lemma_without_key<T>(m: Seq<(Seq<char>, T)>, k: Seq<char>)
    requires
        distinct_keys(m),
    ensures
        distinct_keys(without_key(m, k)),
        !has_key(without_key(m, k), k),
        forall|other: Seq<char>| other != k ==> lookup(without_key(m, k), other) == lookup(m, other),
{
    let n = without_key(m, k);
    if has_key(m, k) {
        let at = key_index(m, k);
        assert forall|i: int| 0 <= i < n.len() implies #[trigger] n[i] == m[if i < at { i } else { i + 1 }] by {}
        assert forall|i: int, j: int| 0 <= i < j < n.len() implies (#[trigger] n[i]).0 != (#[trigger] n[j]).0 by {
            let a = if i < at { i } else { i + 1 };
            let b = if j < at { j } else { j + 1 };
            assert(n[i] == m[a] && n[j] == m[b]);
            assert(m[a].0 != m[b].0);
        }
        if has_key(n, k) {
            let i = key_index(n, k);
            let a = if i < at { i } else { i + 1 };
            assert(n[i] == m[a]);
            lemma_key_index_unique(m, a);
            assert(false);
        }
        assert forall|other: Seq<char>| other != k implies lookup(n, other) == lookup(m, other) by {
            if has_key(m, other) {
                let a = key_index(m, other);
                assert(m[a].0 == other);
                assert(a != at);
                let i = if a < at { a } else { a - 1 };
                assert(n[i] == m[a]);
                lemma_key_index_unique(m, a);
                lemma_key_index_unique(n, i);
            } else if has_key(n, other) {
                let i = key_index(n, other);
                let a = if i < at { i } else { i + 1 };
                assert(n[i] == m[a]);
                assert(m[a].0 == other);
                assert(false);
            }
        }
    }
}

/// A table from string keys to values of type `V`.
#[derive(Debug, Clone)]
pub struct KeyedTable<V> {
    keys: Vec<String>,
    values: Vec<V>,
}

impl<V: View> View for KeyedTable<V> {
    type V = Seq<(Seq<char>, V::V)>;

    /// The entries in insertion order, each value by its own view.
    open spec fn view(&self) -> Self::V {
        Seq::new(self.keys().len(), |i: int| (self.keys()[i], self.values()[i]@))
    }
}

impl<V: View> KeyedTable<V> {
    /// The keys, in insertion order.
    pub closed spec fn keys(&self) -> Seq<Seq<char>> {
        views_of(self.keys@)
    }

    /// The values, each at the position of its key.
    pub closed spec fn values(&self) -> Seq<V> {
        self.values@
    }

    /// The table's invariant: one value per key, and no key twice.
    pub open spec fn wf(&self) -> bool {
        &&& self.keys().len() == self.values().len()
        &&& self.keys().no_duplicates()
    }

    /// Whether `k` is a key of the table.
    pub open spec fn has(&self, k: Seq<char>) -> bool {
        self.keys().contains(k)
    }

    /// The position of key `k`.
    pub open spec fn slot(&self, k: Seq<char>) -> int {
        self.keys().index_of(k)
    }

    /// What the table's invariant says of its view: keys are distinct there
    /// too, and presence, position and value of a key agree with the table's.
    pub proof fn lemma_view(&self)
        requires
            self.wf(),
        ensures
            distinct_keys(self@),
            self@.len() == self.keys().len(),
            forall|k: Seq<char>| self.has(k) == has_key(self@, k),
            forall|k: Seq<char>| #[trigger]
                self.has(k) ==> key_index(self@, k) == self.slot(k) && 0 <= self.slot(k)
                    < self.keys().len() && self.keys()[self.slot(k)] == k && lookup(self@, k)
                    == Some(self.values()[self.slot(k)]@),
            forall|k: Seq<char>| !(#[trigger] self.has(k)) ==> lookup(self@, k) is None,
    {
        let m = self@;
        assert forall|k: Seq<char>| self.has(k) == has_key(m, k) by {
            if self.has(k) {
                let i = self.keys().index_of(k);
                assert(m[i].0 == k);
            }
            if has_key(m, k) {
                let i = key_index(m, k);
                assert(m[i].0 == k);
                assert(self.keys()[i] == k);
            }
        }
        assert forall|k: Seq<char>| #[trigger] self.has(k) implies key_index(m, k) == self.slot(k)
            && 0 <= self.slot(k) < self.keys().len() && self.keys()[self.slot(k)] == k && lookup(
            m,
            k,
        ) == Some(self.values()[self.slot(k)]@) by {
            let i = self.keys().index_of(k);
            assert(m[i].0 == k);
            lemma_key_index_unique(m, i);
        }
    }

    /// An empty table.
    pub fn new() -> (t: Self)
        ensures
            t.wf(),
            t.keys() == Seq::<Seq<char>>::empty(),
            t.values() == Seq::<V>::empty(),
            t@ == Seq::<(Seq<char>, V::V)>::empty(),
    {
        let t = KeyedTable { keys: Vec::new(), values: Vec::new() };
        assert(t.keys() =~= Seq::<Seq<char>>::empty());
        assert(t@ =~= Seq::<(Seq<char>, V::V)>::empty());
        t
    }

    /// The number of entries.
    pub fn len(&self) -> (n: usize)
        requires
            self.wf(),
        ensures
            n == self.keys().len(),
            n == self.values().len(),
            n == self@.len(),
    {
        self.keys.len()
    }

    /// Whether the table has no entry.
    pub fn is_empty(&self) -> (b: bool)
        requires
            self.wf(),
        ensures
            b == (self@.len() == 0),
    {
        self.keys.len() == 0
    }

    /// Where `k` stands, if it is a key.
    pub fn position(&self, k: &str) -> (r: Option<usize>)
        requires
            self.wf(),
        ensures
            match r {
                Some(i) => {
                    &&& i < self@.len()
                    &&& self.keys()[i as int] == k@
                    &&& self.has(k@)
                    &&& self.slot(k@) == i
                    &&& has_key(self@, k@)
                    &&& key_index(self@, k@) == i
                },
                None => !self.has(k@) && !has_key(self@, k@),
            },
    {
        proof {
            self.lemma_view();
        }
        let n = self.keys.len();
        let mut i: usize = 0;
        while i < n
            invariant
                self.wf(),
                n == self.keys().len(),
                i <= n,
                forall|j: int| 0 <= j < i ==> self.keys()[j] != k@,
            decreases n - i,
        {
            if same_text(self.keys[i].as_str(), k) {
                proof {
                    self.lemma_view();
                    let j = self.keys().index_of(k@);
                    assert(self.keys()[i as int] == k@);
                    assert(self.keys().contains(k@));
                    assert(self.keys()[j] == k@);
                    assert(j == i);
                    assert(self.has(k@));
                    assert(has_key(self@, k@));
                    assert(key_index(self@, k@) == self.slot(k@));
                }
                return Some(i);
            }
            i = i + 1;
        }
        proof {
            self.lemma_view();
            if self.keys().contains(k@) {
                let j = self.keys().index_of(k@);
                assert(self.keys()[j] == k@);
            }
        }
        None
    }

    /// Whether `k` is a key of the table.
    pub fn contains_key(&self, k: &str) -> (b: bool)
        requires
            self.wf(),
        ensures
            b == self.has(k@),
            b == has_key(self@, k@),
    {
        self.position(k).is_some()
    }

    /// The key at position `i`.
    pub fn key_at(&self, i: usize) -> (k: &str)
        requires
            self.wf(),
            i < self@.len(),
        ensures
            k@ == self.keys()[i as int],
            k@ == self@[i as int].0,
    {
        self.keys[i].as_str()
    }

    /// The value at position `i`.
    pub fn value_at(&self, i: usize) -> (v: &V)
        requires
            self.wf(),
            i < self@.len(),
        ensures
            *v == self.values()[i as int],
            v@ == self@[i as int].1,
    {
        &self.values[i]
    }

    /// The value at position `i`, to be changed in place. Keys stay as they
    /// are, and so does every other value.
    pub fn value_at_mut(&mut self, i: usize) -> (v: &mut V)
        requires
            old(self).wf(),
            i < old(self)@.len(),
        ensures
            *v == old(self).values()[i as int],
            final(self).wf(),
            final(self).keys() == old(self).keys(),
            final(self).values() == old(self).values().update(i as int, *final(v)),
            final(self)@ == old(self)@.update(i as int, (old(self)@[i as int].0, final(v)@)),
    {
        let ghost keys = self.keys();
        let ghost before = self@;
        let ghost vals = self.values();
        let v = &mut self.values[i];
        proof {
            let after_vals = vals.update(i as int, *final(v));
            let after = Seq::new(keys.len(), |j: int| (keys[j], after_vals[j]@));
            assert(after =~= before.update(i as int, (before[i as int].0, final(v)@)));
        }
        v
    }

    /// The value stored under `k`.
    pub fn get(&self, k: &str) -> (r: Option<&V>)
        requires
            self.wf(),
        ensures
            match r {
                Some(v) => self.has(k@) && *v == self.values()[self.slot(k@)] && lookup(self@, k@)
                    == Some(v@),
                None => !self.has(k@) && lookup(self@, k@) is None,
            },
    {
        proof {
            self.lemma_view();
        }
        match self.position(k) {
            Some(i) => Some(&self.values[i]),
            None => None,
        }
    }

    /// Appends an entry under a key that the table does not hold yet.
    pub fn push(&mut self, k: String, v: V)
        requires
            old(self).wf(),
            !old(self).has(k@),
        ensures
            final(self).wf(),
            final(self).keys() == old(self).keys().push(k@),
            final(self).values() == old(self).values().push(v),
            final(self)@ == old(self)@.push((k@, v@)),
            final(self)@ == with_entry(old(self)@, k@, v@),
    {
        proof {
            self.lemma_view();
        }
        let ghost before = self.keys@;
        self.keys.push(k);
        self.values.push(v);
        proof {
            assert(views_of(self.keys@) =~= views_of(before).push(k@));
            assert(self@ =~= old(self)@.push((k@, v@)));
        }
    }

    /// Stores `v` under `k`. An entry that was there keeps its place and
    /// hands back its former value; a new entry goes to the end.
    pub fn insert(&mut self, k: String, v: V) -> (former: Option<V>)
        requires
            old(self).wf(),
        ensures
            final(self).wf(),
            final(self)@ == with_entry(old(self)@, k@, v@),
            old(self).has(k@) ==> {
                &&& former == Some(old(self).values()[old(self).slot(k@)])
                &&& final(self).keys() == old(self).keys()
                &&& final(self).values() == old(self).values().update(old(self).slot(k@), v)
            },
            !old(self).has(k@) ==> {
                &&& former is None
                &&& final(self).keys() == old(self).keys().push(k@)
                &&& final(self).values() == old(self).values().push(v)
            },
    {
        proof {
            self.lemma_view();
        }
        match self.position(k.as_str()) {
            Some(i) => {
                let mut held = v;
                core::mem::swap(&mut self.values[i], &mut held);
                proof {
                    assert(self@ =~= old(self)@.update(i as int, (k@, v@)));
                }
                Some(held)
            },
            None => {
                self.push(k, v);
                None
            },
        }
    }

    /// Takes out the entry at position `i`; later entries move up by one.
    pub fn remove_at(&mut self, i: usize) -> (v: V)
        requires
            old(self).wf(),
            i < old(self)@.len(),
        ensures
            final(self).wf(),
            v == old(self).values()[i as int],
            final(self).keys() == old(self).keys().remove(i as int),
            final(self).values() == old(self).values().remove(i as int),
            final(self)@ == old(self)@.remove(i as int),
    {
        let ghost before = self.keys@;
        let _gone = self.keys.remove(i);
        let v = self.values.remove(i);
        proof {
            assert(views_of(self.keys@) =~= views_of(before).remove(i as int));
            let now = self.keys();
            let was = old(self).keys();
            assert forall|a: int, b: int|
                0 <= a < now.len() && 0 <= b < now.len() && a != b implies now[a] != now[b] by {
                let a0 = if a < i { a } else { a + 1 };
                let b0 = if b < i { b } else { b + 1 };
                assert(now[a] == was[a0] && now[b] == was[b0]);
            }
            assert(self@ =~= old(self)@.remove(i as int));
        }
        v
    }

    /// Takes out the entry for `k` and hands back its value, if `k` was a key.
    pub fn remove(&mut self, k: &str) -> (former: Option<V>)
        requires
            old(self).wf(),
        ensures
            final(self).wf(),
            final(self)@ == without_key(old(self)@, k@),
            former is Some == has_key(old(self)@, k@),
            old(self).has(k@) ==> {
                &&& former == Some(old(self).values()[old(self).slot(k@)])
                &&& final(self).keys() == old(self).keys().remove(old(self).slot(k@))
                &&& final(self).values() == old(self).values().remove(old(self).slot(k@))
            },
            !old(self).has(k@) ==> {
                &&& former is None
                &&& final(self).keys() == old(self).keys()
                &&& final(self).values() == old(self).values()
            },
    {
        match self.position(k) {
            Some(i) => Some(self.remove_at(i)),
            None => None,
        }
    }

    /// The position of `k`, after giving it `fresh` as its value if it was
    /// not a key yet. An existing entry is left as it is.
    pub fn slot_or_insert(&mut self, k: &str, fresh: V) -> (i: usize)
        requires
            old(self).wf(),
        ensures
            final(self).wf(),
            i < final(self)@.len(),
            final(self)@[i as int].0 == k@,
            has_key(old(self)@, k@) ==> final(self)@ == old(self)@ && final(self).values() == old(
                self,
            ).values() && i == key_index(old(self)@, k@),
            !has_key(old(self)@, k@) ==> final(self)@ == old(self)@.push((k@, fresh@))
                && final(self).values() == old(self).values().push(fresh) && i == old(self)@.len(),
    {
        match self.position(k) {
            Some(i) => i,
            None => {
                let at = self.keys.len();
                self.push(k.to_owned(), fresh);
                at
            },
        }
    }
}

} // verus!
