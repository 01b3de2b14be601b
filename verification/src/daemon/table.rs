//! Tables with one entry for each key.

use crate::text;
use vstd::prelude::*;

verus! {

/// What entries can be kept under.
pub trait Key: Sized {
    /// What tells keys apart.
    type Id;

    /// What tells this key from others.
    spec fn id(&self) -> Self::Id;

    /// Whether the two keys are the same.
    fn same(&self, other: &Self) -> (r: bool)
        ensures
            r == (self.id() == other.id()),
    ;
}

impl Key for String {
    type Id = Seq<char>;

    open spec fn id(&self) -> Seq<char> {
        self@
    }

    fn same(&self, other: &String) -> bool {
        text::same_text(self.as_str(), other.as_str())
    }
}

impl Key for u16 {
    type Id = u16;

    open spec fn id(&self) -> u16 {
        *self
    }

    fn same(&self, other: &u16) -> bool {
        *self == *other
    }
}

impl Key for u32 {
    type Id = u32;

    open spec fn id(&self) -> u32 {
        *self
    }

    fn same(&self, other: &u32) -> bool {
        *self == *other
    }
}

/// Entries under keys, in the order in which the keys came.
#[derive(Debug)]
pub struct Table<K, V> {
    entries: Vec<(K, V)>,
}

/// Where the entry under a key stands; the length where there is none.
pub open spec fn place<K: Key, V>(s: Seq<(K, V)>, id: K::Id) -> int
    decreases s.len(),
{
    if s.len() == 0 || s[0].0.id() == id {
        0
    } else {
        1 + place(s.drop_first(), id)
    }
}

/// What the place of a key means.
pub proof fn lemma_place<K: Key, V>(s: Seq<(K, V)>, id: K::Id)
    ensures
        0 <= place(s, id) <= s.len(),
        forall|i: int| 0 <= i < place(s, id) ==> (#[trigger] s[i]).0.id() != id,
        place(s, id) < s.len() ==> s[place(s, id)].0.id() == id,
    decreases s.len(),
{
    if s.len() > 0 && s[0].0.id() != id {
        let t = s.drop_first();
        lemma_place(t, id);
        assert forall|i: int| 0 <= i < place(s, id) implies (#[trigger] s[i]).0.id() != id by {
            if i > 0 {
                assert(t[i - 1] == s[i]);
            }
        }
        if place(t, id) < t.len() {
            assert(t[place(t, id)] == s[place(s, id)]);
        }
    }
}

/// The place of a key that stands somewhere and nowhere before.
pub proof fn lemma_place_is<K: Key, V>(s: Seq<(K, V)>, id: K::Id, n: int)
    requires
        0 <= n <= s.len(),
        forall|i: int| 0 <= i < n ==> (#[trigger] s[i]).0.id() != id,
        n < s.len() ==> s[n].0.id() == id,
    ensures
        place(s, id) == n,
{
    lemma_place(s, id);
    let p = place(s, id);
    if p < n {
        assert(s[p].0.id() != id);
    } else if n < p {
        assert(s[n].0.id() != id);
    }
}

/// Whether there is an entry under the key.
pub open spec fn holds<K: Key, V>(s: Seq<(K, V)>, id: K::Id) -> bool {
    place(s, id) < s.len()
}

/// The entry under the key.
pub open spec fn at<K: Key, V>(s: Seq<(K, V)>, id: K::Id) -> V {
    s[place(s, id)].1
}

/// The entries with this one put in: in place of the one under the same key, or
/// behind all others.
pub open spec fn put<K: Key, V>(s: Seq<(K, V)>, key: K, value: V) -> Seq<(K, V)> {
    if holds(s, key.id()) {
        let p = place(s, key.id());
        s.update(p, (s[p].0, value))
    } else {
        s.push((key, value))
    }
}

/// The entries without the one under the key.
pub open spec fn without<K: Key, V>(s: Seq<(K, V)>, id: K::Id) -> Seq<(K, V)> {
    if holds(s, id) {
        s.remove(place(s, id))
    } else {
        s
    }
}

/// Whether no two entries stand under the same key.
pub open spec fn one_each<K: Key, V>(s: Seq<(K, V)>) -> bool {
    forall|i: int, j: int|
        #![trigger s[i], s[j]]
        0 <= i < j < s.len() ==> s[i].0.id() != s[j].0.id()
}

impl<K, V> View for Table<K, V> {
    type V = Seq<(K, V)>;

    closed spec fn view(&self) -> Seq<(K, V)> {
        self.entries@
    }
}

impl<K: Key, V> Table<K, V> {
    /// A table without entries.
    pub fn new() -> (t: Self)
        ensures
            t@ == Seq::<(K, V)>::empty(),
            one_each(t@),
    {
        Table { entries: Vec::new() }
    }

    /// The number of entries.
    pub fn len(&self) -> (n: usize)
        ensures
            n == self@.len(),
    {
        self.entries.len()
    }

    /// Where the entry under the key stands; the length where there is none.
    pub fn find(&self, key: &K) -> (n: usize)
        ensures
            n == place(self@, key.id()),
            n <= self@.len(),
    {
        let mut i: usize = 0;
        while i < self.entries.len() && !self.entries[i].0.same(key)
            invariant
                i <= self@.len(),
                forall|j: int| 0 <= j < i ==> (#[trigger] self@[j]).0.id() != key.id(),
            decreases self@.len() - i,
        {
            i = i + 1;
        }
        proof {
            lemma_place_is(self@, key.id(), i as int);
        }
        i
    }

    /// Whether there is an entry under the key.
    pub fn contains(&self, key: &K) -> (r: bool)
        ensures
            r == holds(self@, key.id()),
    {
        self.find(key) < self.entries.len()
    }

    /// The key at a place.
    pub fn key(&self, i: usize) -> (k: &K)
        requires
            i < self@.len(),
        ensures
            *k == self@[i as int].0,
    {
        &self.entries[i].0
    }

    /// The entry at a place.
    pub fn value(&self, i: usize) -> (v: &V)
        requires
            i < self@.len(),
        ensures
            *v == self@[i as int].1,
    {
        &self.entries[i].1
    }

    /// The entry under the key.
    pub fn get(&self, key: &K) -> (r: Option<&V>)
        ensures
            match r {
                Some(v) => holds(self@, key.id()) && *v == at(self@, key.id()),
                None => !holds(self@, key.id()),
            },
    {
        let i: usize = self.find(key);
        if i < self.entries.len() {
            Some(&self.entries[i].1)
        } else {
            None
        }
    }

    /// Replaces the entry at a place.
    pub fn replace(&mut self, i: usize, value: V)
        requires
            i < old(self)@.len(),
        ensures
            final(self)@ == old(self)@.update(i as int, (old(self)@[i as int].0, value)),
            one_each(old(self)@) ==> one_each(final(self)@),
    {
        let (key, before): (K, V) = self.entries.remove(i);
        self.entries.insert(i, (key, value));
        proof {
            assert(self@ =~= old(self)@.update(i as int, (old(self)@[i as int].0, value)));
            if one_each(old(self)@) {
                assert forall|a: int, b: int|
                    #![trigger self@[a], self@[b]]
                    0 <= a < b < self@.len() implies self@[a].0.id() != self@[b].0.id() by {
                    assert(self@[a].0 == old(self)@[a].0);
                    assert(self@[b].0 == old(self)@[b].0);
                }
            }
        }
    }

    /// Puts an entry in.
    pub fn insert(&mut self, key: K, value: V)
        ensures
            final(self)@ == put(old(self)@, key, value),
            one_each(old(self)@) ==> one_each(final(self)@),
    {
        let i: usize = self.find(&key);
        proof {
            lemma_place(self@, key.id());
        }
        if i < self.entries.len() {
            self.replace(i, value);
        } else {
            self.entries.push((key, value));
            proof {
                if one_each(old(self)@) {
                    assert forall|a: int, b: int|
                        #![trigger self@[a], self@[b]]
                        0 <= a < b < self@.len() implies self@[a].0.id() != self@[b].0.id() by {
                        assert(self@[a] == old(self)@[a]);
                        if b < old(self)@.len() {
                            assert(self@[b] == old(self)@[b]);
                        }
                    }
                }
            }
        }
    }

    /// Takes the entry under the key out.
    pub fn remove(&mut self, key: &K) -> (r: Option<V>)
        ensures
            final(self)@ == without(old(self)@, key.id()),
            one_each(old(self)@) ==> one_each(final(self)@),
            match r {
                Some(v) => holds(old(self)@, key.id()) && v == at(old(self)@, key.id()),
                None => !holds(old(self)@, key.id()),
            },
    {
        let i: usize = self.find(key);
        if i < self.entries.len() {
            let (k, value): (K, V) = self.entries.remove(i);
            proof {
                if one_each(old(self)@) {
                    assert forall|a: int, b: int|
                        #![trigger self@[a], self@[b]]
                        0 <= a < b < self@.len() implies self@[a].0.id() != self@[b].0.id() by {
                        let x = if a < i {
                            a
                        } else {
                            a + 1
                        };
                        let y = if b < i {
                            b
                        } else {
                            b + 1
                        };
                        assert(self@[a] == old(self)@[x]);
                        assert(self@[b] == old(self)@[y]);
                    }
                }
            }
            Some(value)
        } else {
            None
        }
    }

    /// Takes all entries out.
    pub fn take_all(&mut self) -> (v: Vec<V>)
        ensures
            v@ == old(self)@.map_values(|e: (K, V)| e.1),
            final(self)@ == Seq::<(K, V)>::empty(),
            one_each(final(self)@),
    {
        let mut v: Vec<V> = Vec::new();
        let ghost all = old(self)@.map_values(|e: (K, V)| e.1);
        while self.entries.len() > 0
            invariant
                v@.len() + self@.len() == old(self)@.len(),
                self@ == old(self)@.skip(v@.len() as int),
                all == old(self)@.map_values(|e: (K, V)| e.1),
                v@ == all.take(v@.len() as int),
            decreases self@.len(),
        {
            let ghost n = v@.len() as int;
            let (key, value): (K, V) = self.entries.remove(0);
            v.push(value);
            proof {
                assert(self@ =~= old(self)@.skip(n + 1));
                assert(v@ =~= all.take(n + 1));
            }
        }
        assert(v@ =~= all);
        assert(self@ =~= Seq::<(K, V)>::empty());
        v
    }
}

/// An entry that was put in is the one under its key, and the entries under
/// other keys are as before.
pub proof fn put_is_found<K: Key, V>(s: Seq<(K, V)>, key: K, value: V, id: K::Id)
    ensures
        holds(put(s, key, value), key.id()),
        at(put(s, key, value), key.id()) == value,
        id != key.id() ==> holds(put(s, key, value), id) == holds(s, id),
        id != key.id() && holds(s, id) ==> at(put(s, key, value), id) == at(s, id),
{
    let t = put(s, key, value);
    lemma_place(s, key.id());
    lemma_place(s, id);
    let p = place(s, key.id());
    assert forall|i: int| 0 <= i < p implies (#[trigger] t[i]).0.id() != key.id() by {
        assert(t[i] == s[i]);
    }
    lemma_place_is(t, key.id(), p);
    if id != key.id() {
        let q = place(s, id);
        let n = if q < s.len() {
            q
        } else {
            t.len() as int
        };
        assert forall|i: int| 0 <= i < n implies (#[trigger] t[i]).0.id() != id by {
            if i < s.len() {
                assert(s[i].0.id() != id || i == p);
                assert(t[i].0.id() == s[i].0.id());
            }
        }
        lemma_place_is(t, id, n);
    }
}

/// Where there is one entry for each key, an entry that was taken out is gone,
/// and the entries under other keys are as before.
pub proof fn removed_is_gone<K: Key, V>(s: Seq<(K, V)>, gone: K::Id, id: K::Id)
    requires
        one_each(s),
    ensures
        !holds(without(s, gone), gone),
        id != gone ==> holds(without(s, gone), id) == holds(s, id),
        id != gone && holds(s, id) ==> at(without(s, gone), id) == at(s, id),
{
    lemma_place(s, gone);
    lemma_place(s, id);
    if holds(s, gone) {
        let p = place(s, gone);
        let t = s.remove(p);
        assert forall|i: int| 0 <= i < t.len() implies (#[trigger] t[i]).0.id() != gone by {
            if i < p {
                assert(t[i] == s[i]);
            } else {
                assert(t[i] == s[i + 1]);
                assert(s[p].0.id() != s[i + 1].0.id());
            }
        }
        lemma_place_is(t, gone, t.len() as int);
        if id != gone {
            let q = place(s, id);
            let n = if q < p {
                q
            } else if q < s.len() {
                q - 1
            } else {
                t.len() as int
            };
            assert forall|i: int| 0 <= i < n implies (#[trigger] t[i]).0.id() != id by {
                if i < p {
                    assert(t[i] == s[i]);
                } else {
                    assert(t[i] == s[i + 1]);
                }
            }
            lemma_place_is(t, id, n);
        }
    } else {
        lemma_place(without(s, gone), gone);
    }
}

} // verus!
