//! A map from texts to values, in the order in which the keys came.
use crate::text::same_text;
use vstd::prelude::*;

verus! {

pub struct TextMap<V> {
    entries: Vec<(String, V)>,
}

/// The index of the first entry, `from` or later, with a key.
spec fn index_of<V>(entries: Seq<(String, V)>, key: Seq<char>, from: int) -> Option<int>
    decreases entries.len() - from,
{
    if from < 0 || from >= entries.len() {
        None
    } else if entries[from].0@ == key {
        Some(from)
    } else {
        index_of(entries, key, from + 1)
    }
}

proof fn index_of_finds<V>(entries: Seq<(String, V)>, key: Seq<char>, from: int)
    requires
        0 <= from <= entries.len(),
    ensures
        match index_of(entries, key, from) {
            Some(i) => from <= i < entries.len() && entries[i].0@ == key && forall|j: int|
                from <= j < i ==> (#[trigger] entries[j]).0@ != key,
            None => forall|j: int| from <= j < entries.len() ==> (#[trigger] entries[j]).0@ != key,
        },
    decreases entries.len() - from,
{
    if from < entries.len() && entries[from].0@ != key {
        index_of_finds(entries, key, from + 1);
    }
}

proof fn index_of_is<V>(entries: Seq<(String, V)>, key: Seq<char>, i: int)
    requires
        0 <= i < entries.len(),
        entries[i].0@ == key,
        forall|j: int| 0 <= j < entries.len() && j != i ==> (#[trigger] entries[j]).0@ != key,
    ensures
        index_of(entries, key, 0) == Some(i),
{
    index_of_finds(entries, key, 0);
}

impl<V> View for TextMap<V> {
    type V = Map<Seq<char>, V>;

    closed spec fn view(&self) -> Map<Seq<char>, V> {
        Map::new(
            |key: Seq<char>| index_of(self.entries@, key, 0) is Some,
            |key: Seq<char>| self.entries@[index_of(self.entries@, key, 0)->0].1,
        )
    }
}

impl<V> TextMap<V> {
    /// No key is listed twice.
    pub closed spec fn wf(&self) -> bool {
        forall|i: int, j: int|
            0 <= i < j < self.entries@.len() ==> (#[trigger] self.entries@[i]).0@ != (
            #[trigger] self.entries@[j]).0@
    }

    /// The key that came at a place.
    pub closed spec fn key_at(&self, i: int) -> Seq<char> {
        self.entries@[i].0@
    }

    /// How many keys there are.
    pub closed spec fn spec_len(&self) -> nat {
        self.entries@.len()
    }

    pub fn new() -> (r: TextMap<V>)
        ensures
            r.wf(),
            r@ == Map::<Seq<char>, V>::empty(),
            r.spec_len() == 0,
    {
        let r = TextMap { entries: Vec::new() };
        assert(r@ =~= Map::<Seq<char>, V>::empty());
        r
    }

    pub fn len(&self) -> (r: usize)
        ensures
            r == self.spec_len(),
    {
        self.entries.len()
    }

    /// The key and the value at a place.
    pub fn at(&self, i: usize) -> (r: (&String, &V))
        requires
            self.wf(),
            i < self.spec_len(),
        ensures
            r.0@ == self.key_at(i as int),
            self@.contains_key(r.0@),
            self@[r.0@] == *r.1,
    {
        proof {
            index_of_is(self.entries@, self.entries@[i as int].0@, i as int);
        }
        (&self.entries[i].0, &self.entries[i].1)
    }

    fn find(&self, key: &str) -> (r: Option<usize>)
        ensures
            match r {
                Some(i) => i < self.entries.len() && index_of(self.entries@, key@, 0) == Some(
                    i as int,
                ) && self.entries@[i as int].0@ == key@,
                None => index_of(self.entries@, key@, 0) is None && forall|j: int|
                    0 <= j < self.entries@.len() ==> (#[trigger] self.entries@[j]).0@ != key@,
            },
    {
        proof {
            index_of_finds(self.entries@, key@, 0);
        }
        let mut i: usize = 0;
        while i < self.entries.len()
            invariant
                i <= self.entries.len(),
                index_of(self.entries@, key@, 0) == index_of(self.entries@, key@, i as int),
            decreases self.entries.len() - i,
        {
            if same_text(self.entries[i].0.as_str(), key) {
                return Some(i);
            }
            i = i + 1;
        }
        None
    }

    pub fn get(&self, key: &str) -> (r: Option<&V>)
        ensures
            match r {
                Some(v) => self@.contains_key(key@) && self@[key@] == *v,
                None => !self@.contains_key(key@),
            },
    {
        match self.find(key) {
            Some(i) => Some(&self.entries[i].1),
            None => None,
        }
    }

    /// The value under a key from now on.
    pub fn insert(&mut self, key: &str, value: V)
        requires
            old(self).wf(),
        ensures
            final(self).wf(),
            final(self)@ == old(self)@.insert(key@, value),
            final(self).spec_len() == old(self).spec_len() + (if old(self)@.contains_key(key@) {
                0int
            } else {
                1
            }),
    {
        let ghost before = self.entries@;
        match self.find(key) {
            Some(i) => {
                self.entries[i].1 = value;
                proof {
                    let now = self.entries@;
                    assert(now.len() == before.len());
                    assert(now[i as int].0 == before[i as int].0);
                    assert forall|k: Seq<char>| true implies #[trigger] index_of(now, k, 0) == index_of(
                        before,
                        k,
                        0,
                    ) by {
                        same_keys_same_index(before, now, k, 0);
                    }
                    assert forall|k: Seq<char>| #[trigger]
                        self@.contains_key(k) implies self@[k] == old(self)@.insert(key@, value)[k] by {
                        index_of_finds(before, k, 0);
                        let j = index_of(before, k, 0)->0;
                        if k != key@ {
                            assert(now[j] == before[j]);
                        }
                    }
                    assert(self@ =~= old(self)@.insert(key@, value));
                }
            },
            None => {
                self.entries.push((key.to_owned(), value));
                proof {
                    let now = self.entries@;
                    let n = before.len() as int;
                    assert forall|a: int, b: int| 0 <= a < b < now.len() implies (#[trigger] now[a]).0@
                        != (#[trigger] now[b]).0@ by {
                        assert(now[a] == before[a]);
                        if b < n {
                            assert(now[b] == before[b]);
                        }
                    }
                    assert forall|k: Seq<char>| true implies #[trigger] index_of(now, k, 0) == (if k
                        == key@ {
                        Some(n)
                    } else {
                        index_of(before, k, 0)
                    }) by {
                        index_of_finds(before, k, 0);
                        index_of_finds(now, k, 0);
                        assert(now[n].0@ == key@);
                        if let Some(i) = index_of(before, k, 0) {
                            assert(now[i] == before[i]);
                        }
                        if let Some(i) = index_of(now, k, 0) {
                            if i < n {
                                assert(now[i] == before[i]);
                            }
                        }
                    }
                    assert forall|k: Seq<char>| #[trigger]
                        self@.contains_key(k) implies self@[k] == old(self)@.insert(key@, value)[k] by {
                        index_of_finds(before, k, 0);
                        if k != key@ {
                            let j = index_of(before, k, 0)->0;
                            assert(now[j] == before[j]);
                        }
                    }
                    assert(self@ =~= old(self)@.insert(key@, value));
                }
            },
        }
    }

    /// Takes a key out: its value, if there was one.
    pub fn remove(&mut self, key: &str) -> (r: Option<V>)
        requires
            old(self).wf(),
        ensures
            final(self).wf(),
            final(self)@ == old(self)@.remove(key@),
            match r {
                Some(v) => old(self)@.contains_key(key@) && old(self)@[key@] == v,
                None => !old(self)@.contains_key(key@),
            },
            final(self).spec_len() == old(self).spec_len() - (if old(self)@.contains_key(key@) {
                1int
            } else {
                0
            }),
    {
        let ghost before = self.entries@;
        match self.find(key) {
            Some(i) => {
                let (_, value) = self.entries.remove(i);
                proof {
                    let now = self.entries@;
                    assert forall|a: int, b: int| 0 <= a < b < now.len() implies (#[trigger] now[a]).0@
                        != (#[trigger] now[b]).0@ by {
                        let x = if a < i {
                            a
                        } else {
                            a + 1
                        };
                        let y = if b < i {
                            b
                        } else {
                            b + 1
                        };
                        assert(now[a] == before[x] && now[b] == before[y]);
                    }
                    assert forall|k: Seq<char>| k != key@ implies (#[trigger] index_of(now, k, 0)
                        is Some <==> index_of(before, k, 0) is Some) && (index_of(now, k, 0) is Some
                        ==> now[index_of(now, k, 0)->0].1 == before[index_of(before, k, 0)->0].1) by {
                        index_of_finds(before, k, 0);
                        index_of_finds(now, k, 0);
                        if let Some(b) = index_of(before, k, 0) {
                            let n = if b < i {
                                b
                            } else {
                                b - 1
                            };
                            assert(b != i);
                            assert(now[n] == before[b]);
                            index_of_is(now, k, n);
                        }
                        if let Some(n) = index_of(now, k, 0) {
                            let b = if n < i {
                                n
                            } else {
                                n + 1
                            };
                            assert(before[b] == now[n]);
                        }
                    }
                    assert(index_of(now, key@, 0) is None) by {
                        index_of_finds(now, key@, 0);
                        if let Some(n) = index_of(now, key@, 0) {
                            let b = if n < i {
                                n
                            } else {
                                n + 1
                            };
                            assert(before[b] == now[n]);
                            assert(b != i);
                        }
                    }
                    assert(self@ =~= old(self)@.remove(key@));
                }
                Some(value)
            },
            None => {
                assert(self@ =~= old(self)@.remove(key@));
                None
            },
        }
    }
}

proof fn same_keys_same_index<V>(a: Seq<(String, V)>, b: Seq<(String, V)>, key: Seq<char>, from: int)
    requires
        a.len() == b.len(),
        forall|i: int| 0 <= i < a.len() ==> (#[trigger] a[i]).0@ == (#[trigger] b[i]).0@,
    ensures
        index_of(a, key, from) == index_of(b, key, from),
    decreases a.len() - from,
{
    if 0 <= from < a.len() {
        same_keys_same_index(a, b, key, from + 1);
    }
}

/// A key at a place is a key of the map, and every key is at some place.
pub proof fn keys_are_at_places<V>(m: &TextMap<V>, key: Seq<char>)
    ensures
        m@.contains_key(key) <==> exists|i: int|
            0 <= i < m.spec_len() && #[trigger] m.key_at(i) == key,
{
    index_of_finds(m.entries@, key, 0);
    if let Some(i) = index_of(m.entries@, key, 0) {
        assert(m.key_at(i) == key);
    }
}

} // verus!
