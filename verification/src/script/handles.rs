//! The handles by which script heaps know paths.
//!
//! A handle means something only in the heap that made it: a heap and a path
//! name a handle, never a path alone.
use crate::text::same_text;
use vstd::prelude::*;

verus! {

pub struct HandleEntry {
    pub heap: usize,
    pub path: String,
    pub handle: u64,
}

/// For a heap and a path, the heap's handle of it.
pub struct HandleMap {
    entries: Vec<HandleEntry>,
}

spec fn has(entries: Seq<HandleEntry>, key: (usize, Seq<char>), handle: u64) -> bool {
    exists|i: int|
        0 <= i < entries.len() && (#[trigger] entries[i]).heap == key.0 && entries[i].path@ == key.1
            && entries[i].handle == handle
}

spec fn distinct(entries: Seq<HandleEntry>) -> bool {
    forall|i: int, j: int|
        0 <= i < j < entries.len() ==> (#[trigger] entries[i]).heap != (#[trigger] entries[j]).heap
            || entries[i].path@ != entries[j].path@
}

/// Whether a heap knows a path by a handle.
pub open spec fn owned(m: Map<(usize, Seq<char>), u64>, path: Seq<char>, heap: usize, handle: u64) -> bool {
    m.contains_key((heap, path)) && m[(heap, path)] == handle
}

impl View for HandleMap {
    type V = Map<(usize, Seq<char>), u64>;

    closed spec fn view(&self) -> Map<(usize, Seq<char>), u64> {
        Map::new(
            |key: (usize, Seq<char>)| exists|h: u64| has(self.entries@, key, h),
            |key: (usize, Seq<char>)| choose|h: u64| has(self.entries@, key, h),
        )
    }
}

impl HandleMap {
    /// A heap has one handle of a path.
    pub closed spec fn wf(&self) -> bool {
        distinct(self.entries@)
    }

    proof fn has_is_owned(&self)
        requires
            self.wf(),
        ensures
            forall|path: Seq<char>, heap: usize, handle: u64|
                #![trigger owned(self@, path, heap, handle)]
                #![trigger has(self.entries@, (heap, path), handle)]
                has(self.entries@, (heap, path), handle) <==> owned(self@, path, heap, handle),
    {
        assert forall|path: Seq<char>, heap: usize, handle: u64|
            #![trigger owned(self@, path, heap, handle)]
            #![trigger has(self.entries@, (heap, path), handle)]
            has(self.entries@, (heap, path), handle) <==> owned(self@, path, heap, handle) by {
            let key = (heap, path);
            if self@.contains_key(key) || has(self.entries@, key, handle) {
                let h = choose|h: u64| has(self.entries@, key, h);
                assert(has(self.entries@, key, h));
                assert(self@[key] == h);
                if has(self.entries@, key, handle) {
                    same_handle(self.entries@, key, h, handle);
                }
            }
        }
    }

    pub fn new() -> (r: HandleMap)
        ensures
            r.wf(),
            r@ == Map::<(usize, Seq<char>), u64>::empty(),
    {
        let r = HandleMap { entries: Vec::new() };
        assert(r@ =~= Map::<(usize, Seq<char>), u64>::empty());
        r
    }

    fn find(&self, heap: usize, path: &str) -> (r: Option<usize>)
        ensures
            match r {
                Some(i) => i < self.entries.len() && self.entries@[i as int].heap == heap
                    && self.entries@[i as int].path@ == path@,
                None => forall|j: int|
                    0 <= j < self.entries@.len() ==> (#[trigger] self.entries@[j]).heap != heap
                        || self.entries@[j].path@ != path@,
            },
    {
        let mut i: usize = 0;
        while i < self.entries.len()
            invariant
                i <= self.entries.len(),
                forall|j: int|
                    0 <= j < i ==> (#[trigger] self.entries@[j]).heap != heap
                        || self.entries@[j].path@ != path@,
            decreases self.entries.len() - i,
        {
            if self.entries[i].heap == heap && same_text(self.entries[i].path.as_str(), path) {
                return Some(i);
            }
            i = i + 1;
        }
        None
    }

    /// A heap's handle of a path.
    pub fn get(&self, heap: usize, path: &str) -> (r: Option<u64>)
        requires
            self.wf(),
        ensures
            match r {
                Some(handle) => owned(self@, path@, heap, handle),
                None => !self@.contains_key((heap, path@)),
            },
    {
        proof {
            self.has_is_owned();
        }
        match self.find(heap, path) {
            Some(i) => {
                assert(has(self.entries@, (heap, path@), self.entries@[i as int].handle));
                Some(self.entries[i].handle)
            },
            None => None,
        }
    }

    /// The path that a heap knows by a handle.
    pub fn path_of(&self, heap: usize, handle: u64) -> (r: Option<String>)
        requires
            self.wf(),
        ensures
            match r {
                Some(path) => owned(self@, path@, heap, handle),
                None => forall|path: Seq<char>| !#[trigger] owned(self@, path, heap, handle),
            },
    {
        proof {
            self.has_is_owned();
        }
        let mut i: usize = 0;
        while i < self.entries.len()
            invariant
                i <= self.entries.len(),
                forall|path: Seq<char>, heap: usize, handle: u64|
                    #![trigger owned(self@, path, heap, handle)]
                    #![trigger has(self.entries@, (heap, path), handle)]
                    has(self.entries@, (heap, path), handle) <==> owned(self@, path, heap, handle),
                forall|j: int|
                    0 <= j < i ==> (#[trigger] self.entries@[j]).heap != heap
                        || self.entries@[j].handle != handle,
            decreases self.entries.len() - i,
        {
            if self.entries[i].heap == heap && self.entries[i].handle == handle {
                assert(has(self.entries@, (heap, self.entries@[i as int].path@), handle));
                return Some(self.entries[i].path.clone());
            }
            i = i + 1;
        }
        None
    }

    /// A heap knows a path by a handle from now on.
    pub fn insert(&mut self, heap: usize, path: &str, handle: u64)
        requires
            old(self).wf(),
        ensures
            final(self).wf(),
            final(self)@ == old(self)@.insert((heap, path@), handle),
    {
        let ghost before = self.entries@;
        proof {
            self.has_is_owned();
        }
        match self.find(heap, path) {
            Some(i) => {
                self.entries[i].handle = handle;
                assert(self.entries@ =~= before.update(i as int, self.entries@[i as int]));
                assert(has(self.entries@, (heap, path@), self.entries@[i as int].handle));
            },
            None => {
                self.entries.push(HandleEntry { heap, path: path.to_owned(), handle });
                assert(self.entries@.drop_last() =~= before);
                assert(has(self.entries@, (heap, path@), self.entries@.last().handle));
            },
        }
        proof {
            let now = self.entries@;
            assert forall|a: int, b: int| 0 <= a < b < now.len() implies (#[trigger] now[a]).heap != (
            #[trigger] now[b]).heap || now[a].path@ != now[b].path@ by {
                if b < before.len() {
                    assert(now[a].heap == before[a].heap && now[a].path == before[a].path);
                    assert(now[b].heap == before[b].heap && now[b].path == before[b].path);
                } else {
                    assert(now[a] == before[a]);
                }
            }
            self.has_is_owned();
            assert forall|k: (usize, Seq<char>), h: u64| #[trigger] has(now, k, h) <==> if k == (
                heap,
                path@,
            ) {
                h == handle
            } else {
                has(before, k, h)
            } by {
                if k == (heap, path@) {
                    if has(now, k, h) {
                        same_handle(now, k, h, handle);
                    }
                } else {
                    if has(now, k, h) {
                        let i = choose|i: int|
                            0 <= i < now.len() && (#[trigger] now[i]).heap == k.0 && now[i].path@
                                == k.1 && now[i].handle == h;
                        assert(before[i] == now[i]);
                    }
                    if has(before, k, h) {
                        let i = choose|i: int|
                            0 <= i < before.len() && (#[trigger] before[i]).heap == k.0
                                && before[i].path@ == k.1 && before[i].handle == h;
                        assert(now[i] == before[i]);
                    }
                }
            }
            self.same_map(old(self)@.insert((heap, path@), handle));
        }
    }

    fn retain(&mut self, dead: &[usize], gone: Option<(usize, u64)>)
        requires
            old(self).wf(),
        ensures
            final(self).wf(),
            forall|path: Seq<char>, heap: usize, handle: u64| #[trigger]
                owned(final(self)@, path, heap, handle) <==> owned(old(self)@, path, heap, handle)
                    && stays(dead@, gone, heap, handle),
    {
        let ghost all = self.entries@;
        proof {
            self.has_is_owned();
        }
        let mut kept: Vec<HandleEntry> = Vec::new();
        let mut i: usize = 0;
        while i < self.entries.len()
            invariant
                i <= self.entries.len(),
                all == self.entries@,
                distinct(all),
                distinct(kept@),
                forall|k: (usize, Seq<char>), h: u64| #[trigger]
                    has(kept@, k, h) <==> has(all.take(i as int), k, h) && stays(dead@, gone, k.0, h),
            decreases self.entries.len() - i,
        {
            let heap = self.entries[i].heap;
            let handle = self.entries[i].handle;
            let lives = !listed(dead, heap) && match gone {
                Some((h, x)) => !(h == heap && x == handle),
                None => true,
            };
            let ghost before = kept@;
            let ghost e = all[i as int];
            proof {
                assert forall|k: (usize, Seq<char>), h: u64| #[trigger]
                    has(all.take(i + 1), k, h) <==> has(all.take(i as int), k, h) || (k == (
                        e.heap,
                        e.path@,
                    ) && h == e.handle) by {
                    has_pushed(all.take(i as int), e, k, h);
                    assert(all.take(i as int).push(e) =~= all.take(i + 1));
                }
            }
            if lives {
                let path = self.entries[i].path.clone();
                kept.push(HandleEntry { heap, path, handle });
                proof {
                    let f = kept@.last();
                    assert(kept@ =~= before.push(f));
                    assert forall|k: (usize, Seq<char>), h: u64| #[trigger]
                        has(kept@, k, h) <==> has(before, k, h) || (k == (f.heap, f.path@) && h
                            == f.handle) by {
                        has_pushed(before, f, k, h);
                    }
                    assert forall|a: int, b: int| 0 <= a < b < kept@.len() implies (
                    #[trigger] kept@[a]).heap != (#[trigger] kept@[b]).heap || kept@[a].path@
                        != kept@[b].path@ by {
                        assert(kept@[a] == before[a]);
                        if b < before.len() {
                            assert(kept@[b] == before[b]);
                        } else if before[a].heap == f.heap && before[a].path@ == f.path@ {
                            let k = (f.heap, f.path@);
                            assert(has(before, k, before[a].handle));
                            assert(has(all.take(i as int), k, before[a].handle));
                            let j = choose|j: int|
                                0 <= j < i && (#[trigger] all.take(i as int)[j]).heap == k.0
                                    && all.take(i as int)[j].path@ == k.1 && all.take(
                                    i as int,
                                )[j].handle == before[a].handle;
                            assert(all[j].heap != all[i as int].heap || all[j].path@ != all[i as int].path@);
                        }
                    }
                }
            }
            i = i + 1;
        }
        assert(all.take(i as int) =~= all);
        self.entries = kept;
        proof {
            self.has_is_owned();
        }
    }

    /// Forgets everything that the dead heaps knew.
    pub fn keep_living(&mut self, dead: &[usize])
        requires
            old(self).wf(),
        ensures
            final(self).wf(),
            forall|path: Seq<char>, heap: usize, handle: u64| #[trigger]
                owned(final(self)@, path, heap, handle) <==> owned(old(self)@, path, heap, handle)
                    && !dead@.contains(heap),
    {
        self.retain(dead, None);
    }

    /// Forgets a handle of a heap.
    pub fn drop_handle(&mut self, heap: usize, handle: u64)
        requires
            old(self).wf(),
        ensures
            final(self).wf(),
            forall|path: Seq<char>, h: usize, x: u64| #[trigger]
                owned(final(self)@, path, h, x) <==> owned(old(self)@, path, h, x) && (h, x) != (
                    heap,
                    handle,
                ),
    {
        let none: Vec<usize> = Vec::new();
        self.retain(none.as_slice(), Some((heap, handle)));
    }

    /// Two maps with the same pairs are the same.
    proof fn same_map(&self, m: Map<(usize, Seq<char>), u64>)
        requires
            self.wf(),
            forall|k: (usize, Seq<char>), h: u64| #[trigger]
                has(self.entries@, k, h) <==> m.contains_key(k) && m[k] == h,
        ensures
            self@ == m,
    {
        assert forall|k: (usize, Seq<char>)| #[trigger] m.contains_key(k) implies self@.contains_key(k)
            && self@[k] == m[k] by {
            assert(has(self.entries@, k, m[k]));
        }
        assert(self@ =~= m);
    }
}

/// What stays of a heap's handles: those of living heaps, but for one handle.
spec fn stays(dead: Seq<usize>, gone: Option<(usize, u64)>, heap: usize, handle: u64) -> bool {
    !dead.contains(heap) && gone != Some((heap, handle))
}

fn listed(heaps: &[usize], heap: usize) -> (r: bool)
    ensures
        r == heaps@.contains(heap),
{
    let mut i: usize = 0;
    while i < heaps.len()
        invariant
            i <= heaps.len(),
            forall|j: int| 0 <= j < i ==> heaps@[j] != heap,
        decreases heaps.len() - i,
    {
        if heaps[i] == heap {
            assert(heaps@[i as int] == heap);
            return true;
        }
        i = i + 1;
    }
    false
}

proof fn has_pushed(entries: Seq<HandleEntry>, e: HandleEntry, key: (usize, Seq<char>), handle: u64)
    ensures
        has(entries.push(e), key, handle) <==> has(entries, key, handle) || (key == (
            e.heap,
            e.path@,
        ) && handle == e.handle),
{
    let all = entries.push(e);
    if has(entries, key, handle) {
        let i = choose|i: int|
            0 <= i < entries.len() && (#[trigger] entries[i]).heap == key.0 && entries[i].path@
                == key.1 && entries[i].handle == handle;
        assert(all[i] == entries[i]);
    }
    if key == (e.heap, e.path@) && handle == e.handle {
        assert(all[entries.len() as int] == e);
    }
    if has(all, key, handle) {
        let i = choose|i: int|
            0 <= i < all.len() && (#[trigger] all[i]).heap == key.0 && all[i].path@ == key.1
                && all[i].handle == handle;
        if i < entries.len() {
            assert(entries[i] == all[i]);
        }
    }
}

proof fn same_handle(entries: Seq<HandleEntry>, key: (usize, Seq<char>), a: u64, b: u64)
    requires
        distinct(entries),
        has(entries, key, a),
        has(entries, key, b),
    ensures
        a == b,
{
    let i = choose|i: int|
        0 <= i < entries.len() && (#[trigger] entries[i]).heap == key.0 && entries[i].path@ == key.1
            && entries[i].handle == a;
    let j = choose|j: int|
        0 <= j < entries.len() && (#[trigger] entries[j]).heap == key.0 && entries[j].path@ == key.1
            && entries[j].handle == b;
    assert(!(i < j) && !(j < i));
}

} // verus!
