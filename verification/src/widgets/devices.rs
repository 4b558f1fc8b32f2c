//! What an isolate holds that a person can see: its cameras and its web views.
use std::collections::HashMap;
use vstd::prelude::*;

verus! {

broadcast use vstd::std_specs::hash::group_hash_axioms;

/// For each heap, what it opened.
pub struct Opened {
    by_heap: HashMap<usize, Vec<u64>>,
}

impl View for Opened {
    type V = Map<usize, Vec<u64>>;

    closed spec fn view(&self) -> Map<usize, Vec<u64>> {
        self.by_heap@
    }
}

/// What a heap opened.
pub open spec fn of_heap(opened: Map<usize, Vec<u64>>, heap: usize) -> Seq<u64> {
    if opened.contains_key(heap) {
        opened[heap]@
    } else {
        seq![]
    }
}

/// What a heap holds once it opened something: each thing is listed once.
pub open spec fn with_opened(list: Seq<u64>, id: u64) -> Seq<u64> {
    if list.contains(id) {
        list
    } else {
        list.push(id)
    }
}

/// What some heaps opened, one heap after another, each once.
pub open spec fn of_heaps(opened: Map<usize, Vec<u64>>, heaps: Seq<usize>) -> Seq<u64>
    decreases heaps.len(),
{
    if heaps.len() == 0 {
        seq![]
    } else {
        let before = heaps.drop_last();
        of_heaps(opened, before) + if before.contains(heaps.last()) {
            seq![]
        } else {
            of_heap(opened, heaps.last())
        }
    }
}

impl Opened {
    pub fn new() -> (r: Opened)
        ensures
            r@ == Map::<usize, Vec<u64>>::empty(),
    {
        Opened { by_heap: HashMap::new() }
    }

    fn holds(&self, heap: usize, id: u64) -> (r: bool)
        ensures
            r == of_heap(self@, heap).contains(id),
    {
        match self.by_heap.get(&heap) {
            Some(list) => {
                let mut i: usize = 0;
                while i < list.len()
                    invariant
                        i <= list.len(),
                        list@ == of_heap(self@, heap),
                        forall|j: int| 0 <= j < i ==> #[trigger] list@[j] != id,
                    decreases list.len() - i,
                {
                    if list[i] == id {
                        assert(list@.contains(id));
                        return true;
                    }
                    i = i + 1;
                }
                false
            },
            None => false,
        }
    }

    /// A heap opened something. What it holds already is not listed again.
    pub fn opened(&mut self, heap: usize, id: u64)
        ensures
            of_heap(final(self)@, heap) == with_opened(of_heap(old(self)@, heap), id),
            of_heap(old(self)@, heap).contains(id) ==> *final(self) == *old(self),
            forall|other: usize| #![trigger of_heap(final(self)@, other)]
                other != heap ==> of_heap(final(self)@, other) == of_heap(old(self)@, other),
    {
        if self.holds(heap, id) {
            return;
        }
        let mut list = self.take(heap);
        list.push(id);
        self.by_heap.insert(heap, list);
    }

    /// A heap holds nothing any more: what it opened.
    pub fn take(&mut self, heap: usize) -> (r: Vec<u64>)
        ensures
            r@ == of_heap(old(self)@, heap),
            final(self)@ == old(self)@.remove(heap),
    {
        match self.by_heap.remove(&heap) {
            Some(list) => list,
            None => {
                assert(self@ =~= old(self)@.remove(heap));
                let none: Vec<u64> = Vec::new();
                assert(none@ =~= seq![]);
                none
            },
        }
    }
}

/// The cameras to stop when an isolate lets go of them.
pub fn release_cameras(cameras: &mut Opened, heap_key: usize) -> (r: Vec<u64>)
    ensures
        r@ == of_heap(old(cameras)@, heap_key),
        final(cameras)@ == old(cameras)@.remove(heap_key),
{
    cameras.take(heap_key)
}

/// The web views to close when heaps are gone.
pub fn gc_web_readers(readers: &mut Opened, dead_heaps: &[usize]) -> (r: Vec<u64>)
    ensures
        r@ == of_heaps(old(readers)@, dead_heaps@),
        forall|heap: usize| #![trigger of_heap(final(readers)@, heap)]
            of_heap(final(readers)@, heap) == if dead_heaps@.contains(heap) {
                seq![]
            } else {
                of_heap(old(readers)@, heap)
            },
{
    let ghost all = readers@;
    let mut r: Vec<u64> = Vec::new();
    let mut i: usize = 0;
    assert(dead_heaps@.take(0) =~= seq![]);
    while i < dead_heaps.len()
        invariant
            i <= dead_heaps.len(),
            r@ == of_heaps(all, dead_heaps@.take(i as int)),
            forall|heap: usize| #![trigger of_heap(readers@, heap)]
                of_heap(readers@, heap) == if dead_heaps@.take(i as int).contains(heap) {
                    seq![]
                } else {
                    of_heap(all, heap)
                },
        decreases dead_heaps.len() - i,
    {
        let ghost before = readers@;
        let ghost done = dead_heaps@.take(i as int);
        let heap = dead_heaps[i];
        let mut ids = readers.take(heap);
        r.append(&mut ids);
        proof {
            assert(dead_heaps@.take(i + 1).drop_last() =~= done);
            assert(dead_heaps@.take(i + 1).last() == heap);
            assert(dead_heaps@.take(i + 1) =~= done.push(heap));
            assert forall|other: usize| #![trigger of_heap(readers@, other)]
                of_heap(readers@, other) == if dead_heaps@.take(i + 1).contains(other) {
                    seq![]
                } else {
                    of_heap(all, other)
                } by {
                assert(of_heap(before, other) == if done.contains(other) {
                    seq![]
                } else {
                    of_heap(all, other)
                });
                if other == heap {
                    assert(done.push(heap)[done.len() as int] == heap);
                } else if done.contains(other) {
                    let k = done.index_of(other);
                    assert(done.push(heap)[k] == other);
                }
            }
        }
        i = i + 1;
    }
    assert(dead_heaps@.take(i as int) =~= dead_heaps@);
    r
}

/// What is let go of when an app closes.
pub struct ReleasedDevices {
    /// The cameras to stop.
    pub cameras: Vec<u64>,
    /// The web views to close.
    pub web_views: Vec<u64>,
}

/// Everything that a closing app holds that a person can see. Other heaps keep
/// what they hold.
pub fn release_isolate_devices(cameras: &mut Opened, readers: &mut Opened, heap_key: usize) -> (r:
    ReleasedDevices)
    ensures
        r.cameras@ == of_heap(old(cameras)@, heap_key),
        r.web_views@ == of_heap(old(readers)@, heap_key),
        final(cameras)@ == old(cameras)@.remove(heap_key),
        forall|heap: usize| #![trigger of_heap(final(readers)@, heap)]
            of_heap(final(readers)@, heap) == if heap == heap_key {
                seq![]
            } else {
                of_heap(old(readers)@, heap)
            },
{
    let stopped = release_cameras(cameras, heap_key);
    let heaps: [usize; 1] = [heap_key];
    let closed = gc_web_readers(readers, &heaps);
    proof {
        assert(heaps@.drop_last() =~= seq![]);
        assert(of_heaps(old(readers)@, heaps@.drop_last()) =~= seq![]);
        assert(closed@ =~= of_heap(old(readers)@, heap_key));
        assert(heaps@[0] == heap_key);
    }
    ReleasedDevices { cameras: stopped, web_views: closed }
}

/// What a heap opened is let go of with it, however often it was let go of before:
/// the list that it leaves behind is empty, and what is opened after that is on it
/// again.
pub proof fn what_is_opened_is_let_go_of(list: Seq<u64>, id: u64)
    ensures
        with_opened(list, id).contains(id),
        with_opened(seq![], id).contains(id),
        forall|other: u64| list.contains(other) ==> #[trigger] with_opened(list, id).contains(other),
{
    assert(list.push(id)[list.len() as int] == id);
    assert(Seq::<u64>::empty().push(id)[0] == id);
    assert forall|other: u64| list.contains(other) implies #[trigger] with_opened(
        list,
        id,
    ).contains(other) by {
        let k = list.index_of(other);
        assert(list.push(id)[k] == other);
    }
}

/// What a heap opened is among what it and others opened.
pub proof fn listed_heaps_are_closed(
    opened: Map<usize, Vec<u64>>,
    heaps: Seq<usize>,
    heap: usize,
    id: u64,
)
    requires
        heaps.contains(heap),
        of_heap(opened, heap).contains(id),
    ensures
        of_heaps(opened, heaps).contains(id),
    decreases heaps.len(),
{
    let before = heaps.drop_last();
    let first = of_heaps(opened, before);
    let rest = if before.contains(heaps.last()) {
        seq![]
    } else {
        of_heap(opened, heaps.last())
    };
    assert(of_heaps(opened, heaps) == first + rest);
    if before.contains(heap) {
        listed_heaps_are_closed(opened, before, heap, id);
        let k = first.index_of(id);
        assert((first + rest)[k] == id);
    } else {
        assert(heaps.last() == heap) by {
            let k = heaps.index_of(heap);
            if k < heaps.len() - 1 {
                assert(before[k] == heap);
            }
        }
        let k = rest.index_of(id);
        assert((first + rest)[first.len() + k] == id);
    }
}

} // verus!
