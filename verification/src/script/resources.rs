//! Resources that scripts hold handles of.
//!
//! A resource is one file, shared by every script heap that asks for it. It lives
//! as long as a living heap knows it.
use crate::script::fetches::next_count;
use crate::script::handles::{owned, HandleMap};
use crate::text::{same_text, text_of};
use vstd::prelude::*;

verus! {

pub enum CxScriptResourceData {
    NotLoaded,
    Loading,
    Loaded(Vec<u8>),
    Error(String),
}

pub enum ResourceDataView {
    NotLoaded,
    Loading,
    Loaded(Seq<u8>),
    Error(Seq<char>),
}

impl View for CxScriptResourceData {
    type V = ResourceDataView;

    open spec fn view(&self) -> ResourceDataView {
        match self {
            CxScriptResourceData::NotLoaded => ResourceDataView::NotLoaded,
            CxScriptResourceData::Loading => ResourceDataView::Loading,
            CxScriptResourceData::Loaded(data) => ResourceDataView::Loaded(data@),
            CxScriptResourceData::Error(e) => ResourceDataView::Error(e@),
        }
    }
}

pub struct CxScriptResource {
    pub abs_path: String,
    pub dependency_path: Option<String>,
    pub web_url: Option<String>,
    pub data: CxScriptResourceData,
    /// The heaps that hold the resource, each with its own handle of it. Two heaps
    /// may hand out equal handles for different files.
    pub handles: Vec<(usize, u64)>,
}

#[verifier::ext_equal]
pub struct ResourceView {
    pub abs_path: Seq<char>,
    pub dependency_path: Option<Seq<char>>,
    pub web_url: Option<Seq<char>>,
    pub data: ResourceDataView,
    pub handles: Seq<(usize, u64)>,
}

impl View for CxScriptResource {
    type V = ResourceView;

    open spec fn view(&self) -> ResourceView {
        ResourceView {
            abs_path: self.abs_path@,
            dependency_path: text_of(self.dependency_path),
            web_url: text_of(self.web_url),
            data: self.data@,
            handles: self.handles@,
        }
    }
}

impl CxScriptResource {
    /// Bytes that the resource holds.
    pub fn loaded_len(&self) -> (r: usize)
        ensures
            r == match self.data@ {
                ResourceDataView::Loaded(data) => data.len(),
                _ => 0,
            },
    {
        match &self.data {
            CxScriptResourceData::Loaded(data) => data.len(),
            _ => 0,
        }
    }

    pub fn is_error(&self) -> (r: bool)
        ensures
            r == (self.data@ is Error),
    {
        match &self.data {
            CxScriptResourceData::Error(_) => true,
            _ => false,
        }
    }

    pub fn has_handle(&self, heap: usize, handle: u64) -> (r: bool)
        ensures
            r == self@.handles.contains((heap, handle)),
    {
        let mut i: usize = 0;
        while i < self.handles.len()
            invariant
                i <= self.handles.len(),
                forall|j: int| 0 <= j < i ==> self.handles@[j] != (heap, handle),
            decreases self.handles.len() - i,
        {
            let (h, x) = self.handles[i];
            if h == heap && x == handle {
                assert(self.handles@[i as int] == (heap, handle));
                return true;
            }
            i = i + 1;
        }
        false
    }
}

/// A request in flight that will fill a resource.
pub struct CxScriptHttpResource {
    pub request_id: u64,
    pub abs_path: String,
}

/// What a list of resources holds.
pub open spec fn views(v: Seq<CxScriptResource>) -> Seq<ResourceView> {
    v.map_values(|r: CxScriptResource| r@)
}

/// What a list of requests holds.
pub open spec fn requests(v: Seq<CxScriptHttpResource>) -> Seq<(u64, Seq<char>)> {
    v.map_values(|r: CxScriptHttpResource| (r.request_id, r.abs_path@))
}

pub struct CxScriptResources {
    pub resources: Vec<CxScriptResource>,
    pub handles_by_abs_path: HandleMap,
    pub http_resources: Vec<CxScriptHttpResource>,
    /// Counts what is registered and what moves from one state of loading to
    /// another.
    pub generation: u64,
}

/// The first resource, `from` or later, with a path.
pub open spec fn index_of_path(v: Seq<ResourceView>, path: Seq<char>, from: int) -> Option<int>
    decreases v.len() - from,
{
    if from < 0 || from >= v.len() {
        None
    } else if v[from].abs_path == path {
        Some(from)
    } else {
        index_of_path(v, path, from + 1)
    }
}

/// The first resource, `from` or later, of which a heap has a handle.
pub open spec fn index_of_handle(v: Seq<ResourceView>, heap: usize, handle: u64, from: int) -> Option<int>
    decreases v.len() - from,
{
    if from < 0 || from >= v.len() {
        None
    } else if v[from].handles.contains((heap, handle)) {
        Some(from)
    } else {
        index_of_handle(v, heap, handle, from + 1)
    }
}

/// The first request, `from` or later, with an identity.
pub open spec fn index_of_request(v: Seq<(u64, Seq<char>)>, request_id: u64, from: int) -> Option<int>
    decreases v.len() - from,
{
    if from < 0 || from >= v.len() {
        None
    } else if v[from].0 == request_id {
        Some(from)
    } else {
        index_of_request(v, request_id, from + 1)
    }
}

pub proof fn index_of_path_finds(v: Seq<ResourceView>, path: Seq<char>, from: int)
    requires
        0 <= from <= v.len(),
    ensures
        match index_of_path(v, path, from) {
            Some(i) => from <= i < v.len() && v[i].abs_path == path && forall|j: int|
                from <= j < i ==> (#[trigger] v[j]).abs_path != path,
            None => forall|j: int| from <= j < v.len() ==> (#[trigger] v[j]).abs_path != path,
        },
    decreases v.len() - from,
{
    if from < v.len() && v[from].abs_path != path {
        index_of_path_finds(v, path, from + 1);
    }
}

pub proof fn index_of_handle_finds(v: Seq<ResourceView>, heap: usize, handle: u64, from: int)
    requires
        0 <= from <= v.len(),
    ensures
        match index_of_handle(v, heap, handle, from) {
            Some(i) => from <= i < v.len() && v[i].handles.contains((heap, handle)) && forall|j: int|
                from <= j < i ==> !(#[trigger] v[j]).handles.contains((heap, handle)),
            None => forall|j: int|
                from <= j < v.len() ==> !(#[trigger] v[j]).handles.contains((heap, handle)),
        },
    decreases v.len() - from,
{
    if from < v.len() && !v[from].handles.contains((heap, handle)) {
        index_of_handle_finds(v, heap, handle, from + 1);
    }
}

// ---------------------------------------------------------------------------
// Collection
// ---------------------------------------------------------------------------

/// Whether a heap still knows a path by a handle.
pub open spec fn still_owned(m: Map<(usize, Seq<char>), u64>, path: Seq<char>) -> spec_fn(
    (usize, u64),
) -> bool {
    |p: (usize, u64)| owned(m, path, p.0, p.1)
}

/// A resource with the handles by which it is still known.
pub open spec fn known(r: ResourceView, m: Map<(usize, Seq<char>), u64>) -> ResourceView {
    ResourceView { handles: r.handles.filter(still_owned(m, r.abs_path)), ..r }
}

/// The resources that are still known.
pub open spec fn pruned(v: Seq<ResourceView>, m: Map<(usize, Seq<char>), u64>) -> Seq<ResourceView>
    decreases v.len(),
{
    if v.len() == 0 {
        seq![]
    } else {
        let before = pruned(v.drop_last(), m);
        let r = known(v.last(), m);
        if r.handles.len() > 0 {
            before.push(r)
        } else {
            before
        }
    }
}

fn still_known(handles: &Vec<(usize, u64)>, path: &str, m: &HandleMap) -> (r: Vec<(usize, u64)>)
    requires
        m.wf(),
    ensures
        r@ == handles@.filter(still_owned(m@, path@)),
{
    let mut r: Vec<(usize, u64)> = Vec::new();
    let mut i: usize = 0;
    assert(handles@.take(0) =~= seq![]);
    reveal(Seq::filter);
    while i < handles.len()
        invariant
            i <= handles.len(),
            m.wf(),
            r@ == handles@.take(i as int).filter(still_owned(m@, path@)),
        decreases handles.len() - i,
    {
        let (heap, handle) = handles[i];
        proof {
            assert(handles@.take(i + 1).drop_last() =~= handles@.take(i as int));
            assert(handles@.take(i + 1).last() == handles@[i as int]);
            reveal(Seq::filter);
        }
        let keep = match m.get(heap, path) {
            Some(x) => x == handle,
            None => false,
        };
        if keep {
            r.push((heap, handle));
        }
        i = i + 1;
    }
    assert(handles@.take(i as int) =~= handles@);
    r
}

fn prune_resource_handles(resources: &mut Vec<CxScriptResource>, m: &HandleMap)
    requires
        m.wf(),
    ensures
        views(final(resources)@) == pruned(views(old(resources)@), m@),
{
    let ghost all = views(resources@);
    let ghost mut done: int = 0;
    let mut i: usize = 0;
    assert(all.take(0) =~= seq![]);
    assert(views(resources@) =~= pruned(all.take(0), m@) + all.skip(0));
    while i < resources.len()
        invariant
            m.wf(),
            i <= resources.len(),
            0 <= done <= all.len(),
            i == pruned(all.take(done), m@).len(),
            views(resources@) == pruned(all.take(done), m@) + all.skip(done),
        decreases all.len() - done,
    {
        let ghost front = pruned(all.take(done), m@);
        let ghost before = resources@;
        assert(views(before)[i as int] == all.skip(done)[0]);
        assert(all.take(done + 1).drop_last() =~= all.take(done));
        assert(all.take(done + 1).last() == all[done]);
        let handles = still_known(&resources[i].handles, resources[i].abs_path.as_str(), m);
        if handles.len() > 0 {
            resources[i].handles = handles;
            proof {
                let kept = known(all[done], m@);
                assert(resources@[i as int]@ == kept);
                assert(views(resources@) =~= views(before).update(i as int, kept));
                assert((front + all.skip(done)).update(i as int, kept) =~= front.push(kept)
                    + all.skip(done + 1));
            }
            i = i + 1;
        } else {
            resources.remove(i);
            proof {
                assert(views(resources@) =~= views(before).remove(i as int));
                assert(views(resources@) =~= front + all.skip(done + 1));
            }
        }
        proof {
            done = done + 1;
        }
    }
    proof {
        assert(done == all.len()) by {
            assert(views(resources@).len() == i + (all.len() - done));
        }
        assert(all.take(done) =~= all);
        assert(views(resources@) =~= pruned(all, m@));
    }
}

// ---------------------------------------------------------------------------
// The table
// ---------------------------------------------------------------------------

/// A resource with another state of loading.
pub open spec fn with_data(r: ResourceView, data: ResourceDataView) -> ResourceView {
    ResourceView { data, ..r }
}

/// The resources after the request's answer: the first one with the request's
/// path has the answer.
pub open spec fn answered(v: Seq<ResourceView>, path: Seq<char>, data: ResourceDataView) -> Seq<
    ResourceView,
> {
    match index_of_path(v, path, 0) {
        Some(i) => v.update(i, with_data(v[i], data)),
        None => v,
    }
}

/// What a script sees of a resource.
pub enum ResourceProperty {
    Path(String),
    Flag(bool),
    Message(String),
    Bytes(Vec<u8>),
    Nil,
    /// The heap has no such resource, or a resource has no such property.
    Invalid,
}

pub enum PropertyView {
    Path(Seq<char>),
    Flag(bool),
    Message(Seq<char>),
    Bytes(Seq<u8>),
    Nil,
    Invalid,
}

impl View for ResourceProperty {
    type V = PropertyView;

    open spec fn view(&self) -> PropertyView {
        match self {
            ResourceProperty::Path(p) => PropertyView::Path(p@),
            ResourceProperty::Flag(b) => PropertyView::Flag(*b),
            ResourceProperty::Message(m) => PropertyView::Message(m@),
            ResourceProperty::Bytes(b) => PropertyView::Bytes(b@),
            ResourceProperty::Nil => PropertyView::Nil,
            ResourceProperty::Invalid => PropertyView::Invalid,
        }
    }
}

/// What a script sees of a resource.
pub open spec fn spec_property(r: ResourceView, name: Seq<char>) -> PropertyView {
    if name == "path"@ {
        PropertyView::Path(r.abs_path)
    } else if name == "is_loaded"@ {
        PropertyView::Flag(r.data is Loaded)
    } else if name == "is_error"@ {
        PropertyView::Flag(r.data is Error)
    } else if name == "error"@ {
        match r.data {
            ResourceDataView::Error(e) => PropertyView::Message(e),
            _ => PropertyView::Nil,
        }
    } else if name == "data"@ {
        match r.data {
            ResourceDataView::Loaded(data) => PropertyView::Bytes(data),
            _ => PropertyView::Nil,
        }
    } else {
        PropertyView::Invalid
    }
}

fn copied(data: &Vec<u8>) -> (r: Vec<u8>)
    ensures
        r@ == data@,
{
    let mut r: Vec<u8> = Vec::new();
    let mut i: usize = 0;
    while i < data.len()
        invariant
            i <= data.len(),
            r@ == data@.take(i as int),
        decreases data.len() - i,
    {
        r.push(data[i]);
        i = i + 1;
        assert(r@ =~= data@.take(i as int));
    }
    assert(r@ =~= data@);
    r
}

impl CxScriptResources {
    pub open spec fn wf(&self) -> bool {
        self.handles_by_abs_path.wf()
    }

    pub fn new() -> (r: CxScriptResources)
        ensures
            r.wf(),
            views(r.resources@) == Seq::<ResourceView>::empty(),
            r.handles_by_abs_path@ == Map::<(usize, Seq<char>), u64>::empty(),
            requests(r.http_resources@) == Seq::<(u64, Seq<char>)>::empty(),
            r.generation == 0,
    {
        let r = CxScriptResources {
            resources: Vec::new(),
            handles_by_abs_path: HandleMap::new(),
            http_resources: Vec::new(),
            generation: 0,
        };
        assert(views(r.resources@) =~= Seq::<ResourceView>::empty());
        assert(requests(r.http_resources@) =~= Seq::<(u64, Seq<char>)>::empty());
        r
    }

    pub(crate) fn position(&self, path: &str) -> (r: Option<usize>)
        ensures
            match r {
                Some(i) => i < self.resources.len() && index_of_path(
                    views(self.resources@),
                    path@,
                    0,
                ) == Some(i as int),
                None => index_of_path(views(self.resources@), path@, 0) is None,
            },
    {
        let mut i: usize = 0;
        while i < self.resources.len()
            invariant
                i <= self.resources.len(),
                index_of_path(views(self.resources@), path@, 0) == index_of_path(
                    views(self.resources@),
                    path@,
                    i as int,
                ),
            decreases self.resources.len() - i,
        {
            assert(views(self.resources@)[i as int] == self.resources@[i as int]@);
            if same_text(self.resources[i].abs_path.as_str(), path) {
                return Some(i);
            }
            i = i + 1;
        }
        None
    }

    fn position_of_handle(&self, heap: usize, handle: u64) -> (r: Option<usize>)
        ensures
            match r {
                Some(i) => i < self.resources.len() && index_of_handle(
                    views(self.resources@),
                    heap,
                    handle,
                    0,
                ) == Some(i as int),
                None => index_of_handle(views(self.resources@), heap, handle, 0) is None,
            },
    {
        let mut i: usize = 0;
        while i < self.resources.len()
            invariant
                i <= self.resources.len(),
                index_of_handle(views(self.resources@), heap, handle, 0) == index_of_handle(
                    views(self.resources@),
                    heap,
                    handle,
                    i as int,
                ),
            decreases self.resources.len() - i,
        {
            assert(views(self.resources@)[i as int] == self.resources@[i as int]@);
            if self.resources[i].has_handle(heap, handle) {
                return Some(i);
            }
            i = i + 1;
        }
        None
    }

    /// The path that a heap knows by a handle.
    pub fn path_for_handle(&self, heap_key: usize, handle: u64) -> (r: Option<String>)
        requires
            self.wf(),
        ensures
            match r {
                Some(path) => owned(self.handles_by_abs_path@, path@, heap_key, handle),
                None => forall|path: Seq<char>|
                    !#[trigger] owned(self.handles_by_abs_path@, path, heap_key, handle),
            },
    {
        self.handles_by_abs_path.path_of(heap_key, handle)
    }

    /// A heap's handle of a path.
    pub fn get_handle_by_abs_path(&self, heap_key: usize, abs_path: &str) -> (r: Option<u64>)
        requires
            self.wf(),
        ensures
            match r {
                Some(handle) => owned(self.handles_by_abs_path@, abs_path@, heap_key, handle),
                None => !self.handles_by_abs_path@.contains_key((heap_key, abs_path@)),
            },
    {
        self.handles_by_abs_path.get(heap_key, abs_path)
    }

    /// Forgets everything that heaps owned which are gone whole, the moment they
    /// go: the next heap may have the same key.
    pub fn gc_heaps(&mut self, dead: &[usize])
        requires
            old(self).wf(),
        ensures
            final(self).wf(),
            forall|path: Seq<char>, heap: usize, handle: u64| #[trigger]
                owned(final(self).handles_by_abs_path@, path, heap, handle) <==> owned(
                    old(self).handles_by_abs_path@,
                    path,
                    heap,
                    handle,
                ) && !dead@.contains(heap),
            views(final(self).resources@) == if dead@.len() == 0 {
                views(old(self).resources@)
            } else {
                pruned(views(old(self).resources@), final(self).handles_by_abs_path@)
            },
            final(self).http_resources == old(self).http_resources,
            final(self).generation == old(self).generation,
    {
        if dead.len() == 0 {
            return;
        }
        self.handles_by_abs_path.keep_living(dead);
        prune_resource_handles(&mut self.resources, &self.handles_by_abs_path);
    }

    /// A heap has let go of one of its handles.
    pub fn gc(&mut self, heap_key: usize, handle: u64)
        requires
            old(self).wf(),
        ensures
            final(self).wf(),
            forall|path: Seq<char>, h: usize, x: u64| #[trigger]
                owned(final(self).handles_by_abs_path@, path, h, x) <==> owned(
                    old(self).handles_by_abs_path@,
                    path,
                    h,
                    x,
                ) && (h, x) != (heap_key, handle),
            views(final(self).resources@) == pruned(
                views(old(self).resources@),
                final(self).handles_by_abs_path@,
            ),
            final(self).http_resources == old(self).http_resources,
            final(self).generation == old(self).generation,
    {
        self.handles_by_abs_path.drop_handle(heap_key, handle);
        prune_resource_handles(&mut self.resources, &self.handles_by_abs_path);
    }

    pub fn insert_resource(&mut self, heap_key: usize, resource: CxScriptResource)
        requires
            old(self).wf(),
            resource.handles@.len() > 0,
        ensures
            final(self).wf(),
            views(final(self).resources@) == views(old(self).resources@).push(resource@),
            final(self).handles_by_abs_path@ == old(self).handles_by_abs_path@.insert(
                (heap_key, resource@.abs_path),
                resource@.handles[0].1,
            ),
            final(self).http_resources == old(self).http_resources,
            final(self).generation == next_count(old(self).generation),
    {
        let handle = resource.handles[0].1;
        self.handles_by_abs_path.insert(heap_key, resource.abs_path.as_str(), handle);
        self.resources.push(resource);
        self.bump_generation();
        assert(views(self.resources@) =~= views(old(self).resources@).push(resource@));
    }

    pub fn bump_generation(&mut self)
        ensures
            final(self).generation == next_count(old(self).generation),
            final(self).resources == old(self).resources,
            final(self).handles_by_abs_path == old(self).handles_by_abs_path,
            final(self).http_resources == old(self).http_resources,
    {
        self.generation = self.generation.wrapping_add(1);
    }

    /// Another heap's handle of a resource that is there. False where none is.
    pub fn attach_handle_for_path(&mut self, heap_key: usize, abs_path: &str, handle: u64) -> (r:
        bool)
        requires
            old(self).wf(),
        ensures
            final(self).wf(),
            final(self).http_resources == old(self).http_resources,
            final(self).generation == old(self).generation,
            match index_of_path(views(old(self).resources@), abs_path@, 0) {
                Some(i) => {
                    let v = views(old(self).resources@);
                    &&& r
                    &&& views(final(self).resources@) == v.update(
                        i,
                        (ResourceView { handles: v[i].handles.push((heap_key, handle)), ..v[i] }),
                    )
                    &&& final(self).handles_by_abs_path@ == old(self).handles_by_abs_path@.insert(
                        (heap_key, abs_path@),
                        handle,
                    )
                },
                None => !r && *final(self) == *old(self),
            },
    {
        match self.position(abs_path) {
            Some(i) => {
                let ghost v = views(self.resources@);
                self.resources[i].handles.push((heap_key, handle));
                self.handles_by_abs_path.insert(heap_key, abs_path, handle);
                proof {
                    let now = ResourceView { handles: v[i as int].handles.push((heap_key, handle)), ..v[i as int] };
                    assert(self.resources@[i as int]@ == now);
                    assert(views(self.resources@) =~= v.update(i as int, now));
                }
                true
            },
            None => false,
        }
    }

    /// The data of a resource, by the heap that holds it and the heap's handle.
    pub fn get_data(&self, heap_key: usize, handle: u64) -> (r: Option<&Vec<u8>>)
        ensures
            match index_of_handle(views(self.resources@), heap_key, handle, 0) {
                Some(i) => match views(self.resources@)[i].data {
                    ResourceDataView::Loaded(data) => r matches Some(d) && d@ == data,
                    _ => r is None,
                },
                None => r is None,
            },
    {
        match self.position_of_handle(heap_key, handle) {
            Some(i) => match &self.resources[i].data {
                CxScriptResourceData::Loaded(data) => Some(data),
                _ => None,
            },
            None => None,
        }
    }

    /// The path of a resource, by the heap that holds it and the heap's handle.
    pub fn get_resource_abs_path(&self, heap_key: usize, handle: u64) -> (r: Option<&String>)
        ensures
            match index_of_handle(views(self.resources@), heap_key, handle, 0) {
                Some(i) => r matches Some(p) && p@ == views(self.resources@)[i].abs_path,
                None => r is None,
            },
    {
        match self.position_of_handle(heap_key, handle) {
            Some(i) => Some(&self.resources[i].abs_path),
            None => None,
        }
    }

    /// The data of the resource with a path.
    pub fn get_data_by_path(&self, path: &str) -> (r: Option<&Vec<u8>>)
        ensures
            match index_of_path(views(self.resources@), path@, 0) {
                Some(i) => match views(self.resources@)[i].data {
                    ResourceDataView::Loaded(data) => r matches Some(d) && d@ == data,
                    _ => r is None,
                },
                None => r is None,
            },
    {
        match self.position(path) {
            Some(i) => match &self.resources[i].data {
                CxScriptResourceData::Loaded(data) => Some(data),
                _ => None,
            },
            None => None,
        }
    }

    /// What a script sees of a resource that it holds.
    pub fn property(&self, heap_key: usize, handle: u64, name: &str) -> (r: ResourceProperty)
        ensures
            r@ == match index_of_handle(views(self.resources@), heap_key, handle, 0) {
                Some(i) => spec_property(views(self.resources@)[i], name@),
                None => PropertyView::Invalid,
            },
    {
        let i = match self.position_of_handle(heap_key, handle) {
            Some(i) => i,
            None => {
                return ResourceProperty::Invalid;
            },
        };
        let res = &self.resources[i];
        assert(views(self.resources@)[i as int] == res@);
        if same_text(name, "path") {
            ResourceProperty::Path(res.abs_path.clone())
        } else if same_text(name, "is_loaded") {
            ResourceProperty::Flag(
                match &res.data {
                    CxScriptResourceData::Loaded(_) => true,
                    _ => false,
                },
            )
        } else if same_text(name, "is_error") {
            ResourceProperty::Flag(res.is_error())
        } else if same_text(name, "error") {
            match &res.data {
                CxScriptResourceData::Error(e) => ResourceProperty::Message(e.clone()),
                _ => ResourceProperty::Nil,
            }
        } else if same_text(name, "data") {
            match &res.data {
                CxScriptResourceData::Loaded(data) => ResourceProperty::Bytes(copied(data)),
                _ => ResourceProperty::Nil,
            }
        } else {
            ResourceProperty::Invalid
        }
    }

    fn request_position(&self, request_id: u64) -> (r: Option<usize>)
        ensures
            match r {
                Some(i) => i < self.http_resources.len() && index_of_request(
                    requests(self.http_resources@),
                    request_id,
                    0,
                ) == Some(i as int),
                None => index_of_request(requests(self.http_resources@), request_id, 0) is None,
            },
    {
        let mut i: usize = 0;
        while i < self.http_resources.len()
            invariant
                i <= self.http_resources.len(),
                index_of_request(requests(self.http_resources@), request_id, 0)
                    == index_of_request(requests(self.http_resources@), request_id, i as int),
            decreases self.http_resources.len() - i,
        {
            if self.http_resources[i].request_id == request_id {
                return Some(i);
            }
            i = i + 1;
        }
        None
    }

    /// Whether a request is to fill a resource.
    pub fn is_http_resource(&self, request_id: u64) -> (r: bool)
        ensures
            r == index_of_request(requests(self.http_resources@), request_id, 0) is Some,
    {
        self.request_position(request_id).is_some()
    }

    /// The table after the answer of a request: the request is gone, and the
    /// resource that it was for has the answer, if it still exists.
    pub open spec fn after_answer(
        before: &CxScriptResources,
        after: &CxScriptResources,
        request_id: u64,
        data: ResourceDataView,
        found: bool,
    ) -> bool {
        let v = views(before.resources@);
        match index_of_request(requests(before.http_resources@), request_id, 0) {
            Some(n) => {
                let path = requests(before.http_resources@)[n].1;
                &&& after.handles_by_abs_path == before.handles_by_abs_path
                &&& requests(after.http_resources@) == requests(before.http_resources@).remove(n)
                &&& views(after.resources@) == answered(v, path, data)
                &&& found == index_of_path(v, path, 0) is Some
                &&& after.generation == if found {
                    next_count(before.generation)
                } else {
                    before.generation
                }
            },
            None => !found && *after == *before,
        }
    }

    fn answer(&mut self, request_id: u64, data: CxScriptResourceData) -> (r: bool)
        requires
            old(self).wf(),
        ensures
            final(self).wf(),
            CxScriptResources::after_answer(old(self), final(self), request_id, data@, r),
    {
        let n = match self.request_position(request_id) {
            Some(n) => n,
            None => {
                return false;
            },
        };
        let ghost before = self.http_resources@;
        let request = self.http_resources.remove(n);
        assert(requests(self.http_resources@) =~= requests(before).remove(n as int));
        assert(requests(before)[n as int].1 == request.abs_path@);
        match self.position(request.abs_path.as_str()) {
            Some(i) => {
                let ghost v = views(self.resources@);
                self.resources[i].data = data;
                self.bump_generation();
                proof {
                    assert(self.resources@[i as int]@ == with_data(v[i as int], data@));
                    assert(views(self.resources@) =~= v.update(
                        i as int,
                        with_data(v[i as int], data@),
                    ));
                }
                true
            },
            None => false,
        }
    }

    /// The data that a request was for has come. Whether a resource took it.
    pub fn handle_http_response(&mut self, request_id: u64, data: Vec<u8>) -> (r: bool)
        requires
            old(self).wf(),
        ensures
            final(self).wf(),
            CxScriptResources::after_answer(
                old(self),
                final(self),
                request_id,
                ResourceDataView::Loaded(data@),
                r,
            ),
    {
        self.answer(request_id, CxScriptResourceData::Loaded(data))
    }

    /// A request has failed. Whether a resource took the error.
    pub fn handle_http_error(&mut self, request_id: u64, error: String) -> (r: bool)
        requires
            old(self).wf(),
        ensures
            final(self).wf(),
            CxScriptResources::after_answer(
                old(self),
                final(self),
                request_id,
                ResourceDataView::Error(error@),
                r,
            ),
    {
        self.answer(request_id, CxScriptResourceData::Error(error))
    }
}

// ---------------------------------------------------------------------------
// What holds of collections
// ---------------------------------------------------------------------------

/// A resource that is still known is kept, with its path and its data, and with
/// each of its handles that is still known.
proof fn known_resource_is_kept(
    v: Seq<ResourceView>,
    m: Map<(usize, Seq<char>), u64>,
    i: int,
    heap: usize,
    handle: u64,
) -> (j: int)
    requires
        0 <= i < v.len(),
        v[i].handles.contains((heap, handle)),
        owned(m, v[i].abs_path, heap, handle),
    ensures
        0 <= j < pruned(v, m).len(),
        pruned(v, m)[j] == known(v[i], m),
        pruned(v, m)[j].handles.contains((heap, handle)),
    decreases v.len(),
{
    let kept = known(v[i], m);
    let at = v[i].handles.index_of((heap, handle));
    v[i].handles.lemma_filter_contains(still_owned(m, v[i].abs_path), at);
    assert(kept.handles.contains((heap, handle)));
    let before = pruned(v.drop_last(), m);
    if i == v.len() - 1 {
        assert(kept.handles.len() > 0);
        before.len() as int
    } else {
        assert(v.drop_last()[i] == v[i]);
        let j = known_resource_is_kept(v.drop_last(), m, i, heap, handle);
        assert(pruned(v, m)[j] == before[j]);
        j
    }
}

/// Collecting heaps keeps what the other heaps hold, even where they hold it by
/// equal handles: the resource stays, with its path, its data and the handle.
pub proof fn collecting_a_heap_keeps_other_heaps(
    v: Seq<ResourceView>,
    before: Map<(usize, Seq<char>), u64>,
    after: Map<(usize, Seq<char>), u64>,
    dead: Seq<usize>,
    i: int,
    heap: usize,
    handle: u64,
)
    requires
        forall|path: Seq<char>, h: usize, x: u64| #[trigger]
            owned(after, path, h, x) <==> owned(before, path, h, x) && !dead.contains(h),
        0 <= i < v.len(),
        v[i].handles.contains((heap, handle)),
        owned(before, v[i].abs_path, heap, handle),
        !dead.contains(heap),
    ensures
        exists|j: int|
            0 <= j < pruned(v, after).len() && (#[trigger] pruned(v, after)[j]).abs_path
                == v[i].abs_path && pruned(v, after)[j].data == v[i].data && pruned(
                v,
                after,
            )[j].handles.contains((heap, handle)),
{
    assert(owned(after, v[i].abs_path, heap, handle));
    let j = known_resource_is_kept(v, after, i, heap, handle);
    assert(pruned(v, after)[j].abs_path == v[i].abs_path);
}

/// What is left after a collection is known: every resource has a handle, and
/// every handle of a resource is one by which a heap knows it.
pub proof fn only_known_resources_are_left(
    v: Seq<ResourceView>,
    m: Map<(usize, Seq<char>), u64>,
    j: int,
    k: int,
)
    requires
        0 <= j < pruned(v, m).len(),
    ensures
        pruned(v, m)[j].handles.len() > 0,
        0 <= k < pruned(v, m)[j].handles.len() ==> owned(
            m,
            pruned(v, m)[j].abs_path,
            pruned(v, m)[j].handles[k].0,
            pruned(v, m)[j].handles[k].1,
        ),
    decreases v.len(),
{
    let before = pruned(v.drop_last(), m);
    if j < before.len() {
        only_known_resources_are_left(v.drop_last(), m, j, k);
        assert(pruned(v, m)[j] == before[j]);
    } else {
        let last = v.last();
        assert(pruned(v, m)[j] == known(last, m));
        if 0 <= k < known(last, m).handles.len() {
            last.handles.lemma_filter_pred(still_owned(m, last.abs_path), k);
        }
    }
}

/// Where no heap knows anything, nothing is left.
pub proof fn unknown_resources_are_dropped(v: Seq<ResourceView>, m: Map<(usize, Seq<char>), u64>)
    requires
        forall|path: Seq<char>, heap: usize, handle: u64| !#[trigger] owned(m, path, heap, handle),
    ensures
        pruned(v, m).len() == 0,
{
    if pruned(v, m).len() > 0 {
        only_known_resources_are_left(v, m, 0, 0);
    }
}

/// An answer reaches the resource of its path, and no other.
pub proof fn an_answer_reaches_its_resource(
    v: Seq<ResourceView>,
    path: Seq<char>,
    data: ResourceDataView,
    i: int,
)
    requires
        0 <= i < v.len(),
        forall|j: int, k: int|
            0 <= j < k < v.len() ==> (#[trigger] v[j]).abs_path != (#[trigger] v[k]).abs_path,
    ensures
        answered(v, path, data).len() == v.len(),
        answered(v, path, data)[i].abs_path == v[i].abs_path,
        answered(v, path, data)[i].handles == v[i].handles,
        answered(v, path, data)[i].data == if v[i].abs_path == path {
            data
        } else {
            v[i].data
        },
{
    index_of_path_finds(v, path, 0);
    if let Some(n) = index_of_path(v, path, 0) {
        if v[i].abs_path == path && n != i {
            if n < i {
                assert(v[n].abs_path != v[i].abs_path);
            } else {
                assert(v[i].abs_path != v[n].abs_path);
            }
        }
    }
}

/// A script sees of a resource what became of it: its bytes once it is loaded, its error
/// once it failed, and neither before.
pub proof fn a_script_sees_what_became_of_it(r: ResourceView)
    ensures
        spec_property(r, "path"@) == PropertyView::Path(r.abs_path),
        r.data matches ResourceDataView::Loaded(bytes) ==> spec_property(r, "data"@)
            == PropertyView::Bytes(bytes) && spec_property(r, "is_loaded"@) == PropertyView::Flag(
            true,
        ) && spec_property(r, "is_error"@) == PropertyView::Flag(false) && spec_property(r, "error"@)
            is Nil,
        r.data matches ResourceDataView::Error(e) ==> spec_property(r, "error"@)
            == PropertyView::Message(e) && spec_property(r, "is_error"@) == PropertyView::Flag(true)
            && spec_property(r, "is_loaded"@) == PropertyView::Flag(false) && spec_property(
            r,
            "data"@,
        ) is Nil,
        !(r.data is Loaded) && !(r.data is Error) ==> spec_property(r, "data"@) is Nil
            && spec_property(r, "error"@) is Nil && spec_property(r, "is_loaded"@)
            == PropertyView::Flag(false) && spec_property(r, "is_error"@) == PropertyView::Flag(
            false,
        ),
{
    reveal_strlit("path");
    reveal_strlit("is_loaded");
    reveal_strlit("is_error");
    reveal_strlit("error");
    reveal_strlit("data");
    assert("path"@[0] == 'p' && "data"@[0] == 'd' && "error"@.len() == 5 && "is_error"@.len() == 8
        && "is_loaded"@.len() == 9 && "path"@.len() == 4 && "data"@.len() == 4);
}

} // verus!
