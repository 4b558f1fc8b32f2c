//! How scripts ask for resources.
use crate::number::{decimal, spec_decimal};
use crate::script::crate_paths::{
    module_of, parse_crate_path, parse_logical_path, resolve_crate_resource_paths,
    resolve_web_resource_paths, spec_native_paths, spec_parts, spec_web_paths, ResourcePaths,
    ResourcePathsView, ScriptModule,
};
use crate::script::fetches::next_count;
use crate::script::handles::owned;
use crate::script::resources::{
    index_of_path, requests, views, CxScriptHttpResource, CxScriptResource, CxScriptResourceData,
    CxScriptResources, ResourceDataView, ResourceView,
};
use crate::text::{push_all, push_text, to_chars, to_text};
use crate::textmap::TextMap;
use vstd::prelude::*;

verus! {

// ---------------------------------------------------------------------------
// Asking for a resource
// ---------------------------------------------------------------------------

/// What a script that asks for a resource gets.
pub enum ResourceAsk {
    /// What it gave names no resource.
    Mismatch,
    /// The host does not let it load this.
    Refused(String),
    /// There is no such crate.
    Nil,
    /// The heap's handle of the resource.
    Known(u64),
    /// The heap needs a new handle for the resource.
    New(ResourcePaths),
}

pub enum AskView {
    Mismatch,
    Refused(Seq<char>),
    Nil,
    Known(u64),
    New(ResourcePathsView),
}

impl View for ResourceAsk {
    type V = AskView;

    open spec fn view(&self) -> AskView {
        match self {
            ResourceAsk::Mismatch => AskView::Mismatch,
            ResourceAsk::Refused(m) => AskView::Refused(m@),
            ResourceAsk::Nil => AskView::Nil,
            ResourceAsk::Known(h) => AskView::Known(*h),
            ResourceAsk::New(p) => AskView::New(p@),
        }
    }
}

/// What a heap that asks for some paths gets.
pub open spec fn asked(t: &CxScriptResources, heap: usize, paths: ResourcePathsView) -> AskView {
    let m = t.handles_by_abs_path@;
    if m.contains_key((heap, paths.abs_path)) {
        AskView::Known(m[(heap, paths.abs_path)])
    } else {
        AskView::New(paths)
    }
}

/// A path that is used as it is.
pub open spec fn plain(path: Seq<char>) -> ResourcePathsView {
    ResourcePathsView { abs_path: path, dependency_path: None, web_url: None }
}

/// What a heap that asks for a crate's file gets.
pub open spec fn crate_asked(t: &CxScriptResources, heap: usize, paths: Option<ResourcePathsView>) -> AskView {
    match paths {
        Some(p) => asked(t, heap, p),
        None => AskView::Nil,
    }
}

/// Where a crate's file is, on the web or on another host.
pub open spec fn spec_crate_paths(
    web: bool,
    parts: (Seq<char>, Seq<char>),
    running: Option<ScriptModule>,
    manifests: &TextMap<String>,
) -> Option<ResourcePathsView> {
    if web {
        spec_web_paths(parts.0, parts.1, running, manifests)
    } else {
        spec_native_paths(parts.0, parts.1, running, manifests@)
    }
}

impl CxScriptResources {
    fn ask(&self, heap_key: usize, paths: ResourcePaths) -> (r: ResourceAsk)
        requires
            self.wf(),
        ensures
            r@ == asked(self, heap_key, paths@),
    {
        match self.get_handle_by_abs_path(heap_key, paths.abs_path.as_str()) {
            Some(handle) => ResourceAsk::Known(handle),
            None => ResourceAsk::New(paths),
        }
    }

    /// A script asks for a file by its path; `path` is what it gave, if that is a
    /// text.
    pub fn file_resource(&self, heap_key: usize, path: Option<&str>) -> (r: ResourceAsk)
        requires
            self.wf(),
        ensures
            r@ == match path {
                Some(p) => asked(self, heap_key, plain(p@)),
                None => AskView::Mismatch,
            },
    {
        match path {
            Some(p) => self.ask(
                heap_key,
                ResourcePaths { abs_path: p.to_owned(), dependency_path: None, web_url: None },
            ),
            None => ResourceAsk::Mismatch,
        }
    }

    /// A heap asks for a crate's file.
    pub fn register_crate_resource_parts(
        &self,
        heap_key: usize,
        crate_part: &[char],
        file_path: &[char],
        web: bool,
        running: Option<&ScriptModule>,
        manifests: &TextMap<String>,
    ) -> (r: ResourceAsk)
        requires
            self.wf(),
            manifests.wf(),
        ensures
            r@ == crate_asked(
                self,
                heap_key,
                spec_crate_paths(web, (crate_part@, file_path@), module_of(running), manifests),
            ),
    {
        let paths = if web {
            resolve_web_resource_paths(crate_part, file_path, running, manifests)
        } else {
            resolve_crate_resource_paths(crate_part, file_path, running, manifests)
        };
        match paths {
            Some(p) => self.ask(heap_key, p),
            None => ResourceAsk::Nil,
        }
    }

    /// A heap asks for a file by a path such as `crate/resources/file.ttf`.
    pub fn register_crate_resource_path(
        &self,
        heap_key: usize,
        logical_path: &str,
        web: bool,
        running: Option<&ScriptModule>,
        manifests: &TextMap<String>,
    ) -> (r: ResourceAsk)
        requires
            self.wf(),
            manifests.wf(),
        ensures
            r@ == match spec_parts(logical_path@, '/') {
                Some(parts) => crate_asked(
                    self,
                    heap_key,
                    spec_crate_paths(web, parts, module_of(running), manifests),
                ),
                None => AskView::Nil,
            },
    {
        let path = to_chars(logical_path);
        match parse_logical_path(path.as_slice()) {
            Some((crate_part, file_path)) => self.register_crate_resource_parts(
                heap_key,
                crate_part,
                file_path,
                web,
                running,
                manifests,
            ),
            None => ResourceAsk::Nil,
        }
    }

    /// A script asks for a file by a path such as `self:resources/file.jpg`.
    pub fn crate_resource(
        &self,
        heap_key: usize,
        path: Option<&str>,
        web: bool,
        running: Option<&ScriptModule>,
        manifests: &TextMap<String>,
    ) -> (r: ResourceAsk)
        requires
            self.wf(),
            manifests.wf(),
        ensures
            r@ == match path {
                Some(p) => match spec_parts(p@, ':') {
                    Some(parts) => crate_asked(
                        self,
                        heap_key,
                        spec_crate_paths(web, parts, module_of(running), manifests),
                    ),
                    None => AskView::Mismatch,
                },
                None => AskView::Mismatch,
            },
    {
        match path {
            Some(p) => {
                let chars = to_chars(p);
                match parse_crate_path(chars.as_slice()) {
                    Some((crate_part, file_path)) => self.register_crate_resource_parts(
                        heap_key,
                        crate_part,
                        file_path,
                        web,
                        running,
                        manifests,
                    ),
                    None => ResourceAsk::Mismatch,
                }
            },
            None => ResourceAsk::Mismatch,
        }
    }

    /// A script asks for what is at a URL; `allowed` is whether its heap may load
    /// that.
    pub fn http_resource(&self, heap_key: usize, url: Option<&str>, allowed: bool) -> (r: ResourceAsk)
        requires
            self.wf(),
        ensures
            r@ == match url {
                Some(u) => if allowed {
                    asked(self, heap_key, plain(u@))
                } else {
                    AskView::Refused("this app may not load "@ + u@)
                },
                None => AskView::Mismatch,
            },
    {
        match url {
            Some(u) => {
                if !allowed {
                    let mut out: Vec<char> = Vec::new();
                    push_text(&mut out, "this app may not load ");
                    push_text(&mut out, u);
                    assert(out@ =~= "this app may not load "@ + u@);
                    return ResourceAsk::Refused(to_text(out.as_slice()));
                }
                self.ask(
                    heap_key,
                    ResourcePaths { abs_path: u.to_owned(), dependency_path: None, web_url: None },
                )
            },
            None => ResourceAsk::Mismatch,
        }
    }

    /// A heap has made a handle for a resource: it joins the heaps that hold the
    /// resource, or the resource is new. Whether it is new.
    fn enter(&mut self, heap_key: usize, handle: u64, paths: ResourcePaths, data: CxScriptResourceData) -> (r:
        bool)
        requires
            old(self).wf(),
        ensures
            final(self).wf(),
            final(self).http_resources == old(self).http_resources,
            r == index_of_path(views(old(self).resources@), paths@.abs_path, 0) is None,
            entered(old(self), final(self), heap_key, handle, paths@, data@),
    {
        if self.attach_handle_for_path(heap_key, paths.abs_path.as_str(), handle) {
            return false;
        }
        let handles: Vec<(usize, u64)> = vec![(heap_key, handle)];
        let resource = CxScriptResource {
            abs_path: paths.abs_path,
            dependency_path: paths.dependency_path,
            web_url: paths.web_url,
            data,
            handles,
        };
        assert(resource@ == fresh(heap_key, handle, paths@, data@)) by {
            assert(resource@.handles =~= seq![(heap_key, handle)]);
        }
        self.insert_resource(heap_key, resource);
        true
    }

    /// A heap has made a handle for a file, of a crate or not.
    pub fn register(&mut self, heap_key: usize, handle: u64, paths: ResourcePaths)
        requires
            old(self).wf(),
        ensures
            final(self).wf(),
            final(self).http_resources == old(self).http_resources,
            entered(
                old(self),
                final(self),
                heap_key,
                handle,
                paths@,
                ResourceDataView::NotLoaded,
            ),
    {
        self.enter(heap_key, handle, paths, CxScriptResourceData::NotLoaded);
    }

    /// A heap has made a handle for what is at a URL. Whether the request that
    /// fills the resource is to be issued.
    pub fn register_http(&mut self, heap_key: usize, handle: u64, url: &str, request_id: u64) -> (r: bool)
        requires
            old(self).wf(),
        ensures
            final(self).wf(),
            r == index_of_path(views(old(self).resources@), url@, 0) is None,
            requests(final(self).http_resources@) == if r {
                requests(old(self).http_resources@).push((request_id, url@))
            } else {
                requests(old(self).http_resources@)
            },
            entered(
                old(self),
                final(self),
                heap_key,
                handle,
                plain(url@),
                ResourceDataView::Loading,
            ),
    {
        let paths = ResourcePaths {
            abs_path: url.to_owned(),
            dependency_path: None,
            web_url: None,
        };
        if self.enter(heap_key, handle, paths, CxScriptResourceData::Loading) {
            let ghost before = self.http_resources@;
            self.http_resources.push(CxScriptHttpResource { request_id, abs_path: url.to_owned() });
            assert(requests(self.http_resources@) =~= requests(before).push((request_id, url@)));
            true
        } else {
            false
        }
    }

    /// A heap has made a handle for bytes of its own; `unique` is what sets them
    /// apart from all others.
    pub fn binary_resource(&mut self, heap_key: usize, handle: u64, unique: u64, data: Vec<u8>)
        requires
            old(self).wf(),
        ensures
            final(self).wf(),
            final(self).http_resources == old(self).http_resources,
            views(final(self).resources@) == views(old(self).resources@).push(
                fresh(
                    heap_key,
                    handle,
                    plain("binary://"@ + spec_decimal(unique as nat)),
                    ResourceDataView::Loaded(data@),
                ),
            ),
            final(self).handles_by_abs_path@ == old(self).handles_by_abs_path@.insert(
                (heap_key, "binary://"@ + spec_decimal(unique as nat)),
                handle,
            ),
            final(self).generation == next_count(old(self).generation),
    {
        let mut out: Vec<char> = Vec::new();
        push_text(&mut out, "binary://");
        let name = decimal(unique);
        push_all(&mut out, name.as_slice());
        assert(out@ =~= "binary://"@ + spec_decimal(unique as nat));
        let handles: Vec<(usize, u64)> = vec![(heap_key, handle)];
        let resource = CxScriptResource {
            abs_path: to_text(out.as_slice()),
            dependency_path: None,
            web_url: None,
            data: CxScriptResourceData::Loaded(data),
            handles,
        };
        assert(resource@.handles =~= seq![(heap_key, handle)]);
        self.insert_resource(heap_key, resource);
    }
}

/// A resource that one heap holds.
pub open spec fn fresh(heap: usize, handle: u64, paths: ResourcePathsView, data: ResourceDataView) -> ResourceView {
    ResourceView {
        abs_path: paths.abs_path,
        dependency_path: paths.dependency_path,
        web_url: paths.web_url,
        data,
        handles: seq![(heap, handle)],
    }
}

/// The table after a heap has made a handle for a resource.
pub open spec fn entered(
    before: &CxScriptResources,
    after: &CxScriptResources,
    heap: usize,
    handle: u64,
    paths: ResourcePathsView,
    data: ResourceDataView,
) -> bool {
    let v = views(before.resources@);
    &&& after.handles_by_abs_path@ == before.handles_by_abs_path@.insert(
        (heap, paths.abs_path),
        handle,
    )
    &&& match index_of_path(v, paths.abs_path, 0) {
        Some(i) => views(after.resources@) == v.update(
            i,
            (ResourceView { handles: v[i].handles.push((heap, handle)), ..v[i] }),
        ) && after.generation == before.generation,
        None => views(after.resources@) == v.push(fresh(heap, handle, paths, data))
            && after.generation == next_count(before.generation),
    }
}

/// A resource that a heap has asked for before keeps its handle, and is new to every other
/// heap.
pub proof fn a_resource_keeps_its_handle(
    t: &CxScriptResources,
    heap: usize,
    path: Seq<char>,
    handle: u64,
)
    ensures
        owned(t.handles_by_abs_path@, path, heap, handle) ==> asked(t, heap, plain(path))
            == AskView::Known(handle),
        (forall|h: u64| !#[trigger] owned(t.handles_by_abs_path@, path, heap, h)) ==> asked(
            t,
            heap,
            plain(path),
        ) == AskView::New(plain(path)),
        plain(path).abs_path == path,
        fresh(heap, handle, plain(path), ResourceDataView::NotLoaded).handles.contains(
            (heap, handle),
        ),
        fresh(heap, handle, plain(path), ResourceDataView::NotLoaded).abs_path == path,
{
    let m = t.handles_by_abs_path@;
    if forall|h: u64| !#[trigger] owned(m, path, heap, h) {
        if m.contains_key((heap, path)) {
            assert(owned(m, path, heap, m[(heap, path)]));
        }
    }
    assert(seq![(heap, handle)][0] == (heap, handle));
}

} // verus!
