//! Loads of resources, step by step.
//!
//! Where a resource comes from depends on the host. Unpackaged, it is a
//! dependency, or a file. Packaged, it is a dependency, or a file of the package;
//! some hosts find the files of the package as dependencies. On the web it is a
//! dependency, or what a server answers.
use crate::script::crate_paths::{
    candidates, resolve_dependency_path_from_manifests, spec_resolve_dependency_path,
    spec_web_resource_request_path, web_resource_request_path,
};
use crate::script::fetches::next_count;
use crate::script::resources::{
    index_of_path, requests, views, with_data, CxScriptHttpResource, CxScriptResource,
    CxScriptResourceData, CxScriptResources, ResourceDataView, ResourceView,
};
use crate::text::{debug_text, in_quotes, push_text, same_text, strings, text_of, to_text};
use crate::textmap::TextMap;
use vstd::prelude::*;

verus! {

#[derive(Clone, Copy, PartialEq, Eq, Structural)]
pub enum HostKind {
    /// A browser. Before it has said where it is, nothing is loaded.
    Web { known: bool },
    /// The files of the package are dependencies.
    Android,
    Other,
}

/// Where resources are loaded.
pub struct LoadHost {
    pub kind: HostKind,
    /// Where the files of the package are, if the program is packaged.
    pub package_root: Option<String>,
    /// The path of the page.
    pub pathname: Option<String>,
}

/// What a load does next.
pub enum LoadStep {
    /// Nothing.
    Done,
    /// Look for a dependency.
    Dependency(String),
    /// Read a file of the package.
    Packaged(String),
    /// Read a file.
    Direct(String),
    /// Issue a request.
    Request(String),
}

pub enum LoadView {
    Done,
    Dependency(Seq<char>),
    Packaged(Seq<char>),
    Direct(Seq<char>),
    Request(Seq<char>),
}

impl View for LoadStep {
    type V = LoadView;

    open spec fn view(&self) -> LoadView {
        match self {
            LoadStep::Done => LoadView::Done,
            LoadStep::Dependency(p) => LoadView::Dependency(p@),
            LoadStep::Packaged(p) => LoadView::Packaged(p@),
            LoadStep::Direct(p) => LoadView::Direct(p@),
            LoadStep::Request(u) => LoadView::Request(u@),
        }
    }
}

/// What is said of a resource that is nowhere.
pub open spec fn not_found(r: ResourceView, packaged: bool) -> Seq<char> {
    "Failed to load resource: "@ + r.abs_path + " (dep: "@ + (match r.dependency_path {
        Some(dep) => "Some("@ + in_quotes(dep) + ")"@,
        None => "None"@,
    }) + ", packaged: "@ + (if packaged {
        "true"@
    } else {
        "false"@
    }) + ")"@
}

fn not_found_text(r: &CxScriptResource, packaged: bool) -> (m: String)
    ensures
        m@ == not_found(r@, packaged),
{
    let mut out: Vec<char> = Vec::new();
    push_text(&mut out, "Failed to load resource: ");
    push_text(&mut out, r.abs_path.as_str());
    push_text(&mut out, " (dep: ");
    match &r.dependency_path {
        Some(dep) => {
            let q = debug_text(dep.as_str());
            let ghost before = out@;
            push_text(&mut out, "Some(");
            push_text(&mut out, q.as_str());
            push_text(&mut out, ")");
            assert(out@ =~= before + ("Some("@ + in_quotes(dep@) + ")"@));
        },
        None => {
            push_text(&mut out, "None");
        },
    }
    push_text(&mut out, ", packaged: ");
    if packaged {
        push_text(&mut out, "true");
    } else {
        push_text(&mut out, "false");
    }
    push_text(&mut out, ")");
    to_text(out.as_slice())
}

/// A resource as a load begins: on the web it learns what it is called as a
/// dependency, and where the page finds it.
pub open spec fn located(r: ResourceView, host: &LoadHost, manifests: &TextMap<String>) -> ResourceView {
    if host.kind is Web {
        let dep = match r.dependency_path {
            Some(dep) => Some(dep),
            None => spec_resolve_dependency_path(r.abs_path, candidates(None, manifests)),
        };
        ResourceView {
            dependency_path: dep,
            web_url: match dep {
                Some(d) => Some(
                    "/"@ + spec_web_resource_request_path(text_of(host.pathname), d),
                ),
                None => None,
            },
            ..r
        }
    } else {
        r
    }
}

/// Where a load goes on that has found no dependency: the resource, and the next
/// step.
pub open spec fn elsewhere(r: ResourceView, host: &LoadHost) -> (ResourceView, LoadView) {
    let missing = with_data(r, ResourceDataView::Error(not_found(r, host.package_root is Some)));
    match host.kind {
        HostKind::Web { .. } => match r.web_url {
            Some(url) => (with_data(r, ResourceDataView::Loading), LoadView::Request(url)),
            None => (missing, LoadView::Done),
        },
        _ => match host.package_root {
            Some(root) => match r.dependency_path {
                Some(dep) if host.kind is Other => (
                    r,
                    LoadView::Packaged(root@ + "/"@ + dep),
                ),
                _ => (missing, LoadView::Done),
            },
            None => (r, LoadView::Direct(r.abs_path)),
        },
    }
}

/// Whether the table is as before but for one resource, and the request that is
/// to fill it.
pub open spec fn only_changed(
    before: &CxScriptResources,
    after: &CxScriptResources,
    i: int,
    now: ResourceView,
    step: LoadView,
    request_id: u64,
) -> bool {
    let v = views(before.resources@);
    &&& views(after.resources@) == v.update(i, now)
    &&& after.handles_by_abs_path == before.handles_by_abs_path
    &&& requests(after.http_resources@) == if step is Request {
        requests(before.http_resources@).push((request_id, v[i].abs_path))
    } else {
        requests(before.http_resources@)
    }
}

fn set_data(t: &mut CxScriptResources, i: usize, data: CxScriptResourceData)
    requires
        old(t).wf(),
        i < old(t).resources.len(),
    ensures
        final(t).wf(),
        views(final(t).resources@) == views(old(t).resources@).update(
            i as int,
            with_data(views(old(t).resources@)[i as int], data@),
        ),
        final(t).handles_by_abs_path == old(t).handles_by_abs_path,
        final(t).http_resources == old(t).http_resources,
        final(t).generation == old(t).generation,
{
    let ghost v = views(t.resources@);
    t.resources[i].data = data;
    proof {
        assert(t.resources@[i as int]@ == with_data(v[i as int], data@));
        assert(views(t.resources@) =~= v.update(i as int, with_data(v[i as int], data@)));
    }
}

/// A load goes on that has found no dependency.
fn go_on(t: &mut CxScriptResources, i: usize, host: &LoadHost, request_id: u64) -> (r: LoadStep)
    requires
        old(t).wf(),
        i < old(t).resources.len(),
    ensures
        final(t).wf(),
        final(t).generation == old(t).generation,
        ({
            let e = elsewhere(views(old(t).resources@)[i as int], host);
            r@ == e.1 && only_changed(old(t), final(t), i as int, e.0, e.1, request_id)
        }),
{
    let ghost v = views(t.resources@);
    assert(v[i as int] == t.resources@[i as int]@);
    assert(v =~= v.update(i as int, v[i as int]));
    let web = match host.kind {
        HostKind::Web { .. } => true,
        _ => false,
    };
    let missing = not_found_text(&t.resources[i], host.package_root.is_some());
    if web {
        let url = match &t.resources[i].web_url {
            Some(url) => Some(url.clone()),
            None => None,
        };
        match url {
            Some(url) => {
                let ghost before = t.http_resources@;
                let abs_path = t.resources[i].abs_path.clone();
                set_data(t, i, CxScriptResourceData::Loading);
                t.http_resources.push(CxScriptHttpResource { request_id, abs_path });
                assert(requests(t.http_resources@) =~= requests(before).push(
                    (request_id, v[i as int].abs_path),
                ));
                LoadStep::Request(url)
            },
            None => {
                set_data(t, i, CxScriptResourceData::Error(missing));
                LoadStep::Done
            },
        }
    } else {
        match &host.package_root {
            Some(root) => {
                let file = match &t.resources[i].dependency_path {
                    Some(dep) => {
                        if host.kind == HostKind::Other {
                            let mut out: Vec<char> = Vec::new();
                            push_text(&mut out, root.as_str());
                            push_text(&mut out, "/");
                            push_text(&mut out, dep.as_str());
                            assert(out@ =~= root@ + "/"@ + dep@);
                            Some(to_text(out.as_slice()))
                        } else {
                            None
                        }
                    },
                    None => None,
                };
                match file {
                    Some(file) => LoadStep::Packaged(file),
                    None => {
                        set_data(t, i, CxScriptResourceData::Error(missing));
                        LoadStep::Done
                    },
                }
            },
            None => LoadStep::Direct(t.resources[i].abs_path.clone()),
        }
    }
}

/// Whether a load of a path begins: the host is known, and the resource has not
/// been loaded yet.
pub open spec fn begins(t: &CxScriptResources, path: Seq<char>, host: &LoadHost) -> bool {
    &&& host.kind != (HostKind::Web { known: false })
    &&& index_of_path(views(t.resources@), path, 0) matches Some(i) && views(
        t.resources@,
    )[i].data is NotLoaded
}

impl CxScriptResources {
    /// A load of a path begins, if it may; `request_id` is the request that is
    /// issued where one has to be.
    pub fn load_script_resource(
        &mut self,
        path: &str,
        host: &LoadHost,
        manifests: &TextMap<String>,
        request_id: u64,
    ) -> (r: LoadStep)
        requires
            old(self).wf(),
            manifests.wf(),
        ensures
            final(self).wf(),
            !begins(old(self), path@, host) ==> r@ is Done && *final(self) == *old(self),
            begins(old(self), path@, host) ==> {
                let i = index_of_path(views(old(self).resources@), path@, 0)->0;
                let found = located(views(old(self).resources@)[i], host, manifests);
                &&& final(self).generation == next_count(old(self).generation)
                &&& match found.dependency_path {
                    Some(dep) => r@ == LoadView::Dependency(dep) && only_changed(
                        old(self),
                        final(self),
                        i,
                        found,
                        r@,
                        request_id,
                    ),
                    None => r@ == elsewhere(found, host).1 && only_changed(
                        old(self),
                        final(self),
                        i,
                        elsewhere(found, host).0,
                        r@,
                        request_id,
                    ),
                }
            },
    {
        if host.kind == (HostKind::Web { known: false }) {
            return LoadStep::Done;
        }
        let i = match self.position(path) {
            Some(i) => i,
            None => {
                return LoadStep::Done;
            },
        };
        let ghost v = views(self.resources@);
        assert(v[i as int] == self.resources@[i as int]@);
        match &self.resources[i].data {
            CxScriptResourceData::NotLoaded => {},
            _ => {
                return LoadStep::Done;
            },
        }
        self.bump_generation();
        let web = match host.kind {
            HostKind::Web { .. } => true,
            _ => false,
        };
        let ghost found = located(v[i as int], host, manifests);
        if web {
            let dep = match &self.resources[i].dependency_path {
                Some(dep) => Some(dep.clone()),
                None => resolve_dependency_path_from_manifests(
                    self.resources[i].abs_path.as_str(),
                    None,
                    manifests,
                ),
            };
            let url = match &dep {
                Some(dep) => {
                    let pathname = match &host.pathname {
                        Some(p) => Some(p.as_str()),
                        None => None,
                    };
                    let asked = web_resource_request_path(pathname, dep.as_str());
                    let mut out: Vec<char> = Vec::new();
                    push_text(&mut out, "/");
                    push_text(&mut out, asked.as_str());
                    assert(out@ =~= "/"@ + asked@);
                    Some(to_text(out.as_slice()))
                },
                None => None,
            };
            self.resources[i].dependency_path = dep;
            self.resources[i].web_url = url;
        }
        proof {
            assert(self.resources@[i as int]@ == found);
            assert(views(self.resources@) =~= v.update(i as int, found));
        }
        let ghost mid = *self;
        let dep = match &self.resources[i].dependency_path {
            Some(dep) => Some(dep.clone()),
            None => None,
        };
        match dep {
            Some(dep) => LoadStep::Dependency(dep),
            None => {
                let r = go_on(self, i, host, request_id);
                proof {
                    assert(v.update(i as int, found).update(i as int, elsewhere(found, host).0)
                        =~= v.update(i as int, elsewhere(found, host).0));
                    assert(views(mid.resources@)[i as int] == found);
                }
                r
            },
        }
    }

    /// A dependency was looked for; `data` is what it holds, if it was found.
    pub fn dependency_answered(
        &mut self,
        path: &str,
        host: &LoadHost,
        data: Option<Vec<u8>>,
        request_id: u64,
    ) -> (r: LoadStep)
        requires
            old(self).wf(),
        ensures
            final(self).wf(),
            final(self).generation == old(self).generation,
            match index_of_path(views(old(self).resources@), path@, 0) {
                Some(i) => {
                    let was = views(old(self).resources@)[i];
                    match data {
                        Some(bytes) => r@ is Done && only_changed(
                            old(self),
                            final(self),
                            i,
                            with_data(was, ResourceDataView::Loaded(bytes@)),
                            r@,
                            request_id,
                        ),
                        None => r@ == elsewhere(was, host).1 && only_changed(
                            old(self),
                            final(self),
                            i,
                            elsewhere(was, host).0,
                            r@,
                            request_id,
                        ),
                    }
                },
                None => r@ is Done && *final(self) == *old(self),
            },
    {
        match self.position(path) {
            Some(i) => match data {
                Some(bytes) => {
                    set_data(self, i, CxScriptResourceData::Loaded(bytes));
                    LoadStep::Done
                },
                None => go_on(self, i, host, request_id),
            },
            None => LoadStep::Done,
        }
    }

    /// A file was read, one of the package or another: its bytes, or why they
    /// cannot be read; nothing where there is no such file.
    pub fn file_answered(&mut self, path: &str, host: &LoadHost, data: Option<Result<Vec<u8>, String>>)
        requires
            old(self).wf(),
        ensures
            final(self).wf(),
            final(self).generation == old(self).generation,
            match index_of_path(views(old(self).resources@), path@, 0) {
                Some(i) => {
                    let was = views(old(self).resources@)[i];
                    only_changed(
                        old(self),
                        final(self),
                        i,
                        with_data(
                            was,
                            match data {
                                Some(Ok(bytes)) => ResourceDataView::Loaded(bytes@),
                                Some(Err(e)) => ResourceDataView::Error(e@),
                                None => ResourceDataView::Error(
                                    not_found(was, host.package_root is Some),
                                ),
                            },
                        ),
                        LoadView::Done,
                        0,
                    )
                },
                None => *final(self) == *old(self),
            },
    {
        if let Some(i) = self.position(path) {
            let missing = not_found_text(&self.resources[i], host.package_root.is_some());
            assert(views(self.resources@)[i as int] == self.resources@[i as int]@);
            set_data(
                self,
                i,
                match data {
                    Some(Ok(bytes)) => CxScriptResourceData::Loaded(bytes),
                    Some(Err(e)) => CxScriptResourceData::Error(e),
                    None => CxScriptResourceData::Error(missing),
                },
            );
        }
    }
}

// ---------------------------------------------------------------------------
// Which resources are loaded
// ---------------------------------------------------------------------------

/// The first resource, `from` or later, that is a given dependency.
pub open spec fn index_of_dependency(v: Seq<ResourceView>, dep: Seq<char>, from: int) -> Option<int>
    decreases v.len() - from,
{
    if from < 0 || from >= v.len() {
        None
    } else if v[from].dependency_path == Some(dep) {
        Some(from)
    } else {
        index_of_dependency(v, dep, from + 1)
    }
}

/// The paths of the resources that a font set declares, in its order.
pub open spec fn declared_paths(v: Seq<ResourceView>, assets: Seq<Seq<char>>) -> Seq<Seq<char>>
    decreases assets.len(),
{
    if assets.len() == 0 {
        seq![]
    } else {
        let before = declared_paths(v, assets.drop_last());
        match index_of_dependency(v, assets.last(), 0) {
            Some(i) => before.push(v[i].abs_path),
            None => before,
        }
    }
}

/// Whether a font set declares a resource.
pub open spec fn declares(assets: Seq<Seq<char>>, dep: Option<Seq<char>>) -> bool {
    match dep {
        Some(d) => assets.contains(d),
        None => false,
    }
}

/// The paths of the resources that no font set declares.
pub open spec fn undeclared_paths(v: Seq<ResourceView>, assets: Seq<Seq<char>>) -> Seq<Seq<char>>
    decreases v.len(),
{
    if v.len() == 0 {
        seq![]
    } else {
        let before = undeclared_paths(v.drop_last(), assets);
        if declares(assets, v.last().dependency_path) {
            before
        } else {
            before.push(v.last().abs_path)
        }
    }
}

/// Whether a font set, given by the assets it declares, declares a resource.
pub fn font_policy_declares_path(assets: &Vec<String>, dependency_path: Option<&str>) -> (r: bool)
    ensures
        r == declares(
            strings(assets@),
            match dependency_path {
                Some(d) => Some(d@),
                None => None,
            },
        ),
{
    let dep = match dependency_path {
        Some(dep) => dep,
        None => {
            return false;
        },
    };
    let mut i: usize = 0;
    while i < assets.len()
        invariant
            i <= assets.len(),
            dependency_path == Some(dep),
            forall|j: int| 0 <= j < i ==> #[trigger] assets@[j]@ != dep@,
        decreases assets.len() - i,
    {
        if same_text(assets[i].as_str(), dep) {
            assert(strings(assets@)[i as int] == dep@);
            return true;
        }
        i = i + 1;
    }
    assert forall|j: int| 0 <= j < strings(assets@).len() implies strings(assets@)[j] != dep@ by {
        assert(assets@[j]@ != dep@);
    }
    false
}

impl CxScriptResources {
    fn dependency_position(&self, dep: &str) -> (r: Option<usize>)
        ensures
            match r {
                Some(i) => i < self.resources.len() && index_of_dependency(
                    views(self.resources@),
                    dep@,
                    0,
                ) == Some(i as int),
                None => index_of_dependency(views(self.resources@), dep@, 0) is None,
            },
    {
        let mut i: usize = 0;
        while i < self.resources.len()
            invariant
                i <= self.resources.len(),
                index_of_dependency(views(self.resources@), dep@, 0) == index_of_dependency(
                    views(self.resources@),
                    dep@,
                    i as int,
                ),
            decreases self.resources.len() - i,
        {
            assert(views(self.resources@)[i as int] == self.resources@[i as int]@);
            if let Some(d) = &self.resources[i].dependency_path {
                if same_text(d.as_str(), dep) {
                    return Some(i);
                }
            }
            i = i + 1;
        }
        None
    }

    /// The paths that are loaded before anything needs them: those of the
    /// resources that the font set declares, and no others.
    pub fn preload_font_set(&self, assets: &Vec<String>) -> (r: Vec<String>)
        ensures
            strings(r@) == declared_paths(views(self.resources@), strings(assets@)),
    {
        let ghost v = views(self.resources@);
        let ghost all = strings(assets@);
        let mut r: Vec<String> = Vec::new();
        let mut i: usize = 0;
        assert(strings(r@) =~= declared_paths(v, all.take(0)));
        while i < assets.len()
            invariant
                i <= assets.len(),
                v == views(self.resources@),
                all == strings(assets@),
                strings(r@) == declared_paths(v, all.take(i as int)),
            decreases assets.len() - i,
        {
            assert(all.take(i + 1).drop_last() =~= all.take(i as int));
            assert(all.take(i + 1).last() == assets@[i as int]@);
            if let Some(n) = self.dependency_position(assets[i].as_str()) {
                let ghost before = r@;
                r.push(self.resources[n].abs_path.clone());
                assert(strings(r@) =~= strings(before).push(v[n as int].abs_path));
            }
            i = i + 1;
        }
        assert(all.take(i as int) =~= all);
        r
    }

    /// The paths that are loaded when everything is: those of the resources that
    /// the font set does not declare.
    pub fn load_all_script_resources(&self, assets: &Vec<String>) -> (r: Vec<String>)
        ensures
            strings(r@) == undeclared_paths(views(self.resources@), strings(assets@)),
    {
        let ghost v = views(self.resources@);
        let mut r: Vec<String> = Vec::new();
        let mut i: usize = 0;
        assert(strings(r@) =~= undeclared_paths(v.take(0), strings(assets@)));
        while i < self.resources.len()
            invariant
                i <= self.resources.len(),
                v == views(self.resources@),
                strings(r@) == undeclared_paths(v.take(i as int), strings(assets@)),
            decreases self.resources.len() - i,
        {
            assert(v.take(i + 1).drop_last() =~= v.take(i as int));
            assert(v.take(i + 1).last() == self.resources@[i as int]@);
            let dep = match &self.resources[i].dependency_path {
                Some(dep) => Some(dep.as_str()),
                None => None,
            };
            if !font_policy_declares_path(assets, dep) {
                let ghost before = r@;
                r.push(self.resources[i].abs_path.clone());
                assert(strings(r@) =~= strings(before).push(v[i as int].abs_path));
            }
            i = i + 1;
        }
        assert(v.take(i as int) =~= v);
        r
    }
}

/// A load that has nothing more to do, or only waits for a request, has left the
/// state in which it began.
pub proof fn a_load_settles(r: ResourceView, host: &LoadHost)
    ensures
        elsewhere(r, host).1 is Done || elsewhere(r, host).1 is Request ==> !(elsewhere(r, host).0.data
            is NotLoaded),
        elsewhere(r, host).1 is Packaged <==> host.kind is Other && host.package_root is Some
            && r.dependency_path is Some,
        elsewhere(r, host).1 is Direct <==> !(host.kind is Web) && host.package_root is None,
{
}

proof fn first_of_dependency(v: Seq<ResourceView>, dep: Seq<char>, from: int)
    requires
        0 <= from <= v.len(),
    ensures
        match index_of_dependency(v, dep, from) {
            Some(i) => from <= i < v.len() && v[i].dependency_path == Some(dep),
            None => forall|i: int|
                from <= i < v.len() ==> (#[trigger] v[i]).dependency_path != Some(dep),
        },
    decreases v.len() - from,
{
    if from < v.len() && v[from].dependency_path != Some(dep) {
        first_of_dependency(v, dep, from + 1);
    }
}

/// The fonts that a policy declares are loaded by themselves and all other resources with
/// the rest, in their order: a resource is left out of the rest where it is declared, and
/// only there.
pub proof fn each_resource_is_loaded_one_way(
    before: Seq<ResourceView>,
    r: ResourceView,
    assets: Seq<Seq<char>>,
)
    ensures
        (match r.dependency_path {
            Some(d) => !assets.contains(d),
            None => true,
        }) ==> undeclared_paths(before.push(r), assets) == undeclared_paths(before, assets).push(
            r.abs_path,
        ),
        (match r.dependency_path {
            Some(d) => assets.contains(d),
            None => false,
        }) ==> undeclared_paths(before.push(r), assets) == undeclared_paths(before, assets),
        undeclared_paths(before, Seq::empty()).len() == before.len(),
    decreases before.len(),
{
    assert(before.push(r).drop_last() =~= before);
    if before.len() > 0 {
        each_resource_is_loaded_one_way(before.drop_last(), before.last(), Seq::empty());
        assert(before.drop_last().push(before.last()) =~= before);
        let none = Seq::<Seq<char>>::empty();
        if let Some(d) = before.last().dependency_path {
            assert(!none.contains(d));
        }
    }
}

/// A declared font is loaded where a resource has it, in the order of the declaration.
pub proof fn declared_fonts_are_loaded_in_order(
    v: Seq<ResourceView>,
    assets: Seq<Seq<char>>,
    asset: Seq<char>,
    i: int,
)
    requires
        0 <= i < v.len(),
        v[i].dependency_path == Some(asset),
        forall|j: int| 0 <= j < v.len() && j != i ==> (#[trigger] v[j]).dependency_path != Some(asset),
    ensures
        declared_paths(v, assets.push(asset)) == declared_paths(v, assets).push(v[i].abs_path),
{
    assert(assets.push(asset).drop_last() =~= assets);
    first_of_dependency(v, asset, 0);
}

/// A resource that is no dependency is read from where it is: below the package where there
/// is one, over the net in a browser, and else by its own path. What cannot be found is an
/// error, and a resource keeps its name whatever comes of it.
pub proof fn a_resource_is_read_from_where_it_is(r: ResourceView, host: &LoadHost)
    ensures
        ({
            let (after, step) = elsewhere(r, host);
            &&& after.abs_path == r.abs_path && after.dependency_path == r.dependency_path
                && after.web_url == r.web_url && after.handles == r.handles
            &&& step matches LoadView::Direct(p) ==> p == r.abs_path && host.package_root is None
            &&& step matches LoadView::Packaged(p) ==> (host.package_root matches Some(root)
                && r.dependency_path matches Some(dep) && p == root@ + "/"@ + dep)
            &&& step matches LoadView::Request(u) ==> r.web_url == Some(u) && after.data is Loading
            &&& step is Done ==> after.data is Error
            &&& host.kind is Web && r.web_url is Some ==> step is Request
            &&& !(host.kind is Web) && host.package_root is None ==> step is Direct
        }),
{
}

/// In a browser a resource is asked for below the page, and elsewhere it stays as it is.
pub proof fn a_browser_asks_below_the_page(
    r: ResourceView,
    host: &LoadHost,
    manifests: &TextMap<String>,
    dep: Seq<char>,
)
    requires
        r.dependency_path == Some(dep),
    ensures
        host.kind is Web ==> located(r, host, manifests).web_url == Some(
            "/"@ + spec_web_resource_request_path(text_of(host.pathname), dep),
        ) && located(r, host, manifests).dependency_path == Some(dep),
        !(host.kind is Web) ==> located(r, host, manifests) == r,
        located(r, host, manifests).abs_path == r.abs_path,
        located(r, host, manifests).handles == r.handles,
{
}

} // verus!
