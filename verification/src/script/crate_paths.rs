//! Where the resources of a crate are.
use crate::paths::{
    follow, followed, followed_paths_do_not_climb, goes_down, steps_down_are_followed,
};
use crate::text::{
    char_found_at, find, find_char, find_is_first, found_at, join, joined_text_splits_back,
    occurs_at, parts_hold_no_separator, push_all, push_text, rfind_char, same, same_text, spec_find,
    spec_find_char, spec_join, spec_rfind_char, spec_split, split, text_of, texts, to_chars,
    to_text,
};
use crate::textmap::TextMap;
use vstd::prelude::*;
use vstd::slice::slice_subrange;

verus! {

// ---------------------------------------------------------------------------
// Characters of a path
// ---------------------------------------------------------------------------

/// `s` with one character written for another.
pub open spec fn spec_swap(s: Seq<char>, from: char, to: char) -> Seq<char> {
    s.map_values(
        |c: char|
            if c == from {
                to
            } else {
                c
            },
    )
}

pub fn swap(s: &[char], from: char, to: char) -> (r: Vec<char>)
    ensures
        r@ == spec_swap(s@, from, to),
{
    let mut r: Vec<char> = Vec::new();
    let mut i: usize = 0;
    while i < s.len()
        invariant
            i <= s.len(),
            r@ == spec_swap(s@.take(i as int), from, to),
        decreases s.len() - i,
    {
        let c = s[i];
        r.push(
            if c == from {
                to
            } else {
                c
            },
        );
        i = i + 1;
        assert(r@ =~= spec_swap(s@.take(i as int), from, to));
    }
    assert(s@.take(i as int) =~= s@);
    r
}

/// `s` without the slashes at its start.
pub open spec fn without_lead(s: Seq<char>) -> Seq<char>
    decreases s.len(),
{
    if s.len() > 0 && s[0] == '/' {
        without_lead(s.skip(1))
    } else {
        s
    }
}

/// `s` without the slashes at its end.
pub open spec fn without_trail(s: Seq<char>) -> Seq<char>
    decreases s.len(),
{
    if s.len() > 0 && s.last() == '/' {
        without_trail(s.drop_last())
    } else {
        s
    }
}

/// `self:path` and `self://path` name the same file.
pub fn strip_crate_resource_leading_slashes(s: &[char]) -> (r: &[char])
    ensures
        r@ == without_lead(s@),
{
    let mut i: usize = 0;
    assert(s@.skip(0) =~= s@);
    while i < s.len() && s[i] == '/'
        invariant
            i <= s.len(),
            without_lead(s@) == without_lead(s@.skip(i as int)),
        decreases s.len() - i,
    {
        assert(s@.skip(i as int).skip(1) =~= s@.skip(i + 1));
        i = i + 1;
    }
    let r = slice_subrange(s, i, s.len());
    assert(r@ =~= s@.skip(i as int));
    r
}

pub fn strip_trailing_slashes(s: &[char]) -> (r: &[char])
    ensures
        r@ == without_trail(s@),
{
    let mut n: usize = s.len();
    assert(s@.take(n as int) =~= s@);
    while n > 0 && s[n - 1] == '/'
        invariant
            n <= s.len(),
            without_trail(s@) == without_trail(s@.take(n as int)),
        decreases n,
    {
        assert(s@.take(n as int).drop_last() =~= s@.take(n - 1));
        n = n - 1;
    }
    let r = slice_subrange(s, 0, n);
    assert(r@ =~= s@.take(n as int));
    r
}

// ---------------------------------------------------------------------------
// Paths on the web
// ---------------------------------------------------------------------------

/// The directory of a page, without slashes around it: a page whose last part
/// has a dot is a file in it.
pub open spec fn spec_web_resource_base_path(pathname: Seq<char>) -> Seq<char> {
    let p = without_trail(pathname);
    match spec_rfind_char(p, '/', p.len() as int) {
        Some(n) => if p.skip(n + 1).contains('.') {
            without_lead(p.take(n))
        } else {
            without_lead(p)
        },
        None => if p.contains('.') {
            seq![]
        } else {
            p
        },
    }
}

proof fn rfind_char_in_range(s: Seq<char>, c: char, upto: int)
    requires
        0 <= upto <= s.len(),
    ensures
        spec_rfind_char(s, c, upto) matches Some(n) ==> 0 <= n < upto && s[n] == c,
        spec_rfind_char(s, c, upto) is None ==> forall|i: int| 0 <= i < upto ==> s[i] != c,
    decreases upto,
{
    if upto > 0 && s[upto - 1] != c {
        rfind_char_in_range(s, c, upto - 1);
    }
}

fn has_char(s: &[char], c: char) -> (r: bool)
    ensures
        r == s@.contains(c),
{
    let mut i: usize = 0;
    while i < s.len()
        invariant
            i <= s.len(),
            forall|j: int| 0 <= j < i ==> s@[j] != c,
        decreases s.len() - i,
    {
        if s[i] == c {
            assert(s@[i as int] == c);
            return true;
        }
        i = i + 1;
    }
    false
}

pub fn web_resource_base_path(pathname: &str) -> (r: String)
    ensures
        r@ == spec_web_resource_base_path(pathname@),
{
    let all = to_chars(pathname);
    let p = strip_trailing_slashes(all.as_slice());
    proof {
        rfind_char_in_range(p@, '/', p@.len() as int);
    }
    match rfind_char(p, '/') {
        Some(n) => {
            let last = slice_subrange(p, n + 1, p.len());
            assert(last@ =~= p@.skip(n + 1));
            if has_char(last, '.') {
                let base = slice_subrange(p, 0, n);
                assert(base@ =~= p@.take(n as int));
                to_text(strip_crate_resource_leading_slashes(base))
            } else {
                to_text(strip_crate_resource_leading_slashes(p))
            }
        },
        None => {
            if has_char(p, '.') {
                let r = String::new();
                assert(r@ =~= seq![]);
                r
            } else {
                to_text(p)
            }
        },
    }
}

/// What a page asks for to get a dependency.
pub open spec fn spec_web_resource_request_path(pathname: Option<Seq<char>>, dep: Seq<char>) -> Seq<
    char,
> {
    let base = match pathname {
        Some(p) => spec_web_resource_base_path(p),
        None => seq![],
    };
    if base.len() == 0 {
        dep
    } else {
        without_trail(base) + "/"@ + without_lead(dep)
    }
}

/// What a page asks for to get a dependency. `pathname` is the page's own, where
/// the host is a browser.
pub fn web_resource_request_path(pathname: Option<&str>, dep_path: &str) -> (r: String)
    ensures
        r@ == spec_web_resource_request_path(
            match pathname {
                Some(p) => Some(p@),
                None => None,
            },
            dep_path@,
        ),
{
    let base = match pathname {
        Some(p) => web_resource_base_path(p),
        None => {
            let empty = String::new();
            assert(empty@ =~= seq![]);
            empty
        },
    };
    let base_chars = to_chars(base.as_str());
    let dep = to_chars(dep_path);
    if base_chars.len() == 0 {
        to_text(dep.as_slice())
    } else {
        let mut out: Vec<char> = Vec::new();
        push_all(&mut out, strip_trailing_slashes(base_chars.as_slice()));
        push_text(&mut out, "/");
        push_all(&mut out, strip_crate_resource_leading_slashes(dep.as_slice()));
        assert(out@ =~= without_trail(base@) + "/"@ + without_lead(dep_path@));
        to_text(out.as_slice())
    }
}

// ---------------------------------------------------------------------------
// Paths in a crate
// ---------------------------------------------------------------------------

/// The crate and the file of a path such as `self:resources/file.jpg`, or of one
/// such as `crate/file.jpg` where a slash parts the two.
pub open spec fn spec_parts(path: Seq<char>, c: char) -> Option<(Seq<char>, Seq<char>)> {
    match spec_find_char(path, c, 0) {
        Some(n) => Some((path.take(n), path.skip(n + 1))),
        None => None,
    }
}

fn parts_at<'a>(path: &'a [char], c: char) -> (r: Option<(&'a [char], &'a [char])>)
    ensures
        match r {
            Some((a, b)) => spec_parts(path@, c) == Some((a@, b@)),
            None => spec_parts(path@, c) is None,
        },
{
    match find_char(path, c, 0) {
        Some(n) => {
            let a = slice_subrange(path, 0, n);
            let b = slice_subrange(path, n + 1, path.len());
            assert(a@ =~= path@.take(n as int));
            assert(b@ =~= path@.skip(n + 1));
            Some((a, b))
        },
        None => None,
    }
}

/// The crate and the file of a path such as `self:resources/file.jpg`.
pub fn parse_crate_path<'a>(path: &'a [char]) -> (r: Option<(&'a [char], &'a [char])>)
    ensures
        match r {
            Some((a, b)) => spec_parts(path@, ':') == Some((a@, b@)),
            None => spec_parts(path@, ':') is None,
        },
{
    parts_at(path, ':')
}

/// The crate and the file of a path such as `crate/resources/file.jpg`.
pub fn parse_logical_path<'a>(path: &'a [char]) -> (r: Option<(&'a [char], &'a [char])>)
    ensures
        match r {
            Some((a, b)) => spec_parts(path@, '/') == Some((a@, b@)),
            None => spec_parts(path@, '/') is None,
        },
{
    parts_at(path, '/')
}

/// A path with its steps followed and slashes between them.
pub open spec fn spec_normalize_dependency_file_path(path: Seq<char>) -> Option<Seq<char>> {
    match follow(spec_split(spec_swap(path, '\\', '/'), '/', 0)) {
        Some(steps) => Some(spec_join(steps, "/"@)),
        None => None,
    }
}

/// A path with its steps followed and slashes between them; none where it climbs
/// out of where it began.
pub fn normalize_dependency_file_path(path: &[char]) -> (r: Option<Vec<char>>)
    ensures
        match r {
            Some(p) => spec_normalize_dependency_file_path(path@) == Some(p@),
            None => spec_normalize_dependency_file_path(path@) is None,
        },
{
    let forward = swap(path, '\\', '/');
    let parts = split(forward.as_slice(), '/');
    match followed(&parts) {
        Some(steps) => {
            let slash = to_chars("/");
            Some(join(&steps, slash.as_slice()))
        },
        None => None,
    }
}

/// A path that has been followed: whether it begins at the root, and its steps.
pub struct NormalPath {
    pub absolute: bool,
    pub steps: Seq<Seq<char>>,
}

/// A path with its steps followed.
pub open spec fn spec_normalize_path(path: Seq<char>) -> Option<NormalPath> {
    match follow(spec_split(path, '/', 0)) {
        Some(steps) => Some(
            NormalPath { absolute: path.len() > 0 && path[0] == '/', steps },
        ),
        None => None,
    }
}

impl NormalPath {
    pub open spec fn text(&self) -> Seq<char> {
        (if self.absolute {
            "/"@
        } else {
            seq![]
        }) + spec_join(self.steps, "/"@)
    }

    /// Whether the other path begins with all of this one. The empty path begins
    /// every path.
    pub open spec fn leads(&self, other: NormalPath) -> bool {
        (self.absolute == other.absolute || !self.absolute && self.steps.len() == 0)
            && self.steps.len() <= other.steps.len() && other.steps.take(self.steps.len() as int)
            == self.steps
    }

    /// How much of another path this one takes up: its root counts too.
    pub open spec fn rank(&self) -> int {
        self.steps.len() + if self.absolute {
            1int
        } else {
            0
        }
    }
}

/// A file in a directory, as one path.
pub open spec fn spec_join_path(dir: Seq<char>, file: Seq<char>) -> Seq<char> {
    if dir.len() == 0 {
        file
    } else {
        dir + "/"@ + file
    }
}

/// Crates, each with its name and the directory of its manifest: the named one
/// first, then the known ones.
pub open spec fn candidates(
    named: Option<(Seq<char>, Seq<char>)>,
    manifests: &TextMap<String>,
) -> Seq<(Seq<char>, Seq<char>)> {
    (match named {
        Some(c) => seq![c],
        None => seq![],
    }) + Seq::new(
        manifests.spec_len(),
        |i: int| (manifests.key_at(i), manifests@[manifests.key_at(i)]@),
    )
}

/// What a path is called as a dependency of one crate, and how much of it the
/// crate's directory takes up.
pub open spec fn dependency_in(abs: NormalPath, name: Seq<char>, manifest: Seq<char>) -> Option<
    (int, Seq<char>),
> {
    match spec_normalize_path(manifest) {
        Some(dir) if dir.leads(abs) => match spec_normalize_dependency_file_path(
            spec_join(abs.steps.skip(dir.steps.len() as int), "/"@),
        ) {
            Some(rel) => Some((dir.rank(), name + "/"@ + rel)),
            None => None,
        },
        _ => None,
    }
}

/// The name under the crate whose directory takes up the most of the path; of
/// several, the one that comes first.
pub open spec fn best_dependency(abs: NormalPath, crates: Seq<(Seq<char>, Seq<char>)>) -> Option<
    (int, Seq<char>),
>
    decreases crates.len(),
{
    if crates.len() == 0 {
        None
    } else {
        let before = best_dependency(abs, crates.drop_last());
        match dependency_in(abs, crates.last().0, crates.last().1) {
            None => before,
            Some(found) => match before {
                Some(best) if best.0 >= found.0 => before,
                _ => Some(found),
            },
        }
    }
}

pub open spec fn spec_resolve_dependency_path(abs_path: Seq<char>, crates: Seq<(Seq<char>, Seq<char>)>) -> Option<
    Seq<char>,
> {
    match spec_normalize_path(abs_path) {
        Some(abs) => match best_dependency(abs, crates) {
            Some(best) => Some(best.1),
            None => None,
        },
        None => None,
    }
}

fn begins_at_root(path: &[char]) -> (r: bool)
    ensures
        r == (path@.len() > 0 && path@[0] == '/'),
{
    path.len() > 0 && path[0] == '/'
}

/// Whether the second list of steps begins with the first.
fn leads_steps(a: &Vec<&[char]>, b: &Vec<&[char]>) -> (r: bool)
    ensures
        r == (a@.len() <= b@.len() && texts(b@).take(a@.len() as int) == texts(a@)),
{
    if a.len() > b.len() {
        return false;
    }
    let mut i: usize = 0;
    while i < a.len()
        invariant
            i <= a.len() <= b.len(),
            forall|j: int| 0 <= j < i ==> #[trigger] a@[j]@ == b@[j]@,
        decreases a.len() - i,
    {
        if !same(a[i], b[i]) {
            assert(texts(a@)[i as int] != texts(b@).take(a@.len() as int)[i as int]);
            return false;
        }
        i = i + 1;
    }
    assert(texts(b@).take(a@.len() as int) =~= texts(a@));
    true
}

fn dependency_of(
    absolute: bool,
    steps: &Vec<&[char]>,
    name: &str,
    manifest: &str,
) -> (r: Option<(u128, Vec<char>)>)
    ensures
        match r {
            Some((rank, dep)) => dependency_in(
                (NormalPath { absolute, steps: texts(steps@) }),
                name@,
                manifest@,
            ) == Some((rank as int, dep@)),
            None => dependency_in(
                (NormalPath { absolute, steps: texts(steps@) }),
                name@,
                manifest@,
            ) is None,
        },
{
    let m = to_chars(manifest);
    let parts = split(m.as_slice(), '/');
    let dir = match followed(&parts) {
        Some(dir) => dir,
        None => {
            return None;
        },
    };
    let rooted = begins_at_root(m.as_slice());
    if !(rooted == absolute || (!rooted && dir.len() == 0)) || !leads_steps(&dir, steps) {
        return None;
    }
    let mut rest: Vec<&[char]> = Vec::new();
    let mut i: usize = dir.len();
    assert(texts(rest@) =~= texts(steps@).subrange(dir@.len() as int, i as int));
    while i < steps.len()
        invariant
            dir.len() <= i <= steps.len(),
            texts(rest@) == texts(steps@).subrange(dir@.len() as int, i as int),
        decreases steps.len() - i,
    {
        let ghost before = rest@;
        rest.push(steps[i]);
        assert(texts(rest@) =~= texts(before).push(texts(steps@)[i as int]));
        i = i + 1;
        assert(texts(rest@) =~= texts(steps@).subrange(dir@.len() as int, i as int));
    }
    assert(texts(rest@) =~= texts(steps@).skip(dir@.len() as int));
    let slash = to_chars("/");
    let below = join(&rest, slash.as_slice());
    match normalize_dependency_file_path(below.as_slice()) {
        Some(rel) => {
            let mut dep: Vec<char> = Vec::new();
            push_text(&mut dep, name);
            push_text(&mut dep, "/");
            push_all(&mut dep, rel.as_slice());
            assert(dep@ =~= name@ + "/"@ + rel@);
            let root: u128 = if rooted {
                1
            } else {
                0
            };
            Some((dir.len() as u128 + root, dep))
        },
        None => None,
    }
}

/// A text and another that may be missing.
pub open spec fn pair_of(p: Option<(&str, &str)>) -> Option<(Seq<char>, Seq<char>)> {
    match p {
        Some((a, b)) => Some((a@, b@)),
        None => None,
    }
}

/// The better of two names: the one that takes up more, and the first of equals.
fn better(best: Option<(u128, Vec<char>)>, found: Option<(u128, Vec<char>)>) -> (r: Option<
    (u128, Vec<char>),
>)
    ensures
        r == match found {
            None => best,
            Some(f) => match best {
                Some(b) if b.0 >= f.0 => best,
                _ => found,
            },
        },
{
    let taken = match (&best, &found) {
        (_, None) => false,
        (Some(b), Some(f)) => b.0 < f.0,
        (None, Some(_)) => true,
    };
    if taken {
        found
    } else {
        best
    }
}

/// What a path is called as a dependency of the crates: the crate whose
/// directory takes up the most of it gives the name.
pub fn resolve_dependency_path_from_manifests(
    abs_path: &str,
    named: Option<(&str, &str)>,
    manifests: &TextMap<String>,
) -> (r: Option<String>)
    requires
        manifests.wf(),
    ensures
        text_of(r) == spec_resolve_dependency_path(abs_path@, candidates(pair_of(named), manifests)),
{
    let abs = to_chars(abs_path);
    let parts = split(abs.as_slice(), '/');
    let steps = match followed(&parts) {
        Some(steps) => steps,
        None => {
            return None;
        },
    };
    let absolute = begins_at_root(abs.as_slice());
    let ghost normal = NormalPath { absolute, steps: texts(steps@) };
    let ghost crates = candidates(pair_of(named), manifests);
    let mut best: Option<(u128, Vec<char>)> = None;
    let ghost first: int = crates.len() - manifests.spec_len();
    assert(crates.take(0) =~= Seq::<(Seq<char>, Seq<char>)>::empty());
    assert(best_dependency(normal, crates.take(0)) is None);
    if let Some((name, manifest)) = named {
        assert(crates.take(1).drop_last() =~= crates.take(0));
        assert(crates.take(1).last() == (name@, manifest@));
        best = dependency_of(absolute, &steps, name, manifest);
        assert(ranked(best) == best_dependency(normal, crates.take(1)));
    }
    let mut i: usize = 0;
    while i < manifests.len()
        invariant
            i <= manifests.spec_len(),
            manifests.wf(),
            crates == candidates(pair_of(named), manifests),
            first == crates.len() - manifests.spec_len(),
            0 <= first,
            normal == (NormalPath { absolute, steps: texts(steps@) }),
            ranked(best) == best_dependency(normal, crates.take(first + i)),
        decreases manifests.spec_len() - i,
    {
        let (name, manifest) = manifests.at(i);
        assert(crates.take(first + i + 1).drop_last() =~= crates.take(first + i));
        assert(crates.take(first + i + 1).last() == (name@, manifest@));
        let found = dependency_of(absolute, &steps, name.as_str(), manifest.as_str());
        best = better(best, found);
        i = i + 1;
    }
    assert(crates.take(first + i) =~= crates);
    match best {
        Some((_, dep)) => Some(to_text(dep.as_slice())),
        None => None,
    }
}

spec fn ranked(best: Option<(u128, Vec<char>)>) -> Option<(int, Seq<char>)> {
    match best {
        Some((rank, dep)) => Some((rank as int, dep@)),
        None => None,
    }
}

// ---------------------------------------------------------------------------
// Resources of a crate
// ---------------------------------------------------------------------------

/// The module whose script is running.
pub struct ScriptModule {
    pub cargo_manifest_path: String,
    /// The names of the module, outermost first, with `::` between them.
    pub path: String,
}

/// Where a resource is.
pub struct ResourcePaths {
    pub abs_path: String,
    pub dependency_path: Option<String>,
    pub web_url: Option<String>,
}

pub struct ResourcePathsView {
    pub abs_path: Seq<char>,
    pub dependency_path: Option<Seq<char>>,
    pub web_url: Option<Seq<char>>,
}

impl View for ResourcePaths {
    type V = ResourcePathsView;

    open spec fn view(&self) -> ResourcePathsView {
        ResourcePathsView {
            abs_path: self.abs_path@,
            dependency_path: text_of(self.dependency_path),
            web_url: text_of(self.web_url),
        }
    }
}

/// The crate of a module: the first part of its path, with underscores.
pub open spec fn crate_of_module(path: Seq<char>) -> Seq<char> {
    spec_swap(
        match spec_find(path, "::"@, 0) {
            Some(n) => path.take(n),
            None => path,
        },
        '-',
        '_',
    )
}

/// The crate that a script names, and the directory of its manifest. `self` is
/// the crate of the running module.
pub open spec fn named_crate(
    crate_part: Seq<char>,
    running: Option<ScriptModule>,
    manifests: Map<Seq<char>, String>,
) -> Option<(Seq<char>, Seq<char>)> {
    if crate_part == "self"@ {
        match running {
            Some(module) => Some(
                (crate_of_module(module.path@), module.cargo_manifest_path@),
            ),
            None => None,
        }
    } else {
        let name = spec_swap(crate_part, '-', '_');
        if manifests.contains_key(name) {
            Some((name, manifests[name]@))
        } else {
            None
        }
    }
}

fn named<'a>(
    crate_part: &[char],
    running: Option<&'a ScriptModule>,
    manifests: &'a TextMap<String>,
) -> (r: Option<(String, &'a String)>)
    ensures
        match r {
            Some((name, manifest)) => named_crate(
                crate_part@,
                match running {
                    Some(m) => Some(*m),
                    None => None,
                },
                manifests@,
            ) == Some((name@, manifest@)),
            None => named_crate(
                crate_part@,
                match running {
                    Some(m) => Some(*m),
                    None => None,
                },
                manifests@,
            ) is None,
        },
{
    let part = to_text(crate_part);
    if same_text(part.as_str(), "self") {
        match running {
            Some(module) => {
                let path = to_chars(module.path.as_str());
                let sep = to_chars("::");
                let first = match find(path.as_slice(), sep.as_slice(), 0) {
                    Some(n) => {
                        let first = slice_subrange(path.as_slice(), 0, n);
                        assert(first@ =~= path@.take(n as int));
                        first
                    },
                    None => path.as_slice(),
                };
                let name = swap(first, '-', '_');
                Some((to_text(name.as_slice()), &module.cargo_manifest_path))
            },
            None => None,
        }
    } else {
        let name = swap(crate_part, '-', '_');
        let name_text = to_text(name.as_slice());
        match manifests.get(name_text.as_str()) {
            Some(manifest) => Some((name_text, manifest)),
            None => None,
        }
    }
}

/// Where a native host finds a crate's file.
pub open spec fn spec_native_paths(
    crate_part: Seq<char>,
    file_path: Seq<char>,
    running: Option<ScriptModule>,
    manifests: Map<Seq<char>, String>,
) -> Option<ResourcePathsView> {
    let file = without_lead(file_path);
    match named_crate(crate_part, running, manifests) {
        Some((name, manifest)) => Some(
            ResourcePathsView {
                abs_path: manifest + "/"@ + file,
                dependency_path: match spec_normalize_dependency_file_path(file) {
                    Some(normal) => Some(name + "/"@ + normal),
                    None => None,
                },
                web_url: None,
            },
        ),
        None => None,
    }
}

fn with_slash(a: &str, b: &[char]) -> (r: Vec<char>)
    ensures
        r@ == a@ + "/"@ + b@,
{
    let mut out: Vec<char> = Vec::new();
    push_text(&mut out, a);
    push_text(&mut out, "/");
    push_all(&mut out, b);
    assert(out@ =~= a@ + "/"@ + b@);
    out
}

/// The view of paths that may be missing.
pub open spec fn paths_of(r: Option<ResourcePaths>) -> Option<ResourcePathsView> {
    match r {
        Some(p) => Some(p@),
        None => None,
    }
}

/// The module that is running, if one is.
pub open spec fn module_of(running: Option<&ScriptModule>) -> Option<ScriptModule> {
    match running {
        Some(m) => Some(*m),
        None => None,
    }
}

/// Where a native host finds a crate's file. There is no web address.
pub fn resolve_crate_resource_paths(
    crate_part: &[char],
    file_path: &[char],
    running: Option<&ScriptModule>,
    manifests: &TextMap<String>,
) -> (r: Option<ResourcePaths>)
    ensures
        paths_of(r) == spec_native_paths(crate_part@, file_path@, module_of(running), manifests@),
{
    let file = strip_crate_resource_leading_slashes(file_path);
    match named(crate_part, running, manifests) {
        Some((name, manifest)) => {
            let abs = with_slash(manifest.as_str(), file);
            let dependency_path = match normalize_dependency_file_path(file) {
                Some(normal) => {
                    let dep = with_slash(name.as_str(), normal.as_slice());
                    Some(to_text(dep.as_slice()))
                },
                None => None,
            };
            Some(
                ResourcePaths { abs_path: to_text(abs.as_slice()), dependency_path, web_url: None },
            )
        },
        None => None,
    }
}

/// Where a file of a directory is, on a host without directories: with its steps
/// followed and slashes between them, or as it is written where it climbs out.
pub open spec fn spec_web_abs_path(manifest: Seq<char>, file: Seq<char>) -> Seq<char> {
    match spec_normalize_path(spec_join_path(manifest, file)) {
        Some(normal) => spec_swap(normal.text(), '\\', '/'),
        None => manifest + "/"@ + file,
    }
}

fn web_abs_path(manifest: &str, file: &[char]) -> (r: String)
    ensures
        r@ == spec_web_abs_path(manifest@, file@),
{
    let dir = to_chars(manifest);
    let joined = if dir.len() == 0 {
        let mut out: Vec<char> = Vec::new();
        push_all(&mut out, file);
        assert(out@ =~= file@);
        out
    } else {
        with_slash(manifest, file)
    };
    let parts = split(joined.as_slice(), '/');
    match followed(&parts) {
        Some(steps) => {
            let slash = to_chars("/");
            let mut out: Vec<char> = Vec::new();
            if begins_at_root(joined.as_slice()) {
                push_text(&mut out, "/");
            }
            let rest = join(&steps, slash.as_slice());
            push_all(&mut out, rest.as_slice());
            assert(out@ =~= spec_normalize_path(joined@)->0.text());
            let forward = swap(out.as_slice(), '\\', '/');
            to_text(forward.as_slice())
        },
        None => {
            let out = with_slash(manifest, file);
            to_text(out.as_slice())
        },
    }
}

/// Where a web host finds a crate's file.
pub open spec fn spec_web_paths(
    crate_part: Seq<char>,
    file_path: Seq<char>,
    running: Option<ScriptModule>,
    manifests: &TextMap<String>,
) -> Option<ResourcePathsView> {
    match named_crate(crate_part, running, manifests@) {
        Some((name, manifest)) => {
            let abs_path = spec_web_abs_path(manifest, without_lead(file_path));
            let dep = spec_resolve_dependency_path(
                abs_path,
                candidates(Some((name, manifest)), manifests),
            );
            Some(
                ResourcePathsView {
                    abs_path,
                    dependency_path: dep,
                    web_url: match dep {
                        Some(d) => Some("/"@ + d),
                        None => None,
                    },
                },
            )
        },
        None => None,
    }
}

/// Where a web host finds a crate's file, and what it asks for to get it.
pub fn resolve_web_resource_paths(
    crate_part: &[char],
    file_path: &[char],
    running: Option<&ScriptModule>,
    manifests: &TextMap<String>,
) -> (r: Option<ResourcePaths>)
    requires
        manifests.wf(),
    ensures
        paths_of(r) == spec_web_paths(crate_part@, file_path@, module_of(running), manifests),
{
    let file = strip_crate_resource_leading_slashes(file_path);
    match named(crate_part, running, manifests) {
        Some((name, manifest)) => {
            let abs_path = web_abs_path(manifest.as_str(), file);
            let dependency_path = resolve_dependency_path_from_manifests(
                abs_path.as_str(),
                Some((name.as_str(), manifest.as_str())),
                manifests,
            );
            let web_url = match &dependency_path {
                Some(dep) => {
                    let mut out: Vec<char> = Vec::new();
                    push_text(&mut out, "/");
                    push_text(&mut out, dep.as_str());
                    assert(out@ =~= "/"@ + dep@);
                    Some(to_text(out.as_slice()))
                },
                None => None,
            };
            Some(ResourcePaths { abs_path, dependency_path, web_url })
        },
        None => None,
    }
}

/// The crate whose directory takes up the most of a path gives its name: the name
/// is that of some crate, and no crate's directory takes up more.
pub proof fn longest_manifest_wins(abs: NormalPath, crates: Seq<(Seq<char>, Seq<char>)>, i: int)
    requires
        0 <= i < crates.len(),
    ensures
        dependency_in(abs, crates[i].0, crates[i].1) matches Some(found) ==> (best_dependency(
            abs,
            crates,
        ) matches Some(best) && best.0 >= found.0),
        best_dependency(abs, crates) is Some ==> exists|j: int|
            0 <= j < crates.len() && dependency_in(abs, (#[trigger] crates[j]).0, crates[j].1)
                == best_dependency(abs, crates),
    decreases crates.len(),
{
    let init = crates.drop_last();
    let last = crates.len() - 1;
    if init.len() > 0 {
        let k = if i < last {
            i
        } else {
            0
        };
        longest_manifest_wins(abs, init, k);
        assert(init[k] == crates[k]);
        if best_dependency(abs, init) is Some {
            let j = choose|j: int|
                0 <= j < init.len() && dependency_in(abs, (#[trigger] init[j]).0, init[j].1)
                    == best_dependency(abs, init);
            assert(crates[j] == init[j]);
        }
    }
    assert(crates[last] == crates.last());
}

proof fn joined_characters(parts: Seq<Seq<char>>, sep: Seq<char>, x: char)
    requires
        spec_join(parts, sep).contains(x),
    ensures
        sep.contains(x) || exists|i: int| 0 <= i < parts.len() && (#[trigger] parts[i]).contains(x),
    decreases parts.len(),
{
    let all = spec_join(parts, sep);
    let k = all.index_of(x);
    if parts.len() == 1 {
        assert(parts[0].contains(x));
    } else if parts.len() > 1 {
        let init = parts.drop_last();
        let first = spec_join(init, sep);
        if k < first.len() {
            assert(first[k] == x);
            joined_characters(init, sep, x);
            if !sep.contains(x) {
                let i = choose|i: int| 0 <= i < init.len() && (#[trigger] init[i]).contains(x);
                assert(parts[i] == init[i]);
            }
        } else if k < first.len() + sep.len() {
            assert(sep[k - first.len()] == x);
        } else {
            assert(parts[parts.len() - 1][k - first.len() - sep.len()] == x);
        }
    }
}

proof fn unswapped(s: Seq<char>, from: char, to: char)
    requires
        from != to,
    ensures
        !spec_swap(s, from, to).contains(from),
        !s.contains(from) ==> spec_swap(s, from, to) == s,
{
    let t = spec_swap(s, from, to);
    if t.contains(from) {
        let k = t.index_of(from);
        assert(t[k] == from);
    }
    if !s.contains(from) {
        assert forall|i: int| 0 <= i < s.len() implies t[i] == s[i] by {
            assert(s.contains(s[i]));
        }
        assert(t =~= s);
    }
}

/// A path that has been normalized is normal: normalizing it again changes nothing.
pub proof fn normalized_paths_are_normal(path: Seq<char>)
    ensures
        spec_normalize_dependency_file_path(path) matches Some(normal)
            ==> spec_normalize_dependency_file_path(normal) == Some(normal),
{
    reveal_strlit("/");
    assert("/"@ =~= seq!['/']);
    let forward = spec_swap(path, '\\', '/');
    let parts = spec_split(forward, '/', 0);
    unswapped(path, '\\', '/');
    followed_paths_do_not_climb(parts);
    if let Some(steps) = follow(parts) {
        let normal = spec_join(steps, "/"@);
        assert forall|i: int| 0 <= i < steps.len() implies goes_down(#[trigger] steps[i])
            && !steps[i].contains('/') && !steps[i].contains('\\') by {
            let k = parts.index_of(steps[i]);
            parts_hold_no_separator(forward, '/', 0, k);
        }
        assert(!normal.contains('\\')) by {
            if normal.contains('\\') {
                joined_characters(steps, "/"@, '\\');
            }
        }
        unswapped(normal, '\\', '/');
        if steps.len() == 0 {
            assert(normal =~= seq![]);
            assert(spec_find_char(normal, '/', 0) is None);
            assert(normal.subrange(0, normal.len() as int) =~= normal);
            assert(spec_split(normal, '/', 0) =~= seq![normal]);
            assert(seq![normal].drop_last() =~= Seq::<Seq<char>>::empty());
            assert(follow(seq![normal].drop_last()) == Some(Seq::<Seq<char>>::empty()));
            assert(follow(seq![normal]) == Some(Seq::<Seq<char>>::empty()));
            assert(steps =~= Seq::<Seq<char>>::empty());
        } else {
            joined_text_splits_back(steps, '/');
            steps_down_are_followed(steps);
        }
    }
}

// ---------------------------------------------------------------------------
// Laws
// ---------------------------------------------------------------------------

proof fn last_slash(s: Seq<char>, p: int, upto: int)
    requires
        0 <= p < upto <= s.len(),
        s[p] == '/',
        forall|j: int| p < j < upto ==> #[trigger] s[j] != '/',
    ensures
        spec_rfind_char(s, '/', upto) == Some(p),
    decreases upto,
{
    if upto - 1 > p {
        last_slash(s, p, upto - 1);
    }
}

/// A page lies in the directory that its address names: that of the file where the last
/// step is one, else the whole of it, a slash behind it or not.
pub proof fn a_page_lies_in_its_directory(dir: Seq<char>, last: Seq<char>)
    requires
        dir.len() > 0 && dir[0] != '/',
        last.len() > 0 && !last.contains('/'),
    ensures
        last.contains('.') ==> spec_web_resource_base_path("/"@ + dir + "/"@ + last) == dir,
        !last.contains('.') ==> spec_web_resource_base_path("/"@ + dir + "/"@ + last) == dir + "/"@
            + last,
        spec_web_resource_base_path("/"@ + dir + "/"@ + last + "/"@) == spec_web_resource_base_path(
            "/"@ + dir + "/"@ + last,
        ),
{
    reveal_strlit("/");
    let p = "/"@ + dir + "/"@ + last;
    let n = 1 + dir.len() as int;
    assert(p[n] == '/');
    assert(last.contains(last.last()));
    assert(p.last() == last.last());
    assert(without_trail(p) == p);
    assert forall|j: int| n < j < p.len() implies #[trigger] p[j] != '/' by {
        assert(p[j] == last[j - n - 1]);
        assert(last.contains(last[j - n - 1]));
    }
    last_slash(p, n, p.len() as int);
    assert(p.skip(n + 1) =~= last);
    let head = p.take(n);
    assert(head =~= "/"@ + dir);
    assert(head[0] == '/');
    assert(head.skip(1) =~= dir);
    assert(without_lead(head.skip(1)) == dir);
    assert(p[0] == '/');
    assert(p.skip(1) =~= dir + "/"@ + last);
    assert(p.skip(1)[0] == dir[0]);
    assert(without_lead(p.skip(1)) == p.skip(1));
    let q = p + "/"@;
    assert(q.last() == '/');
    assert(q.drop_last() =~= p);
}

/// A resource of a page is asked for below the page's directory, with one slash between.
pub proof fn resources_are_asked_for_below_the_page(pathname: Seq<char>, dep: Seq<char>)
    requires
        spec_web_resource_base_path(pathname).len() > 0,
        spec_web_resource_base_path(pathname).last() != '/',
        dep.len() > 0 && dep[0] != '/',
    ensures
        spec_web_resource_request_path(Some(pathname), dep) == spec_web_resource_base_path(pathname)
            + "/"@ + dep,
        spec_web_resource_request_path(Some(pathname), "/"@ + dep)
            == spec_web_resource_request_path(Some(pathname), dep),
        spec_web_resource_request_path(None, dep) == dep,
{
    reveal_strlit("/");
    let d = "/"@ + dep;
    assert(d[0] == '/');
    assert(d.skip(1) =~= dep);
    assert(without_lead(dep) == dep);
    assert(without_lead(d) == dep);
}

/// A path names the crate before its first mark and the file behind it.
pub proof fn a_path_names_its_crate_and_file(name: Seq<char>, c: char, file: Seq<char>)
    requires
        !name.contains(c),
    ensures
        spec_parts(name + seq![c] + file, c) == Some((name, file)),
{
    let path = name + seq![c] + file;
    let n = name.len() as int;
    assert forall|j: int| 0 <= j < n implies #[trigger] path[j] != c by {
        assert(path[j] == name[j]);
        assert(name.contains(name[j]));
    }
    char_found_at(path, c, 0, n);
    assert(path.take(n) =~= name);
    assert(path.skip(n + 1) =~= file);
}

/// The crate of a module is named by what stands before the first pair of colons, with
/// underscores for dashes, however deep the module is.
pub proof fn a_module_is_of_its_crate(name: Seq<char>, rest: Seq<char>)
    requires
        !name.contains(':'),
        !name.contains('-'),
    ensures
        crate_of_module(name + "::"@ + rest) == name,
        crate_of_module(name) == name,
{
    reveal_strlit("::");
    let path = name + "::"@ + rest;
    let n = name.len() as int;
    assert(path.subrange(n, n + 2) =~= "::"@);
    assert forall|j: int| 0 <= j < n implies !#[trigger] occurs_at(path, "::"@, j) by {
        if occurs_at(path, "::"@, j) {
            assert(path.subrange(j, j + 2)[0] == path[j]);
            assert(path[j] == name[j]);
            assert(name.contains(name[j]));
        }
    }
    found_at(path, "::"@, 0, n);
    assert(path.take(n) =~= name);
    unswapped(name, '-', '_');
    find_is_first(name, "::"@, 0);
    if let Some(i) = spec_find(name, "::"@, 0) {
        assert(name.subrange(i, i + 2)[0] == name[i]);
        assert(name.contains(name[i]));
    }
}

/// A crate goes by one name, whether it is written with dashes or with underscores.
pub proof fn dashes_and_underscores_name_one_crate(
    crate_part: Seq<char>,
    running: Option<ScriptModule>,
    manifests: Map<Seq<char>, String>,
)
    requires
        crate_part != "self"@,
        spec_swap(crate_part, '-', '_') != "self"@,
    ensures
        named_crate(spec_swap(crate_part, '-', '_'), running, manifests) == named_crate(
            crate_part,
            running,
            manifests,
        ),
        named_crate(crate_part, running, manifests) matches Some((name, manifest)) ==> !name.contains(
            '-',
        ) && manifests.contains_key(name) && manifests[name]@ == manifest,
{
    unswapped(crate_part, '-', '_');
    unswapped(spec_swap(crate_part, '-', '_'), '-', '_');
}

proof fn plain_steps_are_normal(steps: Seq<Seq<char>>)
    requires
        steps.len() > 0,
        forall|i: int|
            0 <= i < steps.len() ==> goes_down(#[trigger] steps[i]) && !steps[i].contains('/')
                && !steps[i].contains('\\'),
    ensures
        spec_normalize_dependency_file_path(spec_join(steps, "/"@)) == Some(
            spec_join(steps, "/"@),
        ),
        spec_normalize_path(spec_join(steps, "/"@)) matches Some(p) && p.steps == steps
            && !p.absolute,
        spec_normalize_path("/"@ + spec_join(steps, "/"@)) matches Some(p) && p.steps == steps
            && p.absolute,
{
    reveal_strlit("/");
    reveal_strlit(".");
    reveal_strlit("..");
    assert("/"@ =~= seq!['/']);
    let text = spec_join(steps, "/"@);
    joined_text_splits_back(steps, '/');
    steps_down_are_followed(steps);
    assert(!text.contains('\\')) by {
        if text.contains('\\') {
            joined_characters(steps, "/"@, '\\');
            if !"/"@.contains('\\') {
                let i = choose|i: int|
                    0 <= i < steps.len() && (#[trigger] steps[i]).contains('\\');
                assert(goes_down(steps[i]));
            }
        }
    }
    unswapped(text, '\\', '/');
    assert(goes_down(steps[0]));
    join_begins(steps);
    assert(text[0] != '/') by {
        assert(steps[0].contains(steps[0][0]));
    }
    let none = Seq::<char>::empty();
    let all = seq![none] + steps;
    assert forall|i: int| 0 <= i < all.len() implies !(#[trigger] all[i]).contains('/') by {
        if i > 0 {
            assert(all[i] == steps[i - 1]);
            assert(goes_down(steps[i - 1]));
        }
    }
    join_behind_nothing(steps);
    joined_text_splits_back(all, '/');
    nothing_is_no_step(steps);
}

proof fn join_begins(steps: Seq<Seq<char>>)
    requires
        steps.len() > 0,
        steps[0].len() > 0,
    ensures
        spec_join(steps, "/"@).len() > 0,
        spec_join(steps, "/"@)[0] == steps[0][0],
    decreases steps.len(),
{
    if steps.len() > 1 {
        join_begins(steps.drop_last());
    }
}

proof fn join_behind_nothing(steps: Seq<Seq<char>>)
    requires
        steps.len() > 0,
    ensures
        spec_join(seq![Seq::<char>::empty()] + steps, seq!['/']) == seq!['/'] + spec_join(
            steps,
            seq!['/'],
        ),
    decreases steps.len(),
{
    let none = Seq::<char>::empty();
    let all = seq![none] + steps;
    if steps.len() == 1 {
        assert(all.drop_last() =~= seq![none]);
        assert(spec_join(seq![none], seq!['/']) =~= none);
    } else {
        join_behind_nothing(steps.drop_last());
        assert(all.drop_last() =~= seq![none] + steps.drop_last());
        assert(all.last() == steps.last());
    }
    assert(spec_join(all, seq!['/']) =~= seq!['/'] + spec_join(steps, seq!['/']));
}

proof fn nothing_is_no_step(steps: Seq<Seq<char>>)
    requires
        forall|i: int| 0 <= i < steps.len() ==> goes_down(#[trigger] steps[i]),
    ensures
        follow(seq![Seq::<char>::empty()] + steps) == Some(steps),
    decreases steps.len(),
{
    let none = Seq::<char>::empty();
    let all = seq![none] + steps;
    if steps.len() == 0 {
        assert(all =~= seq![none]);
        assert(all.drop_last() =~= Seq::empty());
        assert(follow(Seq::<Seq<char>>::empty()) == Some(Seq::<Seq<char>>::empty()));
        assert(steps =~= Seq::empty());
    } else {
        let init = steps.drop_last();
        assert forall|i: int| 0 <= i < init.len() implies goes_down(#[trigger] init[i]) by {
            assert(init[i] == steps[i]);
        }
        nothing_is_no_step(init);
        assert(all.drop_last() =~= seq![none] + init);
        assert(goes_down(steps[steps.len() - 1]));
        assert(init.push(steps.last()) =~= steps);
    }
}

/// A file below a crate's directory is known by the crate's name and its path from there.
pub proof fn a_file_is_known_by_its_crate(
    name: Seq<char>,
    dir: Seq<Seq<char>>,
    file: Seq<Seq<char>>,
)
    requires
        dir.len() > 0 && file.len() > 0,
        forall|i: int|
            0 <= i < dir.len() ==> goes_down(#[trigger] dir[i]) && !dir[i].contains('/')
                && !dir[i].contains('\\'),
        forall|i: int|
            0 <= i < file.len() ==> goes_down(#[trigger] file[i]) && !file[i].contains('/')
                && !file[i].contains('\\'),
    ensures
        spec_resolve_dependency_path(
            "/"@ + spec_join(dir + file, "/"@),
            seq![(name, "/"@ + spec_join(dir, "/"@))],
        ) == Some(name + "/"@ + spec_join(file, "/"@)),
{
    let steps = dir + file;
    assert forall|i: int| 0 <= i < steps.len() implies goes_down(#[trigger] steps[i])
        && !steps[i].contains('/') && !steps[i].contains('\\') by {
        if i < dir.len() {
            assert(steps[i] == dir[i]);
        } else {
            assert(steps[i] == file[i - dir.len()]);
        }
    }
    plain_steps_are_normal(steps);
    plain_steps_are_normal(dir);
    plain_steps_are_normal(file);
    let manifest = "/"@ + spec_join(dir, "/"@);
    let abs = spec_normalize_path("/"@ + spec_join(steps, "/"@))->0;
    let crates = seq![(name, manifest)];
    assert(steps.take(dir.len() as int) =~= dir);
    assert(steps.skip(dir.len() as int) =~= file);
    assert(crates.drop_last() =~= Seq::empty());
    assert(best_dependency(abs, crates.drop_last()) is None);
    assert(dependency_in(abs, name, manifest) is Some);
}

/// A resource of a crate lies below the crate's directory, slashes before its path or not,
/// and is known by the crate's name and its path; a crate that is not known has none.
pub proof fn a_resource_lies_below_its_crate(
    name: Seq<char>,
    manifest: Seq<char>,
    file: Seq<Seq<char>>,
    running: Option<ScriptModule>,
    manifests: Map<Seq<char>, String>,
)
    requires
        name != "self"@,
        !name.contains('-'),
        file.len() > 0,
        forall|i: int|
            0 <= i < file.len() ==> goes_down(#[trigger] file[i]) && !file[i].contains('/')
                && !file[i].contains('\\'),
    ensures
        manifests.contains_key(name) && manifests[name]@ == manifest ==> {
            let path = spec_join(file, "/"@);
            let found = spec_native_paths(name, path, running, manifests);
            &&& found matches Some(p) && p.abs_path == manifest + "/"@ + path
                && p.dependency_path == Some(name + "/"@ + path) && p.web_url is None
            &&& spec_native_paths(name, "/"@ + path, running, manifests) == found
        },
        !manifests.contains_key(name) ==> spec_native_paths(
            name,
            spec_join(file, "/"@),
            running,
            manifests,
        ) is None,
{
    reveal_strlit("/");
    unswapped(name, '-', '_');
    plain_steps_are_normal(file);
    let path = spec_join(file, "/"@);
    assert(goes_down(file[0]));
    join_begins(file);
    assert(path[0] != '/') by {
        assert(file[0].contains(file[0][0]));
    }
    assert(without_lead(path) == path);
    let slashed = "/"@ + path;
    assert(slashed[0] == '/');
    assert(slashed.skip(1) =~= path);
    assert(without_lead(slashed) == path);
}

} // verus!
