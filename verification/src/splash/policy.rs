//! What an isolate is allowed, enforced where the runtime acts.
//!
//! State is held by the host and keyed by heap, where script can neither read
//! nor raise it. An isolate without a policy is not enforced: services pass
//! through to the host, URLs are allowed, and nothing is counted.
use crate::gps::GpsFix;
use crate::paths::{follow, followed, goes_down, steps_down_are_followed};
use crate::splash::url::{
    a_written_host_is_found, follows_host, in_authority, public_https_host, spec_public_https_host,
    spec_url_host, spec_url_host_port, url_host, url_host_port,
};
use crate::text::{
    char_found_at, debug_text, find_char, in_quotes, joined_text_splits_back, lower_all, push_all,
    push_text, spec_find_char, spec_join, spec_lower_all, spec_split, spells, split, strings, texts,
    to_chars, to_text,
};
use std::collections::HashMap;
use vstd::prelude::*;
use vstd::slice::slice_subrange;

verus! {

broadcast use vstd::std_specs::hash::group_hash_axioms;

/// What one heap is allowed, and what it has spent.
pub struct HeapPolicy {
    /// Granted capability names. A service `a.b.c` needs capability `a`, or the
    /// exact name `a.b.c`.
    pub capabilities: Vec<String>,
    /// Hosts that this heap may reach, in lower case, exact. Empty means none.
    pub hosts: Vec<String>,
    /// Script instructions that this heap may run over its life; `None` is
    /// unbounded.
    pub instruction_budget: Option<u64>,
    pub instructions_used: u64,
    /// Set once the budget is spent; nothing runs in this heap afterwards.
    pub exhausted: bool,
}

/// Each text in lower case.
pub open spec fn all_lower(v: Seq<Seq<char>>) -> Seq<Seq<char>> {
    v.map_values(|s: Seq<char>| spec_lower_all(s))
}

/// The part of a service's name before its first point.
pub open spec fn family(service: Seq<char>) -> Seq<char> {
    match spec_find_char(service, '.', 0) {
        Some(p) => service.subrange(0, p),
        None => service,
    }
}

impl HeapPolicy {
    /// Whether the grants cover a service: by its family or by its name.
    pub open spec fn grants(&self, service: Seq<char>) -> bool {
        strings(self.capabilities@).contains(service) || strings(self.capabilities@).contains(
            family(service),
        )
    }

    /// Whether the host list covers a URL: its host with any port, or its host
    /// with just its port.
    pub open spec fn lists(&self, url: Seq<char>) -> bool {
        ||| spec_url_host(url) matches Some(h) && strings(self.hosts@).contains(h)
        ||| spec_url_host_port(url) matches Some(h) && strings(self.hosts@).contains(h)
    }

    /// A heap that has spent its budget is exhausted.
    pub open spec fn wf(&self) -> bool {
        (self.instruction_budget matches Some(b) && self.instructions_used >= b) ==> self.exhausted
    }
}

/// The policies of all heaps, and whether the gates that consult them are in
/// place.
pub struct PolicyTable {
    pub policies: HashMap<usize, HeapPolicy>,
    pub gates_installed: bool,
}

/// The policy of a heap, if it has one.
pub open spec fn policy_of(t: &PolicyTable, heap: usize) -> Option<HeapPolicy> {
    if t.policies@.contains_key(heap) {
        Some(t.policies@[heap])
    } else {
        None
    }
}

/// Every other heap is as it was.
pub open spec fn others_kept(before: &PolicyTable, after: &PolicyTable, heap: usize) -> bool {
    forall|h: usize| h != heap ==> #[trigger] policy_of(after, h) == policy_of(before, h)
}

pub open spec fn spec_is_enforced(t: &PolicyTable, heap: usize) -> bool {
    policy_of(t, heap) is Some
}

pub open spec fn spec_may_run(t: &PolicyTable, heap: usize) -> bool {
    policy_of(t, heap) matches Some(p) ==> !p.exhausted
}

pub open spec fn spec_service_allowed(t: &PolicyTable, heap: usize, service: Seq<char>) -> bool {
    policy_of(t, heap) matches Some(p) ==> !p.exhausted && p.grants(service)
}

pub open spec fn spec_url_allowed(t: &PolicyTable, heap: usize, url: Seq<char>) -> bool {
    policy_of(t, heap) matches Some(p) ==> !p.exhausted && p.lists(url)
}

pub open spec fn spec_sockets_allowed(t: &PolicyTable, heap: usize) -> bool {
    !spec_is_enforced(t, heap)
}

/// Whether a grant opens a public page or picture to a policed heap.
pub open spec fn opens_public(t: &PolicyTable, heap: usize, service: Seq<char>, url: Seq<char>) -> bool {
    &&& spec_is_enforced(t, heap)
    &&& spec_service_allowed(t, heap, service)
    &&& spec_public_https_host(url) is Ok
}

pub open spec fn spec_media_allowed(t: &PolicyTable, heap: usize, url: Seq<char>) -> bool {
    spec_url_allowed(t, heap, url) || opens_public(t, heap, "images.any"@, url)
}

pub open spec fn spec_page_allowed(t: &PolicyTable, heap: usize, url: Seq<char>) -> bool {
    spec_url_allowed(t, heap, url) || opens_public(t, heap, "web.open"@, url)
}

impl PolicyTable {
    /// Every policy of the table is well formed.
    pub open spec fn wf(&self) -> bool {
        forall|h: usize| #[trigger] policy_of(self, h) matches Some(p) ==> p.wf()
    }

    pub fn new() -> (r: PolicyTable)
        ensures
            r.wf(),
            forall|h: usize| #[trigger] policy_of(&r, h) is None,
            !r.gates_installed,
    {
        PolicyTable { policies: HashMap::new(), gates_installed: false }
    }
}

fn lower_hosts(hosts: &Vec<String>) -> (r: Vec<String>)
    ensures
        strings(r@) == all_lower(strings(hosts@)),
{
    let mut r: Vec<String> = Vec::new();
    let mut i: usize = 0;
    assert(strings(r@) =~= all_lower(strings(hosts@)).take(0));
    while i < hosts.len()
        invariant
            i <= hosts.len(),
            strings(r@) == all_lower(strings(hosts@)).take(i as int),
        decreases hosts.len() - i,
    {
        let ghost before = r@;
        let chars = to_chars(hosts[i].as_str());
        let low = lower_all(chars.as_slice());
        r.push(to_text(low.as_slice()));
        assert(strings(r@) =~= strings(before).push(low@));
        assert(strings(r@) =~= all_lower(strings(hosts@)).take(i + 1));
        i = i + 1;
    }
    assert(strings(r@) =~= all_lower(strings(hosts@)));
    r
}

/// Installs the gates through which every request path consults the table: true
/// the first time.
pub fn install_url_gate(t: &mut PolicyTable) -> (r: bool)
    ensures
        r == !old(t).gates_installed,
        final(t).gates_installed,
        final(t).policies == old(t).policies,
{
    let first = !t.gates_installed;
    t.gates_installed = true;
    first
}

/// Instructions that a heap has used so far.
pub open spec fn spent(t: &PolicyTable, heap: usize) -> u64 {
    match policy_of(t, heap) {
        Some(p) => p.instructions_used,
        None => 0,
    }
}

/// Whether a heap has spent its budget.
pub open spec fn is_exhausted(t: &PolicyTable, heap: usize) -> bool {
    policy_of(t, heap) matches Some(p) && p.exhausted
}

/// Whether a heap is exhausted once it is given a budget: it was before, or what it has
/// spent is all of the budget.
pub open spec fn exhausted_under(t: &PolicyTable, heap: usize, budget: Option<u64>) -> bool {
    is_exhausted(t, heap) || (budget matches Some(b) && spent(t, heap) >= b)
}

/// Sets (or replaces) the policy for a heap. Enforcement starts here: a heap
/// that never had this called is not enforced. What was spent stays spent, and an
/// exhausted heap stays exhausted, whatever its new budget is.
pub fn set_policy_for_heap(
    t: &mut PolicyTable,
    heap: usize,
    capabilities: Vec<String>,
    hosts: Vec<String>,
    instruction_budget: Option<u64>,
)
    requires
        old(t).wf(),
    ensures
        final(t).wf(),
        final(t).gates_installed,
        others_kept(old(t), final(t), heap),
        policy_of(final(t), heap) matches Some(p) && {
            &&& p.capabilities == capabilities
            &&& strings(p.hosts@) == all_lower(strings(hosts@))
            &&& p.instruction_budget == instruction_budget
            &&& p.instructions_used == spent(old(t), heap)
            &&& p.exhausted == exhausted_under(old(t), heap, instruction_budget)
        },
{
    install_url_gate(t);
    let (used, was_exhausted): (u64, bool) = match t.policies.get(&heap) {
        Some(p) => (p.instructions_used, p.exhausted),
        None => (0, false),
    };
    let exhausted = was_exhausted || match instruction_budget {
        Some(b) => used >= b,
        None => false,
    };
    let policy = HeapPolicy {
        capabilities,
        hosts: lower_hosts(&hosts),
        instruction_budget,
        instructions_used: used,
        exhausted,
    };
    t.policies.insert(heap, policy);
    assert forall|h: usize| #[trigger] policy_of(t, h) matches Some(p) ==> p.wf() by {
        if h != heap {
            assert(policy_of(t, h) == policy_of(old(t), h));
        }
    }
}

/// Drops the policies of reclaimed isolates.
pub fn gc_policies(t: &mut PolicyTable, dead_heaps: &Vec<usize>)
    requires
        old(t).wf(),
    ensures
        final(t).wf(),
        final(t).gates_installed == old(t).gates_installed,
        forall|h: usize| #[trigger]
            policy_of(final(t), h) == if dead_heaps@.contains(h) {
                None
            } else {
                policy_of(old(t), h)
            },
{
    let mut i: usize = 0;
    while i < dead_heaps.len()
        invariant
            i <= dead_heaps.len(),
            t.gates_installed == old(t).gates_installed,
            forall|h: usize| #[trigger]
                policy_of(t, h) == if dead_heaps@.take(i as int).contains(h) {
                    None
                } else {
                    policy_of(old(t), h)
                },
        decreases dead_heaps.len() - i,
    {
        let dead: usize = dead_heaps[i];
        let ghost before = *t;
        t.policies.remove(&dead);
        proof {
            let seen = dead_heaps@.take(i as int);
            let next = dead_heaps@.take(i + 1);
            assert forall|h: usize| #[trigger]
                policy_of(t, h) == if next.contains(h) {
                    None
                } else {
                    policy_of(old(t), h)
                } by {
                assert(policy_of(&before, h) == if seen.contains(h) {
                    None
                } else {
                    policy_of(old(t), h)
                });
                assert(next[i as int] == dead);
                if seen.contains(h) {
                    let k = choose|k: int| 0 <= k < seen.len() && seen[k] == h;
                    assert(next[k] == h);
                }
                if next.contains(h) && h != dead {
                    let k = choose|k: int| 0 <= k < next.len() && next[k] == h;
                    assert(seen[k] == h);
                }
            }
        }
        i = i + 1;
    }
    assert(dead_heaps@.take(i as int) =~= dead_heaps@);
    assert forall|h: usize| #[trigger] policy_of(t, h) matches Some(p) ==> p.wf() by {
        assert(policy_of(old(t), h) matches Some(p) ==> p.wf());
    }
}

/// Whether a heap is under an enforced policy at all.
pub fn is_enforced(t: &PolicyTable, heap: usize) -> (r: bool)
    ensures
        r == spec_is_enforced(t, heap),
{
    t.policies.contains_key(&heap)
}

fn holds(list: &Vec<String>, text: &[char]) -> (r: bool)
    ensures
        r == strings(list@).contains(text@),
{
    let mut i: usize = 0;
    while i < list.len()
        invariant
            i <= list.len(),
            forall|j: int| 0 <= j < i ==> #[trigger] strings(list@)[j] != text@,
        decreases list.len() - i,
    {
        assert(strings(list@)[i as int] == list@[i as int]@);
        if spells(text, list[i].as_str()) {
            return true;
        }
        i = i + 1;
    }
    false
}

/// What is reported of a service that was not granted.
pub open spec fn not_granted(service: Seq<char>) -> Seq<char> {
    "this app was not granted "@ + in_quotes(family(service)) + ", which "@ + in_quotes(service)
        + " needs"@
}

/// May this heap ask the host for `service`? `Ok` where no policy is set (the
/// host decides) or where the policy grants it; `Err` names what is missing, in
/// words meant for a log.
pub fn service_allowed(t: &PolicyTable, heap: usize, service: &str) -> (r: Result<(), String>)
    ensures
        r is Ok <==> spec_service_allowed(t, heap, service@),
        r matches Err(text) ==> text@ == if policy_of(t, heap)->0.exhausted {
            "this app's instruction budget is spent"@
        } else {
            not_granted(service@)
        },
{
    let policy = match t.policies.get(&heap) {
        Some(p) => p,
        None => return Ok(()),
    };
    if policy.exhausted {
        return Err("this app's instruction budget is spent".to_owned());
    }
    let name = to_chars(service);
    let name = name.as_slice();
    let fam = match find_char(name, '.', 0) {
        Some(p) => slice_subrange(name, 0, p),
        None => name,
    };
    if holds(&policy.capabilities, name) || holds(&policy.capabilities, fam) {
        return Ok(());
    }
    let fam_text = to_text(fam);
    let a = debug_text(fam_text.as_str());
    let b = debug_text(service);
    let mut out: Vec<char> = Vec::new();
    push_text(&mut out, "this app was not granted ");
    push_text(&mut out, a.as_str());
    push_text(&mut out, ", which ");
    push_text(&mut out, b.as_str());
    push_text(&mut out, " needs");
    assert(out@ =~= not_granted(service@));
    Err(to_text(out.as_slice()))
}

/// May this heap reach `url`? True where no policy is set. With a policy, the
/// URL's host must be listed exactly; a URL without a host is refused. A listed
/// `host` matches any port, a listed `host:port` only that port.
pub fn url_allowed(t: &PolicyTable, heap: usize, url: &str) -> (r: bool)
    ensures
        r == spec_url_allowed(t, heap, url@),
{
    let policy = match t.policies.get(&heap) {
        Some(p) => p,
        None => return true,
    };
    if policy.exhausted {
        return false;
    }
    let u = to_chars(url);
    if let Some(h) = url_host(u.as_slice()) {
        if holds(&policy.hosts, h.as_slice()) {
            return true;
        }
    }
    if let Some(h) = url_host_port(u.as_slice()) {
        if holds(&policy.hosts, h.as_slice()) {
            return true;
        }
    }
    false
}

/// May this heap open a listening server or a raw socket? Only where it is not
/// policed: a contained app's way out is a request to a listed host, and nothing
/// wider.
pub fn sockets_allowed(t: &PolicyTable, heap: usize) -> (r: bool)
    ensures
        r == spec_sockets_allowed(t, heap),
{
    !is_enforced(t, heap)
}

/// May this heap know where the device is? Location is a service family like any
/// other, granted as `location`.
pub fn location_allowed(t: &PolicyTable, heap: usize) -> (r: bool)
    ensures
        r == spec_service_allowed(t, heap, "location.get"@),
{
    service_allowed(t, heap, "location.get").is_ok()
}

/// The device's last fix as this heap may see it: none without the `location`
/// grant, exactly as if the device had no fix yet.
pub fn gps_fix_for_heap(t: &PolicyTable, heap: usize, last_fix: Option<GpsFix>) -> (r: Option<GpsFix>)
    ensures
        r == if spec_service_allowed(t, heap, "location.get"@) {
            last_fix
        } else {
            None
        },
{
    if location_allowed(t, heap) {
        last_fix
    } else {
        None
    }
}

/// May this heap read what the user keeps in the host: saved lists, stored
/// preferences and the page open in the reader?
pub fn profile_allowed(t: &PolicyTable, heap: usize) -> (r: bool)
    ensures
        r == spec_service_allowed(t, heap, "profile.read"@),
{
    service_allowed(t, heap, "profile.read").is_ok()
}

/// The hosts that a policed heap may reach, or `None` for an unpoliced heap: for
/// a surface that the script guard cannot stand in front of.
pub fn hosts_for_heap(t: &PolicyTable, heap: usize) -> (r: Option<Vec<String>>)
    ensures
        match r {
            Some(hosts) => policy_of(t, heap) matches Some(p) && strings(hosts@) == strings(
                p.hosts@,
            ),
            None => policy_of(t, heap) is None,
        },
{
    match t.policies.get(&heap) {
        Some(p) => {
            let mut r: Vec<String> = Vec::new();
            let mut i: usize = 0;
            assert(strings(r@) =~= strings(p.hosts@).take(0));
            while i < p.hosts.len()
                invariant
                    i <= p.hosts.len(),
                    strings(r@) == strings(p.hosts@).take(i as int),
                decreases p.hosts.len() - i,
            {
                let ghost before = r@;
                r.push(p.hosts[i].clone());
                assert(strings(r@) =~= strings(before).push(p.hosts@[i as int]@));
                assert(strings(r@) =~= strings(p.hosts@).take(i + 1));
                i = i + 1;
            }
            assert(strings(r@) =~= strings(p.hosts@));
            Some(r)
        },
        None => None,
    }
}

fn may_open_public(t: &PolicyTable, heap: usize, service: &str, url: &str) -> (r: bool)
    ensures
        r == opens_public(t, heap, service@, url@),
{
    is_enforced(t, heap) && may_run(t, heap) && service_allowed(t, heap, service).is_ok()
        && public_https_host(url).is_ok()
}

/// May this heap load `url` as media (an image, artwork)? Its host list answers
/// first; the `images` grant adds any public https host.
pub fn media_allowed(t: &PolicyTable, heap: usize, url: &str) -> (r: bool)
    ensures
        r == spec_media_allowed(t, heap, url@),
{
    url_allowed(t, heap, url) || may_open_public(t, heap, "images.any", url)
}

/// May this heap open `url` as a page? Its host list answers first; the `web`
/// grant adds any public https page.
pub fn page_allowed(t: &PolicyTable, heap: usize, url: &str) -> (r: bool)
    ensures
        r == spec_page_allowed(t, heap, url@),
{
    url_allowed(t, heap, url) || may_open_public(t, heap, "web.open", url)
}

/// A sum held at the end of the range.
pub open spec fn spec_saturating(a: u64, b: u64) -> u64 {
    if a + b > u64::MAX {
        u64::MAX
    } else {
        (a + b) as u64
    }
}

/// A policy after so many instructions more.
pub open spec fn charged(p: HeapPolicy, instructions: u64) -> HeapPolicy {
    let used = spec_saturating(p.instructions_used, instructions);
    HeapPolicy {
        instructions_used: used,
        exhausted: p.exhausted || (p.instruction_budget matches Some(b) && used >= b),
        ..p
    }
}

/// Records `instructions` run by this heap. False once the budget is spent, and
/// it stays false: the heap is exhausted from then on.
pub fn charge(t: &mut PolicyTable, heap: usize, instructions: u64) -> (r: bool)
    requires
        old(t).wf(),
    ensures
        final(t).wf(),
        final(t).gates_installed == old(t).gates_installed,
        others_kept(old(t), final(t), heap),
        policy_of(final(t), heap) == match policy_of(old(t), heap) {
            Some(p) => Some(charged(p, instructions)),
            None => None,
        },
        r == spec_may_run(final(t), heap),
{
    match t.policies.remove(&heap) {
        Some(policy) => {
            let ghost before = policy;
            assert(policy_of(old(t), heap) == Some(before));
            let used: u64 = policy.instructions_used.saturating_add(instructions);
            let mut exhausted = policy.exhausted;
            if let Some(b) = policy.instruction_budget {
                if used >= b {
                    exhausted = true;
                }
            }
            let next = HeapPolicy {
                capabilities: policy.capabilities,
                hosts: policy.hosts,
                instruction_budget: policy.instruction_budget,
                instructions_used: used,
                exhausted,
            };
            assert(next == charged(before, instructions));
            t.policies.insert(heap, next);
            assert forall|h: usize| #[trigger] policy_of(t, h) matches Some(p) ==> p.wf() by {
                assert(policy_of(old(t), h) matches Some(p) ==> p.wf());
            }
            !exhausted
        },
        None => {
            assert forall|h: usize| #[trigger] policy_of(t, h) == policy_of(old(t), h) by {}
            assert forall|h: usize| #[trigger] policy_of(t, h) matches Some(p) ==> p.wf() by {
                assert(policy_of(old(t), h) matches Some(p) ==> p.wf());
            }
            true
        },
    }
}

/// Whether this heap may still run anything.
pub fn may_run(t: &PolicyTable, heap: usize) -> (r: bool)
    ensures
        r == spec_may_run(t, heap),
{
    match t.policies.get(&heap) {
        Some(p) => !p.exhausted,
        None => true,
    }
}

/// Instructions used so far, for a host that wants to show it.
pub fn instructions_used(t: &PolicyTable, heap: usize) -> (r: u64)
    ensures
        r == spent(t, heap),
{
    match t.policies.get(&heap) {
        Some(p) => p.instructions_used,
        None => 0,
    }
}

// ---------------------------------------------------------------------------
// Through the gates
// ---------------------------------------------------------------------------

/// What the script guard answers to a request: anything goes while it is not installed.
pub fn script_url_allowed(t: &PolicyTable, heap: usize, url: &str) -> (r: bool)
    ensures
        r == (!t.gates_installed || spec_url_allowed(t, heap, url@)),
{
    !t.gates_installed || url_allowed(t, heap, url)
}

/// What the script guard answers to a load of media.
pub fn script_media_allowed(t: &PolicyTable, heap: usize, url: &str) -> (r: bool)
    ensures
        r == (!t.gates_installed || spec_media_allowed(t, heap, url@)),
{
    !t.gates_installed || media_allowed(t, heap, url)
}

/// What the script guard answers to a socket.
pub fn script_sockets_allowed(t: &PolicyTable, heap: usize) -> (r: bool)
    ensures
        r == (!t.gates_installed || spec_sockets_allowed(t, heap)),
{
    !t.gates_installed || sockets_allowed(t, heap)
}

// ---------------------------------------------------------------------------
// Files
// ---------------------------------------------------------------------------

/// A directory with some steps below it.
pub open spec fn below(root: Seq<char>, steps: Seq<Seq<char>>) -> Seq<char>
    decreases steps.len(),
{
    if steps.len() == 0 {
        root
    } else {
        below(root, steps.drop_last()) + "/"@ + steps.last()
    }
}

/// The real path of an app-visible path inside a storage jail.
pub open spec fn spec_resolve_jailed(root: Seq<char>, path: Seq<char>) -> Option<Seq<char>> {
    match follow(spec_split(path, '/', 0)) {
        Some(steps) => Some(below(root, steps)),
        None => None,
    }
}

/// The real path of an app-visible path inside a storage jail; none for a path
/// that climbs out of it.
pub fn resolve_jailed(root: &str, path: &str) -> (r: Option<String>)
    ensures
        match r {
            Some(file) => spec_resolve_jailed(root@, path@) == Some(file@),
            None => spec_resolve_jailed(root@, path@) is None,
        },
{
    let p = to_chars(path);
    let parts = split(p.as_slice(), '/');
    let steps = match followed(&parts) {
        Some(steps) => steps,
        None => {
            return None;
        },
    };
    let mut out: Vec<char> = Vec::new();
    push_text(&mut out, root);
    let ghost found = texts(steps@);
    assert(out@ =~= below(root@, found.take(0)));
    let mut k: usize = 0;
    while k < steps.len()
        invariant
            k <= steps.len(),
            found == texts(steps@),
            out@ == below(root@, found.take(k as int)),
        decreases steps.len() - k,
    {
        let ghost before = out@;
        assert(found.take(k + 1).drop_last() =~= found.take(k as int));
        assert(found.take(k + 1).last() == steps@[k as int]@);
        push_text(&mut out, "/");
        push_all(&mut out, steps[k]);
        assert(out@ =~= before + "/"@ + steps@[k as int]@);
        k = k + 1;
    }
    assert(found.take(k as int) =~= found);
    Some(to_text(out.as_slice()))
}

/// A file that a widget was told to read, as a heap may read it.
pub enum LocalPath {
    /// The path as given: the heap is not policed.
    Given(String),
    /// A path inside the heap's storage jail, to be read only where none of its
    /// parts is a symbolic link.
    Jailed { root: String, file: String },
    /// The heap reads nothing.
    Nothing,
}

/// A file that a widget was told to read, as this heap may read it. An unpoliced
/// heap reads the path as given. A policed heap's paths are app-visible paths
/// inside its storage jail; without a jail, it reads nothing.
pub fn local_path_for_heap(t: &PolicyTable, heap: usize, jail: Option<&str>, path: &str) -> (r:
    LocalPath)
    ensures
        if !spec_is_enforced(t, heap) {
            r matches LocalPath::Given(p) && p@ == path@
        } else {
            match jail {
                None => r is Nothing,
                Some(j) => match spec_resolve_jailed(j@, path@) {
                    Some(found) => r matches LocalPath::Jailed { root, file } && root@ == j@
                        && file@ == found,
                    None => r is Nothing,
                },
            }
        },
{
    if !is_enforced(t, heap) {
        return LocalPath::Given(path.to_owned());
    }
    match jail {
        None => LocalPath::Nothing,
        Some(j) => match resolve_jailed(j, path) {
            Some(file) => LocalPath::Jailed { root: j.to_owned(), file },
            None => LocalPath::Nothing,
        },
    }
}

// ---------------------------------------------------------------------------
// What holds of all of it
// ---------------------------------------------------------------------------

/// An isolate without a policy may do everything.
pub proof fn an_unpoliced_heap_may_do_everything(
    t: &PolicyTable,
    heap: usize,
    service: Seq<char>,
    url: Seq<char>,
)
    requires
        policy_of(t, heap) is None,
    ensures
        spec_service_allowed(t, heap, service),
        spec_url_allowed(t, heap, url),
        spec_media_allowed(t, heap, url),
        spec_page_allowed(t, heap, url),
        spec_sockets_allowed(t, heap),
        spec_may_run(t, heap),
{
}

/// An exhausted heap gets no service, no request, no picture and no page.
pub proof fn an_exhausted_heap_gets_nothing(
    t: &PolicyTable,
    heap: usize,
    service: Seq<char>,
    url: Seq<char>,
)
    requires
        policy_of(t, heap) matches Some(p) && p.exhausted,
    ensures
        !spec_service_allowed(t, heap, service),
        !spec_url_allowed(t, heap, url),
        !spec_media_allowed(t, heap, url),
        !spec_page_allowed(t, heap, url),
        !spec_sockets_allowed(t, heap),
        !spec_may_run(t, heap),
{
}

/// Exhaustion is permanent: no charge takes it back, no new policy does, whatever its
/// budget, and what is spent never shrinks.
pub proof fn exhaustion_is_permanent(
    t: &PolicyTable,
    heap: usize,
    instructions: u64,
    budget: Option<u64>,
)
    ensures
        policy_of(t, heap) matches Some(p) ==> {
            &&& p.exhausted ==> charged(p, instructions).exhausted
            &&& charged(p, instructions).instructions_used >= p.instructions_used
        },
        is_exhausted(t, heap) ==> exhausted_under(t, heap, budget),
{
}

/// The budget is cumulative: two charges count as one of both, so it does not
/// matter how a run is cut.
pub proof fn the_budget_is_cumulative(p: HeapPolicy, a: u64, b: u64)
    requires
        a + b <= u64::MAX,
    ensures
        charged(charged(p, a), b) == charged(p, (a + b) as u64),
{
}

/// No grant widens requests: whatever a heap's capabilities are, it reaches the
/// same URLs.
pub proof fn grants_never_widen_requests(a: HeapPolicy, b: HeapPolicy, url: Seq<char>)
    requires
        strings(a.hosts@) == strings(b.hosts@),
    ensures
        a.lists(url) == b.lists(url),
{
}

/// What a policed heap may load or open beyond its hosts is public https only.
pub proof fn grants_open_public_https_only(t: &PolicyTable, heap: usize, url: Seq<char>)
    requires
        spec_is_enforced(t, heap),
        !spec_url_allowed(t, heap, url),
    ensures
        spec_media_allowed(t, heap, url) ==> spec_public_https_host(url) is Ok,
        spec_page_allowed(t, heap, url) ==> spec_public_https_host(url) is Ok,
{
}

/// Whatever it may request it may also load and open.
pub proof fn requests_can_be_loaded_and_opened(t: &PolicyTable, heap: usize, url: Seq<char>)
    requires
        spec_url_allowed(t, heap, url),
    ensures
        spec_media_allowed(t, heap, url),
        spec_page_allowed(t, heap, url),
{
}

/// A heap with an empty host list reaches nothing, whatever it is granted.
pub proof fn an_empty_host_list_reaches_nothing(t: &PolicyTable, heap: usize, url: Seq<char>)
    requires
        policy_of(t, heap) matches Some(p) && p.hosts@.len() == 0,
    ensures
        !spec_url_allowed(t, heap, url),
{
    let hosts = strings(policy_of(t, heap)->0.hosts@);
    assert forall|h: Seq<char>| !hosts.contains(h) by {}
}

/// A jailed path begins with the jail.
pub proof fn jailed_paths_stay_inside(root: Seq<char>, steps: Seq<Seq<char>>)
    ensures
        below(root, steps).len() >= root.len(),
        below(root, steps).subrange(0, root.len() as int) == root,
        steps.len() > 0 ==> below(root, steps).len() > root.len() && below(
            root,
            steps,
        )[root.len() as int] == '/',
    decreases steps.len(),
{
    reveal_strlit("/");
    if steps.len() == 0 {
        assert(root.subrange(0, root.len() as int) =~= root);
    } else {
        let init = steps.drop_last();
        jailed_paths_stay_inside(root, init);
        let a = below(root, init);
        let b = below(root, steps);
        assert(b.subrange(0, root.len() as int) =~= a.subrange(0, root.len() as int));
        if init.len() == 0 {
            assert(a == root);
        } else {
            assert(b[root.len() as int] == a[root.len() as int]);
        }
    }
}

/// A capability that names a family grants each of its services; one that names a service
/// grants that one. A service that neither names is not granted.
pub proof fn a_family_grants_its_services(p: HeapPolicy, name: Seq<char>, service: Seq<char>)
    requires
        !name.contains('.'),
    ensures
        ({
            let full = name + "."@ + service;
            let held = strings(p.capabilities@);
            &&& held.contains(name) ==> p.grants(full) && p.grants(name)
            &&& held.contains(full) ==> p.grants(full)
            &&& !held.contains(name) && !held.contains(full) ==> !p.grants(full)
            &&& !held.contains(name) ==> !p.grants(name)
        }),
{
    reveal_strlit(".");
    let full = name + "."@ + service;
    let n = name.len() as int;
    assert forall|j: int| 0 <= j < n implies #[trigger] full[j] != '.' by {
        assert(full[j] == name[j]);
        assert(name.contains(name[j]));
    }
    assert(full[n] == '.');
    char_found_at(full, '.', 0, n);
    assert(full.subrange(0, n) =~= name);
    no_dot(name, 0);
}

proof fn no_dot(s: Seq<char>, i: int)
    requires
        0 <= i,
        !s.contains('.'),
    ensures
        spec_find_char(s, '.', i) is None,
    decreases s.len() - i,
{
    if i < s.len() {
        assert(s.contains(s[i]));
        no_dot(s, i + 1);
    }
}

/// A URL may be fetched where its host is listed, or its host with its port, whatever the
/// case it is written in, its user and its path; a port that is listed opens no other.
pub proof fn a_listed_host_may_be_reached(
    p: HeapPolicy,
    scheme: Seq<char>,
    user: Option<Seq<char>>,
    host: Seq<char>,
    port: Option<Seq<char>>,
    rest: Seq<char>,
)
    requires
        scheme.len() > 0 && !scheme.contains(':'),
        user matches Some(u) ==> in_authority(u),
        in_authority(host) && !host.contains('@') && host.len() > 0,
        host[0] != '[' && !host.contains(':'),
        port matches Some(n) ==> n.len() > 0 && in_authority(n) && !n.contains('@'),
        follows_host(rest),
    ensures
        ({
            let url = scheme + "://"@ + (match user {
                Some(u) => u + seq!['@'],
                None => Seq::empty(),
            }) + (match port {
                Some(n) => host + seq![':'] + n,
                None => host,
            }) + rest;
            p.lists(url) <==> strings(p.hosts@).contains(spec_lower_all(host)) || (
            port matches Some(n) && strings(p.hosts@).contains(
                spec_lower_all(host + seq![':'] + n),
            ))
        }),
{
    a_written_host_is_found(scheme, user, host, port, rest);
}

/// A budget is spent when as much was used, and not before.
pub proof fn a_budget_is_spent_when_it_is_used_up(p: HeapPolicy, budget: u64, instructions: u64)
    requires
        p.wf(),
        !p.exhausted,
        p.instruction_budget == Some(budget),
        p.instructions_used + instructions <= u64::MAX,
    ensures
        charged(p, instructions).instructions_used - p.instructions_used == instructions,
        charged(p, instructions).exhausted <==> p.instructions_used + instructions >= budget,
        charged(p, instructions).instruction_budget == p.instruction_budget,
        charged(p, instructions).wf(),
{
}

/// A path of plain steps leads to where it says below the jail, and one that climbs out of
/// it leads nowhere.
pub proof fn plain_paths_lead_below_the_jail(root: Seq<char>, steps: Seq<Seq<char>>)
    requires
        steps.len() > 0,
        forall|i: int|
            0 <= i < steps.len() ==> goes_down(#[trigger] steps[i]) && !steps[i].contains('/'),
    ensures
        spec_resolve_jailed(root, spec_join(steps, seq!['/'])) == Some(
            root + "/"@ + spec_join(steps, seq!['/']),
        ),
        spec_resolve_jailed(root, ".."@) is None,
{
    reveal_strlit("..");
    reveal_strlit(".");
    joined_text_splits_back(steps, '/');
    steps_down_are_followed(steps);
    below_is_joined(root, steps);
    let up = seq![".."@];
    assert(!".."@.contains('/'));
    assert(spec_join(up, seq!['/']) == ".."@);
    joined_text_splits_back(up, '/');
    assert(up.drop_last() =~= Seq::empty());
    assert(".."@.len() == 2 && "."@.len() == 1);
    assert(follow(Seq::<Seq<char>>::empty()) == Some(Seq::<Seq<char>>::empty()));
    assert(follow(up) is None);
}

proof fn below_is_joined(root: Seq<char>, steps: Seq<Seq<char>>)
    requires
        steps.len() > 0,
    ensures
        below(root, steps) == root + "/"@ + spec_join(steps, seq!['/']),
    decreases steps.len(),
{
    reveal_strlit("/");
    assert("/"@ =~= seq!['/']);
    if steps.len() == 1 {
        assert(steps.drop_last() =~= Seq::empty());
        assert(below(root, steps.drop_last()) == root);
    } else {
        below_is_joined(root, steps.drop_last());
    }
    assert(below(root, steps) =~= root + "/"@ + spec_join(steps, seq!['/']));
}

} // verus!
