//! URLs: the host that one names, and which hosts are public.
use crate::splash::ip::{public_ip, spec_public_ip};
use crate::text::{
    at, char_found_at, find, find_char, found_at, is_digit, lower_all, occurs_at, push_all,
    push_text, rfind_char, same, spec_find, spec_find_char, spec_is_digit, spec_lower_all,
    spec_rfind_char, spec_starts_with, spells, starts_with, to_chars, to_text,
};
use vstd::prelude::*;
use vstd::slice::slice_subrange;

verus! {

/// The first index, `i` or later, that ends a URL's authority; the length if
/// there is none.
pub open spec fn authority_end(s: Seq<char>, i: int) -> int
    decreases s.len() - i,
{
    if i < 0 || i >= s.len() {
        s.len() as int
    } else if s[i] == '/' || s[i] == '?' || s[i] == '#' {
        i
    } else {
        authority_end(s, i + 1)
    }
}

/// The authority of a URL: what stands between `://` and the path, without
/// user information.
pub open spec fn authority(url: Seq<char>) -> Option<Seq<char>> {
    match spec_find(url, "://"@, 0) {
        Some(p) if p > 0 => {
            let a = url.subrange(p + 3, authority_end(url, p + 3));
            Some(
                match spec_rfind_char(a, '@', a.len() as int) {
                    Some(u) => a.subrange(u + 1, a.len() as int),
                    None => a,
                },
            )
        },
        _ => None,
    }
}

/// Where the host of an authority ends: behind its brackets, or at its port.
pub open spec fn host_end(a: Seq<char>) -> int {
    if a.len() > 0 && a[0] == '[' {
        match spec_find_char(a, ']', 0) {
            Some(e) => e + 1,
            None => a.len() as int,
        }
    } else {
        match spec_find_char(a, ':', 0) {
            Some(e) => e,
            None => a.len() as int,
        }
    }
}

/// The host that a URL names, in lower case.
pub open spec fn spec_url_host(url: Seq<char>) -> Option<Seq<char>> {
    match authority(url) {
        Some(a) if host_end(a) > 0 => Some(spec_lower_all(a.subrange(0, host_end(a)))),
        _ => None,
    }
}

/// The host and the port that a URL names, where it names a port.
pub open spec fn spec_url_host_port(url: Seq<char>) -> Option<Seq<char>> {
    match authority(url) {
        Some(a) if 0 < host_end(a) < a.len() && a[host_end(a)] == ':' && host_end(a) + 1
            < a.len() => Some(spec_lower_all(a)),
        _ => None,
    }
}

/// The view of a text that may be absent.
pub open spec fn maybe(r: Option<Vec<char>>) -> Option<Seq<char>> {
    match r {
        Some(v) => Some(v@),
        None => None,
    }
}

fn find_authority_end(s: &[char], from: usize) -> (r: usize)
    requires
        from <= s.len(),
    ensures
        r == authority_end(s@, from as int),
        from <= r <= s.len(),
{
    let mut i: usize = from;
    while i < s.len()
        invariant
            from <= i <= s.len(),
            authority_end(s@, from as int) == authority_end(s@, i as int),
        decreases s.len() - i,
    {
        if s[i] == '/' || s[i] == '?' || s[i] == '#' {
            return i;
        }
        i = i + 1;
    }
    i
}

fn find_authority<'a>(url: &'a [char]) -> (r: Option<&'a [char]>)
    ensures
        match r {
            Some(a) => authority(url@) == Some(a@),
            None => authority(url@) is None,
        },
{
    proof {
        reveal_strlit("://");
    }
    let mark = to_chars("://");
    let p: usize = match find(url, mark.as_slice(), 0) {
        Some(p) => p,
        None => return None,
    };
    if p == 0 {
        return None;
    }
    assert(p + 3 <= url.len());
    let end: usize = find_authority_end(url, p + 3);
    let a = slice_subrange(url, p + 3, end);
    match rfind_char(a, '@') {
        Some(u) => Some(slice_subrange(a, u + 1, a.len())),
        None => Some(a),
    }
}

fn find_host_end(a: &[char]) -> (r: usize)
    ensures
        r == host_end(a@),
        r <= a.len(),
{
    if a.len() > 0 && a[0] == '[' {
        match find_char(a, ']', 0) {
            Some(e) => e + 1,
            None => a.len(),
        }
    } else {
        match find_char(a, ':', 0) {
            Some(e) => e,
            None => a.len(),
        }
    }
}

/// The host that a URL names, in lower case: without user information and
/// without a port. A text without `://` names none.
pub fn url_host(url: &[char]) -> (r: Option<Vec<char>>)
    ensures
        maybe(r) == spec_url_host(url@),
{
    let a = match find_authority(url) {
        Some(a) => a,
        None => return None,
    };
    let e: usize = find_host_end(a);
    if e == 0 {
        return None;
    }
    Some(lower_all(slice_subrange(a, 0, e)))
}

/// The host and the port that a URL names, in lower case, where it names a port.
pub fn url_host_port(url: &[char]) -> (r: Option<Vec<char>>)
    ensures
        maybe(r) == spec_url_host_port(url@),
{
    let a = match find_authority(url) {
        Some(a) => a,
        None => return None,
    };
    let e: usize = find_host_end(a);
    if e == 0 || e >= a.len() || a[e] != ':' || a.len() - e < 2 {
        return None;
    }
    Some(lower_all(a))
}

// ---------------------------------------------------------------------------
// Public hosts
// ---------------------------------------------------------------------------

/// Without opening brackets at the start.
pub open spec fn after_brackets(s: Seq<char>, i: int) -> int
    decreases s.len() - i,
{
    if i < 0 || i >= s.len() || s[i] != '[' {
        i
    } else {
        after_brackets(s, i + 1)
    }
}

/// Without closing brackets at the end, but no further than `from`.
pub open spec fn before_brackets(s: Seq<char>, from: int, e: int) -> int
    decreases e,
{
    if e <= from || e <= 0 || e > s.len() || s[e - 1] != ']' {
        e
    } else {
        before_brackets(s, from, e - 1)
    }
}

/// A host without its brackets.
pub open spec fn bare_host(host: Seq<char>) -> Seq<char> {
    let i = after_brackets(host, 0);
    host.subrange(i, before_brackets(host, i, host.len() as int))
}

fn strip_brackets<'a>(host: &'a [char]) -> (r: &'a [char])
    ensures
        r@ == bare_host(host@),
{
    let mut i: usize = 0;
    while i < host.len() && host[i] == '['
        invariant
            i <= host.len(),
            after_brackets(host@, 0) == after_brackets(host@, i as int),
        decreases host.len() - i,
    {
        i = i + 1;
    }
    let mut e: usize = host.len();
    while e > i && host[e - 1] == ']'
        invariant
            i <= e <= host.len(),
            before_brackets(host@, i as int, host@.len() as int) == before_brackets(
                host@,
                i as int,
                e as int,
            ),
        decreases e,
    {
        e = e - 1;
    }
    slice_subrange(host, i, e)
}

/// The last label of a host.
pub open spec fn last_label(host: Seq<char>) -> Seq<char> {
    match spec_rfind_char(host, '.', host.len() as int) {
        Some(p) => host.subrange(p + 1, host.len() as int),
        None => host,
    }
}

/// Whether a label makes a host read as a number: digits only, or hexadecimal.
pub open spec fn is_numeric(label: Seq<char>) -> bool {
    (forall|i: int| 0 <= i < label.len() ==> spec_is_digit(#[trigger] label[i]))
        || spec_starts_with(label, "0x"@)
}

fn reads_as_number(label: &[char]) -> (r: bool)
    ensures
        r == is_numeric(label@),
{
    let mut all = true;
    let mut i: usize = 0;
    while i < label.len() && all
        invariant
            i <= label.len(),
            all == forall|j: int| 0 <= j < i ==> spec_is_digit(#[trigger] label@[j]),
        decreases label.len() - i,
    {
        if !is_digit(label[i]) {
            all = false;
            assert(!spec_is_digit(label@[i as int]));
        }
        i = i + 1;
    }
    all || starts_with(label, "0x")
}

/// Whether a text ends with another.
pub open spec fn ends_with(s: Seq<char>, tail: Seq<char>) -> bool {
    s.len() >= tail.len() && s.subrange(s.len() - tail.len(), s.len() as int) == tail
}

fn has_tail(s: &[char], tail: &str) -> (r: bool)
    ensures
        r == ends_with(s@, tail@),
{
    let t = to_chars(tail);
    if s.len() < t.len() {
        return false;
    }
    same(slice_subrange(s, s.len() - t.len(), s.len()), t.as_slice())
}

/// Whether a name is one of a local network.
pub open spec fn is_local_name(host: Seq<char>) -> bool {
    ||| host == "localhost"@
    ||| ends_with(host, ".localhost"@)
    ||| ends_with(host, ".internal"@)
    ||| ends_with(host, ".local"@)
    ||| ends_with(host, ".lan"@)
    ||| ends_with(host, ".home.arpa"@)
}

/// Why a URL is not one of a public host.
#[derive(Clone, Copy, PartialEq, Eq, Structural, Debug)]
pub enum HostRefusal {
    NotHttps,
    MissingHost,
    /// An address or a name of a local network.
    Private,
    /// A single label, or a number that only some resolvers read.
    NotAName,
}

/// Whether a host is a public one: an address of the public internet, or a name
/// of two labels or more that is not one of a local network and does not read
/// as a number.
pub open spec fn spec_host_refusal(host: Seq<char>) -> Option<HostRefusal> {
    match spec_public_ip(bare_host(host)) {
        Some(public) => if public {
            None
        } else {
            Some(HostRefusal::Private)
        },
        None => if is_numeric(last_label(host)) || spec_find_char(host, '.', 0) is None || (
        host.len() > 0 && host[0] == '[') {
            Some(HostRefusal::NotAName)
        } else if is_local_name(host) {
            Some(HostRefusal::Private)
        } else {
            None
        },
    }
}

fn host_refusal(host: &[char]) -> (r: Option<HostRefusal>)
    ensures
        r == spec_host_refusal(host@),
{
    if let Some(public) = public_ip(strip_brackets(host)) {
        return if public {
            None
        } else {
            Some(HostRefusal::Private)
        };
    }
    let last = match rfind_char(host, '.') {
        Some(p) => slice_subrange(host, p + 1, host.len()),
        None => host,
    };
    if reads_as_number(last) || find_char(host, '.', 0).is_none() || (host.len() > 0 && host[0]
        == '[') {
        return Some(HostRefusal::NotAName);
    }
    if spells(host, "localhost") || has_tail(host, ".localhost") || has_tail(host, ".internal")
        || has_tail(host, ".local") || has_tail(host, ".lan") || has_tail(host, ".home.arpa") {
        return Some(HostRefusal::Private);
    }
    None
}

/// Whether a URL begins with `https://`, in any case.
pub open spec fn is_https(url: Seq<char>) -> bool {
    url.len() >= 8 && spec_lower_all(url.subrange(0, 8)) == "https://"@
}

/// The public host that a URL names, or why there is none.
pub open spec fn spec_public_https_host(url: Seq<char>) -> Result<Seq<char>, HostRefusal> {
    if !is_https(url) {
        Err(HostRefusal::NotHttps)
    } else {
        match spec_url_host(url) {
            None => Err(HostRefusal::MissingHost),
            Some(host) => match spec_host_refusal(host) {
                Some(e) => Err(e),
                None => Ok(host),
            },
        }
    }
}

/// What is reported of a URL that is refused.
pub open spec fn refusal_text(e: HostRefusal, host: Seq<char>) -> Seq<char> {
    match e {
        HostRefusal::NotHttps => "only https:// URLs are allowed"@,
        HostRefusal::MissingHost => "missing host"@,
        HostRefusal::Private => "host not permitted (private/internal): "@ + host,
        HostRefusal::NotAName => "host not permitted (not a public name): "@ + host,
    }
}

fn refused(label: &str, host: &[char]) -> (r: String)
    ensures
        r@ == label@ + host@,
{
    let mut out: Vec<char> = Vec::new();
    push_text(&mut out, label);
    push_all(&mut out, host);
    assert(out@ =~= label@ + host@);
    to_text(out.as_slice())
}

/// The host of a URL where it is https and names a public host: not loopback,
/// private, link-local, shared or unspecified, not a single-label or
/// `.local`/`.internal`/`.localhost` name, and not an address written in a form
/// that only some resolvers read as one. What a grant to reach "any public page"
/// may reach, and nothing on the device's own network.
pub fn public_https_host(url: &str) -> (r: Result<String, String>)
    ensures
        match r {
            Ok(host) => spec_public_https_host(url@) == Ok::<Seq<char>, HostRefusal>(host@),
            Err(text) => spec_public_https_host(url@) matches Err(e) && text@ == refusal_text(
                e,
                match spec_url_host(url@) {
                    Some(h) => h,
                    None => Seq::empty(),
                },
            ),
        },
{
    let u = to_chars(url);
    let u = u.as_slice();
    proof {
        reveal_strlit("https://");
    }
    let https = to_chars("https://");
    if u.len() < 8 {
        return Err("only https:// URLs are allowed".to_owned());
    }
    let head = lower_all(slice_subrange(u, 0, 8));
    if !same(head.as_slice(), https.as_slice()) {
        return Err("only https:// URLs are allowed".to_owned());
    }
    let host = match url_host(u) {
        Some(h) => h,
        None => return Err("missing host".to_owned()),
    };
    match host_refusal(host.as_slice()) {
        None => Ok(to_text(host.as_slice())),
        Some(HostRefusal::Private) => Err(
            refused("host not permitted (private/internal): ", host.as_slice()),
        ),
        Some(HostRefusal::NotAName) => Err(
            refused("host not permitted (not a public name): ", host.as_slice()),
        ),
        Some(HostRefusal::NotHttps) => Err("only https:// URLs are allowed".to_owned()),
        Some(HostRefusal::MissingHost) => Err("missing host".to_owned()),
    }
}

// ---------------------------------------------------------------------------
// Laws
// ---------------------------------------------------------------------------

/// Whether a text ends the part of a URL that names the host.
pub open spec fn follows_host(rest: Seq<char>) -> bool {
    rest.len() > 0 ==> rest[0] == '/' || rest[0] == '?' || rest[0] == '#'
}

/// Whether a text can stand between the scheme and the path.
pub open spec fn in_authority(s: Seq<char>) -> bool {
    !s.contains('/') && !s.contains('?') && !s.contains('#')
}

proof fn authority_ends(s: Seq<char>, i: int, e: int)
    requires
        0 <= i <= e <= s.len(),
        e < s.len() ==> s[e] == '/' || s[e] == '?' || s[e] == '#',
        forall|j: int| i <= j < e ==> #[trigger] s[j] != '/' && s[j] != '?' && s[j] != '#',
    ensures
        authority_end(s, i) == e,
    decreases e - i,
{
    if i < e {
        authority_ends(s, i + 1, e);
    }
}

proof fn last_at(s: Seq<char>, p: int, upto: int)
    requires
        0 <= p < upto <= s.len(),
        s[p] == '@',
        forall|j: int| p < j < upto ==> #[trigger] s[j] != '@',
    ensures
        spec_rfind_char(s, '@', upto) == Some(p),
    decreases upto,
{
    if upto - 1 > p {
        last_at(s, p, upto - 1);
    }
}

proof fn no_at(s: Seq<char>, upto: int)
    requires
        upto <= s.len(),
        !s.contains('@'),
    ensures
        spec_rfind_char(s, '@', upto) is None,
    decreases upto,
{
    if upto > 0 {
        assert(s.contains(s[upto - 1]));
        no_at(s, upto - 1);
    }
}

proof fn no_char(s: Seq<char>, c: char, i: int)
    requires
        0 <= i,
        !s.contains(c),
    ensures
        spec_find_char(s, c, i) is None,
    decreases s.len() - i,
{
    if i < s.len() {
        assert(s.contains(s[i]));
        no_char(s, c, i + 1);
    }
}

/// The part of a URL that names the host is what stands between the scheme and the path,
/// behind the user's name where there is one.
pub proof fn a_written_authority_is_found(
    scheme: Seq<char>,
    user: Option<Seq<char>>,
    place: Seq<char>,
    rest: Seq<char>,
)
    requires
        scheme.len() > 0 && !scheme.contains(':'),
        user matches Some(u) ==> in_authority(u),
        in_authority(place) && !place.contains('@'),
        follows_host(rest),
    ensures
        authority(
            scheme + "://"@ + (match user {
                Some(u) => u + seq!['@'],
                None => Seq::empty(),
            }) + place + rest,
        ) == Some(place),
{
    reveal_strlit("://");
    let sep = "://"@;
    let named = match user {
        Some(u) => u + seq!['@'],
        None => Seq::empty(),
    };
    let url = scheme + sep + named + place + rest;
    let p = scheme.len() as int;
    assert(url.subrange(p, p + 3) =~= sep);
    assert(occurs_at(url, sep, p));
    assert forall|j: int| 0 <= j < p implies !#[trigger] occurs_at(url, sep, j) by {
        if occurs_at(url, sep, j) {
            assert(url.subrange(j, j + 3)[0] == url[j]);
            assert(url[j] == scheme[j]);
            assert(scheme.contains(scheme[j]));
        }
    }
    found_at(url, sep, 0, p);
    let a = named + place;
    let e = p + 3 + a.len();
    assert forall|j: int| p + 3 <= j < e implies #[trigger] url[j] != '/' && url[j] != '?' && url[j]
        != '#' by {
        let k = j - p - 3;
        assert(url[j] == a[k]);
        if let Some(u) = user {
            if k < u.len() {
                assert(u.contains(u[k]));
            } else if k > u.len() {
                assert(place.contains(place[k - u.len() - 1]));
            }
        } else {
            assert(place.contains(place[k]));
        }
    }
    if e < url.len() {
        assert(url[e] == rest[0]);
    }
    authority_ends(url, p + 3, e);
    assert(url.subrange(p + 3, e) =~= a);
    if let Some(u) = user {
        let n = u.len() as int;
        assert(a[n] == '@');
        assert forall|j: int| n < j < a.len() implies #[trigger] a[j] != '@' by {
            assert(a[j] == place[j - n - 1]);
            assert(place.contains(place[j - n - 1]));
        }
        last_at(a, n, a.len() as int);
        assert(a.subrange(n + 1, a.len() as int) =~= place);
    } else {
        assert(a =~= place);
        no_at(a, a.len() as int);
    }
}

/// The host of a URL is what is written before its port, in lower case, whatever user and
/// path stand around it; a host in brackets may have colons of its own.
pub proof fn a_written_host_is_found(
    scheme: Seq<char>,
    user: Option<Seq<char>>,
    host: Seq<char>,
    port: Option<Seq<char>>,
    rest: Seq<char>,
)
    requires
        scheme.len() > 0 && !scheme.contains(':'),
        user matches Some(u) ==> in_authority(u),
        in_authority(host) && !host.contains('@') && host.len() > 0,
        if host[0] == '[' {
            host.len() > 1 && host.last() == ']' && !host.drop_last().contains(']')
        } else {
            !host.contains(':')
        },
        port matches Some(n) ==> n.len() > 0 && in_authority(n) && !n.contains('@'),
        follows_host(rest),
    ensures
        ({
            let url = scheme + "://"@ + (match user {
                Some(u) => u + seq!['@'],
                None => Seq::empty(),
            }) + (match port {
                Some(n) => host + seq![':'] + n,
                None => host,
            }) + rest;
            &&& spec_url_host(url) == Some(spec_lower_all(host))
            &&& spec_url_host_port(url) == match port {
                Some(n) => Some(spec_lower_all(host + seq![':'] + n)),
                None => None,
            }
        }),
{
    let place = match port {
        Some(n) => host + seq![':'] + n,
        None => host,
    };
    place_holds_no_mark(host, port, '/');
    place_holds_no_mark(host, port, '?');
    place_holds_no_mark(host, port, '#');
    place_holds_no_mark(host, port, '@');
    a_written_authority_is_found(scheme, user, place, rest);
    let n = host.len() as int;
    assert(place.subrange(0, n) =~= host);
    assert(place[0] == host[0]);
    if host[0] == '[' {
        assert forall|j: int| 0 <= j < n - 1 implies #[trigger] place[j] != ']' by {
            assert(place[j] == host.drop_last()[j]);
            assert(host.drop_last().contains(host.drop_last()[j]));
        }
        assert(place[n - 1] == host.last());
        char_found_at(place, ']', 0, n - 1);
    } else {
        assert forall|j: int| 0 <= j < n implies #[trigger] place[j] != ':' by {
            assert(place[j] == host[j]);
            assert(host.contains(host[j]));
        }
        if port is Some {
            assert(place[n] == ':');
            char_found_at(place, ':', 0, n);
        } else {
            no_char(place, ':', 0);
        }
    }
    assert(host_end(place) == n);
}

proof fn place_holds_no_mark(host: Seq<char>, port: Option<Seq<char>>, c: char)
    requires
        !host.contains(c),
        c != ':',
        port matches Some(n) ==> !n.contains(c),
    ensures
        port matches Some(n) ==> !(host + seq![':'] + n).contains(c),
{
    if let Some(n) = port {
        let place = host + seq![':'] + n;
        if place.contains(c) {
            let i = place.index_of(c);
            if i < host.len() {
                assert(host.contains(host[i]));
            } else if i > host.len() {
                assert(n.contains(n[i - host.len() - 1]));
            }
        }
    }
}

/// Names that only a private network knows are known as such, whatever stands before their
/// last part.
pub proof fn private_names_are_known(name: Seq<char>)
    ensures
        is_local_name(name + ".localhost"@),
        is_local_name(name + ".local"@),
        is_local_name(name + ".internal"@),
        is_local_name(name + ".lan"@),
        is_local_name(name + ".home.arpa"@),
        is_local_name("localhost"@),
{
    local_ending(name, ".localhost"@);
    local_ending(name, ".local"@);
    local_ending(name, ".internal"@);
    local_ending(name, ".lan"@);
    local_ending(name, ".home.arpa"@);
}

proof fn local_ending(name: Seq<char>, tail: Seq<char>)
    ensures
        ends_with(name + tail, tail),
{
    let s = name + tail;
    assert(s.subrange(s.len() - tail.len(), s.len() as int) =~= tail);
}

/// A host is let through only over HTTPS, and never where it is an address that is not
/// public, a private name, or no name at all.
pub proof fn only_public_hosts_are_let_through(url: Seq<char>)
    ensures
        spec_public_https_host(url) matches Ok(host) ==> {
            &&& is_https(url)
            &&& spec_url_host(url) == Some(host)
            &&& spec_public_ip(bare_host(host)) != Some(false)
            &&& spec_public_ip(bare_host(host)) is None ==> !is_local_name(host)
                && spec_find_char(host, '.', 0) is Some && !is_numeric(last_label(host))
        },
{
}

} // verus!
