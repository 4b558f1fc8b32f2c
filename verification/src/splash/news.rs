//! The news digest that a host may offer to cards.
use crate::number::{
    decimal_reads_back, is_digit_in, parse_unsigned, spec_decimal, spec_digit, spec_parse_unsigned,
};
use crate::script::crate_paths::without_trail;
use crate::script::fetches::{asked_of, fetch_at, retried, DataFetch, DataFetches, FetchStep};
use crate::text::{
    is_trimmed, joined_text_splits_back, push_all, push_text, spec_join, spec_lead, spec_split,
    spec_starts_with, spec_trim, spec_trim_start, spells, split, starts_with, strings, texts,
    to_chars, to_text, trim, trimming_keeps,
};
use crate::textmap::{keys_are_at_places, TextMap};
use vstd::prelude::*;
use vstd::string::StringSliceAdditionalSpecFns;
use vstd::utf8::encode_utf8;

verus! {

// ---------------------------------------------------------------------------
// Requests
// ---------------------------------------------------------------------------

/// What a digest says as a whole.
pub open spec fn whole_field(field: Seq<char>) -> bool {
    field == "status"@ || field == "message"@ || field == "count"@
}

/// What a digest says of one story.
pub open spec fn story_field(name: Seq<char>) -> bool {
    name == "id"@ || name == "title"@ || name == "summary"@ || name == "publisher"@ || name
        == "url"@ || name == "published_at"@
}

/// Whether a card may ask for a field: one of the whole digest, or one of its first
/// three stories, such as `items.0.title`.
pub open spec fn spec_field_ok(field: Seq<char>) -> bool {
    let parts = spec_split(field, '.', 0);
    whole_field(field) || (parts.len() == 3 && parts[0] == "items"@ && spec_parse_unsigned(
        parts[1],
        2,
    ) is Some && story_field(parts[2]))
}

fn is_story_field(name: &[char]) -> (r: bool)
    ensures
        r == story_field(name@),
{
    spells(name, "id") || spells(name, "title") || spells(name, "summary") || spells(
        name,
        "publisher",
    ) || spells(name, "url") || spells(name, "published_at")
}

/// Whether a card may ask for a field.
pub fn field_ok(field: &str) -> (r: bool)
    ensures
        r == spec_field_ok(field@),
{
    let chars = to_chars(field);
    let f = chars.as_slice();
    if spells(f, "status") || spells(f, "message") || spells(f, "count") {
        return true;
    }
    let parts = split(f, '.');
    assert(texts(parts@).len() == parts@.len());
    if parts.len() != 3 {
        return false;
    }
    assert(texts(parts@)[0] == parts@[0]@ && texts(parts@)[1] == parts@[1]@ && texts(parts@)[2]
        == parts@[2]@);
    spells(parts[0], "items") && parse_unsigned(parts[1], 2).is_some() && is_story_field(parts[2])
}

/// Whether the host answers a request: it knows the field and the language, the
/// query is not empty and not too long, and the host offers digests on the device
/// itself.
pub open spec fn spec_request_ok(
    field: Seq<char>,
    query: Seq<char>,
    language: Seq<char>,
    base: Seq<char>,
) -> bool {
    spec_field_ok(field) && spec_trim(query).len() > 0 && query.len() <= 160 && (language == "en"@
        || language == "zh-CN"@) && spec_starts_with(base, "http://127.0.0.1:"@)
}

/// Whether the host answers a request.
pub fn request_ok(field: &str, query: &str, language: &str, base: &str) -> (r: bool)
    ensures
        r == spec_request_ok(field@, query@, language@, base@),
{
    let q = to_chars(query);
    let l = to_chars(language);
    let b = to_chars(base);
    field_ok(field) && trim(q.as_slice()).len() > 0 && q.len() <= 160 && (spells(l.as_slice(), "en")
        || spells(l.as_slice(), "zh-CN")) && starts_with(b.as_slice(), "http://127.0.0.1:")
}

/// Whether a byte stands for itself in a query.
pub open spec fn unreserved(b: u8) -> bool {
    0x30 <= b <= 0x39 || 0x41 <= b <= 0x5a || 0x61 <= b <= 0x7a || b == 0x2d || b == 0x2e || b
        == 0x5f || b == 0x7e
}

pub open spec fn hex_digit(n: int) -> char {
    if n < 10 {
        (0x30 + n) as u8 as char
    } else {
        (0x37 + n) as u8 as char
    }
}

/// A byte in a query.
pub open spec fn percent(b: u8) -> Seq<char> {
    if unreserved(b) {
        seq![b as char]
    } else {
        seq!['%', hex_digit(b as int / 16), hex_digit(b as int % 16)]
    }
}

/// Bytes in a query, one after another.
pub open spec fn percent_all(bytes: Seq<u8>) -> Seq<char>
    decreases bytes.len(),
{
    if bytes.len() == 0 {
        seq![]
    } else {
        percent_all(bytes.drop_last()) + percent(bytes.last())
    }
}

fn hex(n: u8) -> (r: char)
    requires
        n < 16,
    ensures
        r == hex_digit(n as int),
{
    if n < 10 {
        (0x30 + n) as char
    } else {
        (0x37 + n) as char
    }
}

/// A text in a query: its letters, digits and `-._~` stand for themselves, its other
/// bytes are written in hexadecimal behind a percent sign.
pub fn percent_encode_query(text: &str) -> (r: Vec<char>)
    ensures
        r@ == percent_all(encode_utf8(text@)),
{
    let bytes = text.as_bytes();
    let mut out: Vec<char> = Vec::new();
    let mut i: usize = 0;
    assert(bytes@.take(0) =~= seq![]);
    while i < bytes.len()
        invariant
            i <= bytes.len(),
            bytes@ == encode_utf8(text@),
            out@ == percent_all(bytes@.take(i as int)),
        decreases bytes.len() - i,
    {
        let b: u8 = bytes[i];
        let ghost before = out@;
        if (0x30 <= b && b <= 0x39) || (0x41 <= b && b <= 0x5a) || (0x61 <= b && b <= 0x7a) || b
            == 0x2d || b == 0x2e || b == 0x5f || b == 0x7e {
            out.push(b as char);
        } else {
            out.push('%');
            out.push(hex(b / 16));
            out.push(hex(b % 16));
        }
        proof {
            assert(bytes@.take(i + 1).drop_last() =~= bytes@.take(i as int));
            assert(bytes@.take(i + 1).last() == b);
            assert(out@ =~= before + percent(b));
        }
        i = i + 1;
    }
    assert(bytes@.take(i as int) =~= bytes@);
    out
}

/// Whether a character may stand in an encoded query.
pub open spec fn query_char(c: char) -> bool {
    c == '%' || exists|b: u8| unreserved(b) && c == #[trigger] (b as char)
}

/// An encoded query cannot be taken for anything else of the URL: it holds letters,
/// digits, `-._~` and percent signs only.
pub proof fn queries_stay_in_their_place(bytes: Seq<u8>, i: int)
    requires
        0 <= i < percent_all(bytes).len(),
    ensures
        query_char(percent_all(bytes)[i]),
    decreases bytes.len(),
{
    let before = percent_all(bytes.drop_last());
    let b = bytes.last();
    if i < before.len() {
        queries_stay_in_their_place(bytes.drop_last(), i);
        assert(percent_all(bytes)[i] == before[i]);
    } else {
        let k = i - before.len();
        assert(percent_all(bytes)[i] == percent(b)[k]);
        if unreserved(b) {
            assert(percent(b)[k] == b as char);
        } else {
            hex_digits_are_plain(b as int / 16);
            hex_digits_are_plain(b as int % 16);
        }
    }
}

proof fn hex_digits_are_plain(n: int)
    requires
        0 <= n < 16,
    ensures
        query_char(hex_digit(n)),
{
    let b: u8 = if n < 10 {
        (0x30 + n) as u8
    } else {
        (0x37 + n) as u8
    };
    assert(unreserved(b) && hex_digit(n) == b as char);
}

/// Where the digest of a query is.
pub open spec fn spec_news_url(base: Seq<char>, query: Seq<char>, language: Seq<char>) -> Seq<char> {
    without_trail(base) + "/news?q="@ + percent_all(encode_utf8(spec_trim(query))) + "&language="@
        + percent_all(encode_utf8(language))
}

/// Where the digest of a query is.
pub fn news_url(base: &str, query: &str, language: &str) -> (r: String)
    ensures
        r@ == spec_news_url(base@, query@, language@),
{
    let b = to_chars(base);
    let q = to_chars(query);
    let trimmed = to_text(trim(q.as_slice()));
    let encoded_query = percent_encode_query(trimmed.as_str());
    let encoded_language = percent_encode_query(language);
    let mut out: Vec<char> = Vec::new();
    push_all(&mut out, crate::script::crate_paths::strip_trailing_slashes(b.as_slice()));
    push_text(&mut out, "/news?q=");
    push_all(&mut out, encoded_query.as_slice());
    push_text(&mut out, "&language=");
    push_all(&mut out, encoded_language.as_slice());
    assert(out@ =~= spec_news_url(base@, query@, language@));
    to_text(out.as_slice())
}

// ---------------------------------------------------------------------------
// The cache
// ---------------------------------------------------------------------------

/// How long a digest is kept, in milliseconds.
pub const NEWS_LIFETIME: u64 = 60000;

/// How many digests are kept.
pub const NEWS_KEPT: usize = 32;

/// When the digests that are kept were asked for, by URL.
pub struct NewsCache {
    pub requests: TextMap<u64>,
}

/// Whether a text comes before another, byte by byte.
pub open spec fn comes_before(a: Seq<u8>, b: Seq<u8>) -> bool
    decreases a.len(),
{
    if b.len() == 0 {
        false
    } else if a.len() == 0 {
        true
    } else if a[0] != b[0] {
        a[0] < b[0]
    } else {
        comes_before(a.skip(1), b.skip(1))
    }
}

fn is_before(a: &str, b: &str) -> (r: bool)
    ensures
        r == comes_before(encode_utf8(a@), encode_utf8(b@)),
{
    let x = a.as_bytes();
    let y = b.as_bytes();
    let mut i: usize = 0;
    assert(x@.skip(0) =~= x@ && y@.skip(0) =~= y@);
    while i < x.len() && i < y.len()
        invariant
            i <= x.len(),
            i <= y.len(),
            x@ == encode_utf8(a@),
            y@ == encode_utf8(b@),
            comes_before(x@, y@) == comes_before(x@.skip(i as int), y@.skip(i as int)),
        decreases x.len() - i,
    {
        assert(x@.skip(i as int)[0] == x@[i as int] && y@.skip(i as int)[0] == y@[i as int]);
        if x[i] != y[i] {
            return x[i] < y[i];
        }
        assert(x@.skip(i as int).skip(1) =~= x@.skip(i + 1));
        assert(y@.skip(i as int).skip(1) =~= y@.skip(i + 1));
        i = i + 1;
    }
    i < y.len()
}

/// Whether a digest is dropped before another: it is older, or as old and its URL
/// comes first.
pub open spec fn older(m: Map<Seq<char>, u64>, a: Seq<char>, b: Seq<char>) -> bool {
    m[a] < m[b] || (m[a] == m[b] && comes_before(encode_utf8(a), encode_utf8(b)))
}

/// Whether a digest is the first to be dropped.
pub open spec fn oldest(m: Map<Seq<char>, u64>, url: Seq<char>) -> bool {
    m.contains_key(url) && forall|other: Seq<char>| #[trigger]
        m.contains_key(other) ==> !older(m, other, url)
}

/// Whether a digest is too old to be shown.
pub open spec fn stale(m: Map<Seq<char>, u64>, url: Seq<char>, now: u64) -> bool {
    m.contains_key(url) && now - m[url] >= NEWS_LIFETIME
}

proof fn before_is_transitive(a: Seq<u8>, b: Seq<u8>, c: Seq<u8>)
    requires
        comes_before(a, b),
        comes_before(b, c),
    ensures
        comes_before(a, c),
    decreases a.len(),
{
    if a.len() > 0 && b.len() > 0 && c.len() > 0 && a[0] == b[0] && b[0] == c[0] {
        before_is_transitive(a.skip(1), b.skip(1), c.skip(1));
    }
}

proof fn never_before_itself(a: Seq<u8>)
    ensures
        !comes_before(a, a),
    decreases a.len(),
{
    if a.len() > 0 {
        never_before_itself(a.skip(1));
    }
}

/// Whether a cache has changed as a request for a digest changes it, and these are the
/// URLs whose data is not to be used any more. A digest that is still young keeps the
/// time of its request; an old one is requested anew; for a further one the oldest
/// makes room where the cache is full.
pub open spec fn requested(
    before: &NewsCache,
    after: &NewsCache,
    url: Seq<char>,
    now: u64,
    gone: Seq<Seq<char>>,
) -> bool {
    let m = before.requests@;
    if stale(m, url, now) {
        gone == seq![url] && after.requests@ == m.insert(url, now)
    } else if m.contains_key(url) {
        gone == Seq::<Seq<char>>::empty() && after.requests@ == m
    } else if before.requests.spec_len() >= NEWS_KEPT {
        &&& gone.len() == 1
        &&& oldest(m, gone[0])
        &&& after.requests@ == m.remove(gone[0]).insert(url, now)
    } else {
        gone == Seq::<Seq<char>>::empty() && after.requests@ == m.insert(url, now)
    }
}

impl NewsCache {
    /// Few digests are kept.
    pub open spec fn wf(&self) -> bool {
        self.requests.wf() && self.requests.spec_len() <= NEWS_KEPT
    }

    pub fn new() -> (r: NewsCache)
        ensures
            r.wf(),
            r.requests@ == Map::<Seq<char>, u64>::empty(),
    {
        NewsCache { requests: TextMap::new() }
    }

    fn first_to_drop(&self) -> (r: String)
        requires
            self.wf(),
            self.requests.spec_len() > 0,
        ensures
            oldest(self.requests@, r@),
    {
        let ghost m = self.requests@;
        let (key, at) = self.requests.at(0);
        let mut best = key.clone();
        let mut best_at: u64 = *at;
        let mut i: usize = 1;
        proof {
            never_before_itself(encode_utf8(best@));
        }
        while i < self.requests.len()
            invariant
                1 <= i <= self.requests.spec_len(),
                self.wf(),
                m == self.requests@,
                m.contains_key(best@),
                m[best@] == best_at,
                forall|j: int| 0 <= j < i ==> !older(m, #[trigger] self.requests.key_at(j), best@),
            decreases self.requests.spec_len() - i,
        {
            let (key, at) = self.requests.at(i);
            if *at < best_at || (*at == best_at && is_before(key.as_str(), best.as_str())) {
                proof {
                    assert forall|j: int| 0 <= j < i + 1 implies !older(
                        m,
                        #[trigger] self.requests.key_at(j),
                        key@,
                    ) by {
                        let k = self.requests.key_at(j);
                        never_before_itself(encode_utf8(key@));
                        if older(m, k, key@) && comes_before(encode_utf8(k), encode_utf8(key@))
                            && comes_before(encode_utf8(key@), encode_utf8(best@)) {
                            before_is_transitive(
                                encode_utf8(k),
                                encode_utf8(key@),
                                encode_utf8(best@),
                            );
                        }
                    }
                }
                best = key.clone();
                best_at = *at;
            }
            i = i + 1;
        }
        proof {
            assert forall|other: Seq<char>| #[trigger] m.contains_key(other) implies !older(
                m,
                other,
                best@,
            ) by {
                keys_are_at_places(&self.requests, other);
                let j = choose|j: int|
                    0 <= j < self.requests.spec_len() && #[trigger] self.requests.key_at(j) == other;
                assert(!older(m, self.requests.key_at(j), best@));
            }
        }
        best
    }

    /// A digest is asked for: it is kept, and what has to make room for it is
    /// dropped. The URLs whose data is not to be used any more.
    pub fn request(&mut self, url: &str, now: u64) -> (r: Vec<String>)
        requires
            old(self).wf(),
        ensures
            final(self).wf(),
            requested(old(self), final(self), url@, now, strings(r@)),
    {
        let ghost m = self.requests@;
        let mut expired: Vec<String> = Vec::new();
        let is_stale = match self.requests.get(url) {
            Some(at) => now >= *at && now - *at >= NEWS_LIFETIME,
            None => false,
        };
        if is_stale {
            expired.push(url.to_owned());
            self.requests.remove(url);
            self.requests.insert(url, now);
            assert(strings(expired@) =~= seq![url@]);
            assert(self.requests@ =~= m.insert(url@, now));
            return expired;
        }
        if self.requests.get(url).is_some() {
            assert(strings(expired@) =~= seq![]);
            return expired;
        }
        if self.requests.len() >= NEWS_KEPT {
            let gone = self.first_to_drop();
            self.requests.remove(gone.as_str());
            self.requests.insert(url, now);
            proof {
                assert(oldest(m, gone@));
                assert(self.requests@ =~= m.remove(gone@).insert(url@, now));
            }
            expired.push(gone);
            assert(strings(expired@) =~= seq![gone@]);
            return expired;
        }
        self.requests.insert(url, now);
        assert(strings(expired@) =~= seq![]);
        expired
    }
}

/// The fetches without those of some URLs.
pub open spec fn without_all(fetches: Map<Seq<char>, DataFetch>, gone: Seq<Seq<char>>) -> Map<
    Seq<char>,
    DataFetch,
>
    decreases gone.len(),
{
    if gone.len() == 0 {
        fetches
    } else {
        without_all(fetches, gone.drop_last()).remove(gone.last())
    }
}

/// Takes the data of URLs out that is not to be used any more.
pub fn forget(fetches: &mut DataFetches, expired: &Vec<String>)
    requires
        old(fetches).wf(),
    ensures
        final(fetches).wf(),
        final(fetches).retries == old(fetches).retries,
        final(fetches).epoch == old(fetches).epoch,
        final(fetches).fetches@ == without_all(old(fetches).fetches@, strings(expired@)),
{
    let mut i: usize = 0;
    assert(strings(expired@).take(0) =~= seq![]);
    while i < expired.len()
        invariant
            i <= expired.len(),
            fetches.wf(),
            fetches.retries == old(fetches).retries,
            fetches.epoch == old(fetches).epoch,
            fetches.fetches@ == without_all(
                old(fetches).fetches@,
                strings(expired@).take(i as int),
            ),
        decreases expired.len() - i,
    {
        proof {
            let next = strings(expired@).take(i + 1);
            assert(next.drop_last() =~= strings(expired@).take(i as int));
            assert(next.last() == expired@[i as int]@);
        }
        fetches.fetches.remove(expired[i].as_str());
        i = i + 1;
    }
    assert(strings(expired@).take(i as int) =~= strings(expired@));
}

/// What a card that asks for a field of a digest is shown.
pub enum NewsStep {
    /// The host does not answer the request.
    Unavailable,
    /// The field is plucked from the data at this URL.
    Loaded(String),
    /// Nothing yet; a request to this URL is to be issued.
    Issue { url: String, retry: bool },
    /// Nothing yet, or nothing at all.
    Waiting(String),
    /// The card's heap may not load this URL.
    Refused(String),
}

/// What a step is as that of a fetch, and the URL it is of.
pub open spec fn news_step(step: NewsStep) -> (FetchStep, Seq<char>) {
    match step {
        NewsStep::Unavailable => (FetchStep::Refused, seq![]),
        NewsStep::Loaded(url) => (FetchStep::Ready, url@),
        NewsStep::Issue { url, retry } => (FetchStep::Issue { retry }, url@),
        NewsStep::Waiting(url) => (FetchStep::Nothing, url@),
        NewsStep::Refused(url) => (FetchStep::Refused, url@),
    }
}

/// The fetches once one was asked for: a request that is issued is in flight.
pub open spec fn fetched(
    fetches: Map<Seq<char>, DataFetch>,
    url: Seq<char>,
    step: FetchStep,
    request_id: u64,
) -> Map<Seq<char>, DataFetch> {
    if step is Issue {
        fetches.insert(url, DataFetch::Loading(request_id))
    } else {
        fetches
    }
}

/// A card asks for a field of a digest; `allowed` is whether its heap may load the
/// digest's URL, and `request_id` is the request that is issued where one has to be.
pub fn news_digest(
    cache: &mut NewsCache,
    fetches: &mut DataFetches,
    field: &str,
    query: &str,
    language: &str,
    base: &str,
    allowed: bool,
    now: u64,
    request_id: u64,
) -> (r: NewsStep)
    requires
        old(cache).wf(),
        old(fetches).wf(),
    ensures
        final(cache).wf(),
        final(fetches).wf(),
        if !spec_request_ok(field@, query@, language@, base@) {
            r is Unavailable && *final(cache) == *old(cache) && *final(fetches) == *old(fetches)
        } else {
            let url = spec_news_url(base@, query@, language@);
            let held = if stale(old(cache).requests@, url, now) {
                None
            } else {
                fetch_at(old(fetches).fetches@, url)
            };
            let step = asked_of(held, old(fetches).retries@, url, allowed, now);
            &&& !(r is Unavailable)
            &&& news_step(r) == (step, url)
            &&& exists|gone: Seq<Seq<char>>| #[trigger]
                requested(old(cache), final(cache), url, now, gone) && final(fetches).fetches@
                    == fetched(without_all(old(fetches).fetches@, gone), url, step, request_id)
            &&& fetch_at(final(fetches).fetches@, url) == if step is Issue {
                Some(DataFetch::Loading(request_id))
            } else {
                held
            }
            &&& final(fetches).retries@ == if step == (FetchStep::Issue { retry: true }) {
                retried(old(fetches).retries@, url, now)
            } else {
                old(fetches).retries@
            }
            &&& final(fetches).epoch == old(fetches).epoch
        },
{
    if !request_ok(field, query, language, base) {
        return NewsStep::Unavailable;
    }
    let url = news_url(base, query, language);
    let expired = cache.request(url.as_str(), now);
    forget(fetches, &expired);
    proof {
        let m = old(cache).requests@;
        let held = if stale(m, url@, now) {
            None
        } else {
            fetch_at(old(fetches).fetches@, url@)
        };
        let gone = strings(expired@);
        let kept = fetches.fetches@;
        assert(requested(old(cache), cache, url@, now, gone));
        if gone.len() == 1 {
            let none = gone.drop_last();
            assert(none =~= seq![]);
            assert(without_all(old(fetches).fetches@, none) == old(fetches).fetches@);
            assert(kept == old(fetches).fetches@.remove(gone[0]));
        } else {
            assert(kept == old(fetches).fetches@);
        }
        assert(fetch_at(kept, url@) == held);
    }
    let step = fetches.script_data_fetch(url.as_str(), allowed, now, request_id);
    match step {
        FetchStep::Ready => NewsStep::Loaded(url),
        FetchStep::Issue { retry } => NewsStep::Issue { url, retry },
        FetchStep::Nothing => NewsStep::Waiting(url),
        FetchStep::Refused => NewsStep::Refused(url),
    }
}

/// Asking often does not keep a digest young: while it is kept, its age counts from the
/// request that fetched it.
pub proof fn polling_does_not_renew_a_digest(
    before: &NewsCache,
    after: &NewsCache,
    url: Seq<char>,
    now: u64,
    gone: Seq<Seq<char>>,
)
    requires
        requested(before, after, url, now, gone),
        before.requests@.contains_key(url),
        now - before.requests@[url] < NEWS_LIFETIME,
    ensures
        after.requests@ == before.requests@,
{
}

/// A digest older than a minute is fetched anew: its data is dropped, and a request is
/// issued.
pub proof fn an_old_digest_is_fetched_anew(
    before: &NewsCache,
    after: &NewsCache,
    fetches: &DataFetches,
    url: Seq<char>,
    now: u64,
    gone: Seq<Seq<char>>,
)
    requires
        requested(before, after, url, now, gone),
        before.requests@.contains_key(url),
        now - before.requests@[url] >= NEWS_LIFETIME,
    ensures
        after.requests@[url] == now,
        asked_of(
            fetch_at(without_all(fetches.fetches@, gone), url),
            fetches.retries@,
            url,
            true,
            now,
        ) == (FetchStep::Issue { retry: false }),
{
    let none = gone.drop_last();
    assert(none =~= seq![]);
    assert(without_all(fetches.fetches@, none) == fetches.fetches@);
}

/// A byte that must be escaped is written by its two hexadecimal digits, the high one
/// first; another stands for itself.
pub proof fn bytes_are_read_back_from_a_query(b: u8)
    ensures
        unreserved(b) ==> percent(b) == seq![b as char] && b as char != '%',
        !unreserved(b) ==> percent(b).len() == 3 && percent(b)[0] == '%' && (spec_digit(
            percent(b)[1],
        ) matches Some(high) && spec_digit(percent(b)[2]) matches Some(low) && 16 * high + low
            == b),
        b == 0x20 || b == 0x26 || b == 0x3d || b == 0x23 || b == 0x25 || b == 0x2b || b >= 0x80
            ==> !unreserved(b),
{
}

/// A query is escaped byte by byte.
pub proof fn queries_are_escaped_part_by_part(a: Seq<u8>, b: Seq<u8>)
    ensures
        percent_all(a + b) == percent_all(a) + percent_all(b),
    decreases b.len(),
{
    if b.len() == 0 {
        assert(a + b =~= a);
        assert(percent_all(a) + percent_all(b) =~= percent_all(a));
    } else {
        assert((a + b).drop_last() =~= a + b.drop_last());
        queries_are_escaped_part_by_part(a, b.drop_last());
        assert(percent_all(a + b) =~= percent_all(a) + percent_all(b));
    }
}

/// A slash behind the base and white space around the query do not make another digest.
pub proof fn the_same_question_has_one_url(base: Seq<char>, query: Seq<char>, language: Seq<char>)
    requires
        is_trimmed(query),
    ensures
        spec_news_url(base + seq!['/'], query, language) == spec_news_url(base, query, language),
        spec_news_url(base, seq![' '] + query, language) == spec_news_url(base, query, language),
{
    assert((base + seq!['/']).drop_last() =~= base);
    trimming_keeps(query);
    let q = seq![' '] + query;
    if query.len() > 0 {
        assert(q[1] == query[0]);
    }
    assert(spec_lead(q, 0) == spec_lead(q, 1));
    assert(spec_lead(q, 1) == 1);
    assert(q.subrange(1, q.len() as int) =~= query);
    assert(spec_trim_start(q) == query);
    assert(query.subrange(0, query.len() as int) =~= query);
    assert(spec_trim(q) == query);
}

/// Each field of the first three stories may be asked for, and none of a later one.
pub proof fn three_stories_may_be_asked_for(n: nat, name: Seq<char>)
    requires
        story_field(name),
        !name.contains('.'),
    ensures
        spec_field_ok("items"@ + seq!['.'] + spec_decimal(n) + seq!['.'] + name) <==> n <= 2,
{
    reveal_strlit("items");
    reveal_strlit("status");
    reveal_strlit("message");
    reveal_strlit("count");
    let d = spec_decimal(n);
    let parts = seq!["items"@, d, name];
    decimal_reads_back(n);
    assert(!d.contains('.')) by {
        if d.contains('.') {
            let i = d.index_of('.');
            assert(is_digit_in(d[i], 10));
        }
    }
    assert(!"items"@.contains('.'));
    assert(parts.drop_last() =~= seq!["items"@, d]);
    assert(seq!["items"@, d].drop_last() =~= seq!["items"@]);
    assert(spec_join(seq!["items"@], seq!['.']) == "items"@);
    assert(spec_join(seq!["items"@, d], seq!['.']) =~= "items"@ + seq!['.'] + d);
    let field = "items"@ + seq!['.'] + d + seq!['.'] + name;
    assert(spec_join(parts, seq!['.']) =~= field);
    joined_text_splits_back(parts, '.');
    assert(field[0] == 'i');
    assert("status"@[0] == 's' && "message"@[0] == 'm' && "count"@[0] == 'c');
    assert(d[0] != '+') by {
        assert(is_digit_in(d[0], 10));
    }
}

/// A digest is a minute old when it is fetched anew, and thirty-two are kept.
pub proof fn digests_last_a_minute(m: Map<Seq<char>, u64>, url: Seq<char>, now: u64)
    requires
        m.contains_key(url),
    ensures
        stale(m, url, now) <==> now >= m[url] + 60_000,
        NEWS_KEPT == 32,
{
}

} // verus!
