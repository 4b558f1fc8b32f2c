//! Live data that scripts fetch, by URL.
//!
//! A fetch is issued once. One that fails is issued again when a script asks for
//! it later, a bounded number of times and each time after a longer wait.
use crate::text::{contains, spec_contains, to_chars};
use crate::textmap::{keys_are_at_places, TextMap};
use vstd::prelude::*;

verus! {

/// Retries of one URL before its error stands; the first attempt does not count.
pub const DATA_FETCH_MAX_RETRIES: u8 = 4;

/// The state of a fetch.
pub enum DataFetch {
    /// The request that is in flight.
    Loading(u64),
    Loaded(Vec<u8>),
    Error,
}

/// The retries that a URL has used, and when the next may be issued.
#[derive(Clone, Copy)]
pub struct Retries {
    pub used: u8,
    /// In milliseconds; wider than the clock, so that every wait fits.
    pub earliest: u128,
}

pub struct DataFetches {
    pub fetches: TextMap<DataFetch>,
    pub retries: TextMap<Retries>,
    /// Counts the fetches that have loaded: what shows their data is evaluated
    /// again when it changes.
    pub epoch: u64,
}

/// The User-Agent that a fetch names: a descriptive one where the host asks for
/// it, else that of a browser.
pub fn data_fetch_user_agent(url: &str) -> (r: &'static str)
    ensures
        r@ == if spec_contains(url@, "overpass"@) || spec_contains(url@, "nominatim"@) {
            "octoscript-appcard/1.0 (+https://github.com/OctoSense-org/Octoscript-AppCard; live card data binding)"@
        } else {
            "Mozilla/5.0"@
        },
{
    let text = to_chars(url);
    let overpass = to_chars("overpass");
    let nominatim = to_chars("nominatim");
    if contains(text.as_slice(), overpass.as_slice()) || contains(
        text.as_slice(),
        nominatim.as_slice(),
    ) {
        "octoscript-appcard/1.0 (+https://github.com/OctoSense-org/Octoscript-AppCard; live card data binding)"
    } else {
        "Mozilla/5.0"
    }
}

/// How long to wait after the given retry, in milliseconds.
pub open spec fn backoff(used: u8) -> u64 {
    if used <= 1 {
        1000
    } else if used == 2 {
        2000
    } else if used == 3 {
        4000
    } else {
        8000
    }
}

/// Whether a retry of a URL may be issued now.
pub open spec fn may_retry(retries: Map<Seq<char>, Retries>, url: Seq<char>, now: u64) -> bool {
    !retries.contains_key(url) || retries[url].used < DATA_FETCH_MAX_RETRIES && retries[url].earliest
        <= now
}

/// The retries that a URL has used.
pub open spec fn used(retries: Map<Seq<char>, Retries>, url: Seq<char>) -> u8 {
    if retries.contains_key(url) {
        retries[url].used
    } else {
        0
    }
}

/// The retries after one more of a URL.
pub open spec fn retried(retries: Map<Seq<char>, Retries>, url: Seq<char>, now: u64) -> Map<
    Seq<char>,
    Retries,
> {
    let n = (used(retries, url) + 1) as u8;
    retries.insert(url, (Retries { used: n, earliest: (now + backoff(n)) as u128 }))
}

/// What a script that asks for a URL gets.
pub enum FetchStep {
    /// The host does not let it load the URL.
    Refused,
    /// The data is there.
    Ready,
    /// Nothing yet: a request is in flight, or its error stands.
    Nothing,
    /// Nothing yet: a request is to be issued, the first one or a retry.
    Issue { retry: bool },
}

/// The fetch of a URL.
pub open spec fn fetch_at(fetches: Map<Seq<char>, DataFetch>, url: Seq<char>) -> Option<DataFetch> {
    if fetches.contains_key(url) {
        Some(fetches[url])
    } else {
        None
    }
}

/// What a script that asks for a URL gets: the first one to ask has it fetched, and
/// a fetch that failed is issued again while a retry is left.
pub open spec fn asked_of(
    fetch: Option<DataFetch>,
    retries: Map<Seq<char>, Retries>,
    url: Seq<char>,
    allowed: bool,
    now: u64,
) -> FetchStep {
    if !allowed {
        FetchStep::Refused
    } else {
        match fetch {
            None => FetchStep::Issue { retry: false },
            Some(DataFetch::Loaded(_)) => FetchStep::Ready,
            Some(DataFetch::Loading(_)) => FetchStep::Nothing,
            Some(DataFetch::Error) => if may_retry(retries, url, now) {
                FetchStep::Issue { retry: true }
            } else {
                FetchStep::Nothing
            },
        }
    }
}

impl DataFetches {
    pub open spec fn wf(&self) -> bool {
        &&& self.fetches.wf()
        &&& self.retries.wf()
        &&& forall|url: Seq<char>| #[trigger]
            self.retries@.contains_key(url) ==> self.retries@[url].used <= DATA_FETCH_MAX_RETRIES
    }

    /// Whether a URL's request is the given one.
    pub open spec fn loads(&self, url: Seq<char>, request_id: u64) -> bool {
        self.fetches@.contains_key(url) && self.fetches@[url] == DataFetch::Loading(request_id)
    }

    /// Whether a URL's error stands: it failed, and no retry is left.
    pub open spec fn failed(&self, url: Seq<char>) -> bool {
        self.fetches@.contains_key(url) && self.fetches@[url] is Error && self.retries@.contains_key(
            url,
        ) && self.retries@[url].used >= DATA_FETCH_MAX_RETRIES
    }

    pub fn new() -> (r: DataFetches)
        ensures
            r.wf(),
            r.fetches@ == Map::<Seq<char>, DataFetch>::empty(),
            r.retries@ == Map::<Seq<char>, Retries>::empty(),
            r.epoch == 0,
    {
        DataFetches { fetches: TextMap::new(), retries: TextMap::new(), epoch: 0 }
    }

    pub fn get_data_fetch(&self, url: &str) -> (r: Option<&DataFetch>)
        ensures
            match r {
                Some(fetch) => self.fetches@.contains_key(url@) && self.fetches@[url@] == *fetch,
                None => !self.fetches@.contains_key(url@),
            },
    {
        self.fetches.get(url)
    }

    /// A URL is in flight.
    pub fn begin_data_fetch(&mut self, url: &str, request_id: u64)
        requires
            old(self).wf(),
        ensures
            final(self).wf(),
            final(self).fetches@ == old(self).fetches@.insert(url@, DataFetch::Loading(request_id)),
            final(self).retries == old(self).retries,
            final(self).epoch == old(self).epoch,
    {
        self.fetches.insert(url, DataFetch::Loading(request_id));
    }

    /// The URL that a request in flight was issued for.
    pub fn data_fetch_url(&self, request_id: u64) -> (r: Option<String>)
        requires
            self.wf(),
        ensures
            match r {
                Some(url) => self.loads(url@, request_id),
                None => forall|url: Seq<char>| !#[trigger] self.loads(url, request_id),
            },
    {
        let mut i: usize = 0;
        while i < self.fetches.len()
            invariant
                self.wf(),
                i <= self.fetches.spec_len(),
                forall|j: int|
                    0 <= j < i ==> !self.loads(#[trigger] self.fetches.key_at(j), request_id),
            decreases self.fetches.spec_len() - i,
        {
            let (url, fetch) = self.fetches.at(i);
            if let DataFetch::Loading(id) = fetch {
                if *id == request_id {
                    return Some(url.clone());
                }
            }
            i = i + 1;
        }
        proof {
            assert forall|url: Seq<char>| !#[trigger] self.loads(url, request_id) by {
                keys_are_at_places(&self.fetches, url);
                if self.fetches@.contains_key(url) {
                    let j = choose|j: int|
                        0 <= j < self.fetches.spec_len() && #[trigger] self.fetches.key_at(j) == url;
                    assert(!self.loads(self.fetches.key_at(j), request_id));
                }
            }
        }
        None
    }

    /// Whether a request belongs to a fetch in flight.
    pub fn is_data_fetch(&self, request_id: u64) -> (r: bool)
        requires
            self.wf(),
        ensures
            r == exists|url: Seq<char>| #[trigger] self.loads(url, request_id),
    {
        self.data_fetch_url(request_id).is_some()
    }

    /// The data of a request in flight has come. Its URL has no retries behind it
    /// any more.
    pub fn handle_data_fetch_response(&mut self, request_id: u64, data: Vec<u8>) -> (r: bool)
        requires
            old(self).wf(),
        ensures
            final(self).wf(),
            r == exists|url: Seq<char>| #[trigger] old(self).loads(url, request_id),
            r ==> exists|url: Seq<char>| #[trigger]
                old(self).loads(url, request_id) && final(self).fetches@ == old(self).fetches@.insert(
                    url,
                    DataFetch::Loaded(data),
                ) && final(self).retries@ == old(self).retries@.remove(url) && final(self).epoch
                    == next_count(old(self).epoch),
            !r ==> *final(self) == *old(self),
    {
        match self.data_fetch_url(request_id) {
            Some(url) => {
                assert(old(self).loads(url@, request_id));
                self.fetches.insert(url.as_str(), DataFetch::Loaded(data));
                self.retries.remove(url.as_str());
                self.epoch = self.epoch.wrapping_add(1);
                true
            },
            None => false,
        }
    }

    /// A request in flight has failed.
    pub fn handle_data_fetch_error(&mut self, request_id: u64) -> (r: bool)
        requires
            old(self).wf(),
        ensures
            final(self).wf(),
            r == exists|url: Seq<char>| #[trigger] old(self).loads(url, request_id),
            r ==> exists|url: Seq<char>| #[trigger]
                old(self).loads(url, request_id) && final(self).fetches@ == old(self).fetches@.insert(
                    url,
                    DataFetch::Error,
                ) && final(self).retries == old(self).retries && final(self).epoch == old(
                    self,
                ).epoch,
            !r ==> *final(self) == *old(self),
    {
        match self.data_fetch_url(request_id) {
            Some(url) => {
                assert(old(self).loads(url@, request_id));
                self.fetches.insert(url.as_str(), DataFetch::Error);
                true
            },
            None => false,
        }
    }

    /// Uses up a retry of a URL, if one is left and the wait before it is over.
    pub fn take_data_fetch_retry(&mut self, url: &str, now: u64) -> (r: bool)
        requires
            old(self).wf(),
        ensures
            final(self).wf(),
            r == may_retry(old(self).retries@, url@, now),
            final(self).fetches == old(self).fetches,
            final(self).epoch == old(self).epoch,
            final(self).retries@ == if r {
                retried(old(self).retries@, url@, now)
            } else {
                old(self).retries@
            },
    {
        let entry = match self.retries.get(url) {
            Some(entry) => *entry,
            None => Retries { used: 0, earliest: now as u128 },
        };
        if entry.used >= DATA_FETCH_MAX_RETRIES || (now as u128) < entry.earliest {
            return false;
        }
        let n: u8 = entry.used + 1;
        let wait: u128 = if n <= 1 {
            1000
        } else if n == 2 {
            2000
        } else if n == 3 {
            4000
        } else {
            8000
        };
        let earliest: u128 = now as u128 + wait;
        self.retries.insert(url, Retries { used: n, earliest });
        true
    }

    /// A request in flight has failed for good: asking again would only fail the
    /// same way.
    pub fn fail_data_fetch_terminally(&mut self, request_id: u64, now: u64) -> (r: bool)
        requires
            old(self).wf(),
        ensures
            final(self).wf(),
            r == exists|url: Seq<char>| #[trigger] old(self).loads(url, request_id),
            r ==> exists|url: Seq<char>| #[trigger]
                old(self).loads(url, request_id) && final(self).fetches@ == old(self).fetches@.insert(
                    url,
                    DataFetch::Error,
                ) && final(self).retries@ == old(self).retries@.insert(
                    url,
                    (Retries { used: DATA_FETCH_MAX_RETRIES, earliest: now as u128 }),
                ) && final(self).epoch == old(self).epoch && final(self).failed(url),
            !r ==> *final(self) == *old(self),
    {
        match self.data_fetch_url(request_id) {
            Some(url) => {
                assert(old(self).loads(url@, request_id));
                self.fetches.insert(url.as_str(), DataFetch::Error);
                self.retries.insert(
                    url.as_str(),
                    Retries { used: DATA_FETCH_MAX_RETRIES, earliest: now as u128 },
                );
                true
            },
            None => false,
        }
    }

    /// Whether a URL's error stands.
    pub fn data_fetch_failed_terminally(&self, url: &str) -> (r: bool)
        ensures
            r == self.failed(url@),
    {
        match self.fetches.get(url) {
            Some(DataFetch::Error) => match self.retries.get(url) {
                Some(entry) => entry.used >= DATA_FETCH_MAX_RETRIES,
                None => false,
            },
            _ => false,
        }
    }

    /// The number after an epoch.
    pub fn bump_data_fetch_epoch(&mut self)
        ensures
            final(self).epoch == next_count(old(self).epoch),
            final(self).fetches == old(self).fetches,
            final(self).retries == old(self).retries,
    {
        self.epoch = self.epoch.wrapping_add(1);
    }

    /// What a script that asks for a URL gets; `request_id` is the request that
    /// is issued where one has to be.
    pub fn script_data_fetch(&mut self, url: &str, allowed: bool, now: u64, request_id: u64) -> (r:
        FetchStep)
        requires
            old(self).wf(),
        ensures
            final(self).wf(),
            final(self).epoch == old(self).epoch,
            r == old(self).asked(url@, allowed, now),
            final(self).fetches@ == if r is Issue {
                old(self).fetches@.insert(url@, DataFetch::Loading(request_id))
            } else {
                old(self).fetches@
            },
            final(self).retries@ == if r == (FetchStep::Issue { retry: true }) {
                retried(old(self).retries@, url@, now)
            } else {
                old(self).retries@
            },
    {
        if !allowed {
            return FetchStep::Refused;
        }
        let retry = match self.fetches.get(url) {
            Some(DataFetch::Loaded(_)) => {
                return FetchStep::Ready;
            },
            Some(DataFetch::Loading(_)) => {
                return FetchStep::Nothing;
            },
            Some(DataFetch::Error) => true,
            None => false,
        };
        if retry && !self.take_data_fetch_retry(url, now) {
            return FetchStep::Nothing;
        }
        self.begin_data_fetch(url, request_id);
        FetchStep::Issue { retry }
    }

    /// What a script that asks for a URL gets.
    pub open spec fn asked(&self, url: Seq<char>, allowed: bool, now: u64) -> FetchStep {
        asked_of(fetch_at(self.fetches@, url), self.retries@, url, allowed, now)
    }

    /// What stands in the place of data that is not there.
    pub fn script_data_placeholder(&self, url: &str) -> (r: &'static str)
        ensures
            r@ == if self.failed(url@) {
                "n/a"@
            } else {
                "\u{2014}"@
            },
    {
        if self.data_fetch_failed_terminally(url) {
            "n/a"
        } else {
            "\u{2014}"
        }
    }

    pub fn script_data_fetch_epoch(&self) -> (r: u64)
        ensures
            r == self.epoch,
    {
        self.epoch
    }
}

/// The number after another in a count that wraps around.
pub open spec fn next_count(n: u64) -> u64 {
    if n == u64::MAX {
        0
    } else {
        (n + 1) as u64
    }
}

/// A URL whose error stands is not asked for again, however late it is.
pub proof fn an_exhausted_url_is_never_issued(f: &DataFetches, url: Seq<char>, allowed: bool, now: u64)
    requires
        f.failed(url),
    ensures
        !(f.asked(url, allowed, now) is Issue),
{
}

/// A URL that is being fetched, or has been, is not asked for again: whoever asks
/// for it waits for the same request, and gets the same data.
pub proof fn a_url_is_fetched_once(f: &DataFetches, url: Seq<char>, now: u64)
    requires
        f.fetches@.contains_key(url),
    ensures
        f.fetches@[url] is Loading ==> f.asked(url, true, now) is Nothing,
        f.fetches@[url] is Loaded ==> f.asked(url, true, now) is Ready,
{
}

/// Each retry brings a URL nearer to the end of its retries, and waits longer
/// than the one before it.
pub proof fn retries_run_out(retries: Map<Seq<char>, Retries>, url: Seq<char>, now: u64)
    requires
        may_retry(retries, url, now),
    ensures
        used(retried(retries, url, now), url) == used(retries, url) + 1,
        used(retries, url) > 0 ==> backoff(used(retried(retries, url, now), url)) == 2 * backoff(
            used(retries, url),
        ),
        !may_retry(retried(retries, url, now), url, now),
{
}

/// The retries after the first `n` of some calls that ask for one of a URL, each at its
/// time.
pub open spec fn after_calls(
    retries: Map<Seq<char>, Retries>,
    url: Seq<char>,
    times: Seq<u64>,
    n: int,
) -> Map<Seq<char>, Retries>
    decreases n,
{
    if n <= 0 {
        retries
    } else {
        let before = after_calls(retries, url, times, n - 1);
        if may_retry(before, url, times[n - 1]) {
            retried(before, url, times[n - 1])
        } else {
            before
        }
    }
}

/// Whether a call gets a retry.
pub open spec fn is_granted(
    retries: Map<Seq<char>, Retries>,
    url: Seq<char>,
    times: Seq<u64>,
    i: int,
) -> bool {
    may_retry(after_calls(retries, url, times, i), url, times[i])
}

/// How many of the first `n` calls get a retry.
pub open spec fn grants(
    retries: Map<Seq<char>, Retries>,
    url: Seq<char>,
    times: Seq<u64>,
    n: int,
) -> int
    decreases n,
{
    if n <= 0 {
        0
    } else {
        grants(retries, url, times, n - 1) + if is_granted(retries, url, times, n - 1) {
            1int
        } else {
            0
        }
    }
}

/// Of all the calls that ask for a retry of a URL the first gets one, and at most four
/// do. Other URLs keep what they have.
pub proof fn a_url_has_few_retries(
    retries: Map<Seq<char>, Retries>,
    url: Seq<char>,
    times: Seq<u64>,
    n: int,
)
    requires
        !retries.contains_key(url),
        0 <= n <= times.len(),
    ensures
        n > 0 ==> is_granted(retries, url, times, 0),
        0 <= grants(retries, url, times, n) <= DATA_FETCH_MAX_RETRIES,
        used(after_calls(retries, url, times, n), url) == grants(retries, url, times, n),
        n > 0 ==> after_calls(retries, url, times, n).contains_key(url),
        forall|other: Seq<char>| #![trigger after_calls(retries, url, times, n).contains_key(other)]
            other != url ==> after_calls(retries, url, times, n).contains_key(other)
                == retries.contains_key(other) && after_calls(retries, url, times, n)[other]
                == retries[other],
    decreases n,
{
    if n > 0 {
        a_url_has_few_retries(retries, url, times, n - 1);
        assert(after_calls(retries, url, times, 0) == retries);
    }
}

/// After a call that gets the `k`-th retry, the calls in the next 2^(k-1) seconds get
/// none; after the fourth no call gets any, and until then the first call that comes
/// after the wait gets the next. `i` is the call that got a retry, and `j` one after it
/// with no retry between them.
pub proof fn each_retry_waits_twice_as_long(
    retries: Map<Seq<char>, Retries>,
    url: Seq<char>,
    times: Seq<u64>,
    i: int,
    j: int,
)
    requires
        !retries.contains_key(url),
        0 <= i < j < times.len(),
        is_granted(retries, url, times, i),
        forall|m: int| i < m < j ==> !#[trigger] is_granted(retries, url, times, m),
    ensures
        ({
            let k = grants(retries, url, times, i + 1);
            &&& 1 <= k <= DATA_FETCH_MAX_RETRIES
            &&& backoff(k as u8) == 1000 * vstd::arithmetic::power2::pow2((k - 1) as nat)
            &&& is_granted(retries, url, times, j) <==> k < DATA_FETCH_MAX_RETRIES && times[j]
                >= times[i] + backoff(k as u8)
        }),
{
    a_url_has_few_retries(retries, url, times, i + 1);
    a_url_has_few_retries(retries, url, times, i);
    nothing_changes_without_a_grant(retries, url, times, i + 1, j);
    vstd::arithmetic::power2::lemma2_to64();
    let k = grants(retries, url, times, i + 1);
    assert(k == 1 || k == 2 || k == 3 || k == 4);
}

proof fn nothing_changes_without_a_grant(
    retries: Map<Seq<char>, Retries>,
    url: Seq<char>,
    times: Seq<u64>,
    from: int,
    to: int,
)
    requires
        0 <= from <= to <= times.len(),
        forall|m: int| from <= m < to ==> !#[trigger] is_granted(retries, url, times, m),
    ensures
        after_calls(retries, url, times, to) == after_calls(retries, url, times, from),
    decreases to - from,
{
    if from < to {
        nothing_changes_without_a_grant(retries, url, times, from, to - 1);
        assert(!is_granted(retries, url, times, to - 1));
    }
}

/// The requests that may still be issued for a URL, counting those for retries.
pub open spec fn requests_left(f: &DataFetches, url: Seq<char>) -> int {
    (DATA_FETCH_MAX_RETRIES - used(f.retries@, url)) + if f.fetches@.contains_key(url) {
        0int
    } else {
        1
    }
}

/// A request uses up one of the few that a URL has: asking for one URL over and
/// over issues at most one request and its retries.
pub proof fn requests_are_bounded(before: &DataFetches, after: &DataFetches, url: Seq<char>, now: u64, id: u64)
    requires
        before.wf(),
        before.asked(url, true, now) is Issue,
        after.fetches@ == before.fetches@.insert(url, DataFetch::Loading(id)),
        after.retries@ == if before.asked(url, true, now) == (FetchStep::Issue { retry: true }) {
            retried(before.retries@, url, now)
        } else {
            before.retries@
        },
    ensures
        requests_left(before, url) > 0,
        requests_left(after, url) == requests_left(before, url) - 1,
{
}

/// A URL is tried again four times, after one, two, four and eight seconds.
pub proof fn a_url_is_tried_again_four_times(
    retries: Map<Seq<char>, Retries>,
    url: Seq<char>,
    now: u64,
)
    ensures
        !retries.contains_key(url) ==> may_retry(retries, url, now),
        retries.contains_key(url) ==> (may_retry(retries, url, now) <==> retries[url].used < 4
            && now >= retries[url].earliest),
        backoff(1) == 1000 && backoff(2) == 2000 && backoff(3) == 4000 && backoff(4) == 8000,
        used(retries, url) < 4 ==> retried(retries, url, now)[url].earliest == now + backoff(
            (used(retries, url) + 1) as u8,
        ),
{
}

/// What is allowed is fetched, once; what is not allowed is refused, whatever became of it
/// before.
pub proof fn what_is_not_allowed_is_refused(
    fetch: Option<DataFetch>,
    retries: Map<Seq<char>, Retries>,
    url: Seq<char>,
    now: u64,
)
    ensures
        asked_of(fetch, retries, url, false, now) is Refused,
        asked_of(None, retries, url, true, now) == (FetchStep::Issue { retry: false }),
        fetch matches Some(f) ==> f is Loaded ==> asked_of(fetch, retries, url, true, now) is Ready,
        fetch matches Some(f) ==> f is Loading ==> asked_of(fetch, retries, url, true, now)
            is Nothing,
        fetch matches Some(f) ==> f is Error && may_retry(retries, url, now) ==> asked_of(
            fetch,
            retries,
            url,
            true,
            now,
        ) == (FetchStep::Issue { retry: true }),
{
}

} // verus!
