//! Stories: reading the items of a feed as rows, and writing rows as JSON.
use crate::feed::dates::{
    parse_rfc3339, parse_rfc822, seconds, spec_parse_rfc3339, spec_parse_rfc822,
};
use crate::feed::images::{
    begins_ci, image_url, is_http_url, owned, pictures_are_always_https, spec_image_url,
    spec_is_http_url,
};
use crate::feed::markup::{
    attribute, clean_text, decode_entities, element, element_text, ends_name, has_element, maybe,
    spec_attribute, spec_clean_text, spec_decode_entities, spec_element, spec_element_text,
    spec_has_element, spec_strip_tags, without_cdata,
};
use crate::feed::names::{
    outlet_prefix, outlets_leave_trimmed_titles, prefixes_only_shorten, spec_outlet_prefix,
    spec_split_google_source, spec_trailing_outlet, split_google_source, trailing_outlet,
};
use crate::number::{signed_decimal, spec_digit, spec_signed_decimal};
use crate::text::{
    at, contains, find, find_char, is_space, is_trimmed, joined_words_are_trimmed, occurs_at,
    push_all, push_text, replace, same_ignoring_case, spec_contains, spec_find, spec_find_char,
    spec_is_space, spec_lower_all, spec_replace, spec_rfind, spec_trim, spec_trim_end, spec_words,
    spells, stands_at, text_of, to_chars, to_text, trim, trim_end, trimmed_texts_are_trimmed,
    words_are_words,
};
use vstd::prelude::*;
use vstd::slice::slice_subrange;

verus! {

// ---------------------------------------------------------------------------
// Rows
// ---------------------------------------------------------------------------

/// One story, whatever the feed.
pub struct Headline {
    pub title: String,
    pub link: String,
    pub source: String,
    pub source_id: String,
    pub published: Option<i64>,
    pub points: Option<u32>,
    pub comments: Option<u32>,
    pub summary: String,
    pub discussion: Option<String>,
    pub image: Option<String>,
}

/// What a story says.
#[verifier::ext_equal]
pub struct HeadlineView {
    pub title: Seq<char>,
    pub link: Seq<char>,
    pub source: Seq<char>,
    pub source_id: Seq<char>,
    pub published: Option<int>,
    pub points: Option<u32>,
    pub comments: Option<u32>,
    pub summary: Seq<char>,
    pub discussion: Option<Seq<char>>,
    pub image: Option<Seq<char>>,
}

impl View for Headline {
    type V = HeadlineView;

    open spec fn view(&self) -> HeadlineView {
        HeadlineView {
            title: self.title@,
            link: self.link@,
            source: self.source@,
            source_id: self.source_id@,
            published: seconds(self.published),
            points: self.points,
            comments: self.comments,
            summary: self.summary@,
            discussion: text_of(self.discussion),
            image: text_of(self.image),
        }
    }
}

impl Default for Headline {
    fn default() -> (r: Headline)
        ensures
            r@ == (HeadlineView {
                title: Seq::empty(),
                link: Seq::empty(),
                source: Seq::empty(),
                source_id: Seq::empty(),
                published: None,
                points: None,
                comments: None,
                summary: Seq::empty(),
                discussion: None,
                image: None,
            }),
    {
        Headline {
            title: String::new(),
            link: String::new(),
            source: String::new(),
            source_id: String::new(),
            published: None,
            points: None,
            comments: None,
            summary: String::new(),
            discussion: None,
            image: None,
        }
    }
}

/// How a feed spells its stories, beyond plain RSS or Atom.
#[derive(Clone, Copy, PartialEq, Eq, Structural, Debug)]
pub struct Style {
    /// Google News: titles end in ` - Source`.
    pub split_source: bool,
    /// A digest (TechMeme): titles end in ` (Author/Outlet)` and the description
    /// is `Outlet: headline` again.
    pub digest: bool,
}

impl Default for Style {
    fn default() -> (r: Style)
        ensures
            r == (Style { split_source: false, digest: false }),
    {
        Style { split_source: false, digest: false }
    }
}

/// The style with a name; plain for any other name.
pub open spec fn spec_style(name: Seq<char>) -> Style {
    Style { split_source: name == "google"@, digest: name == "digest"@ }
}

/// The style with a name.
pub fn style_named(name: &str) -> (r: Style)
    ensures
        r == spec_style(name@),
{
    let n = to_chars(name);
    let google = spells(n.as_slice(), "google");
    let digest = spells(n.as_slice(), "digest");
    Style { split_source: google, digest }
}

// ---------------------------------------------------------------------------
// Text of a row
// ---------------------------------------------------------------------------

pub const SUMMARY_CHARS: usize = 280;

/// At most `max` characters: cut to one less, trailing white space dropped, an
/// ellipsis appended.
pub open spec fn spec_truncate(s: Seq<char>, max: nat) -> Seq<char> {
    if s.len() <= max {
        s
    } else {
        spec_trim_end(s.subrange(0, if max > 0 {
            max - 1
        } else {
            0
        })).push('\u{2026}')
    }
}

/// At most `max` characters.
pub fn truncate(s: &[char], max: usize) -> (r: Vec<char>)
    ensures
        r@ == spec_truncate(s@, max as nat),
{
    let mut r: Vec<char> = Vec::new();
    if s.len() <= max {
        push_all(&mut r, s);
        assert(r@ =~= s@);
        return r;
    }
    let cut: usize = if max > 0 {
        max - 1
    } else {
        0
    };
    push_all(&mut r, trim_end(slice_subrange(s, 0, cut)));
    r.push('\u{2026}');
    assert(r@ =~= spec_truncate(s@, max as nat));
    r
}

/// A cut text fits.
pub proof fn truncated_text_fits(s: Seq<char>, max: nat)
    requires
        max > 0,
    ensures
        spec_truncate(s, max).len() <= max,
{
    if s.len() > max {
        let cut = s.subrange(0, max - 1);
        crate::text::trail_bounds(cut, cut.len() as int);
    }
}

/// The first of some elements that an item has.
pub open spec fn summary_html(body: Seq<char>) -> Option<Seq<char>> {
    match spec_element_text(body, "description"@) {
        Some(t) => Some(t),
        None => match spec_element_text(body, "summary"@) {
            Some(t) => Some(t),
            None => match spec_element_text(body, "content"@) {
                Some(t) => Some(t),
                None => spec_element_text(body, "content:encoded"@),
            },
        },
    }
}

/// The summary that an item's description gives.
pub open spec fn plain_summary(body: Seq<char>) -> Seq<char> {
    match summary_html(body) {
        Some(d) => spec_truncate(spec_clean_text(d), SUMMARY_CHARS as nat),
        None => Seq::empty(),
    }
}

fn read_summary(body: &[char]) -> (r: Vec<char>)
    ensures
        r@ == plain_summary(body@),
{
    let html = match element_text(body, "description") {
        Some(t) => Some(t),
        None => match element_text(body, "summary") {
            Some(t) => Some(t),
            None => match element_text(body, "content") {
                Some(t) => Some(t),
                None => element_text(body, "content:encoded"),
            },
        },
    };
    match html {
        Some(d) => {
            let text = clean_text(d);
            truncate(text.as_slice(), SUMMARY_CHARS)
        },
        None => {
            let r: Vec<char> = Vec::new();
            assert(r@ =~= Seq::empty());
            r
        },
    }
}

/// A date in an element.
pub open spec fn date_in(body: Seq<char>, tag: Seq<char>) -> Option<int> {
    match spec_element_text(body, tag) {
        Some(d) => spec_parse_rfc3339(spec_trim(d)),
        None => None,
    }
}

/// When an item was published: its `pubDate`, else its `published`, `updated`
/// or `dc:date`, each where it can be read.
pub open spec fn spec_published(body: Seq<char>) -> Option<int> {
    let rss = match spec_element_text(body, "pubDate"@) {
        Some(d) => spec_parse_rfc822(spec_trim(d)),
        None => None,
    };
    match rss {
        Some(s) => Some(s),
        None => match date_in(body, "published"@) {
            Some(s) => Some(s),
            None => match date_in(body, "updated"@) {
                Some(s) => Some(s),
                None => date_in(body, "dc:date"@),
            },
        },
    }
}

fn read_date(body: &[char], tag: &str) -> (r: Option<i64>)
    ensures
        seconds(r) == date_in(body@, tag@),
{
    match element_text(body, tag) {
        Some(d) => parse_rfc3339(trim(d)),
        None => None,
    }
}

fn read_published(body: &[char]) -> (r: Option<i64>)
    ensures
        seconds(r) == spec_published(body@),
{
    let mut r = match element_text(body, "pubDate") {
        Some(d) => parse_rfc822(trim(d)),
        None => None,
    };
    if r.is_none() {
        r = read_date(body, "published");
    }
    if r.is_none() {
        r = read_date(body, "updated");
    }
    if r.is_none() {
        r = read_date(body, "dc:date");
    }
    r
}

// ---------------------------------------------------------------------------
// Links
// ---------------------------------------------------------------------------

/// An RSS item's `<guid>` where it is an http(s) URL and not marked
/// `isPermaLink="false"`.
pub open spec fn spec_permalink_guid(body: Seq<char>) -> Option<Seq<char>> {
    match spec_element(body, "guid"@) {
        Some((attrs, text)) => {
            let marked = spec_attribute(attrs, "isPermaLink"@) matches Some(v) && spec_lower_all(v)
                == spec_lower_all("false"@);
            let link = spec_clean_text(text);
            if !marked && spec_is_http_url(link) {
                Some(link)
            } else {
                None
            }
        },
        None => None,
    }
}

/// An RSS item's `<guid>` where it is a link.
pub fn permalink_guid(body: &[char]) -> (r: Option<Vec<char>>)
    ensures
        owned(r) == spec_permalink_guid(body@),
{
    match element(body, "guid") {
        Some((attrs, text)) => {
            if let Some(v) = attribute(attrs, "isPermaLink") {
                let no = to_chars("false");
                if same_ignoring_case(v, no.as_slice()) {
                    return None;
                }
            }
            let link = clean_text(text);
            if is_http_url(link.as_slice()) {
                Some(link)
            } else {
                None
            }
        },
        None => None,
    }
}

/// An RSS item's `<link>` where it is an http(s) URL, else its `<guid>`.
pub open spec fn spec_rss_link(body: Seq<char>) -> Option<Seq<char>> {
    match spec_element_text(body, "link"@) {
        Some(t) if spec_is_http_url(spec_clean_text(t)) => Some(spec_clean_text(t)),
        _ => spec_permalink_guid(body),
    }
}

/// An RSS item's link.
pub fn rss_link(body: &[char]) -> (r: Option<Vec<char>>)
    ensures
        owned(r) == spec_rss_link(body@),
{
    if let Some(t) = element_text(body, "link") {
        let link = clean_text(t);
        if is_http_url(link.as_slice()) {
            return Some(link);
        }
    }
    permalink_guid(body)
}

/// The URL of an Atom link without `rel` or with `rel="alternate"`.
pub open spec fn atom_href(attrs: Seq<char>) -> Option<Seq<char>> {
    let rel = spec_attribute(attrs, "rel"@);
    match spec_attribute(attrs, "href"@) {
        Some(h) if (rel is None || rel == Some("alternate"@)) && spec_is_http_url(
            spec_decode_entities(h),
        ) => Some(spec_decode_entities(h)),
        _ => None,
    }
}

/// The URL of the first such link from index `from` on.
pub open spec fn atom_link_from(xml: Seq<char>, from: int) -> Option<Seq<char>>
    decreases xml.len() - from,
{
    match spec_find(xml, "<link"@, from) {
        Some(p) if 0 <= from <= p => match spec_find_char(xml, '>', p + 5) {
            Some(end) if p < end < xml.len() => match atom_href(xml.subrange(p + 5, end)) {
                Some(h) => Some(h),
                None => atom_link_from(xml, end + 1),
            },
            _ => None,
        },
        _ => None,
    }
}

pub open spec fn spec_atom_link(xml: Seq<char>) -> Option<Seq<char>> {
    atom_link_from(xml, 0)
}

/// Atom links are `<link href="..." rel="..."/>`; the article is the one without
/// `rel` or with `rel="alternate"`.
pub fn atom_link(xml: &[char]) -> (r: Option<Vec<char>>)
    ensures
        owned(r) == spec_atom_link(xml@),
{
    proof {
        reveal_strlit("<link");
    }
    let open = to_chars("<link");
    let mut from: usize = 0;
    loop
        invariant
            from <= xml.len(),
            open@ == "<link"@,
            open@.len() == 5,
            spec_atom_link(xml@) == atom_link_from(xml@, from as int),
        decreases xml.len() - from,
    {
        let p: usize = match find(xml, open.as_slice(), from) {
            Some(p) => p,
            None => return None,
        };
        let end: usize = match find_char(xml, '>', p + 5) {
            Some(end) => end,
            None => return None,
        };
        let attrs = slice_subrange(xml, p + 5, end);
        from = end + 1;
        let other = match attribute(attrs, "rel") {
            Some(rel) => !spells(rel, "alternate"),
            None => false,
        };
        if other {
            continue;
        }
        if let Some(h) = attribute(attrs, "href") {
            let href = decode_entities(h);
            if is_http_url(href.as_slice()) {
                return Some(href);
            }
        }
    }
}

// ---------------------------------------------------------------------------
// Items
// ---------------------------------------------------------------------------

/// A title and a source.
#[verifier::ext_equal]
pub struct Named {
    pub title: Seq<char>,
    pub source: Seq<char>,
}

/// The source that an item names itself; an Atom entry names none.
pub open spec fn own_source(body: Seq<char>, is_atom: bool) -> Seq<char> {
    if is_atom {
        Seq::empty()
    } else {
        match spec_element_text(body, "source"@) {
            Some(t) => spec_clean_text(t),
            None => Seq::empty(),
        }
    }
}

/// The title and the source once the style has taken an outlet off the title.
pub open spec fn styled(n: Named, style: Style) -> Named {
    let a = match spec_split_google_source(n.title) {
        Some((head, tail)) if style.split_source => Named { title: head, source: tail },
        _ => n,
    };
    match spec_trailing_outlet(a.title) {
        Some((head, outlet)) if style.digest => Named { title: head, source: outlet },
        _ => a,
    }
}

/// The row that an item makes, given its link. A description of `Outlet:
/// headline` gives the outlet where nothing else named one, and only what
/// follows the headline is a summary.
pub open spec fn row(body: Seq<char>, title: Seq<char>, link: Seq<char>, is_atom: bool, style: Style) -> HeadlineView {
    let n = styled(Named { title, source: own_source(body, is_atom) }, style);
    let summary = plain_summary(body);
    let prefix = spec_outlet_prefix(n.title, summary);
    HeadlineView {
        title: n.title,
        link,
        source: match prefix {
            Some((outlet, _)) if n.source.len() == 0 => outlet,
            _ => n.source,
        },
        source_id: Seq::empty(),
        published: spec_published(body),
        points: None,
        comments: None,
        summary: match prefix {
            Some((_, rest)) => rest,
            None => summary,
        },
        discussion: None,
        image: spec_image_url(body),
    }
}

/// The link of an item.
pub open spec fn item_link(body: Seq<char>, is_atom: bool) -> Option<Seq<char>> {
    if is_atom {
        spec_atom_link(body)
    } else {
        spec_rss_link(body)
    }
}

/// One `<item>` or `<entry>` body as a row; none without a title or an http
/// link.
#[verifier::opaque]
pub open spec fn spec_parse_item(body: Seq<char>, is_atom: bool, style: Style) -> Option<HeadlineView> {
    match spec_element_text(body, "title"@) {
        Some(t) => {
            let title = spec_clean_text(t);
            match item_link(body, is_atom) {
                Some(link) if title.len() > 0 => Some(row(body, title, link, is_atom, style)),
                _ => None,
            }
        },
        None => None,
    }
}

/// The view of a row that may be absent.
pub open spec fn maybe_row(r: Option<Headline>) -> Option<HeadlineView> {
    match r {
        Some(h) => Some(h@),
        None => None,
    }
}

/// One `<item>` or `<entry>` body as a row; none without a title or an http
/// link.
pub fn parse_item(body: &[char], is_atom: bool, style: Style) -> (r: Option<Headline>)
    ensures
        maybe_row(r) == spec_parse_item(body@, is_atom, style),
{
    proof {
        reveal(spec_parse_item);
    }
    let mut title = match element_text(body, "title") {
        Some(t) => clean_text(t),
        None => return None,
    };
    if title.len() == 0 {
        return None;
    }
    let ghost full_title = title@;
    let link = if is_atom {
        atom_link(body)
    } else {
        rss_link(body)
    };
    let link = match link {
        Some(l) => l,
        None => return None,
    };
    let mut source: Vec<char> = Vec::new();
    if !is_atom {
        if let Some(t) = element_text(body, "source") {
            source = clean_text(t);
        }
    }
    assert(source@ =~= own_source(body@, is_atom));
    let ghost own = Named { title: full_title, source: source@ };
    if style.split_source {
        if let Some(s) = split_google_source(title.as_slice()) {
            title = s.first;
            source = s.second;
        }
    }
    if style.digest {
        if let Some(s) = trailing_outlet(title.as_slice()) {
            title = s.first;
            source = s.second;
        }
    }
    assert(styled(own, style) =~= (Named { title: title@, source: source@ }));
    let mut summary = read_summary(body);
    if let Some(s) = outlet_prefix(title.as_slice(), summary.as_slice()) {
        if source.len() == 0 {
            source = s.first;
        }
        summary = s.second;
    }
    let published = read_published(body);
    let image = match image_url(body) {
        Some(u) => Some(to_text(u.as_slice())),
        None => None,
    };
    let h = Headline {
        title: to_text(title.as_slice()),
        link: to_text(link.as_slice()),
        source: to_text(source.as_slice()),
        source_id: String::new(),
        published,
        points: None,
        comments: None,
        summary: to_text(summary.as_slice()),
        discussion: None,
        image,
    };
    assert(h@ =~= row(body@, full_title, link@, is_atom, style));
    Some(h)
}

// ---------------------------------------------------------------------------
// Feeds
// ---------------------------------------------------------------------------

/// Which of the two a feed is.
#[derive(Clone, Copy, PartialEq, Eq, Structural, Debug)]
pub enum FeedKind {
    Rss,
    Atom,
}

/// White space of a prolog: a byte-order mark counts too.
pub open spec fn prolog_space(c: char) -> bool {
    spec_is_space(c) || c == '\u{feff}'
}

/// The first index, `i` or later, that is no white space of a prolog.
pub open spec fn skip_prolog_space(s: Seq<char>, i: int) -> int
    decreases s.len() - i,
{
    if i < 0 || i >= s.len() || !prolog_space(s[i]) {
        i
    } else {
        skip_prolog_space(s, i + 1)
    }
}

/// The first index, `i` or later, that ends an element's name; the length if
/// there is none.
pub open spec fn element_name_end(s: Seq<char>, i: int) -> int
    decreases s.len() - i,
{
    if i < 0 || i >= s.len() {
        s.len() as int
    } else if ends_name(s[i]) {
        i
    } else {
        element_name_end(s, i + 1)
    }
}

/// Where the prolog piece that stands at `i` ends: a processing instruction, a
/// comment or a declaration. `None` where it does not end; `i` where there is
/// none.
pub open spec fn prolog_piece_end(s: Seq<char>, i: int) -> Option<int> {
    if occurs_at(s, "<?"@, i) {
        match spec_find(s, "?>"@, i + 2) {
            Some(e) => Some(e + 2),
            None => None,
        }
    } else if occurs_at(s, "<!--"@, i) {
        match spec_find(s, "-->"@, i + 4) {
            Some(e) => Some(e + 3),
            None => None,
        }
    } else if occurs_at(s, "<!"@, i) {
        match spec_find_char(s, '>', i + 2) {
            Some(e) => Some(e + 1),
            None => None,
        }
    } else {
        Some(i)
    }
}

/// The name of the element that stands at `i` or after the prolog there.
pub open spec fn root_from(s: Seq<char>, i: int) -> Option<Seq<char>>
    decreases s.len() - i,
{
    let p = skip_prolog_space(s, i);
    match prolog_piece_end(s, p) {
        Some(e) if 0 <= i < e <= s.len() && e != p => root_from(s, e),
        Some(_) => if 0 <= p < s.len() && s[p] == '<' {
            let name = s.subrange(p + 1, element_name_end(s, p + 1));
            if name.len() > 0 {
                Some(name)
            } else {
                None
            }
        } else {
            None
        },
        None => None,
    }
}

pub open spec fn spec_root_element(s: Seq<char>) -> Option<Seq<char>> {
    root_from(s, 0)
}

fn find_element_name_end(s: &[char], from: usize) -> (r: usize)
    requires
        from <= s.len(),
    ensures
        r == element_name_end(s@, from as int),
        from <= r <= s.len(),
{
    let mut i: usize = from;
    while i < s.len()
        invariant
            from <= i <= s.len(),
            element_name_end(s@, from as int) == element_name_end(s@, i as int),
        decreases s.len() - i,
    {
        if s[i] == '>' || s[i] == '/' || is_space(s[i]) {
            return i;
        }
        i = i + 1;
    }
    i
}

fn find_prolog_piece_end(s: &[char], i: usize) -> (r: Option<usize>)
    requires
        i <= s.len(),
    ensures
        at(r) == prolog_piece_end(s@, i as int),
        r matches Some(e) ==> i <= e <= s.len(),
{
    proof {
        reveal_strlit("<?");
        reveal_strlit("?>");
        reveal_strlit("<!--");
        reveal_strlit("-->");
        reveal_strlit("<!");
    }
    let pi = to_chars("<?");
    let pi_end = to_chars("?>");
    let comment = to_chars("<!--");
    let comment_end = to_chars("-->");
    let declaration = to_chars("<!");
    if stands_at(s, pi.as_slice(), i) {
        match find(s, pi_end.as_slice(), i + 2) {
            Some(e) => Some(e + 2),
            None => None,
        }
    } else if stands_at(s, comment.as_slice(), i) {
        match find(s, comment_end.as_slice(), i + 4) {
            Some(e) => Some(e + 3),
            None => None,
        }
    } else if stands_at(s, declaration.as_slice(), i) {
        match find_char(s, '>', i + 2) {
            Some(e) => Some(e + 1),
            None => None,
        }
    } else {
        Some(i)
    }
}

/// The name of the root element: the first element after the prolog (a
/// byte-order mark, white space, `<?...?>`, `<!--...-->`, `<!DOCTYPE ...>`).
/// Looking only there keeps a `<feed>` inside a description from naming the
/// kind.
pub fn root_element<'a>(s: &'a [char]) -> (r: Option<&'a [char]>)
    ensures
        maybe(r) == spec_root_element(s@),
{
    let mut i: usize = 0;
    loop
        invariant
            i <= s.len(),
            spec_root_element(s@) == root_from(s@, i as int),
        decreases s.len() - i,
    {
        let mut p: usize = i;
        while p < s.len() && (is_space(s[p]) || s[p] == '\u{feff}')
            invariant
                i <= p <= s.len(),
                skip_prolog_space(s@, i as int) == skip_prolog_space(s@, p as int),
            decreases s.len() - p,
        {
            p = p + 1;
        }
        let e: usize = match find_prolog_piece_end(s, p) {
            Some(e) => e,
            None => return None,
        };
        if e != p {
            i = e;
            continue;
        }
        if p >= s.len() || s[p] != '<' {
            return None;
        }
        let end: usize = find_element_name_end(s, p + 1);
        let name = slice_subrange(s, p + 1, end);
        if name.len() > 0 {
            return Some(name);
        }
        return None;
    }
}

/// The kind of a feed: the root element decides (`<feed>`; `<rss>` or
/// `<rdf:RDF>`), else the first item element found.
pub open spec fn spec_feed_kind(xml: Seq<char>) -> Option<FeedKind> {
    let root = spec_root_element(xml);
    if root == Some("feed"@) {
        Some(FeedKind::Atom)
    } else if root == Some("rss"@) || root == Some("rdf:RDF"@) {
        Some(FeedKind::Rss)
    } else if spec_has_element(xml, "item"@) {
        Some(FeedKind::Rss)
    } else if spec_has_element(xml, "entry"@) {
        Some(FeedKind::Atom)
    } else {
        None
    }
}

/// The kind of a feed.
pub fn feed_kind(xml: &[char]) -> (r: Option<FeedKind>)
    ensures
        r == spec_feed_kind(xml@),
{
    if let Some(root) = root_element(xml) {
        if spells(root, "feed") {
            return Some(FeedKind::Atom);
        }
        if spells(root, "rss") || spells(root, "rdf:RDF") {
            return Some(FeedKind::Rss);
        }
    }
    if has_element(xml, "item") {
        Some(FeedKind::Rss)
    } else if has_element(xml, "entry") {
        Some(FeedKind::Atom)
    } else {
        None
    }
}

/// The body of an item whose opening tag's name ends at `a` and before whose
/// end, `b`, no other item begins: from behind the tag to the closing one, or
/// to `b` where there is none.
pub open spec fn item_body(xml: Seq<char>, close: Seq<char>, a: int, b: int) -> Option<Seq<char>> {
    let chunk = xml.subrange(a, b);
    match spec_find_char(chunk, '>', 0) {
        Some(g) => {
            let body = chunk.subrange(g + 1, chunk.len() as int);
            match spec_find(body, close, 0) {
                Some(e) => Some(body.subrange(0, e)),
                None => Some(body),
            }
        },
        None => None,
    }
}

/// The row of such an item.
pub open spec fn chunk_row(xml: Seq<char>, kind: FeedKind, style: Style, a: int, b: int) -> Option<HeadlineView> {
    match item_body(xml, item_close(kind), a, b) {
        Some(body) => spec_parse_item(body, kind == FeedKind::Atom, style),
        None => None,
    }
}

pub open spec fn item_open(kind: FeedKind) -> Seq<char> {
    match kind {
        FeedKind::Rss => "<item"@,
        FeedKind::Atom => "<entry"@,
    }
}

pub open spec fn item_close(kind: FeedKind) -> Seq<char> {
    match kind {
        FeedKind::Rss => "</item>"@,
        FeedKind::Atom => "</entry>"@,
    }
}

/// The rows of the items whose opening tags stand at index `from` or later.
pub open spec fn rows_from(xml: Seq<char>, kind: FeedKind, style: Style, from: int) -> Seq<HeadlineView>
    decreases xml.len() - from,
{
    let open = item_open(kind);
    match spec_find(xml, open, from) {
        Some(p) if 0 <= from <= p && open.len() > 0 && p + open.len() <= xml.len() => {
            let a = p + open.len();
            let b = match spec_find(xml, open, a) {
                Some(q) => q,
                None => xml.len() as int,
            };
            (match chunk_row(xml, kind, style, a, b) {
                Some(h) => seq![h],
                None => Seq::empty(),
            }) + rows_from(xml, kind, style, a)
        },
        _ => Seq::empty(),
    }
}

/// A feed that prefixes every Atom element (`<atom:entry>`) reads like a bare
/// one once the prefix is dropped.
pub open spec fn unprefixed(xml: Seq<char>) -> Seq<char> {
    if !spec_contains(xml, "<entry"@) && spec_contains(xml, "<atom:entry"@) {
        spec_replace(spec_replace(xml, "<atom:"@, "<"@), "</atom:"@, "</"@)
    } else {
        xml
    }
}

/// The rows of a feed; none for a document that is not a feed.
pub open spec fn spec_parse_styled(xml: Seq<char>, style: Style) -> Option<Seq<HeadlineView>> {
    let x = unprefixed(xml);
    match spec_feed_kind(x) {
        Some(kind) => Some(rows_from(x, kind, style, 0)),
        None => None,
    }
}

/// The views of some rows.
pub open spec fn row_views(rows: Seq<Headline>) -> Seq<HeadlineView> {
    rows.map_values(|h: Headline| h@)
}

fn read_chunk(xml: &[char], kind: FeedKind, style: Style, close: &[char], a: usize, b: usize) -> (r:
    Option<Headline>)
    requires
        a <= b <= xml.len(),
        close@ == item_close(kind),
    ensures
        maybe_row(r) == chunk_row(xml@, kind, style, a as int, b as int),
{
    let chunk = slice_subrange(xml, a, b);
    match find_char(chunk, '>', 0) {
        Some(g) => {
            let rest = slice_subrange(chunk, g + 1, chunk.len());
            let body = match find(rest, close, 0) {
                Some(e) => slice_subrange(rest, 0, e),
                None => rest,
            };
            parse_item(body, kind == FeedKind::Atom, style)
        },
        None => None,
    }
}

fn read_rows(xml: &[char], kind: FeedKind, style: Style) -> (r: Vec<Headline>)
    ensures
        row_views(r@) == rows_from(xml@, kind, style, 0),
{
    proof {
        reveal_strlit("<item");
        reveal_strlit("<entry");
    }
    let (open, close) = match kind {
        FeedKind::Rss => (to_chars("<item"), to_chars("</item>")),
        FeedKind::Atom => (to_chars("<entry"), to_chars("</entry>")),
    };
    let mut rows: Vec<Headline> = Vec::new();
    let mut from: usize = 0;
    assert(row_views(rows@) + rows_from(xml@, kind, style, 0) =~= rows_from(xml@, kind, style, 0));
    loop
        invariant
            from <= xml.len(),
            open@ == item_open(kind),
            close@ == item_close(kind),
            open.len() > 0,
            row_views(rows@) + rows_from(xml@, kind, style, from as int) == rows_from(
                xml@,
                kind,
                style,
                0,
            ),
        decreases xml.len() - from,
    {
        let p: usize = match find(xml, open.as_slice(), from) {
            Some(p) => p,
            None => {
                assert(row_views(rows@) + Seq::empty() =~= row_views(rows@));
                return rows;
            },
        };
        let a: usize = p + open.len();
        let b: usize = match find(xml, open.as_slice(), a) {
            Some(q) => q,
            None => xml.len(),
        };
        let row = read_chunk(xml, kind, style, close.as_slice(), a, b);
        let ghost before = rows@;
        if let Some(h) = row {
            rows.push(h);
            assert(row_views(rows@) =~= row_views(before).push(h@));
        }
        proof {
            assert(row_views(rows@) + rows_from(xml@, kind, style, a as int) =~= row_views(before)
                + rows_from(xml@, kind, style, from as int));
        }
        from = a;
    }
}

/// What is reported of a document that is not a feed.
pub fn not_a_feed() -> (r: &'static str)
    ensures
        r@ == "not an RSS or Atom feed"@,
{
    "not an RSS or Atom feed"
}

/// The rows of a feed, or the reason why there are none.
pub fn parse_styled(xml: &str, style: Style) -> (r: Result<Vec<Headline>, String>)
    ensures
        match r {
            Ok(rows) => spec_parse_styled(xml@, style) == Some(row_views(rows@)),
            Err(e) => spec_parse_styled(xml@, style) is None && e@ == "not an RSS or Atom feed"@,
        },
{
    proof {
        reveal_strlit("<atom:");
        reveal_strlit("</atom:");
    }
    let mut x = to_chars(xml);
    let entry = to_chars("<entry");
    let atom_entry = to_chars("<atom:entry");
    if !contains(x.as_slice(), entry.as_slice()) && contains(x.as_slice(), atom_entry.as_slice()) {
        let once = replace(x.as_slice(), "<atom:", "<");
        x = replace(once.as_slice(), "</atom:", "</");
    }
    match feed_kind(x.as_slice()) {
        Some(kind) => Ok(read_rows(x.as_slice(), kind, style)),
        None => Err(not_a_feed().to_owned()),
    }
}

/// Whether a row is as a reader expects it: it has a title without white space around
/// it, an http(s) link, a summary of bounded length, and a picture over https, where it
/// has one.
pub open spec fn is_tidy(h: HeadlineView) -> bool {
    &&& h.title.len() > 0 && is_trimmed(h.title)
    &&& spec_is_http_url(h.link)
    &&& h.summary.len() <= SUMMARY_CHARS
    &&& h.image matches Some(u) ==> begins_ci(u, "https://"@)
}

proof fn clean_texts_are_trimmed(s: Seq<char>)
    ensures
        is_trimmed(spec_clean_text(s)),
{
    let d = spec_decode_entities(
        spec_strip_tags(spec_decode_entities(spec_trim(without_cdata(s)))),
    );
    words_are_words(d, 0, 0);
    joined_words_are_trimmed(spec_words(d));
}

proof fn styled_titles_are_trimmed(n: Named, style: Style)
    requires
        n.title.len() > 0 && is_trimmed(n.title),
    ensures
        styled(n, style).title.len() > 0 && is_trimmed(styled(n, style).title),
{
    let split = spec_split_google_source(n.title);
    if let Some(p) = spec_rfind(n.title, " - "@, n.title.len() as int) {
        trimmed_texts_are_trimmed(n.title.subrange(0, p));
    }
    let a = match split {
        Some((head, tail)) if style.split_source => Named { title: head, source: tail },
        _ => n,
    };
    outlets_leave_trimmed_titles(a.title);
}

proof fn summaries_fit(body: Seq<char>, title: Seq<char>)
    ensures
        plain_summary(body).len() <= SUMMARY_CHARS,
        spec_outlet_prefix(title, plain_summary(body)) matches Some((_, rest)) ==> rest.len()
            <= SUMMARY_CHARS,
{
    if let Some(d) = summary_html(body) {
        truncated_text_fits(spec_clean_text(d), SUMMARY_CHARS as nat);
    }
    prefixes_only_shorten(title, plain_summary(body));
}

proof fn items_are_tidy(body: Seq<char>, is_atom: bool, style: Style)
    ensures
        spec_parse_item(body, is_atom, style) matches Some(h) ==> is_tidy(h),
{
    reveal(spec_parse_item);
    atom_links_are_http(body, 0);
    pictures_are_always_https(body);
    if let Some(t) = spec_element_text(body, "title"@) {
        let title = spec_clean_text(t);
        clean_texts_are_trimmed(t);
        if title.len() > 0 {
            let n = Named { title, source: own_source(body, is_atom) };
            styled_titles_are_trimmed(n, style);
            summaries_fit(body, styled(n, style).title);
        }
    }
}

proof fn rows_are_tidy(xml: Seq<char>, kind: FeedKind, style: Style, from: int)
    ensures
        forall|i: int|
            0 <= i < rows_from(xml, kind, style, from).len() ==> is_tidy(
                #[trigger] rows_from(xml, kind, style, from)[i],
            ),
    decreases xml.len() - from,
{
    let open = item_open(kind);
    match spec_find(xml, open, from) {
        Some(p) if 0 <= from <= p && open.len() > 0 && p + open.len() <= xml.len() => {
            let a = p + open.len();
            let b = match spec_find(xml, open, a) {
                Some(q) => q,
                None => xml.len() as int,
            };
            rows_are_tidy(xml, kind, style, a);
            let rest = rows_from(xml, kind, style, a);
            let all = rows_from(xml, kind, style, from);
            match chunk_row(xml, kind, style, a, b) {
                Some(h) => {
                    let body = item_body(xml, item_close(kind), a, b)->0;
                    items_are_tidy(body, true, style);
                    items_are_tidy(body, false, style);
                    assert(is_tidy(h));
                    assert forall|i: int| 0 <= i < all.len() implies is_tidy(
                        #[trigger] all[i],
                    ) by {
                        if i > 0 {
                            assert(all[i] == rest[i - 1]);
                        }
                    }
                },
                None => {
                    assert(all =~= rest);
                },
            }
        },
        _ => {},
    }
}

proof fn atom_links_are_http(xml: Seq<char>, from: int)
    ensures
        atom_link_from(xml, from) matches Some(u) ==> spec_is_http_url(u),
    decreases xml.len() - from,
{
    match spec_find(xml, "<link"@, from) {
        Some(p) if 0 <= from <= p => match spec_find_char(xml, '>', p + 5) {
            Some(end) if p < end < xml.len() => {
                atom_links_are_http(xml, end + 1);
            },
            _ => {},
        },
        _ => {},
    }
}

/// Every row of a feed links to an http(s) URL.
pub proof fn every_row_has_an_http_link(xml: Seq<char>, style: Style, i: int)
    requires
        spec_parse_styled(xml, style) matches Some(rows) && 0 <= i < rows.len(),
    ensures
        spec_is_http_url(spec_parse_styled(xml, style)->0[i].link),
{
    every_row_is_tidy(xml, style, i);
}

/// Every row of a feed has a title that is not empty and has no white space around it,
/// an http(s) link, a summary of at most 280 characters, and a picture over https, where
/// it has one.
pub proof fn every_row_is_tidy(xml: Seq<char>, style: Style, i: int)
    requires
        spec_parse_styled(xml, style) matches Some(rows) && 0 <= i < rows.len(),
    ensures
        is_tidy(spec_parse_styled(xml, style)->0[i]),
{
    let x = unprefixed(xml);
    rows_are_tidy(x, spec_feed_kind(x)->0, style, 0);
}

/// A document without items has no rows, and one without items or a feed's root
/// is refused.
pub proof fn no_items_no_rows(xml: Seq<char>, style: Style)
    requires
        spec_find(unprefixed(xml), "<item"@, 0) is None,
        spec_find(unprefixed(xml), "<entry"@, 0) is None,
    ensures
        spec_parse_styled(xml, style) matches Some(rows) ==> rows.len() == 0,
{
}

// ---------------------------------------------------------------------------
// JSON
// ---------------------------------------------------------------------------

/// The lower-case hexadecimal digit of a value below sixteen.
pub open spec fn hex_digit(n: int) -> char {
    if n < 10 {
        ((n + 0x30) as u8) as char
    } else {
        ((n + 0x57) as u8) as char
    }
}

/// A character inside a JSON string.
pub open spec fn json_char(c: char) -> Seq<char> {
    if c == '"' {
        seq!['\\', '"']
    } else if c == '\\' {
        seq!['\\', '\\']
    } else if c == '\n' {
        seq!['\\', 'n']
    } else if c == '\r' {
        seq!['\\', 'r']
    } else if c == '\t' {
        seq!['\\', 't']
    } else if (c as u32) < 0x20 {
        seq![
            '\\',
            'u',
            '0',
            '0',
            hex_digit(c as u32 as int / 16),
            hex_digit(c as u32 as int % 16),
        ]
    } else {
        seq![c]
    }
}

/// The characters of a text inside a JSON string.
pub open spec fn json_chars(s: Seq<char>) -> Seq<char>
    decreases s.len(),
{
    if s.len() == 0 {
        Seq::empty()
    } else {
        json_chars(s.drop_last()) + json_char(s.last())
    }
}

/// A text as a JSON string.
pub open spec fn spec_json_string(s: Seq<char>) -> Seq<char> {
    seq!['"'] + json_chars(s) + seq!['"']
}

fn push_json_char(out: &mut Vec<char>, c: char)
    ensures
        final(out)@ == old(out)@ + json_char(c),
{
    let n: u32 = c as u32;
    if c == '"' {
        out.push('\\');
        out.push('"');
    } else if c == '\\' {
        out.push('\\');
        out.push('\\');
    } else if c == '\n' {
        out.push('\\');
        out.push('n');
    } else if c == '\r' {
        out.push('\\');
        out.push('r');
    } else if c == '\t' {
        out.push('\\');
        out.push('t');
    } else if n < 0x20 {
        out.push('\\');
        out.push('u');
        out.push('0');
        out.push('0');
        out.push(hex(n / 16));
        out.push(hex(n % 16));
    } else {
        out.push(c);
    }
    assert(out@ =~= old(out)@ + json_char(c));
}

fn hex(n: u32) -> (r: char)
    requires
        n < 16,
    ensures
        r == hex_digit(n as int),
{
    if n < 10 {
        ((n as u8) + 0x30) as char
    } else {
        ((n as u8) + 0x57) as char
    }
}

/// Appends a text as a JSON string.
pub fn json_string(out: &mut Vec<char>, s: &str)
    ensures
        final(out)@ == old(out)@ + spec_json_string(s@),
{
    let v = to_chars(s);
    let ghost before = out@;
    out.push('"');
    let ghost opened = out@;
    let mut i: usize = 0;
    while i < v.len()
        invariant
            i <= v.len(),
            v@ == s@,
            out@ == opened + json_chars(s@.take(i as int)),
        decreases v.len() - i,
    {
        push_json_char(out, v[i]);
        proof {
            assert(s@.take(i + 1).drop_last() =~= s@.take(i as int));
            assert(s@.take(i + 1).last() == s@[i as int]);
            assert(out@ =~= opened + json_chars(s@.take(i + 1)));
        }
        i = i + 1;
    }
    assert(s@.take(i as int) =~= s@);
    out.push('"');
    assert(out@ =~= before + spec_json_string(s@));
}

/// What the inside of a JSON string reads as; none where it is no such inside,
/// because it holds a bare quote, a bare control character or an escape that
/// this writer does not use.
pub open spec fn json_reads(s: Seq<char>) -> Option<Seq<char>>
    decreases s.len(),
{
    if s.len() == 0 {
        Some(Seq::empty())
    } else if s[0] == '\\' {
        if s.len() < 2 {
            None
        } else if s[1] == 'u' {
            if s.len() < 6 || s[2] != '0' || s[3] != '0' {
                None
            } else {
                match (spec_digit(s[4]), spec_digit(s[5]), json_reads(s.subrange(6, s.len() as int))) {
                    (Some(a), Some(b), Some(rest)) => Some(
                        seq![((a * 16 + b) as u8) as char] + rest,
                    ),
                    _ => None,
                }
            }
        } else {
            let c = if s[1] == 'n' {
                Some('\n')
            } else if s[1] == 'r' {
                Some('\r')
            } else if s[1] == 't' {
                Some('\t')
            } else if s[1] == '"' || s[1] == '\\' {
                Some(s[1])
            } else {
                None
            };
            match (c, json_reads(s.subrange(2, s.len() as int))) {
                (Some(c), Some(rest)) => Some(seq![c] + rest),
                _ => None,
            }
        }
    } else if s[0] == '"' || (s[0] as u32) < 0x20 {
        None
    } else {
        match json_reads(s.subrange(1, s.len() as int)) {
            Some(rest) => Some(seq![s[0]] + rest),
            None => None,
        }
    }
}

proof fn json_chars_from_the_front(s: Seq<char>)
    requires
        s.len() > 0,
    ensures
        json_chars(s) == json_char(s[0]) + json_chars(s.drop_first()),
    decreases s.len(),
{
    let init = s.drop_last();
    if s.len() == 1 {
        assert(init =~= Seq::<char>::empty());
        assert(s.drop_first() =~= Seq::<char>::empty());
        assert(json_chars(s) =~= json_char(s[0]) + json_chars(s.drop_first()));
    } else {
        json_chars_from_the_front(init);
        assert(init.drop_first() =~= s.drop_first().drop_last());
        assert(json_chars(s) =~= json_char(s[0]) + (json_chars(s.drop_first().drop_last())
            + json_char(s.last())));
    }
}

proof fn json_char_reads_back(c: char, tail: Seq<char>)
    ensures
        json_reads(json_char(c) + tail) == match json_reads(tail) {
            Some(rest) => Some(seq![c] + rest),
            None => None,
        },
{
    let e = json_char(c);
    let s = e + tail;
    assert(s.subrange(e.len() as int, s.len() as int) =~= tail);
    if (c as u32) < 0x20 && c != '\n' && c != '\r' && c != '\t' {
        let n = c as u32 as int;
        assert(spec_digit(s[4]) == Some(n / 16));
        assert(spec_digit(s[5]) == Some(n % 16));
        assert(n / 16 * 16 + n % 16 == n);
        assert(((n as u8) as char) == c);
    }
}

/// What is written as a JSON string reads back as the same text.
pub proof fn json_strings_read_back(s: Seq<char>)
    ensures
        json_reads(json_chars(s)) == Some(s),
    decreases s.len(),
{
    if s.len() > 0 {
        json_strings_read_back(s.drop_first());
        json_chars_from_the_front(s);
        json_char_reads_back(s[0], json_chars(s.drop_first()));
        assert(seq![s[0]] + s.drop_first() =~= s);
    }
}

/// The seconds of a row, zero where it has none.
pub open spec fn json_seconds(published: Option<int>) -> Seq<char> {
    match published {
        Some(s) => spec_signed_decimal(s),
        None => seq!['0'],
    }
}

/// A text that may be absent, empty if it is.
pub open spec fn or_empty(s: Option<Seq<char>>) -> Seq<char> {
    match s {
        Some(t) => t,
        None => Seq::empty(),
    }
}

/// A row as a JSON object.
pub open spec fn json_row(h: HeadlineView) -> Seq<char> {
    "{\"title\":"@ + spec_json_string(h.title) + ",\"link\":"@ + spec_json_string(h.link)
        + ",\"source\":"@ + spec_json_string(h.source) + ",\"summary\":"@ + spec_json_string(
        h.summary,
    ) + ",\"image\":"@ + spec_json_string(or_empty(h.image)) + ",\"published\":"@ + json_seconds(
        h.published,
    ) + "}"@
}

/// Rows with commas between them.
pub open spec fn json_rows(rows: Seq<HeadlineView>) -> Seq<char>
    decreases rows.len(),
{
    if rows.len() == 0 {
        Seq::empty()
    } else if rows.len() == 1 {
        json_row(rows[0])
    } else {
        json_rows(rows.drop_last()) + ","@ + json_row(rows.last())
    }
}

/// Rows as a JSON array.
pub open spec fn spec_rows_json(rows: Seq<HeadlineView>) -> Seq<char> {
    "["@ + json_rows(rows) + "]"@
}

#[verifier::rlimit(80)]
fn push_row(out: &mut Vec<char>, row: &Headline)
    ensures
        final(out)@ == old(out)@ + json_row(row@),
{
    let ghost start = out@;
    push_text(out, "{\"title\":");
    json_string(out, row.title.as_str());
    push_text(out, ",\"link\":");
    json_string(out, row.link.as_str());
    push_text(out, ",\"source\":");
    json_string(out, row.source.as_str());
    push_text(out, ",\"summary\":");
    json_string(out, row.summary.as_str());
    push_text(out, ",\"image\":");
    match &row.image {
        Some(u) => json_string(out, u.as_str()),
        None => {
            proof {
                reveal_strlit("");
                assert(""@ =~= Seq::<char>::empty());
            }
            json_string(out, "")
        },
    }
    push_text(out, ",\"published\":");
    match row.published {
        Some(s) => {
            let digits = signed_decimal(s);
            push_all(out, digits.as_slice());
        },
        None => out.push('0'),
    }
    push_text(out, "}");
    assert(out@ =~= start + json_row(row@));
}

/// Rows as a JSON array, which the script's own reader takes.
pub fn rows_json(rows: &Vec<Headline>) -> (r: String)
    ensures
        r@ == spec_rows_json(row_views(rows@)),
{
    let ghost all = row_views(rows@);
    let mut out: Vec<char> = Vec::new();
    push_text(&mut out, "[");
    let ghost opened = out@;
    let mut i: usize = 0;
    while i < rows.len()
        invariant
            i <= rows.len(),
            all == row_views(rows@),
            out@ == opened + json_rows(all.take(i as int)),
        decreases rows.len() - i,
    {
        if i > 0 {
            push_text(&mut out, ",");
        }
        push_row(&mut out, &rows[i]);
        proof {
            assert(all.take(i + 1).drop_last() =~= all.take(i as int));
            assert(all.take(i + 1).last() == rows@[i as int]@);
            if i == 0 {
                assert(all.take(1)[0] == rows@[0]@);
                assert(json_rows(all.take(0)) =~= Seq::<char>::empty());
                assert(out@ =~= opened + json_rows(all.take(1)));
            } else {
                assert(out@ =~= opened + (json_rows(all.take(i as int)) + ","@ + json_row(
                    rows@[i as int]@,
                )));
            }
        }
        i = i + 1;
    }
    assert(all.take(i as int) =~= all);
    push_text(&mut out, "]");
    assert(out@ =~= spec_rows_json(all));
    to_text(out.as_slice())
}

// ---------------------------------------------------------------------------
// The script's method
// ---------------------------------------------------------------------------

/// What `"<xml>".parse_feed(style)` gives: the rows as JSON, or nothing for a
/// document that is not a feed.
pub fn parse_feed(xml: &str, style: &str) -> (r: Option<String>)
    ensures
        match r {
            Some(json) => spec_parse_styled(xml@, spec_style(style@)) matches Some(rows) && json@
                == spec_rows_json(rows),
            None => spec_parse_styled(xml@, spec_style(style@)) is None,
        },
{
    match parse_styled(xml, style_named(style)) {
        Ok(rows) => Some(rows_json(&rows)),
        Err(_) => None,
    }
}

/// The types that a script's methods can be called on.
#[derive(Clone, Copy, PartialEq, Eq, Structural, Debug)]
pub enum ScriptType {
    Text,
    Number,
    Object,
    Array,
}

/// A method that a script can call.
#[derive(Clone, Copy, Debug)]
pub struct TypeMethod {
    pub on: ScriptType,
    pub name: &'static str,
    pub argument: &'static str,
}

/// The methods that scripts can call.
pub struct ScriptMethods {
    pub methods: Vec<TypeMethod>,
}

/// Adds `parse_feed(style)` on strings to what scripts can call.
pub fn define_feed_module(native: &mut ScriptMethods)
    ensures
        final(native).methods@.len() == old(native).methods@.len() + 1,
        final(native).methods@.drop_last() == old(native).methods@,
        final(native).methods@.last().on == ScriptType::Text,
        final(native).methods@.last().name@ == "parse_feed"@,
        final(native).methods@.last().argument@ == "style"@,
{
    native.methods.push(
        TypeMethod { on: ScriptType::Text, name: "parse_feed", argument: "style" },
    );
    assert(native.methods@.drop_last() =~= old(native).methods@);
}

} // verus!
