//! What is written of a story is what its row says: its links, its date, its outlet, its
//! summary, and the kind of its feed.
use crate::feed::dates::{spec_parse_rfc3339, spec_parse_rfc822};
use crate::feed::images::{spec_image_url, spec_is_http_url};
use crate::feed::markup::{
    ends_name, spec_attribute, spec_clean_text, spec_decode_entities, spec_element,
    spec_element_text,
};
use crate::feed::names::{
    a_source_behind_a_dash_is_found, an_outlet_in_brackets_is_found, spec_outlet_prefix,
};
use crate::feed::reading::is_free_of;
use crate::feed::rows::{
    atom_href, atom_link_from, element_name_end, json_row, json_rows, prolog_piece_end,
    prolog_space, root_from, skip_prolog_space, spec_atom_link, spec_feed_kind, spec_parse_item,
    spec_root_element, spec_rows_json, spec_rss_link, spec_truncate, FeedKind, HeadlineView, Style,
};
use crate::text::{
    char_found_at, found_at, is_trimmed, occurs_at, spec_is_space, spec_lower_all, spec_trail,
    spec_trim, trail_bounds,
};
use vstd::prelude::*;

verus! {

// ---------------------------------------------------------------------------
// Rows
// ---------------------------------------------------------------------------

/// A row is dated by its `pubDate` where that is a date, else by when the story was
/// published, else by when it was updated, else by `dc:date`; and its picture is the
/// item's.
pub proof fn a_row_is_dated_by_its_item(body: Seq<char>, is_atom: bool, style: Style, d: Seq<char>)
    ensures
        spec_parse_item(body, is_atom, style) matches Some(h) ==> {
            let dated = |tag: Seq<char>| spec_element_text(body, tag) == Some(d);
            let rss = spec_parse_rfc822(spec_trim(d));
            let atom = spec_parse_rfc3339(spec_trim(d));
            let no_rss = spec_element_text(body, "pubDate"@) is None;
            let no_published = spec_element_text(body, "published"@) is None;
            let no_updated = spec_element_text(body, "updated"@) is None;
            &&& dated("pubDate"@) && rss is Some ==> h.published == rss
            &&& no_rss && dated("published"@) && atom is Some ==> h.published == atom
            &&& no_rss && no_published && dated("updated"@) && atom is Some ==> h.published == atom
            &&& no_rss && no_published && no_updated && dated("dc:date"@) ==> h.published == atom
            &&& no_rss && no_published && no_updated && spec_element_text(body, "dc:date"@) is None
                ==> h.published is None
            &&& h.image == spec_image_url(body)
        },
{
    reveal(spec_parse_item);
}

/// An item has a row where it has a title and a link that can be opened, and only there.
pub proof fn an_item_needs_a_title_and_a_link(body: Seq<char>, is_atom: bool, style: Style)
    ensures
        spec_parse_item(body, is_atom, style) is Some <==> ({
            &&& spec_element_text(body, "title"@) matches Some(t) && spec_clean_text(t).len() > 0
            &&& (if is_atom {
                spec_atom_link(body)
            } else {
                spec_rss_link(body)
            }) is Some
        }),
        spec_parse_item(body, is_atom, style) matches Some(h) ==> Some(h.link) == (if is_atom {
            spec_atom_link(body)
        } else {
            spec_rss_link(body)
        }),
{
    reveal(spec_parse_item);
}

/// In the style of a search feed the source is taken off the title, and in the style of a
/// digest the outlet in brackets; a plain feed keeps its titles.
pub proof fn titles_are_read_in_their_style(
    body: Seq<char>,
    is_atom: bool,
    t: Seq<char>,
    headline: Seq<char>,
    source: Seq<char>,
)
    requires
        spec_element_text(body, "title"@) == Some(t),
        headline.len() > 0 && is_trimmed(headline),
        source.len() > 0 && is_trimmed(source),
        source[0] != '-',
        is_free_of(source, " - "@),
        !source.contains('(') && !source.contains('/') && source.len() <= 40,
    ensures
        spec_clean_text(t) == headline + " - "@ + source ==> (spec_parse_item(
            body,
            is_atom,
            (Style { split_source: true, digest: false }),
        ) matches Some(h) ==> h.title == headline && h.source == source),
        spec_clean_text(t) == headline + " ("@ + source + ")"@ ==> (spec_parse_item(
            body,
            is_atom,
            (Style { split_source: false, digest: true }),
        ) matches Some(h) ==> h.title == headline && h.source == source),
        spec_parse_item(body, is_atom, (Style { split_source: false, digest: false })) matches Some(
            h,
        ) ==> h.title == spec_clean_text(t),
{
    reveal(spec_parse_item);
    a_source_behind_a_dash_is_found(headline, source);
    an_outlet_in_brackets_is_found(headline, None, source);
}

/// A row says what its description says, else its summary, else its content, else what is
/// encoded of it; where the description names an outlet before the headline, what it says
/// besides.
pub proof fn a_row_says_what_its_item_says(body: Seq<char>, is_atom: bool, style: Style, d: Seq<char>)
    ensures
        spec_parse_item(body, is_atom, style) matches Some(h) ==> {
            let text = spec_truncate(spec_clean_text(d), 280);
            let is_said = {
                ||| spec_element_text(body, "description"@) == Some(d)
                ||| spec_element_text(body, "description"@) is None && spec_element_text(
                    body,
                    "summary"@,
                ) == Some(d)
                ||| spec_element_text(body, "description"@) is None && spec_element_text(
                    body,
                    "summary"@,
                ) is None && spec_element_text(body, "content"@) == Some(d)
                ||| spec_element_text(body, "description"@) is None && spec_element_text(
                    body,
                    "summary"@,
                ) is None && spec_element_text(body, "content"@) is None && spec_element_text(
                    body,
                    "content:encoded"@,
                ) == Some(d)
            };
            is_said ==> match spec_outlet_prefix(h.title, text) {
                Some((_, rest)) => h.summary == rest,
                None => h.summary == text,
            }
        },
{
    reveal(spec_parse_item);
}

/// A text that is too long is cut at its end: what is kept is how it begins, nothing but
/// white space is lost before the cut, and a mark shows the cut. One that fits is kept.
pub proof fn a_long_text_keeps_its_beginning(s: Seq<char>, max: nat)
    requires
        max > 0,
    ensures
        s.len() <= max ==> spec_truncate(s, max) == s,
        s.len() > max ==> ({
            let r = spec_truncate(s, max);
            let n = r.len() - 1;
            &&& 0 <= n <= max - 1
            &&& r.last() == '\u{2026}'
            &&& r.take(n) == s.take(n)
            &&& forall|i: int| n <= i < max - 1 ==> spec_is_space(#[trigger] s[i])
            &&& n > 0 ==> !spec_is_space(s[n - 1])
        }),
{
    if s.len() > max {
        let cut = s.subrange(0, max - 1);
        trail_bounds(cut, cut.len() as int);
        trail_is_space(cut, cut.len() as int);
        let e = spec_trail(cut, cut.len() as int);
        let r = spec_truncate(s, max);
        assert(r.len() - 1 == e);
        assert(r.take(e) =~= s.take(e));
        assert forall|i: int| e <= i < max - 1 implies spec_is_space(#[trigger] s[i]) by {
            assert(cut[i] == s[i]);
        }
        if e > 0 {
            assert(cut[e - 1] == s[e - 1]);
        }
    }
}

proof fn trail_is_space(s: Seq<char>, i: int)
    requires
        0 <= i <= s.len(),
    ensures
        forall|j: int| spec_trail(s, i) <= j < i ==> spec_is_space(#[trigger] s[j]),
        spec_trail(s, i) > 0 ==> !spec_is_space(s[spec_trail(s, i) - 1]),
    decreases i,
{
    if i > 0 && spec_is_space(s[i - 1]) {
        trail_is_space(s, i - 1);
    }
}

// ---------------------------------------------------------------------------
// Links
// ---------------------------------------------------------------------------

/// A link of Atom leads where it says, unless it is another relation than the story's own
/// page.
pub proof fn only_own_pages_are_linked(attrs: Seq<char>, href: Seq<char>)
    requires
        spec_attribute(attrs, "href"@) == Some(href),
        spec_is_http_url(spec_decode_entities(href)),
    ensures
        spec_attribute(attrs, "rel"@) is None ==> atom_href(attrs) == Some(
            spec_decode_entities(href),
        ),
        spec_attribute(attrs, "rel"@) == Some("alternate"@) ==> atom_href(attrs) == Some(
            spec_decode_entities(href),
        ),
        spec_attribute(attrs, "rel"@) == Some("self"@) ==> atom_href(attrs) is None,
        spec_attribute(attrs, "rel"@) == Some("enclosure"@) ==> atom_href(attrs) is None,
{
    reveal_strlit("alternate");
    reveal_strlit("self");
    reveal_strlit("enclosure");
    assert("alternate"@.len() != "self"@.len());
    assert("alternate"@[0] == 'a' && "enclosure"@[0] == 'e');
}

/// The first link of an entry that leads to its page is taken, and others are passed over.
pub proof fn the_first_own_page_is_linked(before: Seq<char>, attrs: Seq<char>, after: Seq<char>)
    requires
        is_free_of(before, "<link"@),
        !attrs.contains('>'),
    ensures
        ({
            let xml = before + "<link"@ + attrs + ">"@ + after;
            spec_atom_link(xml) == match atom_href(attrs) {
                Some(u) => Some(u),
                None => atom_link_from(xml, (before + "<link"@ + attrs + ">"@).len() as int),
            }
        }),
{
    reveal_strlit("<link");
    reveal_strlit(">");
    let open = "<link"@;
    let xml = before + open + attrs + ">"@ + after;
    let p = before.len() as int;
    assert(xml.subrange(p, p + 5) =~= open);
    assert forall|j: int| 0 <= j < p implies !#[trigger] occurs_at(xml, open, j) by {
        if occurs_at(xml, open, j) {
            let m = xml.subrange(j, j + 5);
            if j + 5 <= p {
                assert(before.subrange(j, j + 5) =~= m);
                assert(occurs_at(before, open, j));
            } else {
                assert(m[p - j] == xml[p]);
                assert(xml[p] == '<');
                assert(open[p - j] != '<');
            }
        }
    }
    found_at(xml, open, 0, p);
    let end = p + 5 + attrs.len();
    assert forall|j: int| p + 5 <= j < end implies #[trigger] xml[j] != '>' by {
        assert(xml[j] == attrs[j - p - 5]);
        assert(attrs.contains(attrs[j - p - 5]));
    }
    assert(xml[end] == '>');
    char_found_at(xml, '>', p + 5, end);
    assert(xml.subrange(p + 5, end) =~= attrs);
    assert((before + open + attrs + ">"@).len() == end + 1);
}

/// An item of RSS links where its `link` says; else where its `guid` does, unless that is
/// marked as being no link.
pub proof fn an_item_links_where_it_says(body: Seq<char>, attrs: Seq<char>, text: Seq<char>)
    requires
        spec_is_http_url(spec_clean_text(text)),
    ensures
        spec_element_text(body, "link"@) == Some(text) ==> spec_rss_link(body) == Some(
            spec_clean_text(text),
        ),
        spec_element_text(body, "link"@) is None && spec_element(body, "guid"@) == Some(
            (attrs, text),
        ) ==> {
            &&& spec_attribute(attrs, "isPermaLink"@) is None ==> spec_rss_link(body) == Some(
                spec_clean_text(text),
            )
            &&& spec_attribute(attrs, "isPermaLink"@) == Some("true"@) ==> spec_rss_link(body)
                == Some(spec_clean_text(text))
            &&& spec_attribute(attrs, "isPermaLink"@) == Some("false"@) ==> spec_rss_link(body)
                is None
        },
{
    reveal_strlit("true");
    reveal_strlit("false");
    assert(spec_lower_all("true"@).len() == 4 && spec_lower_all("false"@).len() == 5);
}

// ---------------------------------------------------------------------------
// Feeds
// ---------------------------------------------------------------------------

/// Whether a text can be the name of an element.
pub open spec fn is_element_name(name: Seq<char>) -> bool {
    &&& name.len() > 0
    &&& name[0] != '?' && name[0] != '!'
    &&& forall|i: int| 0 <= i < name.len() ==> !ends_name(#[trigger] name[i])
}

proof fn element_name_ends(s: Seq<char>, i: int, e: int)
    requires
        0 <= i <= e <= s.len(),
        e < s.len() ==> ends_name(s[e]),
        forall|j: int| i <= j < e ==> !ends_name(#[trigger] s[j]),
    ensures
        element_name_end(s, i) == e,
    decreases e - i,
{
    if i < e {
        element_name_ends(s, i + 1, e);
    }
}

proof fn root_at(s: Seq<char>, i: int, name: Seq<char>)
    requires
        0 <= i,
        is_element_name(name),
        i + 1 + name.len() < s.len(),
        s[i] == '<',
        s.subrange(i + 1, i + 1 + name.len()) == name,
        ends_name(s[i + 1 + name.len()]),
    ensures
        root_from(s, i) == Some(name),
{
    reveal_strlit("<?");
    reveal_strlit("<!--");
    reveal_strlit("<!");
    assert(!prolog_space('<'));
    assert(skip_prolog_space(s, i) == i);
    assert(s[i + 1] == name[0]) by {
        assert(s.subrange(i + 1, i + 1 + name.len())[0] == s[i + 1]);
    }
    assert(!occurs_at(s, "<?"@, i)) by {
        if occurs_at(s, "<?"@, i) {
            assert(s.subrange(i, i + 2)[1] == s[i + 1]);
        }
    }
    assert(!occurs_at(s, "<!--"@, i)) by {
        if occurs_at(s, "<!--"@, i) {
            assert(s.subrange(i, i + 4)[1] == s[i + 1]);
        }
    }
    assert(!occurs_at(s, "<!"@, i)) by {
        if occurs_at(s, "<!"@, i) {
            assert(s.subrange(i, i + 2)[1] == s[i + 1]);
        }
    }
    assert(prolog_piece_end(s, i) == Some(i));
    let e = i + 1 + name.len();
    assert forall|j: int| i + 1 <= j < e implies !ends_name(#[trigger] s[j]) by {
        assert(s.subrange(i + 1, e)[j - i - 1] == s[j]);
        assert(!ends_name(name[j - i - 1]));
    }
    element_name_ends(s, i + 1, e);
}

/// A document is of the kind of its first element, a declaration before it or not: `feed`
/// is Atom, and `rss` and `rdf:RDF` are RSS.
pub proof fn a_feed_is_of_its_roots_kind(declaration: Option<Seq<char>>, name: Seq<char>, rest: Seq<char>)
    requires
        is_element_name(name),
        rest.len() > 0 && ends_name(rest[0]),
        declaration matches Some(d) ==> !d.contains('?'),
    ensures
        ({
            let xml = (match declaration {
                Some(d) => "<?"@ + d + "?>"@,
                None => seq![],
            }) + seq!['<'] + name + rest;
            &&& spec_root_element(xml) == Some(name)
            &&& name == "feed"@ ==> spec_feed_kind(xml) == Some(FeedKind::Atom)
            &&& name == "rss"@ || name == "rdf:RDF"@ ==> spec_feed_kind(xml) == Some(FeedKind::Rss)
        }),
{
    reveal_strlit("<?");
    reveal_strlit("?>");
    reveal_strlit("feed");
    reveal_strlit("rss");
    reveal_strlit("rdf:RDF");
    let lead = match declaration {
        Some(d) => "<?"@ + d + "?>"@,
        None => seq![],
    };
    let xml = lead + seq!['<'] + name + rest;
    let n = lead.len() as int;
    assert(xml[n] == '<');
    assert(xml.subrange(n + 1, n + 1 + name.len()) =~= name);
    assert(xml[n + 1 + name.len()] == rest[0]);
    root_at(xml, n, name);
    if let Some(d) = declaration {
        assert(xml.subrange(0, 2) =~= "<?"@);
        assert(occurs_at(xml, "<?"@, 0));
        assert(xml[0] == '<');
        assert(!prolog_space('<'));
        assert(skip_prolog_space(xml, 0) == 0);
        let p = 2 + d.len() as int;
        assert(xml.subrange(p, p + 2) =~= "?>"@);
        assert forall|j: int| 2 <= j < p implies !#[trigger] occurs_at(xml, "?>"@, j) by {
            if occurs_at(xml, "?>"@, j) {
                assert(xml.subrange(j, j + 2)[0] == xml[j]);
                assert(xml[j] == d[j - 2]);
                assert(d.contains(d[j - 2]));
            }
        }
        found_at(xml, "?>"@, 2, p);
        assert(prolog_piece_end(xml, 0) == Some(p + 2));
        assert(p + 2 == n);
        assert(root_from(xml, 0) == root_from(xml, n));
    }
    assert("feed"@.len() == 4 && "rss"@.len() == 3 && "rdf:RDF"@.len() == 7);
}

/// White space before the first element does not matter.
pub proof fn space_before_the_root_does_not_matter(s: Seq<char>, i: int)
    requires
        0 <= i < s.len(),
        prolog_space(s[i]),
        root_from(s, i + 1) is Some,
    ensures
        root_from(s, i) is Some,
        skip_prolog_space(s, i) == skip_prolog_space(s, i + 1),
{
}

/// Rows are listed in their order, each by its own JSON.
pub proof fn rows_are_listed_in_order(rows: Seq<HeadlineView>, last: HeadlineView)
    ensures
        rows.len() > 0 ==> json_rows(rows.push(last)) == json_rows(rows) + ","@ + json_row(last),
        json_rows(seq![last]) == json_row(last),
        spec_rows_json(seq![]) == "[]"@,
{
    reveal_strlit("[");
    reveal_strlit("]");
    reveal_strlit("[]");
    assert(rows.push(last).drop_last() =~= rows);
    assert(json_rows(Seq::<HeadlineView>::empty()) =~= seq![]);
    assert(spec_rows_json(seq![]) =~= "[]"@);
}

} // verus!
