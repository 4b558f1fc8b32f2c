//! The picture of a story.
use crate::feed::markup::{
    attribute, attribute_ci, decode_entities, drop_cdata, element_text, ends_name, maybe, opening,
    opening_tag, spec_attribute, spec_attribute_ci, spec_decode_entities, spec_element_text,
    without_cdata,
};
use crate::feed::reading::{is_free_of, is_tag};
use crate::feed::size::{says_tiny, spec_says_tiny};
use crate::text::{
    at, char_found_at, find, find_char, found_at, is_space, lower_all, occurs_at, push_all,
    push_text, same, spec_find, spec_find_char, spec_lower, spec_lower_all, spec_starts_with,
    spells, starts_with, to_chars,
};
use vstd::prelude::*;
use vstd::slice::slice_subrange;

verus! {

/// Whether a text begins with `prefix`, without regard to ASCII case.
pub open spec fn begins_ci(s: Seq<char>, prefix: Seq<char>) -> bool {
    s.len() >= prefix.len() && spec_lower_all(s.subrange(0, prefix.len() as int)) == prefix
}

fn starts_ci(s: &[char], prefix: &str) -> (r: bool)
    ensures
        r == begins_ci(s@, prefix@),
{
    let p = to_chars(prefix);
    if s.len() < p.len() {
        return false;
    }
    let head = lower_all(slice_subrange(s, 0, p.len()));
    same(head.as_slice(), p.as_slice())
}

/// Whether a text is an http or https URL.
pub open spec fn spec_is_http_url(s: Seq<char>) -> bool {
    begins_ci(s, "http://"@) || begins_ci(s, "https://"@)
}

/// Whether a text is an http or https URL.
pub fn is_http_url(s: &[char]) -> (r: bool)
    ensures
        r == spec_is_http_url(s@),
{
    starts_ci(s, "http://") || starts_ci(s, "https://")
}

/// Whether the attributes of a media element let it be taken as an image: its
/// `medium` or `type` says so, or, of a `media:content`, neither is given.
pub open spec fn says_image(attrs: Seq<char>, tag: Seq<char>) -> bool {
    let medium = spec_attribute(attrs, "medium"@);
    let kind = spec_attribute(attrs, "type"@);
    ||| medium == Some("image"@)
    ||| kind matches Some(t) && spec_starts_with(t, "image/"@)
    ||| medium is None && kind is None && tag == "media:content"@
}

/// The URL of an image that some attributes give, decoded.
pub open spec fn image_attribute(value: Option<Seq<char>>) -> Option<Seq<char>> {
    match value {
        Some(v) => if spec_is_http_url(spec_decode_entities(v)) {
            Some(spec_decode_entities(v))
        } else {
            None
        },
        None => None,
    }
}

/// The URL of the first element, from index `from` on, that is an image.
pub open spec fn media_from(body: Seq<char>, tag: Seq<char>, typed: bool, from: int) -> Option<Seq<char>>
    decreases body.len() - from,
{
    let open = opening(tag);
    match spec_find(body, open, from) {
        Some(p) if 0 <= from <= p && open.len() > 0 && p + open.len() < body.len() => {
            let a = p + open.len();
            if !ends_name(body[a]) {
                media_from(body, tag, typed, a)
            } else {
                match spec_find_char(body, '>', a) {
                    None => None,
                    Some(end) => {
                        let attrs = body.subrange(a, end);
                        if typed && !says_image(attrs, tag) {
                            media_from(body, tag, typed, a)
                        } else {
                            match image_attribute(spec_attribute(attrs, "url"@)) {
                                Some(url) => Some(url),
                                None => media_from(body, tag, typed, a),
                            }
                        }
                    },
                }
            }
        },
        _ => None,
    }
}

pub open spec fn spec_media_image(body: Seq<char>, tag: Seq<char>, typed: bool) -> Option<Seq<char>> {
    media_from(body, tag, typed, 0)
}

/// The texts of an owned result.
pub open spec fn owned(r: Option<Vec<char>>) -> Option<Seq<char>> {
    match r {
        Some(v) => Some(v@),
        None => None,
    }
}

fn is_image(attrs: &[char], tag: &str) -> (r: bool)
    ensures
        r == says_image(attrs@, tag@),
{
    let medium = attribute(attrs, "medium");
    let kind = attribute(attrs, "type");
    let says = match medium {
        Some(m) => spells(m, "image"),
        None => false,
    };
    let types = match kind {
        Some(t) => starts_with(t, "image/"),
        None => false,
    };
    says || types || (medium.is_none() && kind.is_none() && crate::text::same_text(
        tag,
        "media:content",
    ))
}

fn image_from(value: Option<&[char]>) -> (r: Option<Vec<char>>)
    ensures
        owned(r) == image_attribute(maybe(value)),
{
    match value {
        Some(v) => {
            let url = decode_entities(v);
            if is_http_url(url.as_slice()) {
                Some(url)
            } else {
                None
            }
        },
        None => None,
    }
}

/// The `url` of the first `<tag>` element that is an image. `typed`: the element
/// carries a `medium` or `type`, and it must say image where it does. Every such
/// element is looked at: a feed may list a video before its still.
pub fn media_image(body: &[char], tag: &str, typed: bool) -> (r: Option<Vec<char>>)
    ensures
        owned(r) == spec_media_image(body@, tag@, typed),
{
    let open = opening_tag(tag);
    let mut from: usize = 0;
    loop
        invariant
            from <= body.len(),
            open@ == opening(tag@),
            open.len() > 0,
            spec_media_image(body@, tag@, typed) == media_from(body@, tag@, typed, from as int),
        decreases body.len() - from,
    {
        let p: usize = match find(body, open.as_slice(), from) {
            Some(p) => p,
            None => return None,
        };
        from = p + open.len();
        if from >= body.len() {
            return None;
        }
        let next = body[from];
        if next != '>' && next != '/' && !is_space(next) {
            continue;
        }
        let end: usize = match find_char(body, '>', from) {
            Some(end) => end,
            None => return None,
        };
        let attrs = slice_subrange(body, from, end);
        if typed && !is_image(attrs, tag) {
            continue;
        }
        let url = image_from(attribute(attrs, "url"));
        if url.is_some() {
            return url;
        }
    }
}

/// Whether the attributes of an `<img>` say that it is an icon or a tracking
/// pixel.
pub open spec fn spec_is_tiny(attrs: Seq<char>) -> bool {
    ||| spec_attribute_ci(attrs, "width"@) matches Some(v) && spec_says_tiny(v)
    ||| spec_attribute_ci(attrs, "height"@) matches Some(v) && spec_says_tiny(v)
}

/// Whether an `<img>`'s `width` or `height` attribute says that it is an icon.
pub fn is_tiny(attrs: &[char]) -> (r: bool)
    ensures
        r == spec_is_tiny(attrs@),
{
    let wide = match attribute_ci(attrs, "width") {
        Some(v) => says_tiny(v),
        None => false,
    };
    let high = match attribute_ci(attrs, "height") {
        Some(v) => says_tiny(v),
        None => false,
    };
    wide || high
}

/// The source of the first `<img>`, from index `from` on, that is not tiny.
/// `lower` is the HTML in lower case.
pub open spec fn img_from(html: Seq<char>, lower: Seq<char>, from: int) -> Option<Seq<char>>
    decreases lower.len() - from,
{
    match spec_find(lower, "<img"@, from) {
        Some(p) if 0 <= from <= p => match spec_find_char(lower, '>', p + 4) {
            Some(end) if from < end < lower.len() => {
                let attrs = html.subrange(p + 4, end);
                if spec_is_tiny(attrs) {
                    img_from(html, lower, end)
                } else {
                    match image_attribute(spec_attribute_ci(attrs, "src"@)) {
                        Some(src) => Some(src),
                        None => img_from(html, lower, end),
                    }
                }
            },
            _ => None,
        },
        _ => None,
    }
}

/// The HTML of an item: its description or its content.
pub open spec fn item_html(body: Seq<char>) -> Option<Seq<char>> {
    match spec_element_text(body, "description"@) {
        Some(t) => Some(t),
        None => match spec_element_text(body, "content:encoded"@) {
            Some(t) => Some(t),
            None => spec_element_text(body, "content"@),
        },
    }
}

pub open spec fn spec_inline_image(body: Seq<char>) -> Option<Seq<char>> {
    match item_html(body) {
        Some(raw) => {
            let html = spec_decode_entities(without_cdata(raw));
            img_from(html, spec_lower_all(html), 0)
        },
        None => None,
    }
}

/// The first `<img src>` in the item's HTML that is not a tiny one. Tags and
/// attributes in any case, values quoted or not.
pub fn inline_image(body: &[char]) -> (r: Option<Vec<char>>)
    ensures
        owned(r) == spec_inline_image(body@),
{
    let raw = match element_text(body, "description") {
        Some(t) => t,
        None => match element_text(body, "content:encoded") {
            Some(t) => t,
            None => match element_text(body, "content") {
                Some(t) => t,
                None => return None,
            },
        },
    };
    let plain = drop_cdata(raw);
    let html = decode_entities(plain.as_slice());
    let lower = lower_all(html.as_slice());
    proof {
        reveal_strlit("<img");
    }
    let img = to_chars("<img");
    let mut from: usize = 0;
    loop
        invariant
            from <= lower.len(),
            lower@ == spec_lower_all(html@),
            lower.len() == html.len(),
            img@ == "<img"@,
            img@.len() == 4,
            spec_inline_image(body@) == img_from(html@, lower@, from as int),
        decreases lower.len() - from,
    {
        let p: usize = match find(lower.as_slice(), img.as_slice(), from) {
            Some(p) => p,
            None => return None,
        };
        let a: usize = p + 4;
        let end: usize = match find_char(lower.as_slice(), '>', a) {
            Some(end) => end,
            None => return None,
        };
        let attrs = slice_subrange(html.as_slice(), a, end);
        from = end;
        if is_tiny(attrs) {
            continue;
        }
        let src = image_from(attribute_ci(attrs, "src"));
        if src.is_some() {
            return src;
        }
    }
}

/// The URL asked for over https, whatever the feed says.
pub open spec fn over_https(url: Seq<char>) -> Seq<char> {
    if begins_ci(url, "http://"@) {
        "https://"@ + url.subrange(7, url.len() as int)
    } else {
        url
    }
}

/// The first image that an item names.
pub open spec fn named_image(body: Seq<char>) -> Option<Seq<char>> {
    match spec_media_image(body, "media:content"@, true) {
        Some(u) => Some(u),
        None => match spec_media_image(body, "media:thumbnail"@, false) {
            Some(u) => Some(u),
            None => match spec_media_image(body, "enclosure"@, true) {
                Some(u) => Some(u),
                None => spec_inline_image(body),
            },
        },
    }
}

pub open spec fn spec_image_url(body: Seq<char>) -> Option<Seq<char>> {
    match named_image(body) {
        Some(u) => Some(over_https(u)),
        None => None,
    }
}

/// The story's picture, where the item carries one: a `<media:content>` that is
/// an image, a `<media:thumbnail>`, an `<enclosure>` with an image type, else
/// the first `<img>` in the description or content. Only an http(s) URL counts,
/// and it is asked for over https whatever the feed says.
pub fn image_url(body: &[char]) -> (r: Option<Vec<char>>)
    ensures
        owned(r) == spec_image_url(body@),
{
    let mut url = media_image(body, "media:content", true);
    if url.is_none() {
        url = media_image(body, "media:thumbnail", false);
    }
    if url.is_none() {
        url = media_image(body, "enclosure", true);
    }
    if url.is_none() {
        url = inline_image(body);
    }
    match url {
        Some(u) => {
            if starts_ci(u.as_slice(), "http://") {
                proof {
                    reveal_strlit("http://");
                }
                let mut secure: Vec<char> = Vec::new();
                push_text(&mut secure, "https://");
                push_all(&mut secure, slice_subrange(u.as_slice(), 7, u.len()));
                assert(secure@ =~= over_https(u@));
                Some(secure)
            } else {
                Some(u)
            }
        },
        None => None,
    }
}

proof fn media_is_http(body: Seq<char>, tag: Seq<char>, typed: bool, from: int)
    ensures
        media_from(body, tag, typed, from) matches Some(u) ==> spec_is_http_url(u),
    decreases body.len() - from,
{
    let open = opening(tag);
    match spec_find(body, open, from) {
        Some(p) if 0 <= from <= p && open.len() > 0 && p + open.len() < body.len() => {
            media_is_http(body, tag, typed, p + open.len());
        },
        _ => {},
    }
}

proof fn img_is_http(html: Seq<char>, lower: Seq<char>, from: int)
    ensures
        img_from(html, lower, from) matches Some(u) ==> spec_is_http_url(u),
    decreases lower.len() - from,
{
    match spec_find(lower, "<img"@, from) {
        Some(p) if 0 <= from <= p => match spec_find_char(lower, '>', p + 4) {
            Some(end) if from < end < lower.len() => {
                img_is_http(html, lower, end);
            },
            _ => {},
        },
        _ => {},
    }
}

/// A story's picture is always asked for over https.
pub proof fn pictures_are_always_https(body: Seq<char>)
    ensures
        spec_image_url(body) matches Some(u) ==> begins_ci(u, "https://"@),
{
    media_is_http(body, "media:content"@, true, 0);
    media_is_http(body, "media:thumbnail"@, false, 0);
    media_is_http(body, "enclosure"@, true, 0);
    if let Some(raw) = item_html(body) {
        let html = spec_decode_entities(without_cdata(raw));
        img_is_http(html, spec_lower_all(html), 0);
    }
    if let Some(u) = named_image(body) {
        if begins_ci(u, "http://"@) {
            reveal_strlit("https://");
            let s = over_https(u);
            assert(s.subrange(0, 8) =~= "https://"@);
            assert(spec_lower_all("https://"@) =~= "https://"@);
        }
    }
}

/// A picture over plain HTTP is fetched over HTTPS from the same place, whatever the case
/// of its scheme; one over HTTPS is fetched from where it is.
pub proof fn the_place_of_a_picture_is_kept(scheme: Seq<char>, rest: Seq<char>)
    requires
        spec_lower_all(scheme) == "http://"@ || spec_lower_all(scheme) == "https://"@,
    ensures
        spec_is_http_url(scheme + rest),
        over_https(scheme + rest) == if spec_lower_all(scheme) == "http://"@ {
            "https://"@ + rest
        } else {
            scheme + rest
        },
{
    reveal_strlit("http://");
    reveal_strlit("https://");
    let url = scheme + rest;
    let low = spec_lower_all(scheme);
    assert(scheme.len() == low.len());
    assert(url.subrange(0, scheme.len() as int) =~= scheme);
    if low == "http://"@ {
        assert(url.subrange(7, url.len() as int) =~= rest);
    } else {
        assert(low[4] == 's');
        let cut = spec_lower_all(url.subrange(0, 7));
        assert(cut[4] == spec_lower(url[4]));
        assert(url[4] == scheme[4]);
        assert(low[4] == spec_lower(scheme[4]));
        assert(cut[4] == 's');
    }
}

/// A picture is taken from the first element that names one.
pub proof fn a_named_picture_is_found(
    before: Seq<char>,
    tag: Seq<char>,
    typed: bool,
    attrs: Seq<char>,
    after: Seq<char>,
    url: Seq<char>,
)
    requires
        is_tag(tag),
        is_free_of(before, "<"@ + tag),
        attrs.len() > 0 && ends_name(attrs[0]) && !attrs.contains('>'),
        typed ==> says_image(attrs, tag),
        spec_attribute(attrs, "url"@) == Some(url),
        spec_is_http_url(spec_decode_entities(url)),
    ensures
        spec_media_image(before + "<"@ + tag + attrs + ">"@ + after, tag, typed) == Some(
            spec_decode_entities(url),
        ),
{
    reveal_strlit("<");
    reveal_strlit(">");
    let open = opening(tag);
    let body = before + "<"@ + tag + attrs + ">"@ + after;
    let p = before.len() as int;
    assert(body.subrange(p, p + open.len()) =~= open);
    assert(occurs_at(body, open, p));
    assert(body[p] == '<');
    assert(body.subrange(0, p) =~= before);
    no_match_across(body, open, before);
    found_at(body, open, 0, p);
    let a = p + open.len();
    assert(body[a] == attrs[0]);
    let end = a + attrs.len();
    assert forall|j: int| a <= j < end implies #[trigger] body[j] != '>' by {
        assert(body[j] == attrs[j - a]);
        assert(attrs.contains(attrs[j - a]));
    }
    char_found_at(body, '>', a, end);
    assert(body.subrange(a, end) =~= attrs);
}

proof fn no_match_across(body: Seq<char>, open: Seq<char>, before: Seq<char>)
    requires
        open.len() > 0,
        open[0] == '<',
        !open.drop_first().contains('<'),
        before.len() < body.len(),
        body.subrange(0, before.len() as int) == before,
        body[before.len() as int] == '<',
        is_free_of(before, open),
    ensures
        forall|j: int| 0 <= j < before.len() ==> !#[trigger] occurs_at(body, open, j),
{
    let p = before.len() as int;
    assert forall|j: int| 0 <= j < p implies !#[trigger] occurs_at(body, open, j) by {
        if occurs_at(body, open, j) {
            let m = body.subrange(j, j + open.len());
            if j + open.len() <= p {
                assert(before.subrange(j, j + open.len()) =~= m) by {
                    assert forall|k: int| 0 <= k < open.len() implies before.subrange(
                        j,
                        j + open.len(),
                    )[k] == #[trigger] m[k] by {
                        assert(body.subrange(0, p)[j + k] == body[j + k]);
                    }
                }
                assert(occurs_at(before, open, j));
            } else {
                assert(m[p - j] == body[p]);
                assert(open.drop_first()[p - j - 1] == open[p - j]);
                assert(open.drop_first().contains('<'));
            }
        }
    }
}

/// What a feed names as the picture of a story comes before the thumbnail, that before
/// what is enclosed, and that before the pictures of the text.
pub proof fn the_best_picture_is_shown(body: Seq<char>)
    ensures
        spec_media_image(body, "media:content"@, true) matches Some(u) ==> spec_image_url(body)
            == Some(over_https(u)),
        spec_media_image(body, "media:content"@, true) is None ==> (spec_media_image(
            body,
            "media:thumbnail"@,
            false,
        ) matches Some(u) ==> spec_image_url(body) == Some(over_https(u))),
        spec_media_image(body, "media:content"@, true) is None && spec_media_image(
            body,
            "media:thumbnail"@,
            false,
        ) is None ==> (spec_media_image(body, "enclosure"@, true) matches Some(u) ==> spec_image_url(
            body,
        ) == Some(over_https(u))),
        spec_image_url(body) is None ==> spec_media_image(body, "media:content"@, true) is None
            && spec_media_image(body, "media:thumbnail"@, false) is None && spec_media_image(
            body,
            "enclosure"@,
            true,
        ) is None && spec_inline_image(body) is None,
{
}

/// A picture that is given as one is one, and a film is none; of an element without a kind
/// only the story's own media are taken for a picture.
pub proof fn only_pictures_are_shown(attrs: Seq<char>, kind: Seq<char>, tag: Seq<char>)
    ensures
        spec_attribute(attrs, "type"@) == Some("image/"@ + kind) ==> says_image(attrs, tag),
        spec_attribute(attrs, "medium"@) == Some("image"@) ==> says_image(attrs, tag),
        spec_attribute(attrs, "type"@) == Some("video/"@ + kind) && spec_attribute(
            attrs,
            "medium"@,
        ) != Some("image"@) ==> !says_image(attrs, tag),
        spec_attribute(attrs, "type"@) is None && spec_attribute(attrs, "medium"@) is None ==> (
        says_image(attrs, tag) <==> tag == "media:content"@),
{
    reveal_strlit("image/");
    reveal_strlit("video/");
    let t = "image/"@ + kind;
    assert(t.subrange(0, 6) =~= "image/"@);
    let v = "video/"@ + kind;
    assert(v[0] == 'v');
    assert(!spec_starts_with(v, "image/"@)) by {
        if spec_starts_with(v, "image/"@) {
            assert(v.subrange(0, 6)[0] == v[0]);
        }
    }
}

/// A picture in the text is found, whatever the case of its tag; a tiny one is passed over.
pub proof fn a_picture_in_the_text_is_found(
    before: Seq<char>,
    img: Seq<char>,
    attrs: Seq<char>,
    after: Seq<char>,
    url: Seq<char>,
)
    requires
        is_free_of(spec_lower_all(before), "<img"@),
        spec_lower_all(img) == "<img"@,
        !attrs.contains('>'),
        spec_attribute_ci(attrs, "src"@) == Some(url),
        spec_is_http_url(spec_decode_entities(url)),
    ensures
        ({
            let html = before + img + attrs + ">"@ + after;
            let low = spec_lower_all(html);
            img_from(html, low, 0) == if spec_is_tiny(attrs) {
                img_from(html, low, (before + img + attrs).len() as int)
            } else {
                Some(spec_decode_entities(url))
            }
        }),
{
    reveal_strlit("<img");
    reveal_strlit(">");
    let html = before + img + attrs + ">"@ + after;
    let low = spec_lower_all(html);
    let p = before.len() as int;
    let tag = "<img"@;
    assert(img.len() == spec_lower_all(img).len());
    assert(low.subrange(0, p) =~= spec_lower_all(before));
    assert forall|k: int| 0 <= k < 4 implies low.subrange(p, p + 4)[k] == #[trigger] tag[k] by {
        assert(html[p + k] == img[k]);
        assert(low[p + k] == spec_lower(img[k]));
        assert(spec_lower_all(img)[k] == tag[k]);
    }
    assert(low.subrange(p, p + 4) =~= tag);
    assert(occurs_at(low, tag, p));
    assert(low[p] == '<') by {
        assert(low.subrange(p, p + 4)[0] == low[p]);
    }
    assert(tag.drop_first() =~= seq!['i', 'm', 'g']);
    assert(!tag.drop_first().contains('<'));
    no_match_across(low, tag, spec_lower_all(before));
    found_at(low, tag, 0, p);
    let end = p + 4 + attrs.len();
    assert forall|j: int| p + 4 <= j < end implies #[trigger] low[j] != '>' by {
        assert(html[j] == attrs[j - p - 4]);
        assert(attrs.contains(attrs[j - p - 4]));
        assert(low[j] == spec_lower(html[j]));
    }
    assert(html[end] == '>');
    assert(low[end] == spec_lower(html[end]));
    char_found_at(low, '>', p + 4, end);
    assert(html.subrange(p + 4, end) =~= attrs);
    assert((before + img + attrs).len() == end);
}

} // verus!
