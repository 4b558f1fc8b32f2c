//! Feeds as text: elements, attributes, entities and tags, without a parser for
//! XML.
use crate::number::{all_digits, digits, digits_value};
use crate::text::{
    at, find, find_char, is_control, is_space, join, lower_all, push_all, push_text, replace,
    space_at, spec_find, spec_find_char, spec_is_control, spec_is_space, spec_join, spec_lower_all,
    spec_replace, spec_space_at, spec_trim, spec_trim_end, spec_words, spells, texts, to_chars,
    trim, trim_end, words,
};
use vstd::prelude::*;
use vstd::slice::slice_subrange;

verus! {

/// `char::from_u32`: the character with a code point, where it is a Unicode
/// scalar value.
pub assume_specification[ char::from_u32 ](i: u32) -> (r: Option<char>)
    ensures
        r == if i <= 0xd7ff || (0xe000 <= i && i <= 0x10ffff) {
            Some(i as char)
        } else {
            None
        },
;

// ---------------------------------------------------------------------------
// Entities
// ---------------------------------------------------------------------------

/// The named entities that feeds use.
pub open spec fn spec_named_entity(e: Seq<char>) -> Option<char> {
    if e == "amp"@ {
        Some('&')
    } else if e == "lt"@ {
        Some('<')
    } else if e == "gt"@ {
        Some('>')
    } else if e == "quot"@ {
        Some('"')
    } else if e == "apos"@ {
        Some('\'')
    } else if e == "nbsp"@ {
        Some(' ')
    } else if e == "mdash"@ {
        Some('\u{2014}')
    } else if e == "ndash"@ {
        Some('\u{2013}')
    } else if e == "hellip"@ {
        Some('\u{2026}')
    } else if e == "lsquo"@ {
        Some('\u{2018}')
    } else if e == "rsquo"@ {
        Some('\u{2019}')
    } else if e == "ldquo"@ {
        Some('\u{201c}')
    } else if e == "rdquo"@ {
        Some('\u{201d}')
    } else {
        None
    }
}

fn named_entity(e: &[char]) -> (r: Option<char>)
    ensures
        r == spec_named_entity(e@),
{
    if spells(e, "amp") {
        Some('&')
    } else if spells(e, "lt") {
        Some('<')
    } else if spells(e, "gt") {
        Some('>')
    } else if spells(e, "quot") {
        Some('"')
    } else if spells(e, "apos") {
        Some('\'')
    } else if spells(e, "nbsp") {
        Some(' ')
    } else if spells(e, "mdash") {
        Some('\u{2014}')
    } else if spells(e, "ndash") {
        Some('\u{2013}')
    } else if spells(e, "hellip") {
        Some('\u{2026}')
    } else if spells(e, "lsquo") {
        Some('\u{2018}')
    } else if spells(e, "rsquo") {
        Some('\u{2019}')
    } else if spells(e, "ldquo") {
        Some('\u{201c}')
    } else if spells(e, "rdquo") {
        Some('\u{201d}')
    } else {
        None
    }
}

/// A character that an entity may stand for: none of the control characters
/// but tab, newline and carriage return.
pub open spec fn may_decode_to(c: char) -> bool {
    !spec_is_control(c) || c == '\n' || c == '\t' || c == '\r'
}

/// The character with a code point, where an entity may stand for it.
pub open spec fn spec_code_char(code: int) -> Option<char> {
    if (0 <= code <= 0xd7ff || 0xe000 <= code <= 0x10ffff) && may_decode_to(code as u32 as char) {
        Some(code as u32 as char)
    } else {
        None
    }
}

fn code_char(code: u32) -> (r: Option<char>)
    ensures
        r == spec_code_char(code as int),
{
    match char::from_u32(code) {
        Some(c) => if !is_control(c) || c == '\n' || c == '\t' || c == '\r' {
            Some(c)
        } else {
            None
        },
        None => None,
    }
}

/// The number in a numeric entity: decimal after `#`, hexadecimal after `#x`,
/// digits only.
pub open spec fn entity_number(e: Seq<char>) -> Option<int> {
    if e.len() == 0 || e[0] != '#' {
        None
    } else if e.len() > 1 && (e[1] == 'x' || e[1] == 'X') {
        let hex = e.subrange(2, e.len() as int);
        if all_digits(hex, 16) {
            Some(digits_value(hex, 16))
        } else {
            None
        }
    } else {
        let number = e.subrange(1, e.len() as int);
        if all_digits(number, 10) {
            Some(digits_value(number, 10))
        } else {
            None
        }
    }
}

pub open spec fn spec_numeric_entity(e: Seq<char>) -> Option<char> {
    match entity_number(e) {
        Some(n) => spec_code_char(n),
        None => None,
    }
}

/// `#65` or `#x41`, digits only (no sign), and never a control character other
/// than tab, newline or carriage return.
pub fn numeric_entity(e: &[char]) -> (r: Option<char>)
    ensures
        r == spec_numeric_entity(e@),
{
    if e.len() == 0 || e[0] != '#' {
        return None;
    }
    let code: Option<u128> = if e.len() > 1 && (e[1] == 'x' || e[1] == 'X') {
        digits(slice_subrange(e, 2, e.len()), 16, 0xffff_ffff)
    } else {
        digits(slice_subrange(e, 1, e.len()), 10, 0xffff_ffff)
    };
    match code {
        Some(n) => {
            let n: u32 = n as u32;
            code_char(n)
        },
        None => None,
    }
}

/// The character that an entity stands for.
pub open spec fn spec_entity(e: Seq<char>) -> Option<char> {
    match spec_named_entity(e) {
        Some(c) => Some(c),
        None => spec_numeric_entity(e),
    }
}

/// An entity is at most nine characters between `&` and `;`; the longest
/// wanted, `&#x10FFFF;`, has eight.
pub const MAX_ENTITY_LEN: usize = 10;

/// The `;` that ends the entity that starts at `p`, where one is in reach.
pub open spec fn entity_end(s: Seq<char>, p: int, i: int) -> Option<int>
    decreases p + MAX_ENTITY_LEN + 1 - i,
{
    if i < 0 || i >= s.len() || i > p + MAX_ENTITY_LEN {
        None
    } else if s[i] == ';' {
        Some(i)
    } else {
        entity_end(s, p, i + 1)
    }
}

/// The text from index `i` on with its entities decoded. What is no entity
/// stays as written.
pub open spec fn decode_from(s: Seq<char>, i: int) -> Seq<char>
    decreases s.len() - i,
{
    if i < 0 || i >= s.len() {
        Seq::empty()
    } else if s[i] != '&' {
        seq![s[i]] + decode_from(s, i + 1)
    } else {
        match entity_end(s, i, i) {
            Some(e) if i < e < s.len() => match spec_entity(s.subrange(i + 1, e)) {
                Some(c) => seq![c] + decode_from(s, e + 1),
                None => seq!['&'] + decode_from(s, i + 1),
            },
            _ => seq!['&'] + decode_from(s, i + 1),
        }
    }
}

pub open spec fn spec_decode_entities(s: Seq<char>) -> Seq<char> {
    decode_from(s, 0)
}

fn find_entity_end(s: &[char], p: usize) -> (r: Option<usize>)
    requires
        p < s.len(),
        s@[p as int] == '&',
    ensures
        at(r) == entity_end(s@, p as int, p as int),
        r matches Some(e) ==> p < e < s.len(),
{
    let mut i: usize = p;
    while i < s.len() && i - p <= MAX_ENTITY_LEN
        invariant
            p <= i,
            p < s.len(),
            s@[p as int] == '&',
            entity_end(s@, p as int, p as int) == entity_end(s@, p as int, i as int),
        decreases s.len() - i,
    {
        if s[i] == ';' {
            return Some(i);
        }
        i = i + 1;
    }
    None
}

/// Decodes the named entities that feeds use and numeric ones. A numeric entity
/// for a control character stays as written, so no feed can smuggle one into a
/// label.
pub fn decode_entities(s: &[char]) -> (r: Vec<char>)
    ensures
        r@ == spec_decode_entities(s@),
{
    let mut r: Vec<char> = Vec::new();
    let mut i: usize = 0;
    assert(r@ + decode_from(s@, 0) =~= decode_from(s@, 0));
    while i < s.len()
        invariant
            i <= s.len(),
            r@ + decode_from(s@, i as int) == decode_from(s@, 0),
        decreases s.len() - i,
    {
        let ghost before = r@;
        let ghost start = i as int;
        let c = s[i];
        let mut next: usize = i + 1;
        let mut out: char = c;
        if c == '&' {
            if let Some(e) = find_entity_end(s, i) {
                let entity = slice_subrange(s, i + 1, e);
                let decoded = match named_entity(entity) {
                    Some(c) => Some(c),
                    None => numeric_entity(entity),
                };
                if let Some(c) = decoded {
                    out = c;
                    next = e + 1;
                }
            }
        }
        r.push(out);
        proof {
            assert(decode_from(s@, start) == seq![out] + decode_from(s@, next as int));
            assert(r@ + decode_from(s@, next as int) =~= before + (seq![out] + decode_from(
                s@,
                next as int,
            )));
        }
        i = next;
    }
    assert(r@ + decode_from(s@, i as int) =~= r@);
    r
}

/// Decoding keeps a text without `&` as it is.
pub proof fn text_without_entities_is_kept(s: Seq<char>)
    requires
        forall|i: int| 0 <= i < s.len() ==> #[trigger] s[i] != '&',
    ensures
        spec_decode_entities(s) == s,
{
    decode_without_entities(s, 0);
    assert(s.subrange(0, s.len() as int) =~= s);
}

proof fn decode_without_entities(s: Seq<char>, i: int)
    requires
        0 <= i <= s.len(),
        forall|j: int| 0 <= j < s.len() ==> #[trigger] s[j] != '&',
    ensures
        decode_from(s, i) == s.subrange(i, s.len() as int),
    decreases s.len() - i,
{
    if i < s.len() {
        decode_without_entities(s, i + 1);
        assert(seq![s[i]] + s.subrange(i + 1, s.len() as int) =~= s.subrange(i, s.len() as int));
    } else {
        assert(s.subrange(i, s.len() as int) =~= Seq::empty());
    }
}

/// Decoding brings in no control character but tab, newline and carriage
/// return, and never makes a text longer.
pub proof fn decoding_is_safe(s: Seq<char>, i: int)
    requires
        0 <= i <= s.len(),
    ensures
        decode_from(s, i).len() <= s.len() - i,
        forall|k: int|
            0 <= k < decode_from(s, i).len() ==> may_decode_to(#[trigger] decode_from(s, i)[k])
                || s.contains(decode_from(s, i)[k]),
    decreases s.len() - i,
{
    if i < s.len() {
        let d = decode_from(s, i);
        let next = if s[i] == '&' && entity_end(s, i, i) is Some && i < entity_end(s, i, i)->0
            < s.len() && spec_entity(s.subrange(i + 1, entity_end(s, i, i)->0)) is Some {
            entity_end(s, i, i)->0 + 1
        } else {
            i + 1
        };
        decoding_is_safe(s, next);
        let rest = decode_from(s, next);
        assert(d =~= seq![d[0]] + rest);
        assert(s.contains(s[i]));
        assert forall|k: int| 0 <= k < d.len() implies may_decode_to(#[trigger] d[k])
            || s.contains(d[k]) by {
            if k > 0 {
                assert(d[k] == rest[k - 1]);
            }
        }
    }
}

// ---------------------------------------------------------------------------
// Tags
// ---------------------------------------------------------------------------

/// What an angle-bracketed run turns into once stripped.
#[derive(Clone, Copy, PartialEq, Eq, Structural, Debug)]
pub enum TagKind {
    /// Wraps words inside a sentence: dropped.
    Inline,
    /// Separates words or lines: a space.
    Block,
    /// Not a tag at all: a title may well say `<3` or `x < y`.
    Text,
}

pub open spec fn inline_tags() -> Seq<Seq<char>> {
    seq![
        "a"@, "abbr"@, "b"@, "big"@, "cite"@, "code"@, "del"@, "em"@, "font"@, "i"@, "ins"@,
        "mark"@, "q"@, "s"@, "small"@, "span"@, "strike"@, "strong"@, "sub"@, "sup"@, "tt"@, "u"@,
    ]
}

pub open spec fn block_tags() -> Seq<Seq<char>> {
    seq![
        "article"@, "aside"@, "audio"@, "blockquote"@, "br"@, "center"@, "dd"@, "div"@, "dl"@,
        "dt"@, "figcaption"@, "figure"@, "footer"@, "h1"@, "h2"@, "h3"@, "h4"@, "h5"@, "h6"@,
        "header"@, "hr"@, "iframe"@, "img"@, "li"@, "nav"@, "ol"@, "p"@, "picture"@, "pre"@,
        "section"@, "source"@, "table"@, "tbody"@, "td"@, "th"@, "thead"@, "tr"@, "ul"@,
        "video"@,
    ]
}

/// The views of some string literals.
pub open spec fn literals(v: Seq<&'static str>) -> Seq<Seq<char>> {
    v.map_values(|s: &'static str| s@)
}

fn spells_one_of(name: &[char], list: &Vec<&'static str>) -> (r: bool)
    ensures
        r == literals(list@).contains(name@),
{
    let mut i: usize = 0;
    while i < list.len()
        invariant
            i <= list.len(),
            forall|j: int| 0 <= j < i ==> #[trigger] literals(list@)[j] != name@,
        decreases list.len() - i,
    {
        assert(literals(list@)[i as int] == list@[i as int]@);
        if spells(name, list[i]) {
            return true;
        }
        i = i + 1;
    }
    false
}

fn is_inline(name: &[char]) -> (r: bool)
    ensures
        r == inline_tags().contains(name@),
{
    let list: Vec<&'static str> = vec![
        "a", "abbr", "b", "big", "cite", "code", "del", "em", "font", "i", "ins", "mark", "q", "s",
        "small", "span", "strike", "strong", "sub", "sup", "tt", "u",
    ];
    assert(literals(list@) =~= inline_tags());
    spells_one_of(name, &list)
}

fn is_block(name: &[char]) -> (r: bool)
    ensures
        r == block_tags().contains(name@),
{
    let list: Vec<&'static str> = vec![
        "article", "aside", "audio", "blockquote", "br", "center", "dd", "div", "dl", "dt",
        "figcaption", "figure", "footer", "h1", "h2", "h3", "h4", "h5", "h6", "header", "hr",
        "iframe", "img", "li", "nav", "ol", "p", "picture", "pre", "section", "source", "table",
        "tbody", "td", "th", "thead", "tr", "ul", "video",
    ];
    assert(literals(list@) =~= block_tags());
    spells_one_of(name, &list)
}

/// The first index that is not a slash.
pub open spec fn after_slashes(s: Seq<char>, i: int) -> int
    decreases s.len() - i,
{
    if i < 0 || i >= s.len() || s[i] != '/' {
        i
    } else {
        after_slashes(s, i + 1)
    }
}

/// The first index of white space or a slash, the length if there is none.
pub open spec fn tag_name_end(s: Seq<char>, i: int) -> int
    decreases s.len() - i,
{
    if i < 0 || i >= s.len() {
        s.len() as int
    } else if spec_is_space(s[i]) || s[i] == '/' {
        i
    } else {
        tag_name_end(s, i + 1)
    }
}

/// The name of a tag: after its slashes up to white space or a slash, in lower
/// case.
pub open spec fn tag_name(s: Seq<char>) -> Seq<char> {
    let i = after_slashes(s, 0);
    spec_lower_all(s.subrange(i, tag_name_end(s, i)))
}

/// What a tag, without its brackets, turns into. Comments and processing
/// instructions are markup too.
pub open spec fn spec_tag_kind(s: Seq<char>) -> TagKind {
    if s.len() > 0 && (s[0] == '!' || s[0] == '?') {
        TagKind::Block
    } else if inline_tags().contains(tag_name(s)) {
        TagKind::Inline
    } else if block_tags().contains(tag_name(s)) {
        TagKind::Block
    } else {
        TagKind::Text
    }
}

/// What a tag, without its brackets, turns into.
pub fn tag_kind(s: &[char]) -> (r: TagKind)
    ensures
        r == spec_tag_kind(s@),
{
    if s.len() > 0 && (s[0] == '!' || s[0] == '?') {
        return TagKind::Block;
    }
    let mut i: usize = 0;
    while i < s.len() && s[i] == '/'
        invariant
            i <= s.len(),
            after_slashes(s@, 0) == after_slashes(s@, i as int),
        decreases s.len() - i,
    {
        i = i + 1;
    }
    let mut e: usize = i;
    while e < s.len() && !is_space(s[e]) && s[e] != '/'
        invariant
            i <= e <= s.len(),
            tag_name_end(s@, i as int) == tag_name_end(s@, e as int),
        decreases s.len() - e,
    {
        e = e + 1;
    }
    let name = lower_all(slice_subrange(s, i, e));
    if is_inline(name.as_slice()) {
        TagKind::Inline
    } else if is_block(name.as_slice()) {
        TagKind::Block
    } else {
        TagKind::Text
    }
}

/// What is left of a tag that stands from `open` to `close`.
pub open spec fn tag_rest(s: Seq<char>, open: int, close: int) -> Seq<char> {
    match spec_tag_kind(s.subrange(open + 1, close)) {
        TagKind::Inline => Seq::empty(),
        TagKind::Block => seq![' '],
        TagKind::Text => s.subrange(open, close + 1),
    }
}

/// The text from index `i` on without its tags; a `<` that nothing closes is
/// text.
pub open spec fn strip_from(s: Seq<char>, i: int) -> Seq<char>
    decreases s.len() - i,
{
    match spec_find_char(s, '<', i) {
        Some(open) if 0 <= i <= open < s.len() => match spec_find_char(s, '>', open) {
            Some(close) if open < close < s.len() => s.subrange(i, open) + tag_rest(s, open, close)
                + strip_from(s, close + 1),
            _ => s.subrange(i, s.len() as int),
        },
        _ => s.subrange(i, s.len() as int),
    }
}

pub open spec fn spec_strip_tags(s: Seq<char>) -> Seq<char> {
    strip_from(s, 0)
}

/// Removes known tags (see `TagKind`).
pub fn strip_tags(s: &[char]) -> (r: Vec<char>)
    ensures
        r@ == spec_strip_tags(s@),
{
    let mut r: Vec<char> = Vec::new();
    let mut i: usize = 0;
    assert(r@ + strip_from(s@, 0) =~= strip_from(s@, 0));
    loop
        invariant
            i <= s.len(),
            r@ + strip_from(s@, i as int) == spec_strip_tags(s@),
        decreases s.len() - i,
    {
        let ghost before = r@;
        let open: usize = match find_char(s, '<', i) {
            Some(open) => open,
            None => {
                push_all(&mut r, slice_subrange(s, i, s.len()));
                return r;
            },
        };
        let close: usize = match find_char(s, '>', open) {
            Some(close) => close,
            None => {
                push_all(&mut r, slice_subrange(s, i, s.len()));
                return r;
            },
        };
        push_all(&mut r, slice_subrange(s, i, open));
        match tag_kind(slice_subrange(s, open + 1, close)) {
            TagKind::Inline => {},
            TagKind::Block => {
                r.push(' ');
            },
            TagKind::Text => {
                push_all(&mut r, slice_subrange(s, open, close + 1));
            },
        }
        proof {
            assert(r@ =~= before + s@.subrange(i as int, open as int) + tag_rest(
                s@,
                open as int,
                close as int,
            ));
            assert(r@ + strip_from(s@, close + 1) =~= before + strip_from(s@, i as int));
        }
        i = close + 1;
    }
}

// ---------------------------------------------------------------------------
// Cleaning
// ---------------------------------------------------------------------------

/// CDATA markers dropped; they can sit anywhere in a description.
pub open spec fn without_cdata(s: Seq<char>) -> Seq<char> {
    spec_replace(spec_replace(s, "<![CDATA["@, ""@), "]]>"@, ""@)
}

/// Drops CDATA markers.
pub fn drop_cdata(s: &[char]) -> (r: Vec<char>)
    ensures
        r@ == without_cdata(s@),
{
    proof {
        reveal_strlit("<![CDATA[");
        reveal_strlit("]]>");
    }
    let a = replace(s, "<![CDATA[", "");
    replace(a.as_slice(), "]]>", "")
}

/// CDATA markers dropped, entities decoded, tags stripped, entities decoded
/// again (feeds encode HTML in descriptions twice), white space collapsed.
pub open spec fn spec_clean_text(s: Seq<char>) -> Seq<char> {
    spec_join(
        spec_words(
            spec_decode_entities(
                spec_strip_tags(spec_decode_entities(spec_trim(without_cdata(s)))),
            ),
        ),
        " "@,
    )
}

/// The readable text of an element.
pub fn clean_text(s: &[char]) -> (r: Vec<char>)
    ensures
        r@ == spec_clean_text(s@),
{
    let a = drop_cdata(s);
    let b = decode_entities(trim(a.as_slice()));
    let c = strip_tags(b.as_slice());
    let d = decode_entities(c.as_slice());
    let w = words(d.as_slice());
    let space = to_chars(" ");
    join(&w, space.as_slice())
}

// ---------------------------------------------------------------------------
// Elements and attributes
// ---------------------------------------------------------------------------

/// Whether a character ends the name of an opening tag.
pub open spec fn ends_name(c: char) -> bool {
    c == '>' || c == '/' || spec_is_space(c)
}

fn is_name_end(c: char) -> (r: bool)
    ensures
        r == ends_name(c),
{
    c == '>' || c == '/' || is_space(c)
}

/// An element's attribute text and raw inner text, for a tag whose name ends at
/// `a`. A self-closing element has no inner text; one that nothing closes is
/// none.
pub open spec fn element_at(xml: Seq<char>, close: Seq<char>, a: int) -> Option<(Seq<char>, Seq<char>)> {
    match spec_find_char(xml, '>', a) {
        Some(end) => {
            let attrs = spec_trim_end(xml.subrange(a, end));
            if attrs.len() > 0 && attrs.last() == '/' {
                Some((attrs.drop_last(), Seq::empty()))
            } else {
                match spec_find(xml, close, end + 1) {
                    Some(e) => Some((attrs, xml.subrange(end + 1, e))),
                    None => None,
                }
            }
        },
        None => None,
    }
}

/// The first element, from index `from` on, whose tag opens with `open`.
pub open spec fn element_from(xml: Seq<char>, open: Seq<char>, close: Seq<char>, from: int) -> Option<
    (Seq<char>, Seq<char>),
>
    decreases xml.len() - from,
{
    match spec_find(xml, open, from) {
        Some(p) if 0 <= from <= p && p + open.len() < xml.len() => {
            let a = p + open.len();
            if ends_name(xml[a]) {
                element_at(xml, close, a)
            } else {
                element_from(xml, open, close, p + 1)
            }
        },
        _ => None,
    }
}

pub open spec fn opening(tag: Seq<char>) -> Seq<char> {
    "<"@ + tag
}

pub open spec fn closing(tag: Seq<char>) -> Seq<char> {
    "</"@ + tag + ">"@
}

/// The first `<tag ...>...</tag>` as its attribute text and raw inner text.
pub open spec fn spec_element(xml: Seq<char>, tag: Seq<char>) -> Option<(Seq<char>, Seq<char>)> {
    element_from(xml, opening(tag), closing(tag), 0)
}

pub fn opening_tag(tag: &str) -> (r: Vec<char>)
    ensures
        r@ == opening(tag@),
        r@.len() == tag@.len() + 1,
{
    let mut r: Vec<char> = Vec::new();
    proof {
        reveal_strlit("<");
    }
    push_text(&mut r, "<");
    push_text(&mut r, tag);
    assert(r@ =~= opening(tag@));
    r
}

fn closing_tag(tag: &str) -> (r: Vec<char>)
    ensures
        r@ == closing(tag@),
{
    let mut r: Vec<char> = Vec::new();
    push_text(&mut r, "</");
    push_text(&mut r, tag);
    push_text(&mut r, ">");
    assert(r@ =~= closing(tag@));
    r
}

/// The views of a pair of texts.
pub open spec fn pair(r: Option<(&[char], &[char])>) -> Option<(Seq<char>, Seq<char>)> {
    match r {
        Some((a, b)) => Some((a@, b@)),
        None => None,
    }
}

/// The view of a text that may be absent.
pub open spec fn maybe(r: Option<&[char]>) -> Option<Seq<char>> {
    match r {
        Some(a) => Some(a@),
        None => None,
    }
}

/// The first `<tag ...>...</tag>` as its attribute text and raw inner text. A
/// tag's name must end at `>`, white space or `/`, so `title` never matches
/// `titleX`.
pub fn element<'a>(xml: &'a [char], tag: &str) -> (r: Option<(&'a [char], &'a [char])>)
    ensures
        pair(r) == spec_element(xml@, tag@),
{
    let open = opening_tag(tag);
    let close = closing_tag(tag);
    let mut from: usize = 0;
    loop
        invariant
            from <= xml.len(),
            open@ == opening(tag@),
            close@ == closing(tag@),
            spec_element(xml@, tag@) == element_from(xml@, open@, close@, from as int),
        decreases xml.len() - from,
    {
        let p: usize = match find(xml, open.as_slice(), from) {
            Some(p) => p,
            None => return None,
        };
        let a: usize = p + open.len();
        if a >= xml.len() {
            return None;
        }
        if !is_name_end(xml[a]) {
            from = p + 1;
            continue;
        }
        let end: usize = match find_char(xml, '>', a) {
            Some(end) => end,
            None => return None,
        };
        let attrs = trim_end(slice_subrange(xml, a, end));
        if attrs.len() > 0 && attrs[attrs.len() - 1] == '/' {
            let inner = slice_subrange(xml, 0, 0);
            let attrs = slice_subrange(attrs, 0, attrs.len() - 1);
            assert(inner@ =~= Seq::empty());
            assert(attrs@ =~= spec_trim_end(xml@.subrange(a as int, end as int)).drop_last());
            return Some((attrs, inner));
        }
        return match find(xml, close.as_slice(), end + 1) {
            Some(e) => Some((attrs, slice_subrange(xml, end + 1, e))),
            None => None,
        };
    }
}

/// The raw inner text of the first `<tag>`.
pub open spec fn spec_element_text(xml: Seq<char>, tag: Seq<char>) -> Option<Seq<char>> {
    match spec_element(xml, tag) {
        Some((_, text)) => Some(text),
        None => None,
    }
}

/// The raw inner text of the first `<tag>`.
pub fn element_text<'a>(xml: &'a [char], tag: &str) -> (r: Option<&'a [char]>)
    ensures
        maybe(r) == spec_element_text(xml@, tag@),
{
    match element(xml, tag) {
        Some((_, text)) => Some(text),
        None => None,
    }
}

/// Whether an element with an opening tag stands at or after `from`.
pub open spec fn opens_from(xml: Seq<char>, open: Seq<char>, from: int) -> bool
    decreases xml.len() - from,
{
    match spec_find(xml, open, from) {
        Some(p) if 0 <= from <= p && open.len() > 0 && p + open.len() <= xml.len() => {
            let a = p + open.len();
            (a < xml.len() && ends_name(xml[a])) || opens_from(xml, open, a)
        },
        _ => false,
    }
}

pub open spec fn spec_has_element(xml: Seq<char>, name: Seq<char>) -> bool {
    opens_from(xml, opening(name), 0)
}

/// Whether `xml` opens an element named exactly `name`.
pub fn has_element(xml: &[char], name: &str) -> (r: bool)
    ensures
        r == spec_has_element(xml@, name@),
{
    let open = opening_tag(name);
    let mut from: usize = 0;
    loop
        invariant
            from <= xml.len(),
            open@ == opening(name@),
            open.len() > 0,
            spec_has_element(xml@, name@) == opens_from(xml@, open@, from as int),
        decreases xml.len() - from,
    {
        let p: usize = match find(xml, open.as_slice(), from) {
            Some(p) => p,
            None => return false,
        };
        from = p + open.len();
        if from < xml.len() && is_name_end(xml[from]) {
            return true;
        }
    }
}

/// Whether an attribute can begin at `i`: at the start or after white space.
pub open spec fn after_space(s: Seq<char>, i: int) -> bool {
    i == 0 || spec_is_space(s[i - 1])
}

/// The quoted value of the first attribute, from index `from` on, whose name
/// and `=` are `key`.
pub open spec fn attribute_from(attrs: Seq<char>, key: Seq<char>, from: int) -> Option<Seq<char>>
    decreases attrs.len() - from,
{
    match spec_find(attrs, key, from) {
        Some(p) if 0 <= from <= p && key.len() > 0 && p + key.len() <= attrs.len() => {
            let a = p + key.len();
            if !after_space(attrs, p) {
                attribute_from(attrs, key, a)
            } else if a >= attrs.len() {
                None
            } else if attrs[a] != '"' && attrs[a] != '\'' {
                attribute_from(attrs, key, a)
            } else {
                match spec_find_char(attrs, attrs[a], a + 1) {
                    Some(e) => Some(attrs.subrange(a + 1, e)),
                    None => None,
                }
            }
        },
        _ => None,
    }
}

pub open spec fn spec_attribute(attrs: Seq<char>, name: Seq<char>) -> Option<Seq<char>> {
    attribute_from(attrs, name + "="@, 0)
}

/// The quoted value of an attribute.
pub fn attribute<'a>(attrs: &'a [char], name: &str) -> (r: Option<&'a [char]>)
    ensures
        maybe(r) == spec_attribute(attrs@, name@),
{
    let mut key: Vec<char> = Vec::new();
    proof {
        reveal_strlit("=");
    }
    push_text(&mut key, name);
    push_text(&mut key, "=");
    assert(key@ =~= name@ + "="@);
    let mut from: usize = 0;
    loop
        invariant
            from <= attrs.len(),
            key@ == name@ + "="@,
            key.len() > 0,
            spec_attribute(attrs@, name@) == attribute_from(attrs@, key@, from as int),
        decreases attrs.len() - from,
    {
        let p: usize = match find(attrs, key.as_slice(), from) {
            Some(p) => p,
            None => return None,
        };
        from = p + key.len();
        if p != 0 && !is_space(attrs[p - 1]) {
            continue;
        }
        if from >= attrs.len() {
            return None;
        }
        let quote = attrs[from];
        if quote != '"' && quote != '\'' {
            continue;
        }
        return match find_char(attrs, quote, from + 1) {
            Some(e) => Some(slice_subrange(attrs, from + 1, e)),
            None => None,
        };
    }
}

/// The value that begins at `a`: quoted, or bare up to white space.
pub open spec fn html_value(attrs: Seq<char>, a: int) -> Option<Seq<char>> {
    if a >= attrs.len() {
        None
    } else if attrs[a] == '"' || attrs[a] == '\'' {
        match spec_find_char(attrs, attrs[a], a + 1) {
            Some(e) => Some(attrs.subrange(a + 1, e)),
            None => None,
        }
    } else {
        Some(attrs.subrange(a, spec_space_at(attrs, a)))
    }
}

/// The value of the first attribute, from index `from` on, whose name and `=`
/// are `key` in any case. `lower` is the text in lower case.
pub open spec fn attribute_ci_from(
    attrs: Seq<char>,
    lower: Seq<char>,
    key: Seq<char>,
    from: int,
) -> Option<Seq<char>>
    decreases lower.len() - from,
{
    match spec_find(lower, key, from) {
        Some(p) if 0 <= from <= p && key.len() > 0 && p + key.len() <= lower.len() => {
            if !after_space(lower, p) {
                attribute_ci_from(attrs, lower, key, p + key.len())
            } else {
                html_value(attrs, p + key.len())
            }
        },
        _ => None,
    }
}

pub open spec fn spec_attribute_ci(attrs: Seq<char>, name: Seq<char>) -> Option<Seq<char>> {
    attribute_ci_from(attrs, spec_lower_all(attrs), spec_lower_all(name) + "="@, 0)
}

/// `attribute` for HTML: the name in any case, the value quoted or bare (ending
/// at white space).
pub fn attribute_ci<'a>(attrs: &'a [char], name: &str) -> (r: Option<&'a [char]>)
    ensures
        maybe(r) == spec_attribute_ci(attrs@, name@),
{
    let lower = lower_all(attrs);
    let plain = to_chars(name);
    let mut key = lower_all(plain.as_slice());
    proof {
        reveal_strlit("=");
    }
    push_text(&mut key, "=");
    let mut from: usize = 0;
    loop
        invariant
            from <= lower.len(),
            lower@ == spec_lower_all(attrs@),
            lower.len() == attrs.len(),
            key@ == spec_lower_all(name@) + "="@,
            key.len() > 0,
            spec_attribute_ci(attrs@, name@) == attribute_ci_from(
                attrs@,
                lower@,
                key@,
                from as int,
            ),
        decreases lower.len() - from,
    {
        let p: usize = match find(lower.as_slice(), key.as_slice(), from) {
            Some(p) => p,
            None => return None,
        };
        from = p + key.len();
        if p != 0 && !is_space(lower[p - 1]) {
            continue;
        }
        if from >= attrs.len() {
            return None;
        }
        let first = attrs[from];
        if first == '"' || first == '\'' {
            return match find_char(attrs, first, from + 1) {
                Some(e) => Some(slice_subrange(attrs, from + 1, e)),
                None => None,
            };
        }
        let e: usize = space_at(attrs, from);
        return Some(slice_subrange(attrs, from, e));
    }
}

} // verus!
