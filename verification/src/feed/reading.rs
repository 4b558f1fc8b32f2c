//! What is written in a feed is what is read: elements, attributes, text and items.
use crate::feed::images::begins_ci;
use crate::feed::markup::{
    after_space, closing, ends_name, opening, spec_attribute, spec_attribute_ci, spec_clean_text,
    spec_element, spec_element_text, spec_strip_tags, text_without_entities_is_kept, without_cdata,
};
use crate::feed::names::spec_outlet_prefix;
use crate::feed::rows::{
    item_body, item_close, item_open, rows_from, spec_parse_item, FeedKind, Style,
};
use crate::text::{
    char_found_at, find_is_first, found_at, is_word, joined_words_are_trimmed, lead_bounds,
    occurs_at, spec_find, spec_find_char, spec_is_space, spec_join, spec_lead, spec_lower,
    spec_lower_all, spec_replace, spec_space_at, spec_trim, spec_trim_end, spec_trim_start,
    spec_words, spec_words_from, trimming_keeps, what_is_replaced_is_exchanged,
};
use vstd::prelude::*;

verus! {

// ---------------------------------------------------------------------------
// Where something is found
// ---------------------------------------------------------------------------

/// Whether a text holds a pattern nowhere.
pub open spec fn is_free_of(s: Seq<char>, pat: Seq<char>) -> bool {
    forall|i: int| !#[trigger] occurs_at(s, pat, i)
}

/// A pattern that holds its first character only there does not begin in a text that is
/// free of it and end behind, where that character follows the text.
proof fn no_match_across(s: Seq<char>, pat: Seq<char>, from: int, text: Seq<char>, c: char)
    requires
        0 <= from,
        from + text.len() < s.len(),
        s.subrange(from, from + text.len()) == text,
        s[from + text.len()] == c,
        pat.len() > 0,
        forall|k: int| 1 <= k < pat.len() ==> #[trigger] pat[k] != c,
        is_free_of(text, pat),
    ensures
        forall|j: int| from <= j < from + text.len() ==> !#[trigger] occurs_at(s, pat, j),
{
    assert forall|j: int| from <= j < from + text.len() implies !#[trigger] occurs_at(s, pat, j) by {
        if occurs_at(s, pat, j) {
            let sub = s.subrange(j, j + pat.len());
            if j + pat.len() <= from + text.len() {
                assert(text.subrange(j - from, j - from + pat.len()) =~= sub) by {
                    assert forall|k: int| 0 <= k < pat.len() implies text[j - from + k]
                        == sub[k] by {
                        assert(s.subrange(from, from + text.len())[j - from + k] == s[j + k]);
                    }
                }
                assert(occurs_at(text, pat, j - from));
            } else {
                let k = from + text.len() - j;
                assert(sub[k] == s[from + text.len()]);
                assert(pat[k] == c);
            }
        }
    }
}

proof fn char_not_found(s: Seq<char>, c: char, from: int)
    requires
        0 <= from,
        forall|j: int| from <= j < s.len() ==> #[trigger] s[j] != c,
    ensures
        spec_find_char(s, c, from) is None,
    decreases s.len() - from,
{
    if from < s.len() {
        char_not_found(s, c, from + 1);
    }
}

// ---------------------------------------------------------------------------
// Elements and attributes
// ---------------------------------------------------------------------------

/// Whether a name can be that of an element.
pub open spec fn is_tag(tag: Seq<char>) -> bool {
    tag.len() > 0 && !tag.contains('<')
}

/// Whether a text can stand between the name and the bracket of an opening tag.
pub open spec fn are_attributes(attrs: Seq<char>) -> bool {
    &&& !attrs.contains('>')
    &&& attrs.len() > 0 ==> spec_is_space(attrs[0])
    &&& spec_trim_end(attrs).len() > 0 ==> spec_trim_end(attrs).last() != '/'
}

/// An element as it is written.
pub open spec fn written(tag: Seq<char>, attrs: Seq<char>, text: Seq<char>) -> Seq<char> {
    "<"@ + tag + attrs + ">"@ + text + "</"@ + tag + ">"@
}

/// The first element of a name is read as it is written: its attributes, and all of the
/// text up to its closing tag.
pub proof fn a_written_element_is_read(
    before: Seq<char>,
    tag: Seq<char>,
    attrs: Seq<char>,
    text: Seq<char>,
    after: Seq<char>,
)
    requires
        is_tag(tag),
        are_attributes(attrs),
        is_free_of(before, "<"@ + tag),
        is_free_of(text, "</"@ + tag + ">"@),
    ensures
        spec_element(before + written(tag, attrs, text) + after, tag) == Some(
            (spec_trim_end(attrs), text),
        ),
        spec_element_text(before + written(tag, attrs, text) + after, tag) == Some(text),
{
    reveal_strlit("<");
    reveal_strlit("</");
    reveal_strlit(">");
    let xml = before + written(tag, attrs, text) + after;
    let open = opening(tag);
    let close = closing(tag);
    let p = before.len() as int;
    let a = p + open.len();
    let end = a + attrs.len();
    let e = end + 1 + text.len();
    assert(open[0] == '<');
    assert forall|k: int| 1 <= k < open.len() implies #[trigger] open[k] != '<' by {
        assert(tag.contains(tag[k - 1]));
    }
    assert forall|k: int| 1 <= k < close.len() implies #[trigger] close[k] != '<' by {
        if 2 <= k < close.len() - 1 {
            assert(close[k] == tag[k - 2]);
            assert(tag.contains(tag[k - 2]));
        }
    }
    assert(xml.subrange(0, p) =~= before);
    assert(xml[p] == '<');
    no_match_across(xml, open, 0, before, '<');
    assert(xml.subrange(p, p + open.len()) =~= open);
    found_at(xml, open, 0, p);
    assert(xml[a] == if attrs.len() > 0 {
        attrs[0]
    } else {
        '>'
    });
    assert(ends_name(xml[a]));
    assert forall|j: int| a <= j < end implies #[trigger] xml[j] != '>' by {
        assert(xml[j] == attrs[j - a]);
        assert(attrs.contains(attrs[j - a]));
    }
    assert(xml[end] == '>');
    char_found_at(xml, '>', a, end);
    assert(xml.subrange(a, end) =~= attrs);
    assert(xml.subrange(end + 1, e) =~= text);
    assert(xml[e] == '<');
    no_match_across(xml, close, end + 1, text, '<');
    assert(xml.subrange(e, e + close.len()) =~= close);
    found_at(xml, close, end + 1, e);
}

/// An attribute is read as it is written: all of what its quotes enclose.
pub proof fn a_written_attribute_is_read(
    before: Seq<char>,
    name: Seq<char>,
    quote: char,
    value: Seq<char>,
    after: Seq<char>,
)
    requires
        name.len() > 0,
        forall|i: int| 0 <= i < name.len() ==> #[trigger] name[i] != ' ',
        quote == '"' || quote == '\'',
        !value.contains(quote),
        is_free_of(before, name + "="@),
    ensures
        spec_attribute(before + seq![' '] + name + "="@ + seq![quote] + value + seq![quote] + after, name)
            == Some(value),
{
    reveal_strlit("=");
    let attrs = before + seq![' '] + name + "="@ + seq![quote] + value + seq![quote] + after;
    let key = name + "="@;
    let p = before.len() as int + 1;
    let a = p + key.len();
    let e = a + 1 + value.len();
    assert(attrs.subrange(0, before.len() as int) =~= before);
    assert(attrs[before.len() as int] == ' ');
    assert forall|k: int| 1 <= k < key.len() implies #[trigger] key[k] != ' ' by {}
    no_match_across(attrs, key, 0, before, ' ');
    assert(!occurs_at(attrs, key, before.len() as int)) by {
        if occurs_at(attrs, key, before.len() as int) {
            assert(attrs.subrange(before.len() as int, before.len() as int + key.len())[0] == ' ');
            assert(key[0] == ' ');
        }
    }
    assert(attrs.subrange(p, p + key.len()) =~= key);
    found_at(attrs, key, 0, p);
    assert(attrs[p - 1] == ' ');
    assert(after_space(attrs, p));
    assert(attrs[a] == quote);
    assert forall|j: int| a + 1 <= j < e implies #[trigger] attrs[j] != quote by {
        assert(attrs[j] == value[j - a - 1]);
        assert(value.contains(value[j - a - 1]));
    }
    assert(attrs[e] == quote);
    char_found_at(attrs, quote, a + 1, e);
    assert(attrs.subrange(a + 1, e) =~= value);
}

proof fn space_ends(s: Seq<char>, i: int, e: int)
    requires
        0 <= i <= e <= s.len(),
        forall|j: int| i <= j < e ==> !spec_is_space(#[trigger] s[j]),
        e < s.len() ==> spec_is_space(s[e]),
    ensures
        spec_space_at(s, i) == e,
    decreases e - i,
{
    if i < e {
        space_ends(s, i + 1, e);
    }
}

/// An attribute of HTML is read as it is written, its name in any case, its value within
/// quotes or, without any, up to the next white space; the value keeps its case.
pub proof fn a_written_html_attribute_is_read(
    before: Seq<char>,
    name: Seq<char>,
    quote: Option<char>,
    value: Seq<char>,
    after: Seq<char>,
)
    requires
        name.len() > 0,
        forall|i: int| 0 <= i < name.len() ==> #[trigger] name[i] != ' ',
        match quote {
            Some(q) => (q == '"' || q == '\'') && !value.contains(q),
            None => {
                &&& value.len() > 0 && value[0] != '"' && value[0] != '\''
                &&& forall|i: int| 0 <= i < value.len() ==> !spec_is_space(#[trigger] value[i])
                &&& after.len() > 0 ==> spec_is_space(after[0])
            },
        },
        is_free_of(spec_lower_all(before), spec_lower_all(name) + "="@),
    ensures
        spec_attribute_ci(
            before + seq![' '] + name + "="@ + (match quote {
                Some(q) => seq![q] + value + seq![q],
                None => value,
            }) + after,
            name,
        ) == Some(value),
        spec_attribute_ci(
            before + seq![' '] + spec_lower_all(name) + "="@ + (match quote {
                Some(q) => seq![q] + value + seq![q],
                None => value,
            }) + after,
            name,
        ) == Some(value),
{
    html_attribute_is_read(before, name, name, quote, value, after);
    let low = spec_lower_all(name);
    assert(spec_lower_all(low) =~= low);
    assert forall|i: int| 0 <= i < low.len() implies #[trigger] low[i] != ' ' by {
        assert(low[i] == spec_lower(name[i]));
        assert(name[i] != ' ');
    }
    html_attribute_is_read(before, low, name, quote, value, after);
}

proof fn html_attribute_is_read(
    before: Seq<char>,
    spelt: Seq<char>,
    name: Seq<char>,
    quote: Option<char>,
    value: Seq<char>,
    after: Seq<char>,
)
    requires
        name.len() > 0,
        spec_lower_all(spelt) == spec_lower_all(name),
        forall|i: int| 0 <= i < spelt.len() ==> #[trigger] spelt[i] != ' ',
        match quote {
            Some(q) => (q == '"' || q == '\'') && !value.contains(q),
            None => {
                &&& value.len() > 0 && value[0] != '"' && value[0] != '\''
                &&& forall|i: int| 0 <= i < value.len() ==> !spec_is_space(#[trigger] value[i])
                &&& after.len() > 0 ==> spec_is_space(after[0])
            },
        },
        is_free_of(spec_lower_all(before), spec_lower_all(name) + "="@),
    ensures
        spec_attribute_ci(
            before + seq![' '] + spelt + "="@ + (match quote {
                Some(q) => seq![q] + value + seq![q],
                None => value,
            }) + after,
            name,
        ) == Some(value),
{
    reveal_strlit("=");
    let said = match quote {
        Some(q) => seq![q] + value + seq![q],
        None => value,
    };
    let attrs = before + seq![' '] + spelt + "="@ + said + after;
    let lower = spec_lower_all(attrs);
    let key = spec_lower_all(name) + "="@;
    let b = before.len() as int;
    let p = b + 1;
    let a = p + key.len();
    assert(spelt.len() == spec_lower_all(spelt).len());
    assert(lower.subrange(0, b) =~= spec_lower_all(before));
    assert(attrs[b] == ' ');
    assert(lower[b] == spec_lower(' '));
    assert forall|k: int| 0 <= k < key.len() implies #[trigger] key[k] != ' ' by {
        if k < name.len() {
            assert(key[k] == spec_lower_all(spelt)[k]);
            assert(key[k] == spec_lower(spelt[k]));
            assert(spelt[k] != ' ');
        }
    }
    no_match_across(lower, key, 0, spec_lower_all(before), ' ');
    assert(!occurs_at(lower, key, b)) by {
        if occurs_at(lower, key, b) {
            assert(lower.subrange(b, b + key.len())[0] == lower[b]);
            assert(key[0] == ' ');
        }
    }
    assert(lower.subrange(p, a) =~= key) by {
        assert forall|k: int| 0 <= k < key.len() implies lower.subrange(p, a)[k] == #[trigger] key[k] by {
            if k < spelt.len() {
                assert(attrs[p + k] == spelt[k]);
                assert(spec_lower_all(spelt)[k] == spec_lower(spelt[k]));
            } else {
                assert(attrs[p + k] == '=');
                assert(spec_lower('=') == '=');
            }
        }
    }
    found_at(lower, key, 0, p);
    assert(lower[p - 1] == ' ');
    assert(after_space(lower, p));
    assert(attrs[a] == said[0]);
    match quote {
        Some(q) => {
            let e = a + 1 + value.len();
            assert forall|j: int| a + 1 <= j < e implies #[trigger] attrs[j] != q by {
                assert(attrs[j] == value[j - a - 1]);
                assert(value.contains(value[j - a - 1]));
            }
            assert(attrs[e] == q);
            char_found_at(attrs, q, a + 1, e);
            assert(attrs.subrange(a + 1, e) =~= value);
        },
        None => {
            let e = a + value.len();
            assert forall|j: int| a <= j < e implies !spec_is_space(#[trigger] attrs[j]) by {
                assert(attrs[j] == value[j - a]);
            }
            if e < attrs.len() {
                assert(attrs[e] == after[0]);
            }
            space_ends(attrs, a, e);
            assert(attrs.subrange(a, e) =~= value);
        },
    }
}

// ---------------------------------------------------------------------------
// Text
// ---------------------------------------------------------------------------

/// Whether a word holds no markup and no entity.
pub open spec fn is_plain_word(w: Seq<char>) -> bool {
    &&& is_word(w)
    &&& forall|i: int|
        0 <= i < w.len() ==> #[trigger] w[i] != '<' && w[i] != '>' && w[i] != '&'
}

/// Plain words with one space between them.
pub open spec fn plain_text(words: Seq<Seq<char>>) -> Seq<char> {
    spec_join(words, " "@)
}

proof fn join_from_the_front(words: Seq<Seq<char>>)
    requires
        words.len() > 1,
    ensures
        spec_join(words, " "@) == words[0] + " "@ + spec_join(words.drop_first(), " "@),
    decreases words.len(),
{
    let rest = words.drop_first();
    if words.len() == 2 {
        assert(words.drop_last() =~= seq![words[0]]);
        assert(rest =~= seq![words[1]]);
        assert(spec_join(words.drop_last(), " "@) == words[0]);
        assert(spec_join(rest, " "@) == words[1]);
    } else {
        let init = words.drop_last();
        join_from_the_front(init);
        assert(init.drop_first() =~= rest.drop_last());
        assert(init[0] == words[0]);
        assert(rest.last() == words.last());
        assert(spec_join(words, " "@) =~= words[0] + " "@ + spec_join(rest, " "@));
    }
}

proof fn words_shift(pre: Seq<char>, t: Seq<char>, start: int, i: int)
    requires
        0 <= start <= i <= t.len(),
    ensures
        spec_words_from(pre + t, pre.len() + start, pre.len() + i) == spec_words_from(t, start, i),
    decreases t.len() - i,
{
    let s = pre + t;
    assert(s.subrange(pre.len() + start, pre.len() + i) =~= t.subrange(start, i));
    if i < t.len() {
        assert(s[pre.len() + i] == t[i]);
        if spec_is_space(t[i]) {
            words_shift(pre, t, i + 1, i + 1);
        } else {
            words_shift(pre, t, start, i + 1);
        }
    }
}

proof fn word_is_taken(s: Seq<char>, w: Seq<char>, i: int)
    requires
        is_word(w),
        w.len() <= s.len(),
        s.subrange(0, w.len() as int) == w,
        0 <= i <= w.len(),
    ensures
        spec_words_from(s, 0, i) == spec_words_from(s, 0, w.len() as int),
    decreases w.len() - i,
{
    if i < w.len() {
        assert(s[i] == s.subrange(0, w.len() as int)[i]);
        assert(!spec_is_space(w[i]));
        word_is_taken(s, w, i + 1);
    }
}

/// Words that are joined by spaces are what the text falls into again.
pub proof fn joined_words_are_found_again(words: Seq<Seq<char>>)
    requires
        forall|k: int| 0 <= k < words.len() ==> is_word(#[trigger] words[k]),
    ensures
        spec_words(spec_join(words, " "@)) == words,
    decreases words.len(),
{
    reveal_strlit(" ");
    let s = spec_join(words, " "@);
    if words.len() == 0 {
        assert(spec_words(s) =~= words);
    } else {
        let w = words[0];
        assert(is_word(w));
        if words.len() == 1 {
            assert(s.subrange(0, w.len() as int) =~= w);
            word_is_taken(s, w, 0);
            assert(spec_words(s) =~= words);
        } else {
            let rest = words.drop_first();
            assert forall|k: int| 0 <= k < rest.len() implies is_word(#[trigger] rest[k]) by {
                assert(rest[k] == words[k + 1]);
            }
            joined_words_are_found_again(rest);
            join_from_the_front(words);
            let t = spec_join(rest, " "@);
            let pre = w + " "@;
            assert(s =~= pre + t);
            assert(s.subrange(0, w.len() as int) =~= w);
            word_is_taken(s, w, 0);
            assert(s[w.len() as int] == ' ');
            assert(spec_is_space(' '));
            words_shift(pre, t, 0, 0);
            assert(spec_words(s) == seq![w] + spec_words(t));
            assert(seq![w] + rest =~= words);
        }
    }
}

proof fn nothing_to_replace(s: Seq<char>, pat: Seq<char>, with: Seq<char>, k: int)
    requires
        0 <= k < pat.len(),
        !s.contains(pat[k]),
    ensures
        spec_replace(s, pat, with) == s,
{
    find_is_first(s, pat, 0);
    if let Some(i) = spec_find(s, pat, 0) {
        assert(s.subrange(i, i + pat.len())[k] == s[i + k]);
        assert(s.contains(s[i + k]));
    }
    assert(s.subrange(0, s.len() as int) =~= s);
}

proof fn plain_text_holds_no_markup(words: Seq<Seq<char>>)
    requires
        forall|k: int| 0 <= k < words.len() ==> is_plain_word(#[trigger] words[k]),
    ensures
        forall|i: int|
            0 <= i < plain_text(words).len() ==> #[trigger] plain_text(words)[i] != '<' && plain_text(
                words,
            )[i] != '>' && plain_text(words)[i] != '&',
    decreases words.len(),
{
    reveal_strlit(" ");
    if words.len() > 1 {
        let init = words.drop_last();
        assert forall|k: int| 0 <= k < init.len() implies is_plain_word(#[trigger] init[k]) by {
            assert(init[k] == words[k]);
        }
        plain_text_holds_no_markup(init);
        assert(is_plain_word(words[words.len() - 1]));
        let (x, y) = (plain_text(init), words.last());
        let all = plain_text(words);
        assert forall|i: int| 0 <= i < all.len() implies #[trigger] all[i] != '<' && all[i] != '>'
            && all[i] != '&' by {
            if i < x.len() {
                assert(all[i] == x[i]);
            } else if i > x.len() {
                assert(all[i] == y[i - x.len() - 1]);
            }
        }
    } else if words.len() == 1 {
        assert(is_plain_word(words[0]));
    }
}

/// Text without markup or entities, its words one space apart, reads as it is written.
pub proof fn plain_text_is_kept(words: Seq<Seq<char>>)
    requires
        forall|k: int| 0 <= k < words.len() ==> is_plain_word(#[trigger] words[k]),
    ensures
        spec_clean_text(plain_text(words)) == plain_text(words),
{
    reveal_strlit("<![CDATA[");
    reveal_strlit("]]>");
    let t = plain_text(words);
    plain_text_holds_no_markup(words);
    assert forall|k: int| 0 <= k < words.len() implies is_word(#[trigger] words[k]) by {
        assert(is_plain_word(words[k]));
    }
    nothing_to_replace(t, "<![CDATA["@, ""@, 0);
    nothing_to_replace(t, "]]>"@, ""@, 2);
    assert(without_cdata(t) == t);
    joined_words_are_trimmed(words);
    trimming_keeps(t);
    text_without_entities_is_kept(t);
    char_not_found(t, '<', 0);
    assert(t.subrange(0, t.len() as int) =~= t);
    assert(spec_strip_tags(t) == t);
    joined_words_are_found_again(words);
}

/// Text in a CDATA section is the text: the marks around it are taken off.
pub proof fn a_cdata_section_is_its_text(words: Seq<Seq<char>>)
    requires
        forall|k: int| 0 <= k < words.len() ==> is_plain_word(#[trigger] words[k]),
        !plain_text(words).contains(']'),
    ensures
        spec_clean_text("<![CDATA["@ + plain_text(words) + "]]>"@) == plain_text(words),
{
    reveal_strlit("<![CDATA[");
    reveal_strlit("]]>");
    reveal_strlit("");
    let (open, close, none) = ("<![CDATA["@, "]]>"@, ""@);
    let text = plain_text(words);
    let s = open + text + close;
    let empty = Seq::<char>::empty();
    plain_text_holds_no_markup(words);
    let rest = text + close;
    assert(!rest.contains(open[0])) by {
        if rest.contains(open[0]) {
            let i = rest.index_of(open[0]);
            if i < text.len() {
                assert(rest[i] == text[i]);
            }
        }
    }
    nothing_to_replace(rest, open, none, 0);
    assert(empty + open + rest =~= s);
    what_is_replaced_is_exchanged(empty, open, none, rest);
    assert(empty + none + rest =~= rest);
    assert(spec_replace(s, open, none) == rest);
    assert(text + close + empty =~= rest);
    what_is_replaced_is_exchanged(text, close, none, empty);
    nothing_to_replace(empty, close, none, 0);
    assert(text + none + empty =~= text);
    assert(without_cdata(s) == text);
    assert(!text.contains(open[0])) by {
        if text.contains(open[0]) {
            let i = text.index_of(open[0]);
            assert(text[i] != '<');
        }
    }
    nothing_to_replace(text, open, none, 0);
    nothing_to_replace(text, close, none, 0);
    assert(without_cdata(text) == text);
    plain_text_is_kept(words);
}

/// White space around and between words does not matter: however the words of a text are
/// spaced, they read with one space between them.
pub proof fn spacing_does_not_matter(a: Seq<char>, b: Seq<char>)
    requires
        forall|i: int| 0 <= i < a.len() ==> #[trigger] a[i] != '<' && a[i] != '>' && a[i] != '&',
        forall|i: int| 0 <= i < b.len() ==> #[trigger] b[i] != '<' && b[i] != '>' && b[i] != '&',
        spec_words(spec_trim(a)) == spec_words(spec_trim(b)),
    ensures
        spec_clean_text(a) == spec_clean_text(b),
{
    unmarked_text_is_respaced(a);
    unmarked_text_is_respaced(b);
}

proof fn unmarked_text_is_respaced(t: Seq<char>)
    requires
        forall|i: int| 0 <= i < t.len() ==> #[trigger] t[i] != '<' && t[i] != '>' && t[i] != '&',
    ensures
        spec_clean_text(t) == spec_join(spec_words(spec_trim(t)), " "@),
{
    reveal_strlit("<![CDATA[");
    reveal_strlit("]]>");
    nothing_to_replace(t, "<![CDATA["@, ""@, 0);
    nothing_to_replace(t, "]]>"@, ""@, 2);
    let u = spec_trim(t);
    lead_bounds(t, 0);
    crate::text::trail_bounds(spec_trim_start(t), spec_trim_start(t).len() as int);
    assert forall|i: int| 0 <= i < u.len() implies #[trigger] u[i] != '<' && u[i] != '>' && u[i]
        != '&' by {
        assert(u[i] == t[i + spec_lead(t, 0)]);
    }
    text_without_entities_is_kept(u);
    char_not_found(u, '<', 0);
    assert(u.subrange(0, u.len() as int) =~= u);
}

// ---------------------------------------------------------------------------
// Items
// ---------------------------------------------------------------------------

/// The source of an RSS item is what its `<source>` says, where the style takes no outlet
/// off the title; an Atom entry has none of its own.
pub proof fn an_item_names_its_source(body: Seq<char>, style: Style)
    requires
        !style.split_source && !style.digest,
    ensures
        spec_parse_item(body, false, style) matches Some(h) ==> (spec_element_text(
            body,
            "source"@,
        ) matches Some(t) ==> spec_clean_text(t).len() > 0 ==> h.source == spec_clean_text(t)),
        spec_parse_item(body, true, style) matches Some(h) ==> spec_outlet_prefix(
            h.title,
            summary_text(body),
        ) is None ==> h.source.len() == 0,
{
    reveal(spec_parse_item);
}

/// What a description says, cut to what a row holds.
pub open spec fn summary_text(body: Seq<char>) -> Seq<char> {
    crate::feed::rows::plain_summary(body)
}

/// A `<source>` of plain words, wherever it stands in an item, is the source of its row.
pub proof fn a_written_source_is_the_rows(
    before: Seq<char>,
    attrs: Seq<char>,
    words: Seq<Seq<char>>,
    after: Seq<char>,
    style: Style,
)
    requires
        !style.split_source && !style.digest,
        are_attributes(attrs),
        is_free_of(before, "<source"@),
        words.len() > 0,
        forall|k: int| 0 <= k < words.len() ==> is_plain_word(#[trigger] words[k]),
    ensures
        spec_parse_item(before + written("source"@, attrs, plain_text(words)) + after, false, style)
            matches Some(h) ==> h.source == plain_text(words),
{
    let body = before + written("source"@, attrs, plain_text(words)) + after;
    reveal_strlit("<");
    reveal_strlit("</");
    reveal_strlit("source");
    reveal_strlit("<source");
    assert("<"@ + "source"@ =~= "<source"@);
    free_of_its_own_close(words, "source"@);
    a_written_element_is_read(before, "source"@, attrs, plain_text(words), after);
    plain_text_is_kept(words);
    assert(is_plain_word(words[0]));
    assert forall|k: int| 0 <= k < words.len() implies is_word(#[trigger] words[k]) by {
        assert(is_plain_word(words[k]));
    }
    joined_words_are_trimmed(words);
    an_item_names_its_source(body, style);
}

proof fn free_of_its_own_close(words: Seq<Seq<char>>, tag: Seq<char>)
    requires
        forall|k: int| 0 <= k < words.len() ==> is_plain_word(#[trigger] words[k]),
    ensures
        is_free_of(plain_text(words), "</"@ + tag + ">"@),
{
    reveal_strlit("</");
    let t = plain_text(words);
    let close = "</"@ + tag + ">"@;
    plain_text_holds_no_markup(words);
    assert forall|i: int| !#[trigger] occurs_at(t, close, i) by {
        if occurs_at(t, close, i) {
            assert(t.subrange(i, i + close.len())[0] == t[i]);
            assert(close[0] == '<');
        }
    }
}

/// A `<title>` of plain words is the title of the row, and an http(s) `<link>` its link,
/// wherever they stand in an RSS item: the item has a row, in every style a title and that
/// link.
pub proof fn a_written_item_is_a_row(
    body: Seq<char>,
    before_title: Seq<char>,
    title: Seq<Seq<char>>,
    after_title: Seq<char>,
    before_link: Seq<char>,
    link: Seq<char>,
    after_link: Seq<char>,
    style: Style,
)
    requires
        body == before_title + written("title"@, seq![], plain_text(title)) + after_title,
        body == before_link + written("link"@, seq![], link) + after_link,
        is_free_of(before_title, "<title"@),
        is_free_of(before_link, "<link"@),
        title.len() > 0,
        forall|k: int| 0 <= k < title.len() ==> is_plain_word(#[trigger] title[k]),
        is_plain_word(link),
        begins_ci(link, "http://"@) || begins_ci(link, "https://"@),
    ensures
        spec_parse_item(body, false, style) matches Some(h) && h.link == link && (!style.split_source
            && !style.digest ==> h.title == plain_text(title)),
{
    reveal(spec_parse_item);
    reveal_strlit("<");
    reveal_strlit("</");
    reveal_strlit("title");
    reveal_strlit("link");
    reveal_strlit("<title");
    reveal_strlit("<link");
    assert("<"@ + "title"@ =~= "<title"@);
    assert("<"@ + "link"@ =~= "<link"@);
    let nothing = Seq::<char>::empty();
    assert(spec_trim_end(nothing).len() == 0);
    free_of_its_own_close(title, "title"@);
    a_written_element_is_read(before_title, "title"@, seq![], plain_text(title), after_title);
    plain_text_is_kept(title);
    assert forall|k: int| 0 <= k < title.len() implies is_word(#[trigger] title[k]) by {
        assert(is_plain_word(title[k]));
    }
    joined_words_are_trimmed(title);
    let one = seq![link];
    assert(plain_text(one) == link);
    free_of_its_own_close(one, "link"@);
    a_written_element_is_read(before_link, "link"@, seq![], link, after_link);
    plain_text_is_kept(one);
}

// ---------------------------------------------------------------------------
// Feeds
// ---------------------------------------------------------------------------

/// The items of a feed become rows one by one, in their order: the first item's body is
/// what stands between its tags, and the rest of the feed is read as if it stood alone.
pub proof fn items_become_rows_in_order(
    head: Seq<char>,
    body: Seq<char>,
    rest: Seq<char>,
    kind: FeedKind,
    style: Style,
)
    requires
        is_free_of(head, item_open(kind)),
        is_free_of(body, item_open(kind)),
        is_free_of(body, item_close(kind)),
        is_free_of(item_close(kind) + rest, item_open(kind)) || occurs_at(rest, item_open(kind), 0),
    ensures
        ({
            let xml = head + item_open(kind) + ">"@ + body + item_close(kind) + rest;
            let at = head.len() as int + item_open(kind).len();
            rows_from(xml, kind, style, 0) == (match spec_parse_item(
                body,
                kind == FeedKind::Atom,
                style,
            ) {
                Some(h) => seq![h],
                None => seq![],
            }) + rows_from(xml, kind, style, at)
        }),
{
    reveal_strlit("<item");
    reveal_strlit("</item>");
    reveal_strlit("<entry");
    reveal_strlit("</entry>");
    reveal_strlit(">");
    let open = item_open(kind);
    let close = item_close(kind);
    let xml = head + open + ">"@ + body + close + rest;
    let p = head.len() as int;
    let a = p + open.len();
    let e = a + 1 + body.len();
    let q = e + close.len();
    assert(xml.subrange(0, p) =~= head);
    assert(xml[p] == '<');
    no_match_across(xml, open, 0, head, '<');
    assert(xml.subrange(p, a) =~= open);
    found_at(xml, open, 0, p);
    assert(xml[a] == '>');
    assert(xml.subrange(a + 1, e) =~= body);
    assert(xml[e] == '<');
    no_match_across(xml, open, a + 1, body, '<');
    assert(!occurs_at(xml, open, a)) by {
        if occurs_at(xml, open, a) {
            assert(xml.subrange(a, a + open.len())[0] == '>');
        }
    }
    assert forall|j: int| e <= j < q implies !#[trigger] occurs_at(xml, open, j) by {
        if occurs_at(xml, open, j) {
            let sub = xml.subrange(j, j + open.len());
            assert(sub[0] == xml[j]);
            assert(xml[j] == close[j - e]);
            if j == e {
                assert(sub[1] == xml[e + 1]);
                assert(xml[e + 1] == close[1]);
            }
        }
    }
    let next = spec_find(xml, open, a);
    find_is_first(xml, open, a);
    let b = match next {
        Some(n) => n,
        None => xml.len() as int,
    };
    if occurs_at(rest, open, 0) {
        assert(xml.subrange(q, q + open.len()) =~= rest.subrange(0, open.len() as int));
        assert(occurs_at(xml, open, q));
        found_at(xml, open, a, q);
    } else {
        if let Some(n) = next {
            let tail = close + rest;
            assert(xml.subrange(n, n + open.len()) =~= tail.subrange(n - e, n - e + open.len()));
            assert(occurs_at(tail, open, n - e));
        }
    }
    assert(q <= b <= xml.len());
    let chunk = xml.subrange(a, b);
    assert(chunk[0] == '>');
    let inner = chunk.subrange(1, chunk.len() as int);
    assert(inner.subrange(0, body.len() as int) =~= body);
    assert(inner[body.len() as int] == '<');
    assert forall|k: int| 1 <= k < close.len() implies #[trigger] close[k] != '<' by {}
    no_match_across(inner, close, 0, body, '<');
    assert(inner.subrange(body.len() as int, body.len() as int + close.len()) =~= close);
    found_at(inner, close, 0, body.len() as int);
    assert(item_body(xml, close, a, b) == Some(body));
}

} // verus!
