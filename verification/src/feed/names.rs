//! Outlets: the publisher's name in a title or a description.
use crate::case::{
    all_ascii, char_in_lower_case, in_lower_case, is_upper_case, is_uppercase, same_lowercase,
    to_lowercase,
};
use crate::feed::reading::{is_free_of, joined_words_are_found_again};
use crate::text::{
    at, find_char, is_digit, is_trimmed, is_word, occurs_at, push_all, rfind, rfind_char,
    spec_find_char, spec_is_digit, spec_join, spec_lead, spec_lower_all, spec_rfind,
    spec_rfind_char, spec_starts_with, spec_trail, spec_trim, spec_trim_end, spec_trim_start,
    spec_words, spells, stands_at, texts, to_chars, trim, trim_end, trim_start,
    trimmed_ends_are_bare, trimmed_texts_are_trimmed, trimming_keeps, words,
};
use vstd::prelude::*;
use vstd::slice::slice_subrange;

verus! {

/// An outlet's name is a few words: anything longer is a sentence with a colon
/// in it.
pub const OUTLET_CHARS: usize = 40;

/// How much of the headline the description must open with.
pub const TITLE_MATCH_CHARS: usize = 24;

/// A headline and its outlet, or the other way round.
pub struct Split {
    pub first: Vec<char>,
    pub second: Vec<char>,
}

/// The texts of a split.
pub open spec fn split_texts(r: Option<Split>) -> Option<(Seq<char>, Seq<char>)> {
    match r {
        Some(s) => Some((s.first@, s.second@)),
        None => None,
    }
}

fn made(first: &[char], second: &[char]) -> (r: Split)
    ensures
        r.first@ == first@,
        r.second@ == second@,
{
    let mut a: Vec<char> = Vec::new();
    push_all(&mut a, first);
    let mut b: Vec<char> = Vec::new();
    push_all(&mut b, second);
    assert(a@ =~= first@);
    assert(b@ =~= second@);
    Split { first: a, second: b }
}

/// Google News titles end in ` - Source`; the last dash is the separator.
pub open spec fn spec_split_google_source(title: Seq<char>) -> Option<(Seq<char>, Seq<char>)> {
    match spec_rfind(title, " - "@, title.len() as int) {
        Some(p) => {
            let head = spec_trim(title.subrange(0, p));
            let tail = spec_trim(title.subrange(p + 3, title.len() as int));
            if head.len() > 0 && tail.len() > 0 {
                Some((head, tail))
            } else {
                None
            }
        },
        None => None,
    }
}

/// Google News titles end in ` - Source`; the last dash is the separator.
pub fn split_google_source(title: &[char]) -> (r: Option<Split>)
    ensures
        split_texts(r) == spec_split_google_source(title@),
{
    proof {
        reveal_strlit(" - ");
    }
    let dash = to_chars(" - ");
    match rfind(title, dash.as_slice()) {
        Some(p) => {
            let head = trim(slice_subrange(title, 0, p));
            let tail = trim(slice_subrange(title, p + 3, title.len()));
            if head.len() > 0 && tail.len() > 0 {
                Some(made(head, tail))
            } else {
                None
            }
        },
        None => None,
    }
}

/// A digest title's trailing ` (Author/Outlet)` or ` (Outlet)`: the title
/// without it, and the outlet, the last part between slashes.
pub open spec fn spec_trailing_outlet(title: Seq<char>) -> Option<(Seq<char>, Seq<char>)> {
    let t = spec_trim(title);
    if t.len() == 0 || t.last() != ')' {
        None
    } else {
        let inner_end = t.drop_last();
        match spec_rfind_char(inner_end, '(', inner_end.len() as int) {
            None => None,
            Some(open) => {
                let inner = spec_trim(inner_end.subrange(open + 1, inner_end.len() as int));
                let head = spec_trim_end(inner_end.subrange(0, open));
                let start = match spec_rfind_char(inner, '/', inner.len() as int) {
                    Some(p) => p + 1,
                    None => 0,
                };
                let outlet = spec_trim(inner.subrange(start, inner.len() as int));
                if inner.len() == 0 || head.len() == 0 || inner.len() > OUTLET_CHARS || outlet.len()
                    == 0 {
                    None
                } else {
                    Some((head, outlet))
                }
            },
        }
    }
}

/// A digest title's trailing ` (Author/Outlet)` or ` (Outlet)`. None where the
/// title does not end that way, or what is in the parentheses is too long to be
/// a name.
pub fn trailing_outlet(title: &[char]) -> (r: Option<Split>)
    ensures
        split_texts(r) == spec_trailing_outlet(title@),
{
    let t = trim(title);
    if t.len() == 0 || t[t.len() - 1] != ')' {
        return None;
    }
    let inner_end = slice_subrange(t, 0, t.len() - 1);
    assert(inner_end@ =~= t@.drop_last());
    let open: usize = match rfind_char(inner_end, '(') {
        Some(p) => p,
        None => return None,
    };
    let inner = trim(slice_subrange(inner_end, open + 1, inner_end.len()));
    let head = trim_end(slice_subrange(inner_end, 0, open));
    if inner.len() == 0 || head.len() == 0 || inner.len() > OUTLET_CHARS {
        return None;
    }
    let start: usize = match rfind_char(inner, '/') {
        Some(p) => p + 1,
        None => 0,
    };
    let outlet = trim(slice_subrange(inner, start, inner.len()));
    if outlet.len() == 0 {
        return None;
    }
    Some(made(head, outlet))
}

/// Whether a word can stand in an outlet's name: a connector, or one that
/// begins with a capital or a digit.
pub open spec fn name_word(w: Seq<char>) -> bool {
    ||| w == "of"@
    ||| w == "the"@
    ||| w == "and"@
    ||| w == "de"@
    ||| w == "for"@
    ||| w == "&"@
    ||| w.len() > 0 && (is_upper_case(w[0]) || spec_is_digit(w[0]))
}

fn is_name_word(w: &[char]) -> (r: bool)
    ensures
        r == name_word(w@),
{
    spells(w, "of") || spells(w, "the") || spells(w, "and") || spells(w, "de") || spells(w, "for")
        || spells(w, "&") || (w.len() > 0 && (is_uppercase(w[0]) || is_digit(w[0])))
}

/// Whether a text has sentence punctuation.
pub open spec fn has_sentence_mark(s: Seq<char>) -> bool {
    exists|i: int| 0 <= i < s.len() && (#[trigger] s[i] == '.' || s[i] == '!' || s[i] == '?')
}

fn ends_sentences(s: &[char]) -> (r: bool)
    ensures
        r == has_sentence_mark(s@),
{
    let mut i: usize = 0;
    while i < s.len()
        invariant
            i <= s.len(),
            forall|j: int|
                0 <= j < i ==> #[trigger] s@[j] != '.' && s@[j] != '!' && s@[j] != '?',
        decreases s.len() - i,
    {
        if s[i] == '.' || s[i] == '!' || s[i] == '?' {
            assert(s@[i as int] == '.' || s@[i as int] == '!' || s@[i as int] == '?');
            return true;
        }
        i = i + 1;
    }
    false
}

/// Whether a text reads as an outlet's name rather than the start of a
/// sentence: a few words, each capitalised or a number, connectors aside; no
/// sentence punctuation.
pub open spec fn spec_looks_like_name(s: Seq<char>) -> bool {
    let w = spec_words(s);
    &&& w.len() > 0
    &&& s.len() <= OUTLET_CHARS
    &&& !has_sentence_mark(s)
    &&& forall|i: int| 0 <= i < w.len() ==> name_word(#[trigger] w[i])
}

/// Whether a text reads as an outlet's name rather than the start of a
/// sentence.
pub fn looks_like_name(s: &[char]) -> (r: bool)
    ensures
        r == spec_looks_like_name(s@),
{
    let w = words(s);
    let ghost all = texts(w@);
    if w.len() == 0 || s.len() > OUTLET_CHARS || ends_sentences(s) {
        return false;
    }
    let mut i: usize = 0;
    while i < w.len()
        invariant
            i <= w.len(),
            all == texts(w@),
            all == spec_words(s@),
            forall|j: int| 0 <= j < i ==> name_word(#[trigger] all[j]),
        decreases w.len() - i,
    {
        assert(all[i as int] == w@[i as int]@);
        if !is_name_word(w[i]) {
            return false;
        }
        i = i + 1;
    }
    true
}

/// Whether the first `n` characters of two texts are the same in lower case.
pub open spec fn same_in_lower_case(a: Seq<char>, b: Seq<char>, n: int) -> bool {
    forall|i: int|
        0 <= i < n ==> char_in_lower_case(#[trigger] a[i]) == char_in_lower_case(#[trigger] b[i])
}

/// The text after a prefix, matched without regard to case, character by
/// character.
pub open spec fn spec_strip_prefix_ci(text: Seq<char>, prefix: Seq<char>) -> Option<Seq<char>> {
    if prefix.len() <= text.len() && same_in_lower_case(text, prefix, prefix.len() as int) {
        Some(text.subrange(prefix.len() as int, text.len() as int))
    } else {
        None
    }
}

/// The text after a prefix, matched without regard to case.
pub fn strip_prefix_ci<'a>(text: &'a [char], prefix: &[char]) -> (r: Option<&'a [char]>)
    ensures
        match r {
            Some(rest) => spec_strip_prefix_ci(text@, prefix@) == Some(rest@),
            None => spec_strip_prefix_ci(text@, prefix@) is None,
        },
{
    let mut i: usize = 0;
    while i < prefix.len()
        invariant
            i <= prefix.len(),
            i <= text.len(),
            same_in_lower_case(text@, prefix@, i as int),
        decreases prefix.len() - i,
    {
        if i >= text.len() {
            return None;
        }
        if !same_lowercase(text[i], prefix[i]) {
            assert(!same_in_lower_case(text@, prefix@, prefix@.len() as int)) by {
                assert(char_in_lower_case(text@[i as int]) != char_in_lower_case(prefix@[i as int]));
            }
            return None;
        }
        i = i + 1;
    }
    Some(slice_subrange(text, i, text.len()))
}

/// Without ellipses at the end.
pub open spec fn without_ellipses(s: Seq<char>) -> Seq<char>
    decreases s.len(),
{
    if s.len() > 0 && s.last() == '\u{2026}' {
        without_ellipses(s.drop_last())
    } else {
        s
    }
}

fn strip_ellipses<'a>(s: &'a [char]) -> (r: &'a [char])
    ensures
        r@ == without_ellipses(s@),
{
    let mut r: &'a [char] = s;
    while r.len() > 0 && r[r.len() - 1] == '\u{2026}'
        invariant
            without_ellipses(r@) == without_ellipses(s@),
        decreases r.len(),
    {
        let ghost before = r@;
        r = slice_subrange(r, 0, r.len() - 1);
        assert(r@ =~= before.drop_last());
    }
    r
}

/// A mark that may stand between a headline and what follows it.
pub open spec fn joins(c: char) -> bool {
    c == '\u{2014}' || c == '-' || c == '\u{b7}' || c == ':' || c == ','
}

/// The first index that is no such mark.
pub open spec fn after_joints(s: Seq<char>, i: int) -> int
    decreases s.len() - i,
{
    if i < 0 || i >= s.len() || !joins(s[i]) {
        i
    } else {
        after_joints(s, i + 1)
    }
}

fn skip_joints<'a>(s: &'a [char]) -> (r: &'a [char])
    ensures
        r@ == s@.subrange(after_joints(s@, 0), s@.len() as int),
{
    let mut i: usize = 0;
    while i < s.len() && (s[i] == '\u{2014}' || s[i] == '-' || s[i] == '\u{b7}' || s[i] == ':' || s[i]
        == ',')
        invariant
            i <= s.len(),
            after_joints(s@, 0) == after_joints(s@, i as int),
        decreases s.len() - i,
    {
        i = i + 1;
    }
    slice_subrange(s, i, s.len())
}

/// The headline that a description is compared with.
pub open spec fn bare_title(title: Seq<char>) -> Seq<char> {
    spec_trim(without_ellipses(spec_trim(title)))
}

/// The beginning of the headline that a description must open with.
pub open spec fn title_head(title: Seq<char>) -> Seq<char> {
    let t = bare_title(title);
    if t.len() > TITLE_MATCH_CHARS {
        t.subrange(0, TITLE_MATCH_CHARS as int)
    } else {
        t
    }
}

/// What is left of a description after the headline that it opens with.
pub open spec fn after_headline(rest: Seq<char>, title: Seq<char>) -> Seq<char> {
    let remainder = spec_trim(
        match spec_strip_prefix_ci(rest, title) {
            Some(r) => r,
            None => Seq::empty(),
        },
    );
    spec_trim(remainder.subrange(after_joints(remainder, 0), remainder.len() as int))
}

/// `Outlet: headline …` in a description whose remainder opens with the item's
/// own title: the outlet, and what is left after the headline.
pub open spec fn spec_outlet_prefix(title: Seq<char>, summary: Seq<char>) -> Option<
    (Seq<char>, Seq<char>),
> {
    match spec_find_char(summary, ':', 0) {
        None => None,
        Some(c) => {
            let outlet = spec_trim(summary.subrange(0, c));
            let rest = spec_trim_start(summary.subrange(c + 1, summary.len() as int));
            let head = title_head(title);
            if spec_looks_like_name(outlet) && head.len() > 0 && spec_starts_with(
                in_lower_case(rest),
                in_lower_case(head),
            ) {
                Some((outlet, after_headline(spec_trim(rest), bare_title(title))))
            } else {
                None
            }
        },
    }
}

/// `Outlet: headline …` in a description: the outlet, and what is left after
/// the headline (empty where the description was the headline alone). None
/// where the description does not have that shape.
pub fn outlet_prefix(title: &[char], summary: &[char]) -> (r: Option<Split>)
    ensures
        split_texts(r) == spec_outlet_prefix(title@, summary@),
{
    let c: usize = match find_char(summary, ':', 0) {
        Some(c) => c,
        None => return None,
    };
    let outlet = trim(slice_subrange(summary, 0, c));
    let rest = trim_start(slice_subrange(summary, c + 1, summary.len()));
    if !looks_like_name(outlet) {
        return None;
    }
    let bare = trim(strip_ellipses(trim(title)));
    let head = if bare.len() > TITLE_MATCH_CHARS {
        slice_subrange(bare, 0, TITLE_MATCH_CHARS)
    } else {
        bare
    };
    if head.len() == 0 {
        return None;
    }
    let low_rest = to_lowercase(rest);
    let low_head = to_lowercase(head);
    if !stands_at(low_rest.as_slice(), low_head.as_slice(), 0) {
        return None;
    }
    let rest = trim(rest);
    let empty: Vec<char> = Vec::new();
    let remainder = trim(
        match strip_prefix_ci(rest, bare) {
            Some(r) => r,
            None => empty.as_slice(),
        },
    );
    assert(empty@ =~= Seq::empty());
    let remainder = trim(skip_joints(remainder));
    Some(made(outlet, remainder))
}

proof fn rfind_char_bounds(s: Seq<char>, c: char, upto: int)
    ensures
        spec_rfind_char(s, c, upto) matches Some(p) ==> 0 <= p < upto,
    decreases upto,
{
    if upto > 0 && s[upto - 1] != c {
        rfind_char_bounds(s, c, upto - 1);
    }
}

/// A title that an outlet is taken off has no white space around it.
pub proof fn outlets_leave_trimmed_titles(title: Seq<char>)
    ensures
        spec_trailing_outlet(title) matches Some((head, _)) ==> head.len() > 0 && is_trimmed(head),
{
    let t = spec_trim(title);
    trimmed_texts_are_trimmed(title);
    if t.len() > 0 {
        let inner_end = t.drop_last();
        rfind_char_bounds(inner_end, '(', inner_end.len() as int);
        if let Some(open) = spec_rfind_char(inner_end, '(', inner_end.len() as int) {
            trimmed_ends_are_bare(inner_end.subrange(0, open));
        }
    }
}

proof fn joints_bounds(s: Seq<char>, i: int)
    requires
        0 <= i <= s.len(),
    ensures
        i <= after_joints(s, i) <= s.len(),
    decreases s.len() - i,
{
    if i < s.len() && joins(s[i]) {
        joints_bounds(s, i + 1);
    }
}

proof fn find_char_bounds(s: Seq<char>, c: char, from: int)
    requires
        0 <= from,
    ensures
        spec_find_char(s, c, from) matches Some(p) ==> from <= p < s.len(),
    decreases s.len() - from,
{
    if from < s.len() && s[from] != c {
        find_char_bounds(s, c, from + 1);
    }
}

/// What is left of a description after its outlet and its headline is no longer than
/// the description.
pub proof fn prefixes_only_shorten(title: Seq<char>, summary: Seq<char>)
    ensures
        spec_outlet_prefix(title, summary) matches Some((_, rest)) ==> rest.len() <= summary.len(),
{
    find_char_bounds(summary, ':', 0);
    if let Some(c) = spec_find_char(summary, ':', 0) {
        let after = summary.subrange(c + 1, summary.len() as int);
        let rest = spec_trim_start(after);
        trimmed_texts_are_trimmed(after);
        trimmed_texts_are_trimmed(rest);
        let stripped = match spec_strip_prefix_ci(spec_trim(rest), bare_title(title)) {
            Some(r) => r,
            None => Seq::empty(),
        };
        trimmed_texts_are_trimmed(stripped);
        let remainder = spec_trim(stripped);
        joints_bounds(remainder, 0);
        trimmed_texts_are_trimmed(
            remainder.subrange(after_joints(remainder, 0), remainder.len() as int),
        );
    }
}

proof fn last_match(s: Seq<char>, pat: Seq<char>, p: int, upto: int)
    requires
        0 <= p < upto,
        occurs_at(s, pat, p),
        forall|j: int| p < j < upto ==> !#[trigger] occurs_at(s, pat, j),
    ensures
        spec_rfind(s, pat, upto) == Some(p),
    decreases upto,
{
    if upto - 1 > p {
        assert(!occurs_at(s, pat, upto - 1));
        last_match(s, pat, p, upto - 1);
    }
}

proof fn last_char(s: Seq<char>, c: char, p: int, upto: int)
    requires
        0 <= p < upto <= s.len(),
        s[p] == c,
        forall|j: int| p < j < upto ==> #[trigger] s[j] != c,
    ensures
        spec_rfind_char(s, c, upto) == Some(p),
    decreases upto,
{
    if upto - 1 > p {
        last_char(s, c, p, upto - 1);
    }
}

proof fn no_such_char(s: Seq<char>, c: char, upto: int)
    requires
        upto <= s.len(),
        !s.contains(c),
    ensures
        spec_rfind_char(s, c, upto) is None,
    decreases upto,
{
    if upto > 0 {
        assert(s.contains(s[upto - 1]));
        no_such_char(s, c, upto - 1);
    }
}

/// A headline with its source behind a dash is taken apart into the two; a headline may
/// have dashes of its own.
pub proof fn a_source_behind_a_dash_is_found(headline: Seq<char>, source: Seq<char>)
    requires
        headline.len() > 0 && is_trimmed(headline),
        source.len() > 0 && is_trimmed(source),
        source[0] != '-',
        is_free_of(source, " - "@),
    ensures
        spec_split_google_source(headline + " - "@ + source) == Some((headline, source)),
{
    reveal_strlit(" - ");
    let dash = " - "@;
    let t = headline + dash + source;
    let p = headline.len() as int;
    assert(t.subrange(p, p + 3) =~= dash);
    assert(occurs_at(t, dash, p));
    assert forall|j: int| p < j < t.len() implies !#[trigger] occurs_at(t, dash, j) by {
        if occurs_at(t, dash, j) {
            let m = t.subrange(j, j + 3);
            assert(m[0] == t[j] && m[1] == t[j + 1]);
            if j == p + 1 {
                assert(t[j] == dash[1]);
            } else if j == p + 2 {
                assert(t[j + 1] == source[0]);
            } else {
                let k = j - p - 3;
                assert(source.subrange(k, k + 3) =~= m);
                assert(occurs_at(source, dash, k));
            }
        }
    }
    last_match(t, dash, p, t.len() as int);
    assert(t.subrange(0, p) =~= headline);
    assert(t.subrange(p + 3, t.len() as int) =~= source);
    trimming_keeps(headline);
    trimming_keeps(source);
}

/// An outlet in brackets at the end of a headline is found, an author before it or not.
pub proof fn an_outlet_in_brackets_is_found(headline: Seq<char>, author: Option<Seq<char>>, outlet: Seq<char>)
    requires
        headline.len() > 0 && is_trimmed(headline),
        outlet.len() > 0 && is_trimmed(outlet),
        !outlet.contains('(') && !outlet.contains('/'),
        match author {
            Some(a) => is_trimmed(a) && !a.contains('(') && a.len() + 1 + outlet.len() <= 40,
            None => outlet.len() <= 40,
        },
    ensures
        spec_trailing_outlet(
            headline + " ("@ + (match author {
                Some(a) => a + "/"@ + outlet,
                None => outlet,
            }) + ")"@,
        ) == Some((headline, outlet)),
{
    reveal_strlit(" (");
    reveal_strlit("/");
    reveal_strlit(")");
    let inner = match author {
        Some(a) => a + "/"@ + outlet,
        None => outlet,
    };
    let title = headline + " ("@ + inner + ")"@;
    assert(title.last() == ')');
    assert(title[0] == headline[0]);
    trimming_keeps(title);
    let body = title.drop_last();
    let open = headline.len() as int + 1;
    assert(body[open] == '(');
    assert forall|j: int| open < j < body.len() implies #[trigger] body[j] != '(' by {
        let k = j - open - 1;
        assert(body[j] == inner[k]);
        if let Some(a) = author {
            if k < a.len() {
                assert(a.contains(a[k]));
            } else if k > a.len() {
                assert(outlet.contains(outlet[k - a.len() - 1]));
            }
        } else {
            assert(outlet.contains(outlet[k]));
        }
    }
    last_char(body, '(', open, body.len() as int);
    assert(body.subrange(open + 1, body.len() as int) =~= inner);
    assert(inner.last() == outlet.last());
    trimming_keeps(inner);
    let h = body.subrange(0, open);
    assert(h =~= headline.push(' '));
    assert(h[open - 1] == ' ' && h[open - 2] == headline.last());
    assert(spec_trail(h, open) == spec_trail(h, open - 1));
    assert(spec_trail(h, open - 1) == open - 1);
    assert(h.subrange(0, open - 1) =~= headline);
    assert(spec_trim_end(h) == headline);
    if let Some(a) = author {
        let p = a.len() as int;
        assert(inner[p] == '/');
        assert forall|j: int| p < j < inner.len() implies #[trigger] inner[j] != '/' by {
            assert(inner[j] == outlet[j - p - 1]);
            assert(outlet.contains(outlet[j - p - 1]));
        }
        last_char(inner, '/', p, inner.len() as int);
        assert(inner.subrange(p + 1, inner.len() as int) =~= outlet);
    } else {
        no_such_char(inner, '/', inner.len() as int);
        assert(inner.subrange(0, inner.len() as int) =~= outlet);
    }
    trimming_keeps(outlet);
}

/// Words that each begin with a capital letter are a name, where they are few and end no
/// sentence; with a word in small letters among them they are none.
pub proof fn capital_words_are_a_name(words: Seq<Seq<char>>)
    requires
        words.len() > 0,
        forall|k: int| 0 <= k < words.len() ==> is_word(#[trigger] words[k]),
        spec_join(words, " "@).len() <= 40,
        !has_sentence_mark(spec_join(words, " "@)),
    ensures
        (forall|k: int| 0 <= k < words.len() ==> 'A' <= (#[trigger] words[k])[0] <= 'Z')
            ==> spec_looks_like_name(spec_join(words, " "@)),
        (exists|k: int|
            0 <= k < words.len() && 'a' <= (#[trigger] words[k])[0] <= 'z' && words[k].len() > 3)
            ==> !spec_looks_like_name(spec_join(words, " "@)),
{
    let s = spec_join(words, " "@);
    joined_words_are_found_again(words);
    if forall|k: int| 0 <= k < words.len() ==> 'A' <= (#[trigger] words[k])[0] <= 'Z' {
        assert forall|k: int| 0 <= k < words.len() implies name_word(#[trigger] words[k]) by {
            assert('A' <= words[k][0] <= 'Z');
            assert(is_word(words[k]));
        }
    }
    if exists|k: int|
        0 <= k < words.len() && 'a' <= (#[trigger] words[k])[0] <= 'z' && words[k].len() > 3 {
        reveal_strlit("of");
        reveal_strlit("the");
        reveal_strlit("and");
        reveal_strlit("de");
        reveal_strlit("for");
        reveal_strlit("&");
        let k = choose|k: int|
            0 <= k < words.len() && 'a' <= (#[trigger] words[k])[0] <= 'z' && words[k].len() > 3;
        assert(!name_word(words[k]));
    }
}

proof fn same_case_is_same(a: Seq<char>, n: int)
    requires
        0 <= n <= a.len(),
    ensures
        same_in_lower_case(a, a.subrange(0, n), n),
{
    let b = a.subrange(0, n);
    assert forall|i: int| 0 <= i < n implies char_in_lower_case(#[trigger] a[i])
        == char_in_lower_case(#[trigger] b[i]) by {
        assert(a[i] == b[i]);
    }
}

/// A description that repeats the headline behind the outlet's name gives the outlet, and
/// what it says besides; the headline alone says nothing more.
pub proof fn a_description_gives_its_outlet(outlet: Seq<char>, title: Seq<char>, more: Seq<char>)
    requires
        is_trimmed(outlet) && !outlet.contains(':'),
        spec_looks_like_name(outlet),
        title.len() > 0 && is_trimmed(title) && title.last() != '\u{2026}',
        all_ascii(title + " - "@ + more),
        more.len() > 0 ==> is_trimmed(more) && !joins(more[0]),
    ensures
        more.len() > 0 ==> spec_outlet_prefix(title, outlet + ": "@ + title + " - "@ + more) == Some(
            (outlet, more),
        ),
        spec_outlet_prefix(title, outlet + ": "@ + title) == Some((outlet, Seq::<char>::empty())),
{
    reveal_strlit(" - ");
    reveal_strlit(": ");
    let whole = title + " - "@ + more;
    assert forall|i: int| 0 <= i < title.len() implies (#[trigger] title[i] as u32) < 0x80 by {
        assert(whole[i] == title[i]);
    }
    assert(title.subrange(0, title.len() as int) =~= title);
    opens_with(outlet, title, title);
    assert(title.subrange(title.len() as int, title.len() as int) =~= Seq::empty());
    let none = Seq::<char>::empty();
    trimming_keeps(none);
    assert(none.subrange(after_joints(none, 0), 0) =~= none);
    if more.len() > 0 {
        assert(outlet + ": "@ + title + " - "@ + more =~= outlet + ": "@ + whole);
        assert(whole.subrange(0, title.len() as int) =~= title);
        assert(whole.last() == more.last());
        opens_with(outlet, title, whole);
        let tail = whole.subrange(title.len() as int, whole.len() as int);
        assert(tail =~= " - "@ + more);
        let t1 = tail.subrange(1, tail.len() as int);
        assert(tail[0] == ' ' && tail[1] == '-' && t1[0] == '-' && t1[1] == ' ');
        assert(spec_lead(tail, 0) == spec_lead(tail, 1));
        assert(spec_lead(tail, 1) == 1);
        assert(spec_trim_start(tail) == t1);
        assert(t1.last() == more.last());
        assert(spec_trail(t1, t1.len() as int) == t1.len());
        assert(spec_trim_end(t1) =~= t1);
        assert(spec_trim(tail) == t1);
        assert(after_joints(t1, 1) == 1);
        assert(after_joints(t1, 0) == 1);
        let t2 = t1.subrange(1, t1.len() as int);
        assert(t2[0] == ' ' && t2[1] == more[0]);
        assert(t2.subrange(1, t2.len() as int) =~= more);
        assert(spec_lead(t2, 0) == spec_lead(t2, 1));
        assert(spec_lead(t2, 1) == 1);
        assert(spec_trim_start(t2) == more);
        assert(spec_trail(more, more.len() as int) == more.len());
        assert(spec_trim_end(more) =~= more);
    }
}

proof fn opens_with(outlet: Seq<char>, title: Seq<char>, rest: Seq<char>)
    requires
        is_trimmed(outlet) && !outlet.contains(':'),
        spec_looks_like_name(outlet),
        title.len() > 0 && is_trimmed(title) && title.last() != '\u{2026}',
        title.len() <= rest.len() && rest.subrange(0, title.len() as int) == title,
        all_ascii(rest) && all_ascii(title) && is_trimmed(rest),
    ensures
        spec_outlet_prefix(title, outlet + ": "@ + rest) == Some(
            (
                outlet,
                ({
                    let r = spec_trim(rest.subrange(title.len() as int, rest.len() as int));
                    spec_trim(r.subrange(after_joints(r, 0), r.len() as int))
                }),
            ),
        ),
{
    reveal_strlit(": ");
    let s = outlet + ": "@ + rest;
    let c = outlet.len() as int;
    find_char_is(s, ':', 0, c, outlet);
    assert(s.subrange(0, c) =~= outlet);
    trimming_keeps(outlet);
    let after = s.subrange(c + 1, s.len() as int);
    assert(after[0] == ' ' && after[1] == rest[0]);
    assert(rest[0] == title[0]) by {
        assert(rest.subrange(0, title.len() as int)[0] == rest[0]);
    }
    assert(spec_lead(after, 0) == spec_lead(after, 1));
    assert(spec_lead(after, 1) == 1);
    assert(after.subrange(1, after.len() as int) =~= rest);
    assert(spec_trim_start(after) == rest);
    trimming_keeps(title);
    trimming_keeps(rest);
    assert(without_ellipses(title) == title);
    assert(bare_title(title) == title);
    let head = title_head(title);
    assert(head.len() <= title.len());
    assert forall|i: int| 0 <= i < head.len() implies (#[trigger] head[i] as u32) < 0x80 && head[i]
        == rest[i] by {
        assert(head[i] == title[i]);
        assert(title[i] == rest.subrange(0, title.len() as int)[i]);
        assert((title[i] as u32) < 0x80);
    }
    assert(in_lower_case(rest).subrange(0, head.len() as int) =~= in_lower_case(head));
    assert(spec_starts_with(in_lower_case(rest), in_lower_case(head)));
    same_case_is_same(rest, title.len() as int);
    assert(spec_strip_prefix_ci(rest, title) == Some(
        rest.subrange(title.len() as int, rest.len() as int),
    ));
}

proof fn find_char_is(s: Seq<char>, c: char, i: int, p: int, before: Seq<char>)
    requires
        0 <= i <= p < s.len(),
        p == before.len(),
        s.subrange(0, p) =~= before,
        !before.contains(c),
        s[p] == c,
    ensures
        spec_find_char(s, c, i) == Some(p),
    decreases p - i,
{
    if i < p {
        assert(s[i] == before[i]);
        assert(before.contains(before[i]));
        find_char_is(s, c, i + 1, p, before);
    }
}

/// A description need not repeat more of a long headline than its first twenty-four
/// characters for its outlet to be found; what it says is then not told apart from the
/// headline.
pub proof fn a_long_headline_is_known_by_its_beginning(
    outlet: Seq<char>,
    title: Seq<char>,
    rest: Seq<char>,
)
    requires
        is_trimmed(outlet) && !outlet.contains(':'),
        spec_looks_like_name(outlet),
        title.len() > 24 && is_trimmed(title) && title.last() != '\u{2026}',
        all_ascii(title) && all_ascii(rest) && is_trimmed(rest),
        rest.len() >= 24,
    ensures
        rest.subrange(0, 24) == title.subrange(0, 24) ==> (spec_outlet_prefix(
            title,
            outlet + ": "@ + rest,
        ) matches Some((o, _)) && o == outlet),
        spec_lower_all(rest.subrange(0, 24)) != spec_lower_all(title.subrange(0, 24))
            ==> spec_outlet_prefix(title, outlet + ": "@ + rest) is None,
{
    reveal_strlit(": ");
    let s = outlet + ": "@ + rest;
    let c = outlet.len() as int;
    find_char_is(s, ':', 0, c, outlet);
    assert(s.subrange(0, c) =~= outlet);
    trimming_keeps(outlet);
    let after = s.subrange(c + 1, s.len() as int);
    assert(after[0] == ' ' && after[1] == rest[0]);
    assert(spec_lead(after, 0) == spec_lead(after, 1));
    assert(spec_lead(after, 1) == 1);
    assert(after.subrange(1, after.len() as int) =~= rest);
    assert(spec_trim_start(after) == rest);
    trimming_keeps(title);
    assert(without_ellipses(title) == title);
    assert(bare_title(title) == title);
    let head = title.subrange(0, 24);
    assert(title_head(title) == head);
    assert forall|i: int| 0 <= i < head.len() implies (#[trigger] head[i] as u32) < 0x80 by {
        assert(head[i] == title[i]);
    }
    let low = in_lower_case(rest);
    assert(low.subrange(0, 24) =~= spec_lower_all(rest.subrange(0, 24)));
    assert(in_lower_case(head) == spec_lower_all(head));
}

/// A name of more than forty characters, or one that ends a sentence, is none.
pub proof fn sentences_are_no_names(s: Seq<char>, mark: char)
    requires
        mark == '.' || mark == '!' || mark == '?',
    ensures
        s.len() > 40 ==> !spec_looks_like_name(s),
        !spec_looks_like_name(s.push(mark)),
        s.contains(mark) ==> !spec_looks_like_name(s),
        !spec_looks_like_name(Seq::empty()),
{
    let t = s.push(mark);
    assert(t[s.len() as int] == mark);
    assert(has_sentence_mark(t));
    if s.contains(mark) {
        let i = s.index_of(mark);
        assert(s[i] == mark);
        assert(has_sentence_mark(s));
    }
    assert(spec_words(Seq::<char>::empty()).len() == 0);
}

} // verus!
