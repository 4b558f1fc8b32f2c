//! What is escaped is what is read: entities and tags.
use crate::feed::markup::{
    after_slashes, decode_from, entity_end, entity_number, spec_decode_entities, spec_entity,
    spec_named_entity, spec_numeric_entity, spec_strip_tags, spec_tag_kind, strip_from, tag_name,
    tag_name_end, TagKind,
};
use crate::number::{all_digits, decimal_reads_back, digits_value, spec_decimal, spec_digit};
use crate::text::{spec_find_char, spec_is_space, spec_lower, spec_lower_all};
use vstd::prelude::*;

verus! {

// ---------------------------------------------------------------------------
// Entities
// ---------------------------------------------------------------------------

proof fn entity_ends(s: Seq<char>, p: int, i: int, e: int)
    requires
        0 <= i <= e < s.len(),
        e <= p + 10,
        s[e] == ';',
        forall|j: int| i <= j < e ==> #[trigger] s[j] != ';',
    ensures
        entity_end(s, p, i) == Some(e),
    decreases e - i,
{
    if i < e {
        entity_ends(s, p, i + 1, e);
    }
}

proof fn entity_end_shifts(pre: Seq<char>, t: Seq<char>, p: int, i: int)
    requires
        0 <= p <= i,
    ensures
        entity_end(pre + t, pre.len() + p, pre.len() + i) == match entity_end(t, p, i) {
            Some(e) => Some(pre.len() + e),
            None => None,
        },
    decreases p + 11 - i,
{
    if i < t.len() && i <= p + 10 {
        assert((pre + t)[pre.len() + i] == t[i]);
        if t[i] != ';' {
            entity_end_shifts(pre, t, p, i + 1);
        }
    }
}

proof fn entity_end_bounds(s: Seq<char>, p: int, i: int)
    requires
        0 <= i,
    ensures
        entity_end(s, p, i) matches Some(e) ==> i <= e < s.len(),
    decreases p + 11 - i,
{
    if i < s.len() && i <= p + 10 && s[i] != ';' {
        entity_end_bounds(s, p, i + 1);
    }
}

proof fn decoding_shifts(pre: Seq<char>, t: Seq<char>, i: int)
    requires
        0 <= i <= t.len(),
    ensures
        decode_from(pre + t, pre.len() + i) == decode_from(t, i),
    decreases t.len() - i,
{
    if i < t.len() {
        assert((pre + t)[pre.len() + i] == t[i]);
        decoding_shifts(pre, t, i + 1);
        if t[i] == '&' {
            entity_end_shifts(pre, t, i, i);
            entity_end_bounds(t, i, i);
            if let Some(e) = entity_end(t, i, i) {
                if i < e {
                    assert((pre + t).subrange(pre.len() + i + 1, pre.len() + e) =~= t.subrange(
                        i + 1,
                        e,
                    ));
                    decoding_shifts(pre, t, e + 1);
                }
            }
        }
    }
}

proof fn decoding_passes_over(pre: Seq<char>, t: Seq<char>, i: int)
    requires
        0 <= i <= pre.len(),
        forall|j: int| 0 <= j < pre.len() ==> #[trigger] pre[j] != '&',
    ensures
        decode_from(pre + t, i) == pre.subrange(i, pre.len() as int) + spec_decode_entities(t),
    decreases pre.len() - i,
{
    if i < pre.len() {
        assert((pre + t)[i] == pre[i]);
        decoding_passes_over(pre, t, i + 1);
        assert(seq![pre[i]] + (pre.subrange(i + 1, pre.len() as int) + spec_decode_entities(t))
            =~= pre.subrange(i, pre.len() as int) + spec_decode_entities(t));
    } else {
        decoding_shifts(pre, t, 0);
        assert(pre.subrange(i, pre.len() as int) + spec_decode_entities(t)
            =~= spec_decode_entities(t));
    }
}

/// An entity gives its character, what stands before it is kept, and what stands behind it
/// is read on its own: nothing is decoded twice.
pub proof fn an_entity_becomes_its_character(before: Seq<char>, e: Seq<char>, after: Seq<char>)
    requires
        forall|j: int| 0 <= j < before.len() ==> #[trigger] before[j] != '&',
        forall|j: int| 0 <= j < e.len() ==> #[trigger] e[j] != ';',
        e.len() < 10,
        spec_entity(e) is Some,
    ensures
        spec_decode_entities(before + seq!['&'] + e + seq![';'] + after) == before + seq![
            spec_entity(e)->0,
        ] + spec_decode_entities(after),
{
    let written = seq!['&'] + e + seq![';'];
    let t = written + after;
    assert(before + seq!['&'] + e + seq![';'] + after =~= before + t);
    decoding_passes_over(before, t, 0);
    assert(before.subrange(0, before.len() as int) =~= before);
    assert forall|j: int| 0 <= j < e.len() + 1 implies #[trigger] t[j] != ';' by {
        if j > 0 {
            assert(t[j] == e[j - 1]);
        }
    }
    entity_ends(t, 0, 0, e.len() as int + 1);
    assert(t.subrange(1, e.len() as int + 1) =~= e);
    decoding_shifts(written, after, 0);
    assert(spec_decode_entities(t) =~= seq![spec_entity(e)->0] + spec_decode_entities(after));
    assert(before + (seq![spec_entity(e)->0] + spec_decode_entities(after)) =~= before + seq![
        spec_entity(e)->0,
    ] + spec_decode_entities(after));
}

/// The entities that a text must be written with.
pub open spec fn escape(c: char) -> Seq<char> {
    if c == '&' {
        "&amp;"@
    } else if c == '<' {
        "&lt;"@
    } else if c == '>' {
        "&gt;"@
    } else if c == '"' {
        "&quot;"@
    } else if c == '\'' {
        "&apos;"@
    } else {
        seq![c]
    }
}

/// A text with its marks escaped.
pub open spec fn escape_all(s: Seq<char>) -> Seq<char>
    decreases s.len(),
{
    if s.len() == 0 {
        seq![]
    } else {
        escape(s[0]) + escape_all(s.drop_first())
    }
}

proof fn an_escape_is_read(c: char, after: Seq<char>)
    ensures
        spec_decode_entities(escape(c) + after) == seq![c] + spec_decode_entities(after),
{
    reveal_strlit("&amp;");
    reveal_strlit("&lt;");
    reveal_strlit("&gt;");
    reveal_strlit("&quot;");
    reveal_strlit("&apos;");
    named_entities_are_their_characters();
    let none: Seq<char> = seq![];
    if c == '&' {
        names_hold_no_mark("amp"@);
        assert(none + seq!['&'] + "amp"@ + seq![';'] + after =~= escape(c) + after);
        an_entity_becomes_its_character(none, "amp"@, after);
    } else if c == '<' {
        names_hold_no_mark("lt"@);
        assert(none + seq!['&'] + "lt"@ + seq![';'] + after =~= escape(c) + after);
        an_entity_becomes_its_character(none, "lt"@, after);
    } else if c == '>' {
        names_hold_no_mark("gt"@);
        assert(none + seq!['&'] + "gt"@ + seq![';'] + after =~= escape(c) + after);
        an_entity_becomes_its_character(none, "gt"@, after);
    } else if c == '"' {
        names_hold_no_mark("quot"@);
        assert(none + seq!['&'] + "quot"@ + seq![';'] + after =~= escape(c) + after);
        an_entity_becomes_its_character(none, "quot"@, after);
    } else if c == '\'' {
        names_hold_no_mark("apos"@);
        assert(none + seq!['&'] + "apos"@ + seq![';'] + after =~= escape(c) + after);
        an_entity_becomes_its_character(none, "apos"@, after);
    } else {
        decoding_passes_over(seq![c], after, 0);
        assert(seq![c].subrange(0, 1) =~= seq![c]);
    }
    assert(none + seq![c] + spec_decode_entities(after) =~= seq![c] + spec_decode_entities(after));
}

proof fn names_hold_no_mark(e: Seq<char>)
    requires
        e == "amp"@ || e == "lt"@ || e == "gt"@ || e == "quot"@ || e == "apos"@,
    ensures
        e.len() < 10,
        e == "amp"@ ==> e =~= seq!['a', 'm', 'p'],
        e == "lt"@ ==> e =~= seq!['l', 't'],
        e == "gt"@ ==> e =~= seq!['g', 't'],
        e == "quot"@ ==> e =~= seq!['q', 'u', 'o', 't'],
        e == "apos"@ ==> e =~= seq!['a', 'p', 'o', 's'],
        forall|j: int| 0 <= j < e.len() ==> #[trigger] e[j] != ';',
{
    reveal_strlit("amp");
    reveal_strlit("lt");
    reveal_strlit("gt");
    reveal_strlit("quot");
    reveal_strlit("apos");
}

/// Any text that is escaped is read back as it was.
pub proof fn escaped_text_is_read_back(s: Seq<char>)
    ensures
        spec_decode_entities(escape_all(s)) == s,
    decreases s.len(),
{
    if s.len() > 0 {
        escaped_text_is_read_back(s.drop_first());
        an_escape_is_read(s[0], escape_all(s.drop_first()));
        assert(seq![s[0]] + s.drop_first() =~= s);
    }
}

/// The named entities stand for the characters that Unicode has under their numbers; a
/// space that does not break is a space.
pub proof fn named_entities_are_their_characters()
    ensures
        spec_named_entity("amp"@) matches Some(c) && c as u32 == 38,
        spec_named_entity("lt"@) matches Some(c) && c as u32 == 60,
        spec_named_entity("gt"@) matches Some(c) && c as u32 == 62,
        spec_named_entity("quot"@) matches Some(c) && c as u32 == 34,
        spec_named_entity("apos"@) matches Some(c) && c as u32 == 39,
        spec_named_entity("nbsp"@) matches Some(c) && c as u32 == 32,
        spec_named_entity("ndash"@) matches Some(c) && c as u32 == 8211,
        spec_named_entity("mdash"@) matches Some(c) && c as u32 == 8212,
        spec_named_entity("lsquo"@) matches Some(c) && c as u32 == 8216,
        spec_named_entity("rsquo"@) matches Some(c) && c as u32 == 8217,
        spec_named_entity("ldquo"@) matches Some(c) && c as u32 == 8220,
        spec_named_entity("rdquo"@) matches Some(c) && c as u32 == 8221,
        spec_named_entity("hellip"@) matches Some(c) && c as u32 == 8230,
{
    reveal_strlit("amp");
    reveal_strlit("lt");
    reveal_strlit("gt");
    reveal_strlit("quot");
    reveal_strlit("apos");
    reveal_strlit("nbsp");
    reveal_strlit("mdash");
    reveal_strlit("ndash");
    reveal_strlit("hellip");
    reveal_strlit("lsquo");
    reveal_strlit("rsquo");
    reveal_strlit("ldquo");
    reveal_strlit("rdquo");
    assert("amp"@.len() == 3 && "amp"@[0] == 'a' && "amp"@[1] == 'm');
    assert("lt"@.len() == 2 && "lt"@[0] == 'l' && "lt"@[1] == 't');
    assert("gt"@.len() == 2 && "gt"@[0] == 'g' && "gt"@[1] == 't');
    assert("quot"@.len() == 4 && "quot"@[0] == 'q' && "quot"@[1] == 'u');
    assert("apos"@.len() == 4 && "apos"@[0] == 'a' && "apos"@[1] == 'p');
    assert("nbsp"@.len() == 4 && "nbsp"@[0] == 'n' && "nbsp"@[1] == 'b');
    assert("mdash"@.len() == 5 && "mdash"@[0] == 'm' && "mdash"@[1] == 'd');
    assert("ndash"@.len() == 5 && "ndash"@[0] == 'n' && "ndash"@[1] == 'd');
    assert("hellip"@.len() == 6 && "hellip"@[0] == 'h' && "hellip"@[1] == 'e');
    assert("lsquo"@.len() == 5 && "lsquo"@[0] == 'l' && "lsquo"@[1] == 's');
    assert("rsquo"@.len() == 5 && "rsquo"@[0] == 'r' && "rsquo"@[1] == 's');
    assert("ldquo"@.len() == 5 && "ldquo"@[0] == 'l' && "ldquo"@[1] == 'd');
    assert("rdquo"@.len() == 5 && "rdquo"@[0] == 'r' && "rdquo"@[1] == 'd');
}

/// A number names the character of that code point, whether in decimal or in hexadecimal
/// digits, where there is such a character and it is no control character; other numbers
/// name none.
pub proof fn numbers_name_their_characters(n: nat, hex: Seq<char>, x: char)
    requires
        all_digits(hex, 16),
        digits_value(hex, 16) == n,
        x == 'x' || x == 'X',
    ensures
        spec_numeric_entity(seq!['#'] + spec_decimal(n)) == spec_numeric_entity(
            seq!['#', x] + hex,
        ),
        spec_numeric_entity(seq!['#'] + spec_decimal(n)) matches Some(c) ==> c as u32 == n,
        spec_numeric_entity(seq!['#'] + spec_decimal(n)) is Some <==> (n == 9 || n == 10 || n == 13
            || 32 <= n < 127 || 160 <= n < 0xd800 || 0xe000 <= n < 0x110000),
{
    let d = seq!['#'] + spec_decimal(n);
    let h = seq!['#', x] + hex;
    decimal_reads_back(n);
    assert(d.subrange(1, d.len() as int) =~= spec_decimal(n));
    assert(h.subrange(2, h.len() as int) =~= hex);
    assert(spec_digit(spec_decimal(n)[0]) is Some && spec_digit(spec_decimal(n)[0])->0 < 10);
    assert(d[1] == spec_decimal(n)[0]);
    assert(entity_number(d) == Some(n as int));
    assert(entity_number(h) == Some(n as int));
    if n < 0xd800 || 0xe000 <= n < 0x110000 {
        assert((n as u32 as char) as u32 == n);
    }
}

// ---------------------------------------------------------------------------
// Tags
// ---------------------------------------------------------------------------

proof fn char_stands_first(s: Seq<char>, c: char, i: int, p: int)
    requires
        0 <= i <= p < s.len(),
        s[p] == c,
        forall|j: int| i <= j < p ==> #[trigger] s[j] != c,
    ensures
        spec_find_char(s, c, i) == Some(p),
    decreases p - i,
{
    if i < p {
        char_stands_first(s, c, i + 1, p);
    }
}

proof fn find_shifts(pre: Seq<char>, t: Seq<char>, c: char, i: int)
    requires
        0 <= i <= t.len(),
    ensures
        spec_find_char(pre + t, c, pre.len() + i) == match spec_find_char(t, c, i) {
            Some(p) => Some(pre.len() + p),
            None => None,
        },
        spec_find_char(t, c, i) matches Some(p) ==> i <= p < t.len(),
    decreases t.len() - i,
{
    if i < t.len() {
        assert((pre + t)[pre.len() + i] == t[i]);
        if t[i] != c {
            find_shifts(pre, t, c, i + 1);
        }
    }
}

proof fn stripping_shifts(pre: Seq<char>, t: Seq<char>, i: int)
    requires
        0 <= i <= t.len(),
    ensures
        strip_from(pre + t, pre.len() + i) == strip_from(t, i),
    decreases t.len() - i,
{
    let s = pre + t;
    let k = pre.len() as int;
    find_shifts(pre, t, '<', i);
    assert(s.subrange(k + i, s.len() as int) =~= t.subrange(i, t.len() as int));
    if let Some(open) = spec_find_char(t, '<', i) {
        find_shifts(pre, t, '>', open);
        if let Some(close) = spec_find_char(t, '>', open) {
            if open < close {
                assert(s.subrange(k + i, k + open) =~= t.subrange(i, open));
                assert(s.subrange(k + open + 1, k + close) =~= t.subrange(open + 1, close));
                assert(s.subrange(k + open, k + close + 1) =~= t.subrange(open, close + 1));
                stripping_shifts(pre, t, close + 1);
            }
        }
    }
}

/// A tag that styles words is taken out, one that breaks them becomes a space, and what
/// only looks like a tag is kept; so are the words before it, and what follows is read on
/// its own.
pub proof fn a_tag_is_taken_out(before: Seq<char>, tag: Seq<char>, after: Seq<char>)
    requires
        !before.contains('<'),
        !tag.contains('>'),
    ensures
        spec_strip_tags(before + seq!['<'] + tag + seq!['>'] + after) == before + (
        match spec_tag_kind(tag) {
            TagKind::Inline => seq![],
            TagKind::Block => seq![' '],
            TagKind::Text => seq!['<'] + tag + seq!['>'],
        }) + spec_strip_tags(after),
{
    let pre = before + seq!['<'] + tag + seq!['>'];
    let s = pre + after;
    let open = before.len() as int;
    let close = open + 1 + tag.len();
    assert forall|j: int| 0 <= j < open implies #[trigger] s[j] != '<' by {
        assert(s[j] == before[j]);
        assert(before.contains(before[j]));
    }
    char_stands_first(s, '<', 0, open);
    assert forall|j: int| open <= j < close implies #[trigger] s[j] != '>' by {
        if j > open {
            assert(s[j] == tag[j - open - 1]);
            assert(tag.contains(tag[j - open - 1]));
        }
    }
    char_stands_first(s, '>', open, close);
    assert(s.subrange(0, open) =~= before);
    assert(s.subrange(open + 1, close) =~= tag);
    assert(s.subrange(open, close + 1) =~= seq!['<'] + tag + seq!['>']);
    stripping_shifts(pre, after, 0);
}

/// Whether a text is the name of a tag.
pub open spec fn is_tag_name(name: Seq<char>) -> bool {
    &&& name.len() > 0
    &&& name[0] != '!' && name[0] != '?'
    &&& forall|i: int|
        0 <= i < name.len() ==> #[trigger] name[i] != '/' && !spec_is_space(name[i])
}

proof fn tag_name_ends(s: Seq<char>, i: int, e: int)
    requires
        0 <= i <= e <= s.len(),
        e < s.len() ==> s[e] == '/' || spec_is_space(s[e]),
        forall|j: int| i <= j < e ==> #[trigger] s[j] != '/' && !spec_is_space(s[j]),
    ensures
        tag_name_end(s, i) == e,
    decreases e - i,
{
    if i < e {
        tag_name_ends(s, i + 1, e);
    }
}

/// A tag is of one kind whether it opens or closes, whatever its attributes and in any
/// case of its letters: its name alone decides.
pub proof fn the_name_alone_decides(name: Seq<char>, attrs: Seq<char>)
    requires
        is_tag_name(name),
        attrs.len() > 0 ==> attrs[0] == '/' || spec_is_space(attrs[0]),
    ensures
        spec_tag_kind(name + attrs) == spec_tag_kind(name),
        spec_tag_kind(seq!['/'] + name) == spec_tag_kind(name),
        spec_tag_kind(spec_lower_all(name)) == spec_tag_kind(name),
        tag_name(name) == spec_lower_all(name),
{
    let n = name.len() as int;
    let a = name + attrs;
    assert forall|j: int| 0 <= j < n implies #[trigger] a[j] != '/' && !spec_is_space(a[j]) by {
        assert(a[j] == name[j]);
    }
    assert(name[0] != '/');
    assert(a[0] == name[0]);
    assert(after_slashes(a, 0) == 0 && after_slashes(name, 0) == 0);
    tag_name_ends(a, 0, n);
    tag_name_ends(name, 0, n);
    assert(a.subrange(0, n) =~= name);
    assert(name.subrange(0, n) =~= name);
    let c = seq!['/'] + name;
    assert(c[1] == name[0]);
    assert(after_slashes(c, 1) == 1);
    assert(after_slashes(c, 0) == 1);
    assert forall|j: int| 1 <= j < n + 1 implies #[trigger] c[j] != '/' && !spec_is_space(c[j]) by {
        assert(c[j] == name[j - 1]);
    }
    tag_name_ends(c, 1, n + 1);
    assert(c.subrange(1, n + 1) =~= name);
    let low = spec_lower_all(name);
    assert forall|j: int| 0 <= j < n implies #[trigger] low[j] != '/' && !spec_is_space(low[j]) by {
        assert(low[j] == spec_lower(name[j]));
        assert(name[j] != '/' && !spec_is_space(name[j]));
    }
    assert(low[0] == spec_lower(name[0]));
    assert(after_slashes(low, 0) == 0);
    tag_name_ends(low, 0, n);
    assert(low.subrange(0, n) =~= low);
    assert(spec_lower_all(low) =~= low);
}

} // verus!
