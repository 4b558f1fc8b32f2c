//! Letter case beyond ASCII.
use crate::text::{same, spec_lower, spec_lower_all, to_chars, to_text};
use vstd::prelude::*;

verus! {

/// A text that is not all ASCII in lower case, by Unicode's mapping.
pub uninterp spec fn lowercase(s: Seq<char>) -> Seq<char>;

/// A text that is not all ASCII in upper case, by Unicode's mapping.
pub uninterp spec fn uppercase(s: Seq<char>) -> Seq<char>;

/// What a character beyond ASCII is in lower case, by Unicode's mapping.
pub uninterp spec fn char_lowercase(c: char) -> Seq<char>;

/// Whether a character beyond ASCII has Unicode's property Uppercase.
pub uninterp spec fn has_upper_case(c: char) -> bool;

/// Whether a text is ASCII.
pub open spec fn all_ascii(s: Seq<char>) -> bool {
    forall|i: int| 0 <= i < s.len() ==> (#[trigger] s[i] as u32) < 0x80
}

/// ASCII upper case of one character.
pub open spec fn spec_upper(c: char) -> char {
    if 0x61 <= c as u32 <= 0x7a {
        ((c as u32 - 0x20) as u8) as char
    } else {
        c
    }
}

pub open spec fn spec_upper_all(s: Seq<char>) -> Seq<char> {
    s.map_values(|c: char| spec_upper(c))
}

/// A text in lower case.
pub open spec fn in_lower_case(s: Seq<char>) -> Seq<char> {
    if all_ascii(s) {
        spec_lower_all(s)
    } else {
        lowercase(s)
    }
}

/// A text in upper case.
pub open spec fn in_upper_case(s: Seq<char>) -> Seq<char> {
    if all_ascii(s) {
        spec_upper_all(s)
    } else {
        uppercase(s)
    }
}

/// What a character is in lower case.
pub open spec fn char_in_lower_case(c: char) -> Seq<char> {
    if (c as u32) < 0x80 {
        seq![spec_lower(c)]
    } else {
        char_lowercase(c)
    }
}

/// Whether a character is an upper case letter.
pub open spec fn is_upper_case(c: char) -> bool {
    if (c as u32) < 0x80 {
        0x41 <= c as u32 <= 0x5a
    } else {
        has_upper_case(c)
    }
}

/// `str::to_lowercase`: the text in lower case. A text that is ASCII has its
/// ASCII letters lowered and nothing else changed; what others become is not spelt
/// out.
#[verifier::external_body]
fn std_to_lowercase(s: &str) -> (r: String)
    ensures
        all_ascii(s@) ==> r@ == spec_lower_all(s@),
        !all_ascii(s@) ==> r@ == lowercase(s@),
{
    s.to_lowercase()
}

/// `str::to_uppercase`: the text in upper case. A text that is ASCII has its
/// ASCII letters raised and nothing else changed; what others become is not spelt
/// out.
#[verifier::external_body]
fn std_to_uppercase(s: &str) -> (r: String)
    ensures
        all_ascii(s@) ==> r@ == spec_upper_all(s@),
        !all_ascii(s@) ==> r@ == uppercase(s@),
{
    s.to_uppercase()
}

/// `char::to_lowercase`: the characters that a character is in lower case. One of
/// ASCII becomes one of ASCII.
#[verifier::external_body]
fn std_char_to_lowercase(c: char) -> (r: Vec<char>)
    ensures
        (c as u32) < 0x80 ==> r@ == seq![spec_lower(c)],
        (c as u32) >= 0x80 ==> r@ == char_lowercase(c),
{
    c.to_lowercase().collect()
}

/// `char::is_uppercase`: whether the character has the property Uppercase. Of
/// ASCII the letters from `A` to `Z` have it.
#[verifier::external_body]
fn std_is_uppercase(c: char) -> (r: bool)
    ensures
        (c as u32) < 0x80 ==> r == (0x41 <= c as u32 <= 0x5a),
        (c as u32) >= 0x80 ==> r == has_upper_case(c),
{
    c.is_uppercase()
}

/// A text in lower case.
pub fn to_lowercase(s: &[char]) -> (r: Vec<char>)
    ensures
        r@ == in_lower_case(s@),
{
    let t = to_text(s);
    let l = std_to_lowercase(t.as_str());
    to_chars(l.as_str())
}

/// A text in upper case.
pub fn to_uppercase(s: &[char]) -> (r: Vec<char>)
    ensures
        r@ == in_upper_case(s@),
{
    let t = to_text(s);
    let u = std_to_uppercase(t.as_str());
    to_chars(u.as_str())
}

/// Whether a character is an upper case letter.
pub fn is_uppercase(c: char) -> (r: bool)
    ensures
        r == is_upper_case(c),
{
    std_is_uppercase(c)
}

/// Whether two characters are the same in lower case.
pub fn same_lowercase(a: char, b: char) -> (r: bool)
    ensures
        r == (char_in_lower_case(a) == char_in_lower_case(b)),
{
    let x = std_char_to_lowercase(a);
    let y = std_char_to_lowercase(b);
    same(x.as_slice(), y.as_slice())
}

/// Of the letters of ASCII each case is the other's turned back, and other characters of it
/// have none.
pub proof fn cases_turn_back(c: char)
    requires
        (c as u32) < 0x80,
    ensures
        'a' <= c <= 'z' ==> 'A' <= spec_upper(c) <= 'Z' && spec_lower(spec_upper(c)) == c,
        'A' <= c <= 'Z' ==> spec_upper(spec_lower(c)) == c,
        !('a' <= c <= 'z') ==> spec_upper(c) == c,
        is_upper_case(c) <==> 'A' <= c <= 'Z',
        char_in_lower_case(c) == seq![spec_lower(c)],
{
}

/// A text of ASCII keeps its length in either case, and each of its characters changes by
/// itself.
pub proof fn cases_change_character_by_character(s: Seq<char>, i: int)
    requires
        all_ascii(s),
        0 <= i < s.len(),
    ensures
        in_lower_case(s).len() == s.len() && in_upper_case(s).len() == s.len(),
        in_lower_case(s)[i] == spec_lower(s[i]),
        in_upper_case(s)[i] == spec_upper(s[i]),
{
}

} // verus!
