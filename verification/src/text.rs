//! Text as sequences of characters: searching, trimming, splitting, ASCII
//! case and decimal numbers. Every function works on a slice of characters,
//! whose view is the mathematical sequence that the contracts speak of.
use vstd::prelude::*;
use vstd::slice::slice_subrange;
use vstd::string::StringExecFns;

verus! {

/// `String::push`: appends one character to the end of the string.
pub assume_specification[ String::push ](s: &mut String, c: char)
    ensures
        final(s)@ == old(s)@.push(c),
;

// ---------------------------------------------------------------------------
// Between strings and characters
// ---------------------------------------------------------------------------

/// The characters of a string.
pub fn to_chars(s: &str) -> (v: Vec<char>)
    ensures
        v@ == s@,
{
    let mut v: Vec<char> = Vec::new();
    for c in it: s.chars()
        invariant
            it.seq() == s@,
            v@ == s@.take(it.index()),
    {
        v.push(c);
        assert(v@ =~= s@.take(it.index() + 1));
    }
    assert(v@ =~= s@);
    v
}

/// The string made of some characters.
pub fn to_text(v: &[char]) -> (s: String)
    ensures
        s@ == v@,
{
    let mut s: String = String::new();
    let mut i: usize = 0;
    while i < v.len()
        invariant
            i <= v.len(),
            s@ == v@.take(i as int),
        decreases v.len() - i,
    {
        s.push(v[i]);
        i = i + 1;
        assert(s@ =~= v@.take(i as int));
    }
    assert(s@ =~= v@);
    s
}

/// Appends the characters of a slice.
pub fn push_all(out: &mut Vec<char>, v: &[char])
    ensures
        final(out)@ == old(out)@ + v@,
{
    let mut i: usize = 0;
    while i < v.len()
        invariant
            i <= v.len(),
            out@ == old(out)@ + v@.take(i as int),
        decreases v.len() - i,
    {
        out.push(v[i]);
        i = i + 1;
        assert(out@ =~= old(out)@ + v@.take(i as int));
    }
    assert(out@ =~= old(out)@ + v@);
}

/// Appends the characters of a string.
pub fn push_text(out: &mut Vec<char>, s: &str)
    ensures
        final(out)@ == old(out)@ + s@,
{
    let v = to_chars(s);
    push_all(out, v.as_slice());
}

// ---------------------------------------------------------------------------
// Equality
// ---------------------------------------------------------------------------

/// Whether two runs of characters are the same.
pub fn same(a: &[char], b: &[char]) -> (r: bool)
    ensures
        r == (a@ == b@),
{
    if a.len() != b.len() {
        return false;
    }
    let mut i: usize = 0;
    while i < a.len()
        invariant
            i <= a.len(),
            a.len() == b.len(),
            a@.take(i as int) == b@.take(i as int),
        decreases a.len() - i,
    {
        if a[i] != b[i] {
            return false;
        }
        i = i + 1;
        assert(a@.take(i as int) =~= a@.take(i - 1).push(a@[i - 1]));
        assert(b@.take(i as int) =~= b@.take(i - 1).push(b@[i - 1]));
    }
    assert(a@.take(i as int) =~= a@);
    assert(b@.take(i as int) =~= b@);
    true
}

/// Whether a run of characters spells a string.
pub fn spells(a: &[char], s: &str) -> (r: bool)
    ensures
        r == (a@ == s@),
{
    let v = to_chars(s);
    same(a, v.as_slice())
}

/// Whether two strings hold the same text.
pub fn same_text(a: &str, b: &str) -> (r: bool)
    ensures
        r == (a@ == b@),
{
    let v = to_chars(a);
    spells(v.as_slice(), b)
}

// ---------------------------------------------------------------------------
// Kinds of characters
// ---------------------------------------------------------------------------

/// The characters with the Unicode property White_Space.
pub open spec fn spec_is_space(c: char) -> bool {
    let n = c as u32;
    ||| 0x9 <= n <= 0xd
    ||| n == 0x20
    ||| n == 0x85
    ||| n == 0xa0
    ||| n == 0x1680
    ||| 0x2000 <= n <= 0x200a
    ||| n == 0x2028
    ||| n == 0x2029
    ||| n == 0x202f
    ||| n == 0x205f
    ||| n == 0x3000
}

/// Whether a character is white space.
pub fn is_space(c: char) -> (r: bool)
    ensures
        r == spec_is_space(c),
{
    let n: u32 = c as u32;
    (0x9 <= n && n <= 0xd) || n == 0x20 || n == 0x85 || n == 0xa0 || n == 0x1680 || (0x2000 <= n
        && n <= 0x200a) || n == 0x2028 || n == 0x2029 || n == 0x202f || n == 0x205f || n == 0x3000
}

/// The characters of the Unicode category Cc.
pub open spec fn spec_is_control(c: char) -> bool {
    let n = c as u32;
    n <= 0x1f || 0x7f <= n <= 0x9f
}

/// Whether a character is a control character.
pub fn is_control(c: char) -> (r: bool)
    ensures
        r == spec_is_control(c),
{
    let n: u32 = c as u32;
    n <= 0x1f || (0x7f <= n && n <= 0x9f)
}

pub open spec fn spec_is_digit(c: char) -> bool {
    0x30 <= c as u32 <= 0x39
}

/// Whether a character is an ASCII decimal digit.
pub fn is_digit(c: char) -> (r: bool)
    ensures
        r == spec_is_digit(c),
{
    let n: u32 = c as u32;
    0x30 <= n && n <= 0x39
}

pub open spec fn spec_lower(c: char) -> char {
    if 0x41 <= c as u32 <= 0x5a {
        ((c as u32 + 0x20) as u8) as char
    } else {
        c
    }
}

/// ASCII lower case of one character.
pub fn lower(c: char) -> (r: char)
    ensures
        r == spec_lower(c),
{
    let n: u32 = c as u32;
    if 0x41 <= n && n <= 0x5a {
        ((n + 0x20) as u8) as char
    } else {
        c
    }
}

pub open spec fn spec_lower_all(s: Seq<char>) -> Seq<char> {
    s.map_values(|c: char| spec_lower(c))
}

/// ASCII lower case of every character.
pub fn lower_all(s: &[char]) -> (r: Vec<char>)
    ensures
        r@ == spec_lower_all(s@),
{
    let mut r: Vec<char> = Vec::new();
    let mut i: usize = 0;
    while i < s.len()
        invariant
            i <= s.len(),
            r@ == spec_lower_all(s@).take(i as int),
        decreases s.len() - i,
    {
        r.push(lower(s[i]));
        i = i + 1;
        assert(r@ =~= spec_lower_all(s@).take(i as int));
    }
    assert(r@ =~= spec_lower_all(s@));
    r
}

/// Whether two runs of characters are equal up to ASCII case.
pub fn same_ignoring_case(a: &[char], b: &[char]) -> (r: bool)
    ensures
        r == (spec_lower_all(a@) == spec_lower_all(b@)),
{
    let x = lower_all(a);
    let y = lower_all(b);
    same(x.as_slice(), y.as_slice())
}

// ---------------------------------------------------------------------------
// Searching
// ---------------------------------------------------------------------------

/// An index as a mathematical one.
pub open spec fn at(i: Option<usize>) -> Option<int> {
    match i {
        Some(n) => Some(n as int),
        None => None,
    }
}

/// Whether `pat` stands in `s` at index `i`.
pub open spec fn occurs_at(s: Seq<char>, pat: Seq<char>, i: int) -> bool {
    0 <= i && i + pat.len() <= s.len() && s.subrange(i, i + pat.len()) == pat
}

/// The first index, `from` or later, at which `pat` stands in `s`.
pub open spec fn spec_find(s: Seq<char>, pat: Seq<char>, from: int) -> Option<int>
    decreases s.len() - from + 1,
{
    if from < 0 || from + pat.len() > s.len() {
        None
    } else if occurs_at(s, pat, from) {
        Some(from)
    } else {
        spec_find(s, pat, from + 1)
    }
}

/// `spec_find` gives the first occurrence at or after `from`, and gives
/// nothing only where there is none.
pub proof fn find_is_first(s: Seq<char>, pat: Seq<char>, from: int)
    requires
        0 <= from,
    ensures
        match spec_find(s, pat, from) {
            Some(i) => from <= i && occurs_at(s, pat, i) && forall|j: int|
                from <= j < i ==> !occurs_at(s, pat, j),
            None => forall|j: int| from <= j ==> !occurs_at(s, pat, j),
        },
    decreases s.len() - from + 1,
{
    if from + pat.len() <= s.len() && !occurs_at(s, pat, from) {
        find_is_first(s, pat, from + 1);
    }
}

/// Whether `pat` stands in `s` at `i`.
pub fn stands_at(s: &[char], pat: &[char], i: usize) -> (r: bool)
    ensures
        r == occurs_at(s@, pat@, i as int),
{
    if i > s.len() || pat.len() > s.len() - i {
        return false;
    }
    same(slice_subrange(s, i, i + pat.len()), pat)
}

/// The first index, `from` or later, at which `pat` stands in `s`.
pub fn find(s: &[char], pat: &[char], from: usize) -> (r: Option<usize>)
    ensures
        at(r) == spec_find(s@, pat@, from as int),
        r matches Some(i) ==> from <= i && occurs_at(s@, pat@, i as int),
{
    if from > s.len() {
        return None;
    }
    let mut i: usize = from;
    while pat.len() <= s.len() - i
        invariant
            from <= i <= s.len(),
            spec_find(s@, pat@, from as int) == spec_find(s@, pat@, i as int),
        decreases s.len() - i,
    {
        if stands_at(s, pat, i) {
            return Some(i);
        }
        assert(pat.len() == 0 ==> s@.subrange(i as int, i as int) =~= pat@);
        i = i + 1;
    }
    None
}

pub open spec fn spec_contains(s: Seq<char>, pat: Seq<char>) -> bool {
    spec_find(s, pat, 0) is Some
}

/// Whether `pat` stands anywhere in `s`.
pub fn contains(s: &[char], pat: &[char]) -> (r: bool)
    ensures
        r == spec_contains(s@, pat@),
{
    find(s, pat, 0).is_some()
}

/// The last index, below `upto`, at which `pat` stands in `s`.
pub open spec fn spec_rfind(s: Seq<char>, pat: Seq<char>, upto: int) -> Option<int>
    decreases upto,
{
    if upto <= 0 {
        None
    } else if occurs_at(s, pat, upto - 1) {
        Some(upto - 1)
    } else {
        spec_rfind(s, pat, upto - 1)
    }
}

/// The last index at which `pat` stands in `s`.
pub fn rfind(s: &[char], pat: &[char]) -> (r: Option<usize>)
    requires
        pat.len() > 0,
    ensures
        at(r) == spec_rfind(s@, pat@, s.len() as int),
        r matches Some(i) ==> occurs_at(s@, pat@, i as int),
{
    let mut i: usize = s.len();
    while i > 0
        invariant
            i <= s.len(),
            spec_rfind(s@, pat@, s.len() as int) == spec_rfind(s@, pat@, i as int),
        decreases i,
    {
        i = i - 1;
        if stands_at(s, pat, i) {
            return Some(i);
        }
    }
    None
}

/// The first index, `from` or later, of the character `c`.
pub open spec fn spec_find_char(s: Seq<char>, c: char, from: int) -> Option<int>
    decreases s.len() - from,
{
    if from < 0 || from >= s.len() {
        None
    } else if s[from] == c {
        Some(from)
    } else {
        spec_find_char(s, c, from + 1)
    }
}

/// The first index, `from` or later, of the character `c`.
pub fn find_char(s: &[char], c: char, from: usize) -> (r: Option<usize>)
    ensures
        at(r) == spec_find_char(s@, c, from as int),
        r matches Some(i) ==> from <= i < s.len() && s@[i as int] == c,
{
    let mut i: usize = from;
    while i < s.len()
        invariant
            from <= i,
            spec_find_char(s@, c, from as int) == spec_find_char(s@, c, i as int),
        decreases s.len() - i,
    {
        if s[i] == c {
            return Some(i);
        }
        i = i + 1;
    }
    None
}

/// The last index, below `upto`, of the character `c`.
pub open spec fn spec_rfind_char(s: Seq<char>, c: char, upto: int) -> Option<int>
    decreases upto,
{
    if upto <= 0 {
        None
    } else if s[upto - 1] == c {
        Some(upto - 1)
    } else {
        spec_rfind_char(s, c, upto - 1)
    }
}

/// The last index of the character `c`.
pub fn rfind_char(s: &[char], c: char) -> (r: Option<usize>)
    ensures
        at(r) == spec_rfind_char(s@, c, s.len() as int),
        r matches Some(i) ==> i < s.len() && s@[i as int] == c,
{
    let mut i: usize = s.len();
    while i > 0
        invariant
            i <= s.len(),
            spec_rfind_char(s@, c, s.len() as int) == spec_rfind_char(s@, c, i as int),
        decreases i,
    {
        i = i - 1;
        if s[i] == c {
            return Some(i);
        }
    }
    None
}

/// The first index, `from` or later, of white space; the length if there is
/// none.
pub open spec fn spec_space_at(s: Seq<char>, from: int) -> int
    decreases s.len() - from,
{
    if from < 0 || from >= s.len() {
        s.len() as int
    } else if spec_is_space(s[from]) {
        from
    } else {
        spec_space_at(s, from + 1)
    }
}

/// The first index, `from` or later, of white space; the length if there is
/// none.
pub fn space_at(s: &[char], from: usize) -> (r: usize)
    requires
        from <= s.len(),
    ensures
        r == spec_space_at(s@, from as int),
        from <= r <= s.len(),
{
    let mut i: usize = from;
    while i < s.len()
        invariant
            from <= i <= s.len(),
            spec_space_at(s@, from as int) == spec_space_at(s@, i as int),
        decreases s.len() - i,
    {
        if is_space(s[i]) {
            return i;
        }
        i = i + 1;
    }
    i
}

// ---------------------------------------------------------------------------
// Prefixes and suffixes
// ---------------------------------------------------------------------------

pub open spec fn spec_starts_with(s: Seq<char>, pat: Seq<char>) -> bool {
    occurs_at(s, pat, 0)
}

/// Whether `s` begins with `pat`.
pub fn starts_with(s: &[char], pat: &str) -> (r: bool)
    ensures
        r == spec_starts_with(s@, pat@),
{
    let p = to_chars(pat);
    stands_at(s, p.as_slice(), 0)
}

/// Where leading white space ends.
pub open spec fn spec_lead(s: Seq<char>, i: int) -> int
    decreases s.len() - i,
{
    if i < 0 || i >= s.len() || !spec_is_space(s[i]) {
        i
    } else {
        spec_lead(s, i + 1)
    }
}

/// Where trailing white space, below index `i`, begins.
pub open spec fn spec_trail(s: Seq<char>, i: int) -> int
    decreases i,
{
    if i <= 0 || i > s.len() || !spec_is_space(s[i - 1]) {
        i
    } else {
        spec_trail(s, i - 1)
    }
}

pub proof fn lead_bounds(s: Seq<char>, i: int)
    requires
        0 <= i <= s.len(),
    ensures
        i <= spec_lead(s, i) <= s.len(),
    decreases s.len() - i,
{
    if i < s.len() && spec_is_space(s[i]) {
        lead_bounds(s, i + 1);
    }
}

pub proof fn trail_bounds(s: Seq<char>, i: int)
    requires
        0 <= i <= s.len(),
    ensures
        0 <= spec_trail(s, i) <= i,
    decreases i,
{
    if i > 0 && spec_is_space(s[i - 1]) {
        trail_bounds(s, i - 1);
    }
}

/// Without leading white space.
pub open spec fn spec_trim_start(s: Seq<char>) -> Seq<char> {
    s.subrange(spec_lead(s, 0), s.len() as int)
}

/// Without trailing white space.
pub open spec fn spec_trim_end(s: Seq<char>) -> Seq<char> {
    s.subrange(0, spec_trail(s, s.len() as int))
}

/// Without white space on either side.
pub open spec fn spec_trim(s: Seq<char>) -> Seq<char> {
    spec_trim_end(spec_trim_start(s))
}

/// Whether no white space is on either side.
pub open spec fn is_trimmed(s: Seq<char>) -> bool {
    s.len() > 0 ==> !spec_is_space(s[0]) && !spec_is_space(s.last())
}

proof fn lead_ends(s: Seq<char>, i: int)
    requires
        0 <= i <= s.len(),
    ensures
        spec_lead(s, i) < s.len() ==> !spec_is_space(s[spec_lead(s, i)]),
    decreases s.len() - i,
{
    if i < s.len() && spec_is_space(s[i]) {
        lead_ends(s, i + 1);
    }
}

proof fn trail_begins(s: Seq<char>, i: int)
    requires
        0 <= i <= s.len(),
    ensures
        spec_trail(s, i) > 0 ==> !spec_is_space(s[spec_trail(s, i) - 1]),
    decreases i,
{
    if i > 0 && spec_is_space(s[i - 1]) {
        trail_begins(s, i - 1);
    }
}

/// What is left of a text without trailing white space: a part from its beginning that
/// does not end in white space.
pub proof fn trimmed_ends_are_bare(s: Seq<char>)
    ensures
        spec_trim_end(s).len() <= s.len(),
        spec_trim_end(s).len() > 0 ==> spec_trim_end(s)[0] == s[0] && !spec_is_space(
            spec_trim_end(s).last(),
        ),
{
    trail_bounds(s, s.len() as int);
    trail_begins(s, s.len() as int);
}

/// A trimmed text has no white space on either side, and is no longer than before.
pub proof fn trimmed_texts_are_trimmed(s: Seq<char>)
    ensures
        is_trimmed(spec_trim(s)),
        spec_trim(s).len() <= spec_trim_start(s).len() <= s.len(),
{
    lead_bounds(s, 0);
    lead_ends(s, 0);
    trimmed_ends_are_bare(spec_trim_start(s));
}

/// Without leading white space.
pub fn trim_start(s: &[char]) -> (r: &[char])
    ensures
        r@ == spec_trim_start(s@),
        r@.len() <= s@.len(),
{
    let mut i: usize = 0;
    while i < s.len() && is_space(s[i])
        invariant
            i <= s.len(),
            spec_lead(s@, 0) == spec_lead(s@, i as int),
        decreases s.len() - i,
    {
        i = i + 1;
    }
    slice_subrange(s, i, s.len())
}

/// Without trailing white space.
pub fn trim_end(s: &[char]) -> (r: &[char])
    ensures
        r@ == spec_trim_end(s@),
        r@.len() <= s@.len(),
{
    let mut i: usize = s.len();
    while i > 0 && is_space(s[i - 1])
        invariant
            i <= s.len(),
            spec_trail(s@, s@.len() as int) == spec_trail(s@, i as int),
        decreases i,
    {
        i = i - 1;
    }
    slice_subrange(s, 0, i)
}

/// Without white space on either side.
pub fn trim(s: &[char]) -> (r: &[char])
    ensures
        r@ == spec_trim(s@),
        r@.len() <= s@.len(),
{
    trim_end(trim_start(s))
}

// ---------------------------------------------------------------------------
// Splitting and joining
// ---------------------------------------------------------------------------

/// The text of a string that may be missing.
pub open spec fn text_of(s: Option<String>) -> Option<Seq<char>> {
    match s {
        Some(t) => Some(t@),
        None => None,
    }
}

/// The texts of some strings.
pub open spec fn strings(v: Seq<String>) -> Seq<Seq<char>> {
    v.map_values(|s: String| s@)
}

/// What a list of slices holds.
pub open spec fn texts(v: Seq<&[char]>) -> Seq<Seq<char>> {
    v.map_values(|x: &[char]| x@)
}

/// The parts of `s` from index `i` on that the character `c` separates.
pub open spec fn spec_split(s: Seq<char>, c: char, i: int) -> Seq<Seq<char>>
    decreases s.len() - i,
{
    match spec_find_char(s, c, i) {
        Some(n) if i <= n < s.len() => seq![s.subrange(i, n)] + spec_split(s, c, n + 1),
        _ => seq![s.subrange(i, s.len() as int)],
    }
}

/// The parts of `s` that the character `c` separates.
pub fn split<'a>(s: &'a [char], c: char) -> (r: Vec<&'a [char]>)
    ensures
        texts(r@) == spec_split(s@, c, 0),
        r.len() > 0,
{
    let mut r: Vec<&'a [char]> = Vec::new();
    let mut i: usize = 0;
    loop
        invariant
            i <= s.len(),
            texts(r@) + spec_split(s@, c, i as int) == spec_split(s@, c, 0),
        decreases s.len() - i,
    {
        match find_char(s, c, i) {
            Some(n) => {
                let ghost before = r@;
                r.push(slice_subrange(s, i, n));
                proof {
                    assert(texts(r@) =~= texts(before).push(s@.subrange(i as int, n as int)));
                    assert(texts(r@) + spec_split(s@, c, n + 1) =~= texts(before) + spec_split(
                        s@,
                        c,
                        i as int,
                    ));
                }
                i = n + 1;
            },
            None => {
                let ghost before = r@;
                r.push(slice_subrange(s, i, s.len()));
                proof {
                    assert(texts(r@) =~= texts(before) + spec_split(s@, c, i as int));
                }
                return r;
            },
        }
    }
}

/// The words of `s` from index `i` on, where the word that starts at `start`
/// is still being read (`start == i` between words).
pub open spec fn spec_words_from(s: Seq<char>, start: int, i: int) -> Seq<Seq<char>>
    decreases s.len() - i,
{
    if i < 0 || i >= s.len() {
        if start < i {
            seq![s.subrange(start, i)]
        } else {
            seq![]
        }
    } else if spec_is_space(s[i]) {
        (if start < i {
            seq![s.subrange(start, i)]
        } else {
            seq![]
        }) + spec_words_from(s, i + 1, i + 1)
    } else {
        spec_words_from(s, start, i + 1)
    }
}

/// The runs of characters that white space separates.
pub open spec fn spec_words(s: Seq<char>) -> Seq<Seq<char>> {
    spec_words_from(s, 0, 0)
}

/// The runs of characters that white space separates.
pub fn words<'a>(s: &'a [char]) -> (r: Vec<&'a [char]>)
    ensures
        texts(r@) == spec_words(s@),
{
    let mut r: Vec<&'a [char]> = Vec::new();
    let mut start: usize = 0;
    let mut i: usize = 0;
    while i < s.len()
        invariant
            start <= i <= s.len(),
            texts(r@) + spec_words_from(s@, start as int, i as int) == spec_words(s@),
        decreases s.len() - i,
    {
        let ghost before = r@;
        if is_space(s[i]) {
            if start < i {
                r.push(slice_subrange(s, start, i));
                proof {
                    assert(texts(r@) =~= texts(before).push(s@.subrange(start as int, i as int)));
                }
            }
            proof {
                assert(texts(r@) + spec_words_from(s@, i + 1, i + 1) =~= texts(before)
                    + spec_words_from(s@, start as int, i as int));
            }
            start = i + 1;
        }
        i = i + 1;
    }
    let ghost before = r@;
    if start < i {
        r.push(slice_subrange(s, start, i));
    }
    proof {
        assert(texts(r@) =~= texts(before) + spec_words_from(s@, start as int, i as int));
    }
    r
}

/// The parts with `sep` between them.
pub open spec fn spec_join(parts: Seq<Seq<char>>, sep: Seq<char>) -> Seq<char>
    decreases parts.len(),
{
    if parts.len() == 0 {
        seq![]
    } else if parts.len() == 1 {
        parts[0]
    } else {
        spec_join(parts.drop_last(), sep) + sep + parts.last()
    }
}

/// The parts with `sep` between them.
pub fn join(parts: &Vec<&[char]>, sep: &[char]) -> (r: Vec<char>)
    ensures
        r@ == spec_join(texts(parts@), sep@),
{
    let mut r: Vec<char> = Vec::new();
    let mut i: usize = 0;
    while i < parts.len()
        invariant
            i <= parts.len(),
            r@ == spec_join(texts(parts@).take(i as int), sep@),
        decreases parts.len() - i,
    {
        let ghost all = texts(parts@);
        if i > 0 {
            push_all(&mut r, sep);
        }
        push_all(&mut r, parts[i]);
        proof {
            assert(all.take(i + 1).drop_last() =~= all.take(i as int));
            assert(all.take(i + 1).last() == parts@[i as int]@);
            assert(r@ =~= spec_join(all.take(i + 1), sep@));
        }
        i = i + 1;
    }
    assert(texts(parts@).take(i as int) =~= texts(parts@));
    r
}

/// `s` from index `i` on with every occurrence of `pat`, taken from left to
/// right without overlap, replaced by `with`.
pub open spec fn spec_replace_from(s: Seq<char>, pat: Seq<char>, with: Seq<char>, i: int) -> Seq<char>
    decreases s.len() - i,
{
    match spec_find(s, pat, i) {
        Some(n) if 0 <= i <= n && pat.len() > 0 && n + pat.len() <= s.len() => s.subrange(i, n) + with
            + spec_replace_from(s, pat, with, n + pat.len()),
        _ => s.subrange(i, s.len() as int),
    }
}

pub open spec fn spec_replace(s: Seq<char>, pat: Seq<char>, with: Seq<char>) -> Seq<char> {
    spec_replace_from(s, pat, with, 0)
}

/// `s` with every occurrence of `pat` replaced by `with`.
pub fn replace(s: &[char], pat: &str, with: &str) -> (r: Vec<char>)
    requires
        pat@.len() > 0,
    ensures
        r@ == spec_replace(s@, pat@, with@),
{
    let p = to_chars(pat);
    let w = to_chars(with);
    let mut r: Vec<char> = Vec::new();
    let mut i: usize = 0;
    loop
        invariant
            i <= s.len(),
            p@ == pat@,
            w@ == with@,
            p.len() > 0,
            r@ + spec_replace_from(s@, pat@, with@, i as int) == spec_replace(s@, pat@, with@),
        decreases s.len() - i,
    {
        match find(s, p.as_slice(), i) {
            Some(n) => {
                let ghost before = r@;
                push_all(&mut r, slice_subrange(s, i, n));
                push_all(&mut r, w.as_slice());
                let next: usize = n + p.len();
                proof {
                    assert(r@ + spec_replace_from(s@, pat@, with@, next as int) =~= before
                        + spec_replace_from(s@, pat@, with@, i as int));
                }
                i = next;
            },
            None => {
                let ghost before = r@;
                push_all(&mut r, slice_subrange(s, i, s.len()));
                proof {
                    assert(r@ =~= before + spec_replace_from(s@, pat@, with@, i as int));
                }
                return r;
            },
        }
    }
}

proof fn find_char_finds(s: Seq<char>, c: char, from: int)
    requires
        0 <= from <= s.len(),
    ensures
        match spec_find_char(s, c, from) {
            Some(n) => from <= n < s.len() && s[n] == c && forall|j: int|
                from <= j < n ==> #[trigger] s[j] != c,
            None => forall|j: int| from <= j < s.len() ==> #[trigger] s[j] != c,
        },
    decreases s.len() - from,
{
    if from < s.len() && s[from] != c {
        find_char_finds(s, c, from + 1);
    }
}

proof fn split_of_appended(s: Seq<char>, t: Seq<char>, c: char, i: int)
    requires
        0 <= i <= s.len(),
        !t.contains(c),
    ensures
        spec_split(s + seq![c] + t, c, i) == spec_split(s, c, i).push(t),
    decreases s.len() - i,
{
    let u = s + seq![c] + t;
    let m = s.len() as int;
    find_char_finds(s, c, i);
    find_char_finds(u, c, i);
    assert(u[m] == c);
    assert forall|j: int| 0 <= j < m implies #[trigger] u[j] == s[j] by {}
    match spec_find_char(s, c, i) {
        Some(n) => {
            let k = spec_find_char(u, c, i)->0;
            assert(u[n] == c);
            assert(k == n) by {
                if k < n {
                    assert(s[k] != c);
                }
            }
            assert(u.subrange(i, n) =~= s.subrange(i, n));
            split_of_appended(s, t, c, n + 1);
            assert(spec_split(u, c, i) =~= spec_split(s, c, i).push(t));
        },
        None => {
            let k = spec_find_char(u, c, i)->0;
            assert(k == m) by {
                if k < m {
                    assert(s[k] != c);
                }
            }
            find_char_finds(u, c, m + 1);
            if let Some(n) = spec_find_char(u, c, m + 1) {
                assert(t[n - m - 1] == c);
            }
            assert(u.subrange(i, m) =~= s.subrange(i, m));
            assert(u.subrange(m + 1, u.len() as int) =~= t);
            assert(spec_split(u, c, m + 1) =~= seq![t]);
            assert(spec_split(s, c, i) =~= seq![s.subrange(i, m)]);
            assert(spec_split(u, c, i) =~= seq![u.subrange(i, m)] + seq![t]);
            assert(spec_split(u, c, i) =~= spec_split(s, c, i).push(t));
        },
    }
}

/// Parts that are joined by a character which none of them holds are what the text
/// splits into again.
pub proof fn joined_text_splits_back(parts: Seq<Seq<char>>, c: char)
    requires
        parts.len() > 0,
        forall|i: int| 0 <= i < parts.len() ==> !(#[trigger] parts[i]).contains(c),
    ensures
        spec_split(spec_join(parts, seq![c]), c, 0) == parts,
    decreases parts.len(),
{
    if parts.len() == 1 {
        let s = parts[0];
        find_char_finds(s, c, 0);
        if let Some(n) = spec_find_char(s, c, 0) {
            assert(s.contains(s[n]));
        }
        assert(s.subrange(0, s.len() as int) =~= s);
        assert(spec_split(s, c, 0) =~= parts);
    } else {
        let init = parts.drop_last();
        assert forall|i: int| 0 <= i < init.len() implies !(#[trigger] init[i]).contains(c) by {
            assert(init[i] == parts[i]);
        }
        joined_text_splits_back(init, c);
        assert(parts.last() == parts[parts.len() - 1]);
        split_of_appended(spec_join(init, seq![c]), parts.last(), c, 0);
        assert(spec_split(spec_join(parts, seq![c]), c, 0) =~= parts);
    }
}

/// No part of a text holds the character that separates the parts.
pub proof fn parts_hold_no_separator(s: Seq<char>, c: char, i: int, k: int)
    requires
        0 <= i <= s.len(),
        0 <= k < spec_split(s, c, i).len(),
    ensures
        !spec_split(s, c, i)[k].contains(c),
        forall|x: char| spec_split(s, c, i)[k].contains(x) ==> #[trigger] s.contains(x),
    decreases s.len() - i,
{
    find_char_finds(s, c, i);
    match spec_find_char(s, c, i) {
        Some(n) => {
            let first = s.subrange(i, n);
            if k == 0 {
                assert(spec_split(s, c, i)[0] == first);
                assert forall|x: char| first.contains(x) implies #[trigger] s.contains(x) && x != c by {
                    let j = first.index_of(x);
                    assert(s[i + j] == x);
                }
            } else {
                parts_hold_no_separator(s, c, n + 1, k - 1);
                assert(spec_split(s, c, i)[k] == spec_split(s, c, n + 1)[k - 1]);
            }
        },
        None => {
            let rest = s.subrange(i, s.len() as int);
            assert(spec_split(s, c, i)[k] == rest);
            assert forall|x: char| rest.contains(x) implies #[trigger] s.contains(x) && x != c by {
                let j = rest.index_of(x);
                assert(s[i + j] == x);
            }
        },
    }
}

/// A text in quotes with some of its characters escaped.
pub uninterp spec fn quoted(s: Seq<char>) -> Seq<char>;

/// Whether a character is a letter or a digit of ASCII, or one of `./_-: `.
pub open spec fn is_plain(c: char) -> bool {
    let n = c as u32;
    0x30 <= n <= 0x3a || 0x41 <= n <= 0x5a || 0x61 <= n <= 0x7a || c == '.' || c == '/' || c == '_'
        || c == '-' || c == ' '
}

/// Whether a text has nothing to escape.
pub open spec fn all_plain(s: Seq<char>) -> bool {
    forall|i: int| 0 <= i < s.len() ==> is_plain(#[trigger] s[i])
}

/// A text in quotes.
pub open spec fn in_quotes(s: Seq<char>) -> Seq<char> {
    if all_plain(s) {
        seq!['"'] + s + seq!['"']
    } else {
        quoted(s)
    }
}

/// `format!("{:?}")` of a string: the text in quotes. Letters and digits of ASCII, and
/// `./_-: `, stand for themselves; how others are escaped is not spelt out.
#[verifier::external_body]
pub(crate) fn debug_text(s: &str) -> (r: String)
    ensures
        all_plain(s@) ==> r@ == seq!['"'] + s@ + seq!['"'],
        !all_plain(s@) ==> r@ == quoted(s@),
{
    format!("{s:?}")
}

/// Whether a text is a word: something, and no white space in it.
pub open spec fn is_word(s: Seq<char>) -> bool {
    s.len() > 0 && forall|i: int| 0 <= i < s.len() ==> !spec_is_space(#[trigger] s[i])
}

/// What white space separates are words.
pub proof fn words_are_words(s: Seq<char>, start: int, i: int)
    requires
        0 <= start <= i <= s.len(),
        forall|k: int| start <= k < i ==> !spec_is_space(#[trigger] s[k]),
    ensures
        forall|k: int|
            0 <= k < spec_words_from(s, start, i).len() ==> is_word(
                #[trigger] spec_words_from(s, start, i)[k],
            ),
    decreases s.len() - i,
{
    let all = spec_words_from(s, start, i);
    if start < i {
        assert(is_word(s.subrange(start, i)));
    }
    if i < s.len() {
        if spec_is_space(s[i]) {
            words_are_words(s, i + 1, i + 1);
            let rest = spec_words_from(s, i + 1, i + 1);
            assert forall|k: int| 0 <= k < all.len() implies is_word(#[trigger] all[k]) by {
                let first = all.len() - rest.len();
                if k >= first {
                    assert(all[k] == rest[k - first]);
                } else {
                    assert(all[k] == s.subrange(start, i));
                }
            }
        } else {
            words_are_words(s, start, i + 1);
            let same = spec_words_from(s, start, i + 1);
            assert(all == same);
            assert forall|k: int| 0 <= k < all.len() implies is_word(#[trigger] all[k]) by {
                assert(is_word(same[k]));
            }
        }
    }
}

/// Words with one space between them have none on either side.
pub proof fn joined_words_are_trimmed(words: Seq<Seq<char>>)
    requires
        forall|k: int| 0 <= k < words.len() ==> is_word(#[trigger] words[k]),
    ensures
        is_trimmed(spec_join(words, " "@)),
        words.len() > 0 ==> spec_join(words, " "@).len() > 0 && spec_join(words, " "@)[0]
            == words[0][0],
    decreases words.len(),
{
    if words.len() > 0 {
        assert(is_word(words[0]));
        assert(is_word(words[words.len() - 1]));
        if words.len() > 1 {
            let init = words.drop_last();
            assert forall|k: int| 0 <= k < init.len() implies is_word(#[trigger] init[k]) by {
                assert(init[k] == words[k]);
            }
            joined_words_are_trimmed(init);
            let all = spec_join(words, " "@);
            assert(all[0] == spec_join(init, " "@)[0]);
            assert(all.last() == words.last().last());
        }
    }
}

/// A search ends at the first match.
pub proof fn found_at(s: Seq<char>, pat: Seq<char>, from: int, p: int)
    requires
        0 <= from <= p,
        occurs_at(s, pat, p),
        forall|j: int| from <= j < p ==> !#[trigger] occurs_at(s, pat, j),
    ensures
        spec_find(s, pat, from) == Some(p),
{
    find_is_first(s, pat, from);
}

/// A search for a character ends at the first one.
pub proof fn char_found_at(s: Seq<char>, c: char, from: int, p: int)
    requires
        0 <= from <= p < s.len(),
        s[p] == c,
        forall|j: int| from <= j < p ==> #[trigger] s[j] != c,
    ensures
        spec_find_char(s, c, from) == Some(p),
    decreases p - from,
{
    if from < p {
        char_found_at(s, c, from + 1, p);
    }
}

/// A text without white space around it is kept by trimming.
pub proof fn trimming_keeps(s: Seq<char>)
    requires
        is_trimmed(s),
    ensures
        spec_trim(s) == s,
{
    assert(spec_lead(s, 0) == 0);
    assert(spec_trim_start(s) =~= s);
    assert(spec_trail(s, s.len() as int) == s.len());
    assert(spec_trim_end(s) =~= s);
}

/// Whether a text is white space only.
pub open spec fn is_blank(s: Seq<char>) -> bool {
    forall|i: int| 0 <= i < s.len() ==> spec_is_space(#[trigger] s[i])
}

proof fn lead_is(s: Seq<char>, i: int, e: int)
    requires
        0 <= i <= e <= s.len(),
        forall|j: int| i <= j < e ==> spec_is_space(#[trigger] s[j]),
        e < s.len() ==> !spec_is_space(s[e]),
    ensures
        spec_lead(s, i) == e,
    decreases e - i,
{
    if i < e {
        lead_is(s, i + 1, e);
    }
}

proof fn trail_is(s: Seq<char>, i: int, e: int)
    requires
        0 <= e <= i <= s.len(),
        forall|j: int| e <= j < i ==> spec_is_space(#[trigger] s[j]),
        e > 0 ==> !spec_is_space(s[e - 1]),
    ensures
        spec_trail(s, i) == e,
    decreases i,
{
    if i > e {
        trail_is(s, i - 1, e);
    }
}

/// Trimming takes off the white space around a text, however much there is, and nothing
/// else.
pub proof fn trimming_takes_space_off(before: Seq<char>, s: Seq<char>, after: Seq<char>)
    requires
        is_blank(before) && is_blank(after),
        s.len() > 0 && is_trimmed(s),
    ensures
        spec_trim(before + s + after) == s,
        spec_trim_start(before + s) == s,
        spec_trim_end(s + after) == s,
{
    let all = before + s + after;
    let n = before.len() as int;
    assert forall|j: int| 0 <= j < n implies spec_is_space(#[trigger] all[j]) by {
        assert(all[j] == before[j]);
    }
    assert(all[n] == s[0]);
    lead_is(all, 0, n);
    let rest = s + after;
    assert(all.subrange(n, all.len() as int) =~= rest);
    assert forall|j: int| s.len() <= j < rest.len() implies spec_is_space(#[trigger] rest[j]) by {
        assert(rest[j] == after[j - s.len()]);
    }
    assert(rest[s.len() - 1] == s.last());
    trail_is(rest, rest.len() as int, s.len() as int);
    assert(rest.subrange(0, s.len() as int) =~= s);
    let front = before + s;
    assert forall|j: int| 0 <= j < n implies spec_is_space(#[trigger] front[j]) by {
        assert(front[j] == before[j]);
    }
    assert(front[n] == s[0]);
    lead_is(front, 0, n);
    assert(front.subrange(n, front.len() as int) =~= s);
}

/// Of the characters of ASCII the blank and five controls are white space, and what shows
/// is none.
pub proof fn ascii_white_space(c: char)
    requires
        (c as u32) < 0x80,
    ensures
        spec_is_space(c) <==> c == ' ' || c == '\t' || c == '\n' || c == '\r' || c as u32 == 0x0b
            || c as u32 == 0x0c,
        spec_is_control(c) <==> c as u32 <= 31 || c as u32 == 127,
        spec_is_digit(c) <==> '0' <= c <= '9',
{
}

/// Lower case moves the capital letters of ASCII onto the small ones in their order, and
/// keeps every other character.
pub proof fn capitals_become_small(c: char)
    ensures
        'A' <= c <= 'Z' ==> 'a' <= spec_lower(c) <= 'z' && spec_lower(c) as u32 - 'a' as u32 == c as u32
            - 'A' as u32,
        !('A' <= c <= 'Z') ==> spec_lower(c) == c,
        spec_lower(spec_lower(c)) == spec_lower(c),
{
}

/// A text is replaced where it stands, and what is around it is kept: what stands before
/// the first place as it is, and what follows as if it stood alone.
pub proof fn what_is_replaced_is_exchanged(
    before: Seq<char>,
    pat: Seq<char>,
    with: Seq<char>,
    after: Seq<char>,
)
    requires
        pat.len() > 0,
        !before.contains(pat[0]),
    ensures
        spec_replace(before + pat + after, pat, with) == before + with + spec_replace(
            after,
            pat,
            with,
        ),
{
    let s = before + pat + after;
    let p = before.len() as int;
    assert(s.subrange(p, p + pat.len()) =~= pat);
    assert(occurs_at(s, pat, p));
    assert forall|j: int| 0 <= j < p implies !#[trigger] occurs_at(s, pat, j) by {
        if occurs_at(s, pat, j) {
            assert(s.subrange(j, j + pat.len())[0] == s[j]);
            assert(s[j] == before[j]);
            assert(before.contains(before[j]));
        }
    }
    found_at(s, pat, 0, p);
    assert(s.subrange(0, p) =~= before);
    assert(before + pat + after =~= (before + pat) + after);
    replacing_shifts(before + pat, after, pat, with, 0);
}

proof fn replacing_shifts(pre: Seq<char>, t: Seq<char>, pat: Seq<char>, with: Seq<char>, i: int)
    requires
        pat.len() > 0,
        0 <= i <= t.len(),
    ensures
        spec_replace_from(pre + t, pat, with, pre.len() + i) == spec_replace_from(t, pat, with, i),
    decreases t.len() - i,
{
    let s = pre + t;
    let k = pre.len() as int;
    finding_shifts(pre, t, pat, i);
    assert(s.subrange(k + i, s.len() as int) =~= t.subrange(i, t.len() as int));
    if let Some(n) = spec_find(t, pat, i) {
        assert(s.subrange(k + i, k + n) =~= t.subrange(i, n));
        replacing_shifts(pre, t, pat, with, n + pat.len());
    }
}

proof fn finding_shifts(pre: Seq<char>, t: Seq<char>, pat: Seq<char>, i: int)
    requires
        0 <= i,
    ensures
        spec_find(pre + t, pat, pre.len() + i) == match spec_find(t, pat, i) {
            Some(n) => Some(pre.len() + n),
            None => None,
        },
        spec_find(t, pat, i) matches Some(n) ==> i <= n && n + pat.len() <= t.len(),
    decreases t.len() - i + 1,
{
    let s = pre + t;
    let k = pre.len() as int;
    if i + pat.len() <= t.len() {
        assert(s.subrange(k + i, k + i + pat.len()) =~= t.subrange(i, i + pat.len()));
        if !occurs_at(t, pat, i) {
            finding_shifts(pre, t, pat, i + 1);
        }
    }
}

} // verus!
