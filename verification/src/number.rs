//! Whole numbers in text: reading them as `str::parse` does and writing them
//! in decimal.
use vstd::prelude::*;
use vstd::slice::slice_subrange;

verus! {

/// What a character counts as a digit, in bases up to sixteen.
pub open spec fn spec_digit(c: char) -> Option<int> {
    let n = c as u32;
    if 0x30 <= n <= 0x39 {
        Some(n - 0x30)
    } else if 0x61 <= n <= 0x66 {
        Some(n - 0x61 + 10)
    } else if 0x41 <= n <= 0x46 {
        Some(n - 0x41 + 10)
    } else {
        None
    }
}

/// Whether a character is a digit in `base`.
pub open spec fn is_digit_in(c: char, base: int) -> bool {
    spec_digit(c) matches Some(d) && d < base
}

/// Whether a text is one or more digits in `base`.
pub open spec fn all_digits(s: Seq<char>, base: int) -> bool {
    s.len() > 0 && forall|i: int| 0 <= i < s.len() ==> is_digit_in(#[trigger] s[i], base)
}

/// What a run of digits counts to.
pub open spec fn digits_value(s: Seq<char>, base: int) -> int
    decreases s.len(),
{
    if s.len() == 0 {
        0
    } else {
        digits_value(s.drop_last(), base) * base + spec_digit(s.last()).unwrap_or(0)
    }
}

/// A run of digits counts to at least what its beginning counts to.
pub proof fn digits_value_grows(s: Seq<char>, base: int, n: int)
    requires
        1 <= base,
        0 <= n <= s.len(),
        forall|i: int| 0 <= i < s.len() ==> is_digit_in(#[trigger] s[i], base),
    ensures
        0 <= digits_value(s.take(n), base) <= digits_value(s, base),
    decreases s.len(),
{
    if s.len() == 0 {
        assert(s.take(n) =~= s);
    } else {
        let t = s.drop_last();
        assert forall|i: int| 0 <= i < t.len() implies is_digit_in(#[trigger] t[i], base) by {
            assert(t[i] == s[i]);
        }
        assert(is_digit_in(s[s.len() - 1], base));
        digits_value_grows(t, base, 0);
        assert(t.take(0) =~= Seq::<char>::empty());
        let v = digits_value(t, base);
        assert(v <= v * base) by (nonlinear_arith)
            requires
                0 <= v,
                1 <= base,
        ;
        if n == s.len() {
            assert(s.take(n) =~= s);
        } else {
            digits_value_grows(t, base, n);
            assert(t.take(n) =~= s.take(n));
        }
    }
}

/// The value of one digit, in bases up to sixteen.
pub fn digit(c: char) -> (r: Option<u32>)
    ensures
        r matches Some(d) ==> spec_digit(c) == Some(d as int),
        r is None ==> spec_digit(c) is None,
{
    let n: u32 = c as u32;
    if 0x30 <= n && n <= 0x39 {
        Some(n - 0x30)
    } else if 0x61 <= n && n <= 0x66 {
        Some(n - 0x61 + 10)
    } else if 0x41 <= n && n <= 0x46 {
        Some(n - 0x41 + 10)
    } else {
        None
    }
}

/// The value of a run of digits, if it is one and is at most `most`.
pub fn digits(s: &[char], base: u32, most: u128) -> (r: Option<u128>)
    requires
        2 <= base <= 16,
        most <= 0x8000_0000_0000_0000_0000_0000_0000,
    ensures
        match r {
            Some(v) => all_digits(s@, base as int) && v == digits_value(s@, base as int) && v <= most,
            None => !(all_digits(s@, base as int) && digits_value(s@, base as int) <= most),
        },
{
    if s.len() == 0 {
        return None;
    }
    let mut value: u128 = 0;
    let mut i: usize = 0;
    while i < s.len()
        invariant
            i <= s.len(),
            2 <= base <= 16,
            value <= most <= 0x8000_0000_0000_0000_0000_0000_0000,
            forall|j: int| 0 <= j < i ==> is_digit_in(#[trigger] s@[j], base as int),
            value == digits_value(s@.take(i as int), base as int),
        decreases s.len() - i,
    {
        let d: u32 = match digit(s[i]) {
            Some(d) => d,
            None => {
                assert(!is_digit_in(s@[i as int], base as int));
                return None;
            },
        };
        if d >= base {
            assert(!is_digit_in(s@[i as int], base as int));
            return None;
        }
        assert(0 <= value * base <= 0x8_0000_0000_0000_0000_0000_0000_0000) by (nonlinear_arith)
            requires
                0 <= value <= 0x8000_0000_0000_0000_0000_0000_0000,
                2 <= base <= 16,
        ;
        let next: u128 = value * (base as u128) + (d as u128);
        proof {
            let t = s@.take(i + 1);
            assert(t.drop_last() =~= s@.take(i as int));
            assert(digits_value(t, base as int) == next);
        }
        if next > most {
            proof {
                if all_digits(s@, base as int) {
                    digits_value_grows(s@, base as int, i + 1);
                }
            }
            return None;
        }
        value = next;
        i = i + 1;
    }
    assert(s@.take(i as int) =~= s@);
    Some(value)
}

/// A sign, if there is one, and the rest.
pub open spec fn spec_sign(s: Seq<char>) -> (bool, Seq<char>) {
    if s.len() > 0 && s[0] == '-' {
        (true, s.subrange(1, s.len() as int))
    } else if s.len() > 0 && s[0] == '+' {
        (false, s.subrange(1, s.len() as int))
    } else {
        (false, s)
    }
}

/// The number that a text with an optional sign writes in decimal.
pub open spec fn spec_parse(s: Seq<char>) -> Option<int> {
    let (negative, body) = spec_sign(s);
    if !all_digits(body, 10) {
        None
    } else if negative {
        Some(-digits_value(body, 10))
    } else {
        Some(digits_value(body, 10))
    }
}

pub open spec fn spec_parse_i64(s: Seq<char>) -> Option<i64> {
    match spec_parse(s) {
        Some(v) if i64::MIN <= v <= i64::MAX => Some(v as i64),
        _ => None,
    }
}

/// A signed number, as `str::parse::<i64>` reads it.
pub fn parse_i64(s: &[char]) -> (r: Option<i64>)
    ensures
        r == spec_parse_i64(s@),
{
    let mut negative: bool = false;
    let mut body: &[char] = s;
    if s.len() > 0 && s[0] == '-' {
        negative = true;
        body = slice_subrange(s, 1, s.len());
    } else if s.len() > 0 && s[0] == '+' {
        body = slice_subrange(s, 1, s.len());
    }
    proof {
        if all_digits(body@, 10) {
            digits_value_grows(body@, 10, 0);
            assert(body@.take(0) =~= Seq::<char>::empty());
        }
    }
    let most: u128 = if negative {
        0x8000_0000_0000_0000
    } else {
        0x7fff_ffff_ffff_ffff
    };
    match digits(body, 10, most) {
        Some(v) => if negative {
            Some((0 - (v as i128)) as i64)
        } else {
            Some(v as i64)
        },
        None => None,
    }
}

/// The digit that a value under ten is written as.
pub open spec fn spec_digit_char(d: int) -> char {
    ((d + 0x30) as u8) as char
}

/// A number in decimal.
pub open spec fn spec_decimal(n: nat) -> Seq<char>
    decreases n,
{
    if n < 10 {
        seq![spec_digit_char(n as int)]
    } else {
        spec_decimal(n / 10).push(spec_digit_char((n % 10) as int))
    }
}

/// A signed number in decimal.
pub open spec fn spec_signed_decimal(n: int) -> Seq<char> {
    if n < 0 {
        seq!['-'] + spec_decimal((-n) as nat)
    } else {
        spec_decimal(n as nat)
    }
}

/// A number in decimal.
pub fn decimal(n: u64) -> (r: Vec<char>)
    ensures
        r@ == spec_decimal(n as nat),
    decreases n,
{
    if n < 10 {
        let mut r: Vec<char> = Vec::new();
        r.push(((n as u8) + 0x30) as char);
        assert(r@ =~= spec_decimal(n as nat));
        r
    } else {
        let mut r = decimal(n / 10);
        let d: u8 = (n % 10) as u8;
        r.push((d + 0x30) as char);
        r
    }
}

/// A signed number in decimal.
pub fn signed_decimal(n: i64) -> (r: Vec<char>)
    ensures
        r@ == spec_signed_decimal(n as int),
{
    if n < 0 {
        let mut r: Vec<char> = Vec::new();
        r.push('-');
        let size: u64 = (0 - (n as i128)) as u64;
        let mut tail = decimal(size);
        r.append(&mut tail);
        assert(r@ =~= spec_signed_decimal(n as int));
        r
    } else {
        decimal(n as u64)
    }
}

/// What is written in decimal reads back as the same number.
pub proof fn decimal_reads_back(n: nat)
    ensures
        all_digits(spec_decimal(n), 10),
        digits_value(spec_decimal(n), 10) == n,
    decreases n,
{
    let s = spec_decimal(n);
    if n < 10 {
        assert(s.drop_last() =~= Seq::<char>::empty());
        assert(digits_value(s.drop_last(), 10) == 0);
    } else {
        decimal_reads_back(n / 10);
        let t = spec_decimal(n / 10);
        assert(s.drop_last() =~= t);
        assert forall|i: int| 0 <= i < s.len() implies is_digit_in(#[trigger] s[i], 10) by {
            if i < t.len() {
                assert(s[i] == t[i]);
            }
        }
    }
}

/// The number that an unsigned `str::parse` reads: digits, with a plus sign before
/// them or none.
pub open spec fn spec_parse_unsigned(s: Seq<char>, most: int) -> Option<int> {
    let body = if s.len() > 1 && s[0] == '+' {
        s.skip(1)
    } else {
        s
    };
    if all_digits(body, 10) && digits_value(body, 10) <= most {
        Some(digits_value(body, 10))
    } else {
        None
    }
}

/// The number that an unsigned `str::parse` reads, if it is at most `most`.
pub fn parse_unsigned(s: &[char], most: u64) -> (r: Option<u64>)
    ensures
        match r {
            Some(n) => spec_parse_unsigned(s@, most as int) == Some(n as int) && n <= most,
            None => spec_parse_unsigned(s@, most as int) is None,
        },
{
    let body = if s.len() > 1 && s[0] == '+' {
        let rest = slice_subrange(s, 1, s.len());
        assert(rest@ =~= s@.skip(1));
        rest
    } else {
        s
    };
    match digits(body, 10, most as u128) {
        Some(v) => Some(v as u64),
        None => None,
    }
}

/// The digits of a base count up from zero, the letters from ten on in either case.
pub proof fn digits_count_up(c: char, d: char)
    requires
        d as u32 == c as u32 + 1,
    ensures
        spec_digit('0') == Some(0int) && spec_digit('a') == Some(10int) && spec_digit('A') == Some(
            10int,
        ) && spec_digit('f') == Some(15int) && spec_digit('g') is None,
        '0' <= c < '9' || 'a' <= c < 'f' || 'A' <= c < 'F' ==> spec_digit(d)->0 == spec_digit(c)->0
            + 1,
        spec_digit(c) matches Some(n) ==> 0 <= n < 16,
{
}

/// A digit behind a number makes it as many times larger as its base is, and adds itself.
pub proof fn a_further_digit_counts(s: Seq<char>, c: char, base: int)
    requires
        is_digit_in(c, base),
    ensures
        digits_value(s.push(c), base) == digits_value(s, base) * base + spec_digit(c)->0,
        digits_value(seq![c], base) == spec_digit(c)->0,
        all_digits(s, base) ==> all_digits(s.push(c), base),
{
    assert(s.push(c).drop_last() =~= s);
    assert(seq![c].drop_last() =~= Seq::empty());
    assert(digits_value(Seq::<char>::empty(), base) == 0);
    assert(digits_value(seq![c], base) == 0 * base + spec_digit(c)->0);
}

/// A number that is written is read back, whatever its sign; a plus before it is no matter.
pub proof fn a_written_number_is_read(n: i64)
    ensures
        spec_parse_i64(spec_signed_decimal(n as int)) == Some(n),
        n >= 0 ==> spec_parse_i64(seq!['+'] + spec_signed_decimal(n as int)) == Some(n),
        n >= 0 ==> spec_parse_unsigned(spec_decimal(n as nat), n as int) == Some(n as int),
        n > 0 ==> spec_parse_unsigned(spec_decimal(n as nat), n - 1) is None,
{
    let size = (if n < 0 {
        -n
    } else {
        n as int
    }) as nat;
    let d = spec_decimal(size);
    decimal_reads_back(size);
    assert(is_digit_in(d[0], 10));
    assert(d[0] != '-' && d[0] != '+');
    if n < 0 {
        let s = seq!['-'] + d;
        assert(s.subrange(1, s.len() as int) =~= d);
    } else {
        let s = seq!['+'] + d;
        assert(s.subrange(1, s.len() as int) =~= d);
    }
}

} // verus!
