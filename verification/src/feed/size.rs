//! The sizes that images carry: a number of pixels as `str::parse::<f64>` reads
//! it, compared with fifty.
use crate::number::{
    all_digits, decimal_reads_back, digits, digits_value, digits_value_grows, is_digit_in,
    spec_decimal, spec_sign,
};
use crate::text::{
    at, find_char, is_digit, lower_all, spec_find_char, spec_is_digit, spec_lower_all, spec_trim,
    spells, trim, trimming_keeps,
};
use vstd::prelude::*;
use vstd::slice::slice_subrange;

verus! {

/// Without `px` at the end, however often it stands there.
pub open spec fn without_px(s: Seq<char>) -> Seq<char>
    decreases s.len(),
{
    let n = s.len() as int;
    if n >= 2 && s[n - 2] == 'p' && s[n - 1] == 'x' {
        without_px(s.subrange(0, n - 2))
    } else {
        s
    }
}

fn strip_px<'a>(s: &'a [char]) -> (r: &'a [char])
    ensures
        r@ == without_px(s@),
{
    let mut r: &'a [char] = s;
    while r.len() >= 2 && r[r.len() - 2] == 'p' && r[r.len() - 1] == 'x'
        invariant
            without_px(r@) == without_px(s@),
        decreases r.len(),
    {
        r = slice_subrange(r, 0, r.len() - 2);
    }
    r
}

/// Whether a text holds digits only; it may be empty.
pub open spec fn just_digits(s: Seq<char>) -> bool {
    forall|i: int| 0 <= i < s.len() ==> spec_is_digit(#[trigger] s[i])
}

fn are_digits(s: &[char]) -> (r: bool)
    ensures
        r == just_digits(s@),
{
    let mut i: usize = 0;
    while i < s.len()
        invariant
            i <= s.len(),
            forall|j: int| 0 <= j < i ==> spec_is_digit(#[trigger] s@[j]),
        decreases s.len() - i,
    {
        if !is_digit(s[i]) {
            return false;
        }
        i = i + 1;
    }
    true
}

/// Where the exponent's mark is, the length if there is none.
pub open spec fn exponent_mark(s: Seq<char>, i: int) -> int
    decreases s.len() - i,
{
    if i < 0 || i >= s.len() {
        s.len() as int
    } else if s[i] == 'e' || s[i] == 'E' {
        i
    } else {
        exponent_mark(s, i + 1)
    }
}

/// A decimal number: its digits, and where the point stands among them, which
/// may be outside.
#[verifier::ext_equal]
pub struct DecimalView {
    pub digits: Seq<char>,
    pub point: int,
}

/// The digits of a mantissa: one or more, with at most one point.
pub open spec fn mantissa(s: Seq<char>) -> Option<DecimalView> {
    match spec_find_char(s, '.', 0) {
        None => if s.len() > 0 && just_digits(s) {
            Some(DecimalView { digits: s, point: s.len() as int })
        } else {
            None
        },
        Some(d) => {
            let a = s.subrange(0, d);
            let b = s.subrange(d + 1, s.len() as int);
            if a.len() + b.len() > 0 && just_digits(a) && just_digits(b) {
                Some(DecimalView { digits: a + b, point: d })
            } else {
                None
            }
        },
    }
}

/// The exponent: an optional sign and one or more digits.
pub open spec fn exponent(s: Seq<char>) -> Option<int> {
    let (negative, body) = spec_sign(s);
    if !all_digits(body, 10) {
        None
    } else if negative {
        Some(-digits_value(body, 10))
    } else {
        Some(digits_value(body, 10))
    }
}

/// A number without a sign.
pub open spec fn number(s: Seq<char>) -> Option<DecimalView> {
    let e = exponent_mark(s, 0);
    let exp = if e >= s.len() {
        Some(0)
    } else {
        exponent(s.subrange(e + 1, s.len() as int))
    };
    match (mantissa(s.subrange(0, e)), exp) {
        (Some(m), Some(x)) => Some(DecimalView { digits: m.digits, point: m.point + x }),
        _ => None,
    }
}

/// The first digit, from index `i` on, that is not zero; the length if there is
/// none.
pub open spec fn leading(s: Seq<char>, i: int) -> int
    decreases s.len() - i,
{
    if i < 0 || i >= s.len() {
        s.len() as int
    } else if s[i] == '0' {
        leading(s, i + 1)
    } else {
        i
    }
}

/// Whether a decimal number is below fifty: it is zero, or its first digit that
/// counts stands behind the tens, or is a ten below five.
pub open spec fn below_fifty(d: DecimalView) -> bool {
    let z = leading(d.digits, 0);
    ||| z >= d.digits.len()
    ||| d.point - z <= 1
    ||| d.point - z == 2 && (d.digits[z] as u32) < 0x35
}

/// Whether a text reads as a number below fifty. A negative one does, and so
/// does minus infinity; infinity, what is not a number, and any other text do
/// not.
pub open spec fn spec_reads_below_fifty(s: Seq<char>) -> bool {
    let (negative, body) = spec_sign(s);
    let name = spec_lower_all(body);
    if name == "inf"@ || name == "infinity"@ {
        negative
    } else if name == "nan"@ {
        false
    } else {
        match number(body) {
            Some(d) => negative || below_fifty(d),
            None => false,
        }
    }
}

/// An exponent that is read far enough to compare: beyond any length of text it
/// only matters which side it is on.
pub const FAR: u128 = 0x1_0000_0000_0000_0000_0000_0000;

/// How far a point lies from a digit, held at `FAR` to either side.
pub open spec fn near(n: int) -> int {
    if n > FAR {
        FAR as int
    } else if n < -FAR {
        -FAR
    } else {
        n
    }
}

fn read_exponent(s: &[char]) -> (r: Option<i128>)
    ensures
        match r {
            Some(x) => exponent(s@) matches Some(n) && x == near(n),
            None => exponent(s@) is None,
        },
{
    let mut negative: bool = false;
    let mut body: &[char] = s;
    if s.len() > 0 && s[0] == '-' {
        negative = true;
        body = slice_subrange(s, 1, s.len());
    } else if s.len() > 0 && s[0] == '+' {
        body = slice_subrange(s, 1, s.len());
    }
    proof {
        if all_digits(body@, 10) {
            digits_value_grows(body@, 10, 0);
            assert(body@.take(0) =~= Seq::<char>::empty());
        }
    }
    let size: i128 = match digits(body, 10, FAR) {
        Some(v) => v as i128,
        None => {
            if body.len() == 0 || !are_digits(body) {
                proof {
                    assert(!all_digits(body@, 10)) by {
                        if all_digits(body@, 10) {
                            assert forall|i: int| 0 <= i < body@.len() implies spec_is_digit(
                                #[trigger] body@[i],
                            ) by {
                                assert(is_digit_in(body@[i], 10));
                            }
                        }
                    }
                }
                return None;
            }
            proof {
                assert(all_digits(body@, 10)) by {
                    assert forall|i: int| 0 <= i < body@.len() implies is_digit_in(
                        #[trigger] body@[i],
                        10,
                    ) by {
                        assert(spec_is_digit(body@[i]));
                    }
                }
            }
            FAR as i128
        },
    };
    if negative {
        Some(0 - size)
    } else {
        Some(size)
    }
}

/// The digits and the point of a number.
struct Decimal {
    digits: Vec<char>,
    point: i128,
}

fn read_mantissa(s: &[char]) -> (r: Option<Decimal>)
    ensures
        match r {
            Some(d) => mantissa(s@) == Some(
                DecimalView { digits: d.digits@, point: d.point as int },
            ) && 0 <= d.point <= s.len() && d.digits@.len() <= s.len(),
            None => mantissa(s@) is None,
        },
{
    match find_char(s, '.', 0) {
        None => {
            if s.len() == 0 || !are_digits(s) {
                return None;
            }
            let mut digits: Vec<char> = Vec::new();
            crate::text::push_all(&mut digits, s);
            assert(digits@ =~= s@);
            Some(Decimal { digits, point: s.len() as i128 })
        },
        Some(d) => {
            let a = slice_subrange(s, 0, d);
            let b = slice_subrange(s, d + 1, s.len());
            if s.len() == 1 || !are_digits(a) || !are_digits(b) {
                return None;
            }
            let mut digits: Vec<char> = Vec::new();
            crate::text::push_all(&mut digits, a);
            crate::text::push_all(&mut digits, b);
            assert(digits@ =~= a@ + b@);
            Some(Decimal { digits, point: d as i128 })
        },
    }
}

fn find_exponent_mark(s: &[char]) -> (r: usize)
    ensures
        r == exponent_mark(s@, 0),
        r <= s.len(),
{
    let mut i: usize = 0;
    while i < s.len()
        invariant
            i <= s.len(),
            exponent_mark(s@, 0) == exponent_mark(s@, i as int),
        decreases s.len() - i,
    {
        if s[i] == 'e' || s[i] == 'E' {
            return i;
        }
        i = i + 1;
    }
    i
}

fn is_below_fifty(body: &[char]) -> (r: Option<bool>)
    ensures
        r == match number(body@) {
            Some(d) => Some(below_fifty(d)),
            None => None,
        },
{
    let e: usize = find_exponent_mark(body);
    let d = match read_mantissa(slice_subrange(body, 0, e)) {
        Some(d) => d,
        None => return None,
    };
    let x: i128 = if e >= body.len() {
        0
    } else {
        match read_exponent(slice_subrange(body, e + 1, body.len())) {
            Some(x) => x,
            None => return None,
        }
    };
    let mut z: usize = 0;
    while z < d.digits.len() && d.digits[z] == '0'
        invariant
            z <= d.digits.len(),
            leading(d.digits@, 0) == leading(d.digits@, z as int),
        decreases d.digits.len() - z,
    {
        z = z + 1;
    }
    assert(z == leading(d.digits@, 0));
    if z >= d.digits.len() {
        return Some(true);
    }
    let place: i128 = d.point + x - z as i128;
    if place <= 1 {
        Some(true)
    } else if place == 2 {
        Some((d.digits[z] as u32) < 0x35)
    } else {
        Some(false)
    }
}

/// Whether a text reads as a number below fifty.
pub fn reads_below_fifty(s: &[char]) -> (r: bool)
    ensures
        r == spec_reads_below_fifty(s@),
{
    let mut negative: bool = false;
    let mut body: &[char] = s;
    if s.len() > 0 && s[0] == '-' {
        negative = true;
        body = slice_subrange(s, 1, s.len());
    } else if s.len() > 0 && s[0] == '+' {
        body = slice_subrange(s, 1, s.len());
    }
    let name = lower_all(body);
    if spells(name.as_slice(), "inf") || spells(name.as_slice(), "infinity") {
        return negative;
    }
    if spells(name.as_slice(), "nan") {
        return false;
    }
    match is_below_fifty(body) {
        Some(below) => negative || below,
        None => false,
    }
}

/// Whether a `width` or `height` says that an image is an icon: under fifty
/// pixels, the unit written out or not.
pub open spec fn spec_says_tiny(value: Seq<char>) -> bool {
    spec_reads_below_fifty(spec_trim(without_px(spec_trim(value))))
}

/// Whether a `width` or `height` says that an image is an icon.
pub fn says_tiny(value: &[char]) -> (r: bool)
    ensures
        r == spec_says_tiny(value@),
{
    reads_below_fifty(trim(strip_px(trim(value))))
}

// ---------------------------------------------------------------------------
// What the comparison means
// ---------------------------------------------------------------------------

/// A power of ten.
pub open spec fn pow10(n: nat) -> nat
    decreases n,
{
    if n == 0 {
        1
    } else {
        10 * pow10((n - 1) as nat)
    }
}

proof fn pow10_adds(a: nat, b: nat)
    ensures
        pow10(a + b) == pow10(a) * pow10(b),
    decreases a,
{
    if a > 0 {
        pow10_adds((a - 1) as nat, b);
        assert(((a - 1) + b) as nat == (a + b - 1) as nat);
        assert(10 * (pow10((a - 1) as nat) * pow10(b)) == (10 * pow10((a - 1) as nat)) * pow10(b))
            by (nonlinear_arith);
    } else {
        assert(1 * pow10(b) == pow10(b)) by (nonlinear_arith);
    }
}

proof fn pow10_grows(a: nat, b: nat)
    requires
        a <= b,
    ensures
        0 < pow10(a) <= pow10(b),
    decreases b,
{
    if a < b {
        pow10_grows(a, (b - 1) as nat);
    } else if a > 0 {
        pow10_grows((a - 1) as nat, (b - 1) as nat);
    }
}

proof fn digit_other_than_zero(c: char)
    requires
        spec_is_digit(c),
        c != '0',
    ensures
        c as u32 > 0x30,
{
}

/// A run of digits counts to between its first digit and one more, at that
/// digit's place.
proof fn first_digit_bounds(s: Seq<char>)
    requires
        s.len() > 0,
        just_digits(s),
    ensures
        ({
            let f = s[0] as u32 - 0x30;
            let p = pow10((s.len() - 1) as nat);
            f * p <= digits_value(s, 10) < (f + 1) * p
        }),
    decreases s.len(),
{
    let f = s[0] as u32 - 0x30;
    let t = s.drop_last();
    assert(spec_is_digit(s[0]) && spec_is_digit(s[s.len() - 1]));
    if s.len() == 1 {
        assert(t =~= Seq::<char>::empty());
        assert(digits_value(t, 10) == 0);
        assert(pow10(0) == 1);
        let p = pow10((s.len() - 1) as nat);
        assert(f * p == f && (f + 1) * p == f + 1) by (nonlinear_arith)
            requires
                p == 1,
        ;
        assert(digits_value(s, 10) == f);
    } else {
        assert(just_digits(t)) by {
            assert forall|i: int| 0 <= i < t.len() implies spec_is_digit(#[trigger] t[i]) by {
                assert(t[i] == s[i]);
            }
        }
        first_digit_bounds(t);
        let p = pow10((t.len() - 1) as nat);
        assert(pow10((s.len() - 1) as nat) == 10 * p);
        assert(f * (10 * p) == 10 * (f * p)) by (nonlinear_arith);
        assert((f + 1) * (10 * p) == 10 * ((f + 1) * p)) by (nonlinear_arith);
    }
}

/// Leading zeros do not count.
proof fn zeros_do_not_count(s: Seq<char>, z: int)
    requires
        0 <= z <= s.len(),
        just_digits(s),
        forall|i: int| 0 <= i < z ==> #[trigger] s[i] == '0',
    ensures
        digits_value(s, 10) == digits_value(s.subrange(z, s.len() as int), 10),
    decreases s.len(),
{
    let u = s.subrange(z, s.len() as int);
    if s.len() > 0 {
        let t = s.drop_last();
        assert(just_digits(t)) by {
            assert forall|i: int| 0 <= i < t.len() implies spec_is_digit(#[trigger] t[i]) by {
                assert(t[i] == s[i]);
            }
        }
        if z < s.len() {
            assert forall|i: int| 0 <= i < z implies #[trigger] t[i] == '0' by {
                assert(t[i] == s[i]);
            }
            zeros_do_not_count(t, z);
            assert(u.drop_last() =~= t.subrange(z, t.len() as int));
        } else {
            assert forall|i: int| 0 <= i < z - 1 implies #[trigger] t[i] == '0' by {
                assert(t[i] == s[i]);
            }
            zeros_do_not_count(t, z - 1);
            assert(t.subrange(z - 1, t.len() as int) =~= Seq::<char>::empty());
            assert(u =~= Seq::<char>::empty());
            assert(s[z - 1] == '0');
        }
    } else {
        assert(u =~= s);
    }
}

proof fn leading_is_first(s: Seq<char>, i: int)
    requires
        0 <= i <= s.len(),
    ensures
        i <= leading(s, i) <= s.len(),
        forall|j: int| i <= j < leading(s, i) ==> #[trigger] s[j] == '0',
        leading(s, i) < s.len() ==> s[leading(s, i)] != '0',
    decreases s.len() - i,
{
    if i < s.len() && s[i] == '0' {
        leading_is_first(s, i + 1);
    }
}

/// `below_fifty` compares the number with fifty: the digits counted, moved by
/// as many places as the point stands behind or before their end.
pub proof fn below_fifty_compares_the_number(d: DecimalView)
    requires
        just_digits(d.digits),
    ensures
        ({
            let n = digits_value(d.digits, 10);
            let len = d.digits.len() as int;
            if d.point >= len {
                below_fifty(d) <==> n * pow10((d.point - len) as nat) < 50
            } else {
                below_fifty(d) <==> n < 50 * pow10((len - d.point) as nat)
            }
        }),
{
    let s = d.digits;
    let len = s.len() as int;
    let n = digits_value(s, 10);
    let z = leading(s, 0);
    leading_is_first(s, 0);
    zeros_do_not_count(s, z);
    let u = s.subrange(z, len);
    let up = d.point - len;
    if z >= len {
        assert(u =~= Seq::<char>::empty());
        assert(n == 0);
        if up >= 0 {
            assert(0 * pow10(up as nat) == 0) by (nonlinear_arith);
        } else {
            pow10_grows(0, (-up) as nat);
        }
    } else {
        assert(just_digits(u)) by {
            assert forall|i: int| 0 <= i < u.len() implies spec_is_digit(#[trigger] u[i]) by {
                assert(u[i] == s[z + i]);
            }
        }
        first_digit_bounds(u);
        let m = u.len() as int;
        let f = u[0] as u32 - 0x30;
        assert(u[0] == s[z]);
        assert(spec_is_digit(s[z]));
        digit_other_than_zero(s[z]);
        assert(1 <= f <= 9);
        let p = pow10((m - 1) as nat);
        pow10_grows(0, (m - 1) as nat);
        assert(pow10(m as nat) == 10 * p);
        assert(p <= f * p && (f + 1) * p <= 10 * p) by (nonlinear_arith)
            requires
                1 <= f <= 9,
                p > 0,
        ;
        let place = d.point - z;
        assert(up == place - m);
        if up >= 0 {
            let k = pow10(up as nat);
            pow10_grows(0, up as nat);
            pow10_adds((m - 1) as nat, up as nat);
            assert(((m - 1) + up) as nat == (place - 1) as nat);
            assert(p * k == pow10((place - 1) as nat));
            assert(p * k <= n * k) by (nonlinear_arith)
                requires
                    p <= n,
                    k > 0,
            ;
            if place >= 3 {
                pow10_grows(2, (place - 1) as nat);
                assert(pow10(2) == 100) by {
                    reveal_with_fuel(pow10, 3);
                }
            } else if place == 2 {
                assert(m <= 2);
                assert(pow10(1) == 10) by {
                    reveal_with_fuel(pow10, 2);
                }
                assert(f * (p * k) <= n * k && n * k < (f + 1) * (p * k)) by (nonlinear_arith)
                    requires
                        f * p <= n,
                        n < (f + 1) * p,
                        k > 0,
                ;
                assert(f * 10 <= n * k < (f + 1) * 10);
            } else {
                assert(place == 1 && m == 1 && up == 0);
                assert(pow10(0) == 1);
                assert(n * k == n) by (nonlinear_arith)
                    requires
                        k == 1,
                ;
            }
        } else {
            let k = pow10((-up) as nat);
            pow10_grows(0, (-up) as nat);
            if place >= 1 {
                pow10_adds((place - 1) as nat, (-up) as nat);
                assert((place - 1 + (-up)) as nat == (m - 1) as nat);
                let q = pow10((place - 1) as nat);
                assert(p == q * k);
                pow10_grows(0, (place - 1) as nat);
                if place >= 3 {
                    pow10_grows(2, (place - 1) as nat);
                    assert(pow10(2) == 100) by {
                        reveal_with_fuel(pow10, 3);
                    }
                    assert(50 * k <= q * k) by (nonlinear_arith)
                        requires
                            q >= 100,
                            k > 0,
                    ;
                } else if place == 2 {
                    assert(q == 10) by {
                        reveal_with_fuel(pow10, 2);
                    }
                    assert(p == 10 * k);
                    assert(f * p == (10 * f) * k && (f + 1) * p == (10 * f + 10) * k)
                        by (nonlinear_arith)
                        requires
                            p == 10 * k,
                    ;
                    if f < 5 {
                        assert((10 * f + 10) * k <= 50 * k) by (nonlinear_arith)
                            requires
                                f <= 4,
                                k > 0,
                        ;
                    } else {
                        assert(50 * k <= (10 * f) * k) by (nonlinear_arith)
                            requires
                                f >= 5,
                                k > 0,
                        ;
                    }
                } else {
                    assert(q == 1);
                    assert(p == k);
                }
            } else {
                pow10_grows(m as nat, (-up) as nat);
            }
        }
    }
}

/// A size in pixels is tiny where it is less than fifty, with or without its unit.
pub proof fn sizes_below_fifty_are_tiny(n: nat)
    ensures
        spec_says_tiny(spec_decimal(n)) <==> n < 50,
        spec_says_tiny(spec_decimal(n) + "px"@) <==> n < 50,
{
    reveal_strlit("px");
    reveal_strlit("inf");
    reveal_strlit("infinity");
    reveal_strlit("nan");
    let d = spec_decimal(n);
    decimal_reads_back(n);
    decimals_are_plain(n);
    let last = d.len() - 1;
    assert(spec_is_digit(d[0]) && spec_is_digit(d[last]));
    trimming_keeps(d);
    assert(without_px(d) == d);
    let p = d + "px"@;
    assert(p[0] == d[0] && p.last() == 'x');
    trimming_keeps(p);
    assert(p[p.len() - 2] == 'p' && p[p.len() - 1] == 'x');
    assert(p.subrange(0, p.len() - 2) =~= d);
    assert(without_px(p) == d);
    assert(spec_sign(d) == (false, d));
    let low = spec_lower_all(d);
    assert(low[0] == d[0]);
    assert("inf"@[0] == 'i' && "infinity"@[0] == 'i' && "nan"@[0] == 'n');
    no_exponent(d, 0);
    assert(d.subrange(0, d.len() as int) =~= d);
    no_point(d, 0);
    let v = DecimalView { digits: d, point: d.len() as int };
    assert(number(d) == Some(v));
    below_fifty_compares_the_number(v);
    assert(pow10(0) == 1);
    assert(n as int * pow10(0) == n) by (nonlinear_arith)
        requires
            pow10(0) == 1,
    ;
    assert(low != "inf"@ && low != "infinity"@ && low != "nan"@) by {
        assert(low[0] != 'i' && low[0] != 'n');
    }
    assert(spec_reads_below_fifty(d) == below_fifty(v));
}

proof fn decimals_are_plain(n: nat)
    ensures
        spec_decimal(n).len() > 0,
        just_digits(spec_decimal(n)),
    decreases n,
{
    if n >= 10 {
        decimals_are_plain(n / 10);
    }
}

proof fn no_exponent(s: Seq<char>, i: int)
    requires
        0 <= i <= s.len(),
        just_digits(s),
    ensures
        exponent_mark(s, i) == s.len(),
    decreases s.len() - i,
{
    if i < s.len() {
        assert(spec_is_digit(s[i]));
        no_exponent(s, i + 1);
    }
}

proof fn no_point(s: Seq<char>, i: int)
    requires
        0 <= i <= s.len(),
        just_digits(s),
    ensures
        spec_find_char(s, '.', i) is None,
    decreases s.len() - i,
{
    if i < s.len() {
        assert(spec_is_digit(s[i]));
        no_point(s, i + 1);
    }
}

} // verus!
