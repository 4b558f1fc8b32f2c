//! The dates that feeds carry, as seconds since 1970 in UTC.
use crate::case::{in_lower_case, in_upper_case, to_lowercase, to_uppercase};
use crate::number::{parse_i64, spec_parse_i64};
use crate::text::{
    at, is_digit, rfind_char, spec_is_digit, spec_rfind_char, spec_split, spec_starts_with,
    spec_words, spells, split, starts_with, texts, words,
};
use vstd::prelude::*;
use vstd::slice::slice_subrange;

verus! {

// ---------------------------------------------------------------------------
// The calendar
// ---------------------------------------------------------------------------

pub open spec fn is_leap(y: int) -> bool {
    y % 4 == 0 && (y % 100 != 0 || y % 400 == 0)
}

pub open spec fn days_in_month(y: int, m: int) -> int {
    if m == 2 {
        if is_leap(y) {
            29
        } else {
            28
        }
    } else if m == 4 || m == 6 || m == 9 || m == 11 {
        30
    } else {
        31
    }
}

/// Days from the first of March of year 0 to that of a year.
pub open spec fn days_to_march(y: int) -> int {
    365 * y + y / 4 - y / 100 + y / 400
}

/// A quotient, rounded toward zero.
pub open spec fn toward_zero(n: int, k: int) -> int {
    if n >= 0 {
        n / k
    } else {
        -((-n) / k)
    }
}

/// Days since 1970-01-01 of a date. A year is counted from March, so that the
/// leap day is its last.
pub open spec fn spec_days(y: int, m: int, d: int) -> int {
    let year = if m <= 2 {
        y - 1
    } else {
        y
    };
    let month = if m > 2 {
        m - 3
    } else {
        m + 9
    };
    days_to_march(year) + toward_zero(153 * month + 2, 5) + d - 1 - 719_468
}

/// A year of the calendar has a day more where it is a leap year.
pub proof fn year_length(y: int)
    ensures
        days_to_march(y) - days_to_march(y - 1) == if is_leap(y) {
            366int
        } else {
            365
        },
{
    step_of_quotient(y, 4);
    step_of_quotient(y, 100);
    step_of_quotient(y, 400);
    if y % 400 == 0 {
        assert(y % 100 == 0 && y % 4 == 0) by (nonlinear_arith)
            requires
                y % 400 == 0,
        ;
    }
    if y % 100 == 0 {
        assert(y % 4 == 0) by (nonlinear_arith)
            requires
                y % 100 == 0,
        ;
    }
}

proof fn step_of_quotient(y: int, n: int)
    requires
        n > 1,
    ensures
        y / n - (y - 1) / n == if y % n == 0 {
            1int
        } else {
            0
        },
{
    vstd::arithmetic::div_mod::lemma_fundamental_div_mod(y, n);
    vstd::arithmetic::div_mod::lemma_mod_bound(y, n);
    let (q, r) = (y / n, y % n);
    assert(n * q == q * n) by (nonlinear_arith);
    if r == 0 {
        assert(y - 1 == n * (q - 1) + (n - 1)) by (nonlinear_arith)
            requires
                y == n * q,
        ;
        vstd::arithmetic::div_mod::lemma_fundamental_div_mod_converse(y - 1, n, q - 1, n - 1);
    } else {
        vstd::arithmetic::div_mod::lemma_fundamental_div_mod_converse(y - 1, n, q, r - 1);
    }
}

/// `spec_days` counts the days of the Gregorian calendar: 1970-01-01 is day 0,
/// the next day of a month is one more, the first of the next month is as many
/// more as the month has days, and the first of January follows the
/// thirty-first of December.
pub proof fn days_follow_the_calendar(y: int, m: int, d: int)
    requires
        1 <= m <= 12,
    ensures
        spec_days(1970, 1, 1) == 0,
        spec_days(y, m, d + 1) == spec_days(y, m, d) + 1,
        m < 12 ==> spec_days(y, m + 1, 1) == spec_days(y, m, 1) + days_in_month(y, m),
        m == 12 ==> spec_days(y + 1, 1, 1) == spec_days(y, m, 1) + days_in_month(y, m),
{
    year_length(y);
}

/// Days since 1970-01-01 for a proleptic Gregorian date, where their number fits.
pub fn days_from_civil(y: i64, m: i64, d: i64) -> (r: i64)
    requires
        i64::MIN <= spec_days(y as int, m as int, d as int) <= i64::MAX,
    ensures
        r == spec_days(y as int, m as int, d as int),
{
    let year: i128 = if m <= 2 {
        y as i128 - 1
    } else {
        y as i128
    };
    // Counted from a multiple of 400 years before any date, so that quotients
    // round down.
    let eras: i128 = 0x1000_0000_0000_0000;
    let shifted: i128 = year + 400 * eras;
    let era: i128 = shifted / 400 - eras;
    let yoe: i128 = shifted % 400;
    let month: i128 = if m > 2 {
        m as i128 - 3
    } else {
        m as i128 + 9
    };
    let fifths: i128 = 153 * month + 2;
    let doy: i128 = if fifths >= 0 {
        fifths / 5
    } else {
        0 - (0 - fifths) / 5
    } + d as i128 - 1;
    let doe: i128 = yoe * 365 + yoe / 4 - yoe / 100 + doy;
    proof {
        let k = eras as int;
        vstd::arithmetic::div_mod::lemma_fundamental_div_mod(shifted as int, 400);
        let q = shifted as int / 400;
        assert(year == 400 * (q - k) + yoe) by (nonlinear_arith)
            requires
                shifted == year + 400 * k,
                shifted == 400 * q + yoe,
        ;
        assert(era == q - k);
        assert(year == 400 * era + yoe);
        quotient_of_eras(era as int, yoe as int, 4);
        quotient_of_eras(era as int, yoe as int, 100);
        quotient_of_eras(era as int, yoe as int, 400);
        assert(yoe as int / 400 == 0);
    }
    (era * 146_097 + doe - 719_468) as i64
}

proof fn quotient_of_eras(era: int, yoe: int, n: int)
    requires
        n == 4 || n == 100 || n == 400,
        0 <= yoe < 400,
    ensures
        (400 * era + yoe) / n == (400int / n) * era + yoe / n,
{
    vstd::arithmetic::div_mod::lemma_fundamental_div_mod(yoe, n);
    let q = yoe / n;
    let r = yoe % n;
    let f = 400int / n;
    assert(400 * era + yoe == n * (f * era + q) + r) by (nonlinear_arith)
        requires
            yoe == n * q + r,
            f * n == 400,
    ;
    vstd::arithmetic::div_mod::lemma_fundamental_div_mod_converse(
        400 * era + yoe,
        n,
        f * era + q,
        r,
    );
}

// ---------------------------------------------------------------------------
// Clock and zone
// ---------------------------------------------------------------------------

/// A clock time, in hours, minutes and seconds.
#[derive(Clone, Copy, PartialEq, Eq, Structural, Debug)]
pub struct Clock {
    pub h: i64,
    pub m: i64,
    pub s: i64,
}

/// `HH:MM` or `HH:MM:SS`, each field in range (a leap second allowed).
pub open spec fn spec_hms(s: Seq<char>) -> Option<Clock> {
    let p = spec_split(s, ':', 0);
    if p.len() < 2 {
        None
    } else {
        match (spec_parse_i64(p[0]), spec_parse_i64(p[1])) {
            (Some(h), Some(m)) => {
                let sec = if p.len() > 2 {
                    spec_parse_i64(p[2])
                } else {
                    Some(0i64)
                };
                match sec {
                    Some(s) if 0 <= h <= 23 && 0 <= m <= 59 && 0 <= s <= 60 => Some(
                        Clock { h, m, s },
                    ),
                    _ => None,
                }
            },
            _ => None,
        }
    }
}

/// `HH:MM` or `HH:MM:SS`, each field in range (a leap second allowed).
pub fn hms(s: &[char]) -> (r: Option<Clock>)
    ensures
        r == spec_hms(s@),
{
    let p = split(s, ':');
    let ghost parts = texts(p@);
    if p.len() < 2 {
        return None;
    }
    assert(parts[0] == p@[0]@ && parts[1] == p@[1]@);
    let h: i64 = match parse_i64(p[0]) {
        Some(v) => v,
        None => return None,
    };
    let m: i64 = match parse_i64(p[1]) {
        Some(v) => v,
        None => return None,
    };
    let sec: i64 = if p.len() > 2 {
        assert(parts[2] == p@[2]@);
        match parse_i64(p[2]) {
            Some(v) => v,
            None => return None,
        }
    } else {
        0
    };
    if 0 <= h && h <= 23 && 0 <= m && m <= 59 && 0 <= sec && sec <= 60 {
        Some(Clock { h, m, s: sec })
    } else {
        None
    }
}

/// The ASCII digits of a text, in order.
pub open spec fn only_digits(s: Seq<char>) -> Seq<char>
    decreases s.len(),
{
    if s.len() == 0 {
        Seq::empty()
    } else {
        let rest = only_digits(s.drop_last());
        if spec_is_digit(s.last()) {
            rest.push(s.last())
        } else {
            rest
        }
    }
}

fn keep_digits(s: &[char]) -> (r: Vec<char>)
    ensures
        r@ == only_digits(s@),
        forall|i: int| 0 <= i < r@.len() ==> spec_is_digit(#[trigger] r@[i]),
{
    let mut r: Vec<char> = Vec::new();
    let mut i: usize = 0;
    while i < s.len()
        invariant
            i <= s.len(),
            r@ == only_digits(s@.take(i as int)),
            forall|j: int| 0 <= j < r@.len() ==> spec_is_digit(#[trigger] r@[j]),
        decreases s.len() - i,
    {
        assert(s@.take(i + 1).drop_last() =~= s@.take(i as int));
        if is_digit(s[i]) {
            r.push(s[i]);
        }
        i = i + 1;
    }
    assert(s@.take(i as int) =~= s@);
    r
}

/// The value of a digit.
pub open spec fn digit_of(c: char) -> int {
    c as u32 - 0x30
}

/// Hours east of UTC for a named zone.
pub open spec fn zone_hours(z: Seq<char>) -> Option<int> {
    if z == "GMT"@ || z == "UT"@ || z == "UTC"@ || z == "Z"@ || z == ""@ {
        Some(0)
    } else if z == "EST"@ {
        Some(-5)
    } else if z == "EDT"@ {
        Some(-4)
    } else if z == "CST"@ {
        Some(-6)
    } else if z == "CDT"@ {
        Some(-5)
    } else if z == "MST"@ {
        Some(-7)
    } else if z == "MDT"@ {
        Some(-6)
    } else if z == "PST"@ {
        Some(-8)
    } else if z == "PDT"@ {
        Some(-7)
    } else {
        None
    }
}

/// Seconds east of UTC for a zone in upper case: of a name that is known its
/// hours; else of the first four digits two hours and two minutes, west after
/// a minus sign; zero where there are fewer digits.
pub open spec fn spec_upper_zone_offset(z: Seq<char>) -> int {
    match zone_hours(z) {
        Some(h) => h * 3600,
        None => {
            let d = only_digits(z);
            if d.len() < 4 {
                0
            } else {
                let size = (digit_of(d[0]) * 10 + digit_of(d[1])) * 3600 + (digit_of(d[2]) * 10
                    + digit_of(d[3])) * 60;
                if z.len() > 0 && z[0] == '-' {
                    -size
                } else {
                    size
                }
            }
        },
    }
}

pub open spec fn spec_zone_offset(zone: Seq<char>) -> int {
    spec_upper_zone_offset(in_upper_case(zone))
}

fn named_zone(z: &[char]) -> (r: Option<i64>)
    ensures
        match r {
            Some(h) => zone_hours(z@) == Some(h as int) && -8 <= h <= 0,
            None => zone_hours(z@) is None,
        },
{
    if spells(z, "GMT") || spells(z, "UT") || spells(z, "UTC") || spells(z, "Z") || spells(z, "") {
        Some(0)
    } else if spells(z, "EST") {
        Some(-5)
    } else if spells(z, "EDT") {
        Some(-4)
    } else if spells(z, "CST") {
        Some(-6)
    } else if spells(z, "CDT") {
        Some(-5)
    } else if spells(z, "MST") {
        Some(-7)
    } else if spells(z, "MDT") {
        Some(-6)
    } else if spells(z, "PST") {
        Some(-8)
    } else if spells(z, "PDT") {
        Some(-7)
    } else {
        None
    }
}

fn digit_value(c: char) -> (r: i64)
    requires
        spec_is_digit(c),
    ensures
        r == digit_of(c),
        0 <= r <= 9,
{
    (c as u32 - 0x30) as i64
}

/// Seconds east of UTC for a zone in upper case.
pub fn upper_zone_offset(z: &[char]) -> (r: i64)
    ensures
        r == spec_upper_zone_offset(z@),
        -400_000 <= r <= 400_000,
{
    if let Some(h) = named_zone(z) {
        return h * 3600;
    }
    let d = keep_digits(z);
    if d.len() < 4 {
        return 0;
    }
    let hh: i64 = digit_value(d[0]) * 10 + digit_value(d[1]);
    let mm: i64 = digit_value(d[2]) * 10 + digit_value(d[3]);
    let size: i64 = hh * 3600 + mm * 60;
    if z.len() > 0 && z[0] == '-' {
        0 - size
    } else {
        size
    }
}

/// Seconds east of UTC for a zone token. Zone names other than the UTC
/// spellings and the US abbreviations are read as UTC: a time off by a few
/// hours beats no time at all.
pub fn zone_offset(zone: &[char]) -> (r: i64)
    ensures
        r == spec_zone_offset(zone@),
        -400_000 <= r <= 400_000,
{
    let z = to_uppercase(zone);
    upper_zone_offset(z.as_slice())
}

/// Unix seconds for a date and a clock in a zone `offset` seconds east of UTC;
/// none where a field of the date is out of range. A day past its month's end
/// is let through.
pub open spec fn spec_unix_seconds(year: int, month: int, day: int, clock: Clock, offset: int) -> Option<int> {
    if 1 <= year <= 9999 && 1 <= month <= 12 && 1 <= day <= 31 {
        Some(
            spec_days(year, month, day) * 86_400 + clock.h * 3600 + clock.m * 60 + clock.s - offset,
        )
    } else {
        None
    }
}

/// A number of seconds as a mathematical one.
pub open spec fn seconds(r: Option<i64>) -> Option<int> {
    match r {
        Some(v) => Some(v as int),
        None => None,
    }
}

/// Unix seconds for a date and a clock in a zone, where their number fits.
pub fn unix_seconds(year: i64, month: i64, day: i64, clock: Clock, offset: i64) -> (r: Option<i64>)
    requires
        spec_unix_seconds(
            year as int,
            month as int,
            day as int,
            clock,
            offset as int,
        ) matches Some(v) ==> i64::MIN <= v <= i64::MAX,
    ensures
        seconds(r) == spec_unix_seconds(
            year as int,
            month as int,
            day as int,
            clock,
            offset as int,
        ),
{
    if year < 1 || year > 9999 || month < 1 || month > 12 || day < 1 || day > 31 {
        return None;
    }
    let days: i64 = days_from_civil(year, month, day);
    assert(-1_000_000 <= days <= 4_000_000);
    let (h, m, s): (i128, i128, i128) = (clock.h as i128, clock.m as i128, clock.s as i128);
    Some((days as i128 * 86_400 + h * 3600 + m * 60 + s - offset as i128) as i64)
}

// ---------------------------------------------------------------------------
// RFC 822
// ---------------------------------------------------------------------------

/// The first three letters of the months.
pub open spec fn months() -> Seq<Seq<char>> {
    seq![
        "jan"@,
        "feb"@,
        "mar"@,
        "apr"@,
        "may"@,
        "jun"@,
        "jul"@,
        "aug"@,
        "sep"@,
        "oct"@,
        "nov"@,
        "dec"@,
    ]
}

/// The month, from one, whose letters a name in lower case starts with.
pub open spec fn month_of(name: Seq<char>, from: int) -> Option<int>
    decreases 12 - from,
{
    if from < 0 || from >= 12 {
        None
    } else if spec_starts_with(name, months()[from]) {
        Some(from + 1)
    } else {
        month_of(name, from + 1)
    }
}

fn month(name: &[char]) -> (r: Option<i64>)
    ensures
        match r {
            Some(m) => month_of(name@, 0) == Some(m as int) && 1 <= m <= 12,
            None => month_of(name@, 0) is None,
        },
{
    proof {
        reveal_with_fuel(month_of, 13);
    }
    if starts_with(name, "jan") {
        Some(1)
    } else if starts_with(name, "feb") {
        Some(2)
    } else if starts_with(name, "mar") {
        Some(3)
    } else if starts_with(name, "apr") {
        Some(4)
    } else if starts_with(name, "may") {
        Some(5)
    } else if starts_with(name, "jun") {
        Some(6)
    } else if starts_with(name, "jul") {
        Some(7)
    } else if starts_with(name, "aug") {
        Some(8)
    } else if starts_with(name, "sep") {
        Some(9)
    } else if starts_with(name, "oct") {
        Some(10)
    } else if starts_with(name, "nov") {
        Some(11)
    } else if starts_with(name, "dec") {
        Some(12)
    } else {
        None
    }
}

/// The words of a date without a leading weekday, which ends in a comma.
pub open spec fn date_words(s: Seq<char>) -> Seq<Seq<char>> {
    let w = spec_words(s);
    if w.len() > 0 && w[0].len() > 0 && w[0].last() == ',' {
        w.drop_first()
    } else {
        w
    }
}

/// A year of two digits is one of this century.
pub open spec fn full_year(y: int) -> int {
    if y < 100 {
        y + 2000
    } else {
        y
    }
}

/// Unix seconds for the words of a date, given its month and the offset of its
/// zone.
pub open spec fn date_seconds(w: Seq<Seq<char>>, month: Option<int>, offset: int) -> Option<int> {
    if w.len() < 4 {
        None
    } else {
        match (spec_parse_i64(w[0]), month, spec_parse_i64(w[2]), spec_hms(w[3])) {
            (Some(day), Some(month), Some(year), Some(clock)) => spec_unix_seconds(
                full_year(year as int),
                month,
                day as int,
                clock,
                offset,
            ),
            _ => None,
        }
    }
}

/// Unix seconds for `Wed, 16 Sep 2026 08:15:01 -0400`.
pub open spec fn spec_parse_rfc822(s: Seq<char>) -> Option<int> {
    let w = date_words(s);
    date_seconds(
        w,
        month_of(in_lower_case(w[1]), 0),
        if w.len() > 4 {
            spec_zone_offset(w[4])
        } else {
            0
        },
    )
}

/// `Wed, 16 Sep 2026 08:15:01 -0400`, the weekday and seconds optional, the
/// zone `GMT`/`UT`/`UTC`/`Z`, `±HHMM`, or a US abbreviation.
pub fn parse_rfc822(s: &[char]) -> (r: Option<i64>)
    ensures
        seconds(r) == spec_parse_rfc822(s@),
{
    let all = words(s);
    let ghost w = date_words(s@);
    let mut first: usize = 0;
    proof {
        if all.len() > 0 {
            assert(texts(all@)[0] == all@[0]@);
        }
    }
    if all.len() > 0 && all[0].len() > 0 && all[0][all[0].len() - 1] == ',' {
        first = 1;
    }
    assert(w.len() == all.len() - first);
    assert forall|i: int| 0 <= i < w.len() implies #[trigger] w[i] == all@[i + first]@ by {
        assert(texts(all@)[i + first] == all@[i + first]@);
    }
    if all.len() - first < 4 {
        return None;
    }
    let day: i64 = match parse_i64(all[first]) {
        Some(v) => v,
        None => return None,
    };
    let name = to_lowercase(all[first + 1]);
    let m: i64 = match month(name.as_slice()) {
        Some(m) => m,
        None => return None,
    };
    let year: i64 = match parse_i64(all[first + 2]) {
        Some(v) => v,
        None => return None,
    };
    let year: i64 = if year < 100 {
        year + 2000
    } else {
        year
    };
    let clock = match hms(all[first + 3]) {
        Some(c) => c,
        None => return None,
    };
    let offset: i64 = if all.len() - first > 4 {
        zone_offset(all[first + 4])
    } else {
        0
    };
    unix_seconds(year, m, day, clock, offset)
}

// ---------------------------------------------------------------------------
// RFC 3339
// ---------------------------------------------------------------------------

/// Where the date ends: the first `T`, `t` or space, the length if there is
/// none.
pub open spec fn date_end(s: Seq<char>, i: int) -> int
    decreases s.len() - i,
{
    if i < 0 || i >= s.len() {
        s.len() as int
    } else if s[i] == 'T' || s[i] == 't' || s[i] == ' ' {
        i
    } else {
        date_end(s, i + 1)
    }
}

/// The first `Z`, `z` or `+`, if there is one.
pub open spec fn zone_mark(s: Seq<char>, i: int) -> Option<int>
    decreases s.len() - i,
{
    if i < 0 || i >= s.len() {
        None
    } else if s[i] == 'Z' || s[i] == 'z' || s[i] == '+' {
        Some(i)
    } else {
        zone_mark(s, i + 1)
    }
}

/// Where the zone of a time begins: at such a mark, else at the last minus
/// sign, else at the end.
pub open spec fn zone_start(s: Seq<char>) -> int {
    match zone_mark(s, 0) {
        Some(i) => i,
        None => match spec_rfind_char(s, '-', s.len() as int) {
            Some(i) => i,
            None => s.len() as int,
        },
    }
}

/// Unix seconds for a date, a clock without its fraction, and an offset.
pub open spec fn iso_seconds(date: Seq<char>, clock: Seq<char>, offset: int) -> Option<int> {
    let d = spec_split(date, '-', 0);
    if d.len() < 3 {
        None
    } else {
        match (
            spec_parse_i64(d[0]),
            spec_parse_i64(d[1]),
            spec_parse_i64(d[2]),
            spec_hms(spec_split(clock, '.', 0)[0]),
        ) {
            (Some(year), Some(month), Some(day), Some(clock)) => spec_unix_seconds(
                year as int,
                month as int,
                day as int,
                clock,
                offset,
            ),
            _ => None,
        }
    }
}

/// Unix seconds for `2026-09-16T08:30:00+02:00`.
pub open spec fn spec_parse_rfc3339(s: Seq<char>) -> Option<int> {
    let e = date_end(s, 0);
    if e >= s.len() {
        None
    } else {
        let time = s.subrange(e + 1, s.len() as int);
        let z = zone_start(time);
        iso_seconds(
            s.subrange(0, e),
            time.subrange(0, z),
            spec_zone_offset(time.subrange(z, time.len() as int)),
        )
    }
}

fn find_date_end(s: &[char]) -> (r: usize)
    ensures
        r == date_end(s@, 0),
        r <= s.len(),
{
    let mut i: usize = 0;
    while i < s.len()
        invariant
            i <= s.len(),
            date_end(s@, 0) == date_end(s@, i as int),
        decreases s.len() - i,
    {
        if s[i] == 'T' || s[i] == 't' || s[i] == ' ' {
            return i;
        }
        i = i + 1;
    }
    i
}

fn find_zone_start(s: &[char]) -> (r: usize)
    ensures
        r == zone_start(s@),
        r <= s.len(),
{
    let mut i: usize = 0;
    while i < s.len()
        invariant
            i <= s.len(),
            zone_mark(s@, 0) == zone_mark(s@, i as int),
        decreases s.len() - i,
    {
        if s[i] == 'Z' || s[i] == 'z' || s[i] == '+' {
            return i;
        }
        i = i + 1;
    }
    match rfind_char(s, '-') {
        Some(i) => i,
        None => s.len(),
    }
}

/// `2026-09-16T08:30:00+02:00`, `...Z`, fractional seconds allowed, a missing
/// zone read as UTC.
pub fn parse_rfc3339(s: &[char]) -> (r: Option<i64>)
    ensures
        seconds(r) == spec_parse_rfc3339(s@),
{
    let e: usize = find_date_end(s);
    if e >= s.len() {
        return None;
    }
    let date = slice_subrange(s, 0, e);
    let time = slice_subrange(s, e + 1, s.len());
    let d = split(date, '-');
    let ghost parts = texts(d@);
    if d.len() < 3 {
        return None;
    }
    assert(parts[0] == d@[0]@ && parts[1] == d@[1]@ && parts[2] == d@[2]@);
    let year: i64 = match parse_i64(d[0]) {
        Some(v) => v,
        None => return None,
    };
    let month: i64 = match parse_i64(d[1]) {
        Some(v) => v,
        None => return None,
    };
    let day: i64 = match parse_i64(d[2]) {
        Some(v) => v,
        None => return None,
    };
    let z: usize = find_zone_start(time);
    let clock_parts = split(slice_subrange(time, 0, z), '.');
    assert(texts(clock_parts@)[0] == clock_parts@[0]@);
    let clock = match hms(clock_parts[0]) {
        Some(c) => c,
        None => return None,
    };
    let offset: i64 = zone_offset(slice_subrange(time, z, time.len()));
    unix_seconds(year, month, day, clock, offset)
}

} // verus!
