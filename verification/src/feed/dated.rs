//! What is written as a date is what is read: days, clocks and zones.
use crate::case::{all_ascii, in_lower_case, in_upper_case};
use crate::feed::dates::{
    date_end, date_words, days_follow_the_calendar, days_in_month, digit_of, month_of, months,
    only_digits, spec_days, spec_hms, spec_parse_rfc3339, spec_parse_rfc822, spec_unix_seconds,
    spec_zone_offset, zone_hours, zone_mark, zone_start, Clock,
};
use crate::feed::reading::joined_words_are_found_again;
use crate::number::{
    all_digits, digits_value, digits_value_grows, is_digit_in, spec_parse_i64, spec_sign,
};
use crate::text::{
    is_word, joined_text_splits_back, spec_is_digit, spec_is_space, spec_join, spec_lower_all,
    spec_starts_with,
};
use vstd::prelude::*;

verus! {

/// Whether a text is a number of a few digits.
pub open spec fn is_field(s: Seq<char>) -> bool {
    0 < s.len() <= 4 && forall|i: int| 0 <= i < s.len() ==> spec_is_digit(#[trigger] s[i])
}

/// The number that a field is.
pub open spec fn field(s: Seq<char>) -> int {
    digits_value(s, 10)
}

proof fn fields_are_read(s: Seq<char>)
    requires
        is_field(s),
    ensures
        spec_parse_i64(s) == Some(field(s) as i64),
        0 <= field(s) < 10000,
{
    assert forall|i: int| 0 <= i < s.len() implies is_digit_in(#[trigger] s[i], 10) by {
        assert(spec_is_digit(s[i]));
    }
    assert(all_digits(s, 10));
    assert(spec_is_digit(s[0]));
    assert(spec_sign(s) == (false, s));
    digits_value_grows(s, 10, 0);
    value_below(s);
}

proof fn value_below(s: Seq<char>)
    requires
        s.len() <= 4,
        forall|i: int| 0 <= i < s.len() ==> spec_is_digit(#[trigger] s[i]),
    ensures
        0 <= digits_value(s, 10),
        s.len() == 0 ==> digits_value(s, 10) < 1,
        s.len() == 1 ==> digits_value(s, 10) < 10,
        s.len() == 2 ==> digits_value(s, 10) < 100,
        s.len() == 3 ==> digits_value(s, 10) < 1000,
        s.len() == 4 ==> digits_value(s, 10) < 10000,
    decreases s.len(),
{
    if s.len() > 0 {
        let init = s.drop_last();
        assert forall|i: int| 0 <= i < init.len() implies spec_is_digit(#[trigger] init[i]) by {
            assert(init[i] == s[i]);
        }
        value_below(init);
        assert(spec_is_digit(s[s.len() - 1]));
    }
}

proof fn fields_hold_digits(s: Seq<char>, c: char)
    requires
        is_field(s),
        !spec_is_digit(c),
    ensures
        !s.contains(c),
{
    if s.contains(c) {
        let i = s.index_of(c);
        assert(spec_is_digit(s[i]));
    }
}

/// A clock as it is written.
pub open spec fn written_clock(h: Seq<char>, m: Seq<char>, s: Seq<char>) -> Seq<char> {
    h + seq![':'] + m + seq![':'] + s
}

/// The number of seconds of a day before a clock time.
pub open spec fn second_of_day(c: Clock) -> int {
    (c.h * 60 + c.m) * 60 + c.s
}

/// A clock is read as it is written, hours before minutes before seconds, where each is in
/// range.
pub proof fn a_written_clock_is_read(h: Seq<char>, m: Seq<char>, s: Seq<char>)
    requires
        is_field(h) && is_field(m) && is_field(s),
    ensures
        spec_hms(written_clock(h, m, s)) == if field(h) < 24 && field(m) < 60 && field(s) <= 60 {
            Some(Clock { h: field(h) as i64, m: field(m) as i64, s: field(s) as i64 })
        } else {
            None
        },
{
    let parts = seq![h, m, s];
    fields_are_read(h);
    fields_are_read(m);
    fields_are_read(s);
    fields_hold_digits(h, ':');
    fields_hold_digits(m, ':');
    fields_hold_digits(s, ':');
    assert(parts.drop_last() =~= seq![h, m]);
    assert(seq![h, m].drop_last() =~= seq![h]);
    assert(spec_join(seq![h], seq![':']) == h);
    assert(spec_join(seq![h, m], seq![':']) =~= h + seq![':'] + m);
    assert(spec_join(parts, seq![':']) =~= written_clock(h, m, s));
    joined_text_splits_back(parts, ':');
}

/// Seconds count on from midnight, a day has 86400 of them, and a clock further east of
/// UTC shows the same time earlier.
pub proof fn seconds_count_on(y: int, m: int, d: int, clock: Clock, offset: int)
    requires
        1 <= y <= 9999,
        1 <= m <= 12,
        1 <= d <= 31,
    ensures
        spec_unix_seconds(y, m, d, clock, offset) matches Some(t) && t == 86400 * spec_days(y, m, d)
            + second_of_day(clock) - offset,
        spec_unix_seconds(1970, 1, 1, Clock { h: 0, m: 0, s: 0 }, 0) == Some(0int),
        d < 31 ==> spec_unix_seconds(y, m, d + 1, clock, offset)->0 - spec_unix_seconds(
            y,
            m,
            d,
            clock,
            offset,
        )->0 == 86400,
{
    days_follow_the_calendar(y, m, d);
    days_follow_the_calendar(1970, 1, 1);
}

// ---------------------------------------------------------------------------
// Zones
// ---------------------------------------------------------------------------

/// A zone in hours and minutes, as it is written: with or without a colon.
pub open spec fn written_zone(sign: char, h: Seq<char>, m: Seq<char>, colon: bool) -> Seq<char> {
    if colon {
        seq![sign] + h + seq![':'] + m
    } else {
        seq![sign] + h + m
    }
}

/// A zone is read as it is written: its hours and minutes east of UTC, or west of it
/// behind a minus.
pub proof fn a_written_zone_is_read(sign: char, h: Seq<char>, m: Seq<char>, colon: bool)
    requires
        sign == '+' || sign == '-',
        is_field(h) && h.len() == 2,
        is_field(m) && m.len() == 2,
    ensures
        spec_zone_offset(written_zone(sign, h, m, colon)) == if sign == '-' {
            -(60 * (60 * field(h) + field(m)))
        } else {
            60 * (60 * field(h) + field(m))
        },
{
    reveal_with_fuel(only_digits, 8);
    reveal_with_fuel(digits_value, 4);
    reveal_strlit("GMT");
    reveal_strlit("UT");
    reveal_strlit("UTC");
    reveal_strlit("Z");
    reveal_strlit("");
    reveal_strlit("EST");
    reveal_strlit("EDT");
    reveal_strlit("CST");
    reveal_strlit("CDT");
    reveal_strlit("MST");
    reveal_strlit("MDT");
    reveal_strlit("PST");
    reveal_strlit("PDT");
    let z = written_zone(sign, h, m, colon);
    assert(spec_is_digit(h[0]) && spec_is_digit(h[1]) && spec_is_digit(m[0]) && spec_is_digit(m[1]));
    assert(h =~= seq![h[0], h[1]]);
    assert(m =~= seq![m[0], m[1]]);
    assert forall|i: int| 0 <= i < z.len() implies (#[trigger] z[i] as u32) < 0x80 && !(0x61
        <= z[i] as u32 <= 0x7a) by {}
    assert(in_upper_case(z) =~= z);
    assert(zone_hours(z) is None);
    let d = only_digits(z);
    if colon {
        let z5 = z.drop_last();
        let z4 = z5.drop_last();
        let z3 = z4.drop_last();
        let z2 = z3.drop_last();
        let z1 = z2.drop_last();
        assert(z.last() == m[1] && z5.last() == m[0] && z4.last() == ':' && z3.last() == h[1]
            && z2.last() == h[0] && z1.last() == sign);
        assert(z1.drop_last().len() == 0);
        assert(only_digits(z1) =~= seq![]);
    } else {
        let z4 = z.drop_last();
        let z3 = z4.drop_last();
        let z2 = z3.drop_last();
        let z1 = z2.drop_last();
        assert(z.last() == m[1] && z4.last() == m[0] && z3.last() == h[1] && z2.last() == h[0]
            && z1.last() == sign);
        assert(z1.drop_last().len() == 0);
        assert(only_digits(z1) =~= seq![]);
    }
    assert(d =~= seq![h[0], h[1], m[0], m[1]]);
    two_digits(h);
    two_digits(m);
}

proof fn two_digits(s: Seq<char>)
    requires
        is_field(s) && s.len() == 2,
    ensures
        digits_value(s, 10) == digit_of(s[0]) * 10 + digit_of(s[1]),
{
    reveal_with_fuel(digits_value, 4);
    assert(spec_is_digit(s[0]) && spec_is_digit(s[1]));
    assert(s.drop_last().last() == s[0]);
    assert(s.drop_last().drop_last().len() == 0);
}

/// The named zones stand where the numbered ones do: in America each zone is an hour west
/// of the one before it, summer time is an hour east of standard time, and the east coast
/// is five hours west of UTC.
pub proof fn named_zones_stand_in_order()
    ensures
        zone_hours("UTC"@) == Some(0int),
        zone_hours("GMT"@) == zone_hours("UTC"@) && zone_hours("UT"@) == zone_hours("UTC"@)
            && zone_hours("Z"@) == zone_hours("UTC"@) && zone_hours(""@) == zone_hours("UTC"@),
        zone_hours("EST"@)->0 == zone_hours("UTC"@)->0 - 5,
        zone_hours("CST"@)->0 == zone_hours("EST"@)->0 - 1,
        zone_hours("MST"@)->0 == zone_hours("CST"@)->0 - 1,
        zone_hours("PST"@)->0 == zone_hours("MST"@)->0 - 1,
        zone_hours("EDT"@)->0 == zone_hours("EST"@)->0 + 1,
        zone_hours("CDT"@)->0 == zone_hours("CST"@)->0 + 1,
        zone_hours("MDT"@)->0 == zone_hours("MST"@)->0 + 1,
        zone_hours("PDT"@)->0 == zone_hours("PST"@)->0 + 1,
{
    reveal_strlit("GMT");
    reveal_strlit("UT");
    reveal_strlit("UTC");
    reveal_strlit("Z");
    reveal_strlit("");
    reveal_strlit("EST");
    reveal_strlit("EDT");
    reveal_strlit("CST");
    reveal_strlit("CDT");
    reveal_strlit("MST");
    reveal_strlit("MDT");
    reveal_strlit("PST");
    reveal_strlit("PDT");
    assert("EST"@[0] == 'E' && "EST"@[1] == 'S' && "EST"@.len() == 3);
    assert("EDT"@[0] == 'E' && "EDT"@[1] == 'D' && "EDT"@.len() == 3);
    assert("CST"@[0] == 'C' && "CST"@[1] == 'S' && "CST"@.len() == 3);
    assert("CDT"@[0] == 'C' && "CDT"@[1] == 'D' && "CDT"@.len() == 3);
    assert("MST"@[0] == 'M' && "MST"@[1] == 'S' && "MST"@.len() == 3);
    assert("MDT"@[0] == 'M' && "MDT"@[1] == 'D' && "MDT"@.len() == 3);
    assert("PST"@[0] == 'P' && "PST"@[1] == 'S' && "PST"@.len() == 3);
    assert("PDT"@[0] == 'P' && "PDT"@[1] == 'D' && "PDT"@.len() == 3);
    assert("GMT"@[0] == 'G' && "GMT"@[1] == 'M' && "GMT"@.len() == 3);
    assert("UTC"@[0] == 'U' && "UTC"@[1] == 'T' && "UTC"@.len() == 3);
}

// ---------------------------------------------------------------------------
// Dates
// ---------------------------------------------------------------------------

/// A date in the way of RFC 3339, as it is written; `zone` is nothing but `Z`, or a number
/// of hours and minutes.
pub open spec fn written_rfc3339(
    y: Seq<char>,
    m: Seq<char>,
    d: Seq<char>,
    clock: Seq<char>,
    zone: Seq<char>,
) -> Seq<char> {
    y + seq!['-'] + m + seq!['-'] + d + seq!['T'] + clock + zone
}

proof fn date_end_is(s: Seq<char>, i: int, p: int)
    requires
        0 <= i <= p < s.len(),
        s[p] == 'T',
        forall|j: int|
            i <= j < p ==> #[trigger] s[j] != 'T' && s[j] != 't' && s[j] != ' ',
    ensures
        date_end(s, i) == p,
    decreases p - i,
{
    if i < p {
        date_end_is(s, i + 1, p);
    }
}

proof fn zone_mark_is(s: Seq<char>, i: int, p: int)
    requires
        0 <= i <= p < s.len(),
        s[p] == 'Z' || s[p] == '+',
        forall|j: int|
            i <= j < p ==> #[trigger] s[j] != 'Z' && s[j] != 'z' && s[j] != '+',
    ensures
        zone_mark(s, i) == Some(p),
    decreases p - i,
{
    if i < p {
        zone_mark_is(s, i + 1, p);
    }
}

/// A date in the way of RFC 3339 is read as it is written, year before month before day,
/// and its clock in its zone.
pub proof fn a_written_rfc3339_date_is_read(
    y: Seq<char>,
    m: Seq<char>,
    d: Seq<char>,
    h: Seq<char>,
    mi: Seq<char>,
    s: Seq<char>,
    zone: Seq<char>,
)
    requires
        is_field(y) && is_field(m) && is_field(d) && is_field(h) && is_field(mi) && is_field(s),
        field(h) < 24 && field(mi) < 60 && field(s) <= 60,
        zone.len() > 0 && (zone[0] == 'Z' || zone[0] == '+'),
    ensures
        spec_parse_rfc3339(written_rfc3339(y, m, d, written_clock(h, mi, s), zone))
            == spec_unix_seconds(
            field(y),
            field(m),
            field(d),
            Clock { h: field(h) as i64, m: field(mi) as i64, s: field(s) as i64 },
            spec_zone_offset(zone),
        ),
{
    let clock = written_clock(h, mi, s);
    let t = written_rfc3339(y, m, d, clock, zone);
    let date = y + seq!['-'] + m + seq!['-'] + d;
    let e = date.len() as int;
    assert forall|j: int| 0 <= j < e implies #[trigger] t[j] != 'T' && t[j] != 't' && t[j]
        != ' ' by {
        assert(t[j] == date[j]);
        date_chars(y, m, d, j);
    }
    assert(t[e] == 'T');
    date_end_is(t, 0, e);
    let time = t.subrange(e + 1, t.len() as int);
    assert(time =~= clock + zone);
    let c = clock.len() as int;
    assert forall|j: int| 0 <= j < c implies #[trigger] time[j] != 'Z' && time[j] != 'z' && time[j]
        != '+' by {
        assert(time[j] == clock[j]);
        clock_chars(h, mi, s, j);
    }
    zone_mark_is(time, 0, c);
    assert(zone_start(time) == c);
    assert(time.subrange(0, c) =~= clock);
    assert(time.subrange(c, time.len() as int) =~= zone);
    assert(t.subrange(0, e) =~= date);
    let parts = seq![y, m, d];
    fields_are_read(y);
    fields_are_read(m);
    fields_are_read(d);
    fields_hold_digits(y, '-');
    fields_hold_digits(m, '-');
    fields_hold_digits(d, '-');
    assert(parts.drop_last() =~= seq![y, m]);
    assert(seq![y, m].drop_last() =~= seq![y]);
    assert(spec_join(seq![y], seq!['-']) == y);
    assert(spec_join(seq![y, m], seq!['-']) =~= y + seq!['-'] + m);
    assert(spec_join(parts, seq!['-']) =~= date);
    joined_text_splits_back(parts, '-');
    let one = seq![clock];
    assert(!clock.contains('.')) by {
        if clock.contains('.') {
            let j = clock.index_of('.');
            clock_chars(h, mi, s, j);
        }
    }
    assert(spec_join(one, seq!['.']) == clock);
    joined_text_splits_back(one, '.');
    a_written_clock_is_read(h, mi, s);
}

proof fn date_chars(y: Seq<char>, m: Seq<char>, d: Seq<char>, j: int)
    requires
        is_field(y) && is_field(m) && is_field(d),
        0 <= j < (y + seq!['-'] + m + seq!['-'] + d).len(),
    ensures
        ({
            let c = (y + seq!['-'] + m + seq!['-'] + d)[j];
            c == '-' || spec_is_digit(c)
        }),
{
    let (a, b) = (y.len() as int, y.len() + 1 + m.len());
    if j < a {
        assert(spec_is_digit(y[j]));
    } else if a < j < b {
        assert(spec_is_digit(m[j - a - 1]));
    } else if j > b {
        assert(spec_is_digit(d[j - b - 1]));
    }
}

proof fn clock_chars(h: Seq<char>, m: Seq<char>, s: Seq<char>, j: int)
    requires
        is_field(h) && is_field(m) && is_field(s),
        0 <= j < written_clock(h, m, s).len(),
    ensures
        written_clock(h, m, s)[j] == ':' || spec_is_digit(written_clock(h, m, s)[j]),
{
    let (a, b) = (h.len() as int, h.len() + 1 + m.len());
    if j < a {
        assert(spec_is_digit(h[j]));
    } else if a < j < b {
        assert(spec_is_digit(m[j - a - 1]));
    } else if j > b {
        assert(spec_is_digit(s[j - b - 1]));
    }
}

/// The months come one after another, each known by its first three letters in any case.
pub proof fn months_are_known_by_their_names(k: int, name: Seq<char>)
    requires
        0 <= k < 12,
        name.len() >= 3,
        all_ascii(name),
        spec_lower_all(name).subrange(0, 3) == months()[k],
    ensures
        month_of(in_lower_case(name), 0) == Some(k + 1),
        months()[0] == "jan"@ && months()[1] == "feb"@ && months()[2] == "mar"@ && months()[3]
            == "apr"@ && months()[4] == "may"@ && months()[5] == "jun"@ && months()[6] == "jul"@
            && months()[7] == "aug"@ && months()[8] == "sep"@ && months()[9] == "oct"@
            && months()[10] == "nov"@ && months()[11] == "dec"@,
{
    reveal_strlit("jan");
    assert("jan"@ =~= seq!['j', 'a', 'n']);
    reveal_strlit("feb");
    assert("feb"@ =~= seq!['f', 'e', 'b']);
    reveal_strlit("mar");
    assert("mar"@ =~= seq!['m', 'a', 'r']);
    reveal_strlit("apr");
    assert("apr"@ =~= seq!['a', 'p', 'r']);
    reveal_strlit("may");
    assert("may"@ =~= seq!['m', 'a', 'y']);
    reveal_strlit("jun");
    assert("jun"@ =~= seq!['j', 'u', 'n']);
    reveal_strlit("jul");
    assert("jul"@ =~= seq!['j', 'u', 'l']);
    reveal_strlit("aug");
    assert("aug"@ =~= seq!['a', 'u', 'g']);
    reveal_strlit("sep");
    assert("sep"@ =~= seq!['s', 'e', 'p']);
    reveal_strlit("oct");
    assert("oct"@ =~= seq!['o', 'c', 't']);
    reveal_strlit("nov");
    assert("nov"@ =~= seq!['n', 'o', 'v']);
    reveal_strlit("dec");
    assert("dec"@ =~= seq!['d', 'e', 'c']);
    let low = in_lower_case(name);
    month_is_first(low, k, 0);
}

proof fn month_is_first(low: Seq<char>, k: int, from: int)
    requires
        0 <= from <= k < 12,
        low.len() >= 3,
        low.subrange(0, 3) == months()[k],
        "jan"@ == seq!['j', 'a', 'n'],
        "feb"@ == seq!['f', 'e', 'b'],
        "mar"@ == seq!['m', 'a', 'r'],
        "apr"@ == seq!['a', 'p', 'r'],
        "may"@ == seq!['m', 'a', 'y'],
        "jun"@ == seq!['j', 'u', 'n'],
        "jul"@ == seq!['j', 'u', 'l'],
        "aug"@ == seq!['a', 'u', 'g'],
        "sep"@ == seq!['s', 'e', 'p'],
        "oct"@ == seq!['o', 'c', 't'],
        "nov"@ == seq!['n', 'o', 'v'],
        "dec"@ == seq!['d', 'e', 'c'],
    ensures
        month_of(low, from) == Some(k + 1),
    decreases k - from,
{
    let w = low.subrange(0, 3);
    assert(w.len() == 3);
    assert(w[0] == low[0] && w[1] == low[1] && w[2] == low[2]);
    let m = months()[from];
    if from < k {
        assert(m.len() == 3);
        assert(!(m[0] == w[0] && m[1] == w[1] && m[2] == w[2]));
        assert(!spec_starts_with(low, m)) by {
            if spec_starts_with(low, m) {
                assert(low.subrange(0, 3) == m);
            }
        }
        month_is_first(low, k, from + 1);
    } else {
        assert(spec_starts_with(low, m));
    }
}

/// A date in the way of RFC 822 is read as it is written: day, month, year, clock and zone,
/// with or without the weekday before them; of a year of two digits the century is ours.
pub proof fn a_written_rfc822_date_is_read(
    weekday: Option<Seq<char>>,
    d: Seq<char>,
    month: Seq<char>,
    y: Seq<char>,
    h: Seq<char>,
    mi: Seq<char>,
    s: Seq<char>,
    zone: Seq<char>,
    k: int,
)
    requires
        is_field(d) && is_field(y) && is_field(h) && is_field(mi) && is_field(s),
        field(h) < 24 && field(mi) < 60 && field(s) <= 60,
        is_word(month) && is_word(zone),
        weekday matches Some(w) ==> is_word(w) && w.last() == ',',
        month_of(in_lower_case(month), 0) == Some(k),
    ensures
        ({
            let fields = seq![d, month, y, written_clock(h, mi, s), zone];
            let words = match weekday {
                Some(w) => seq![w] + fields,
                None => fields,
            };
            spec_parse_rfc822(spec_join(words, " "@)) == spec_unix_seconds(
                if field(y) < 100 {
                    field(y) + 2000
                } else {
                    field(y)
                },
                k,
                field(d),
                Clock { h: field(h) as i64, m: field(mi) as i64, s: field(s) as i64 },
                spec_zone_offset(zone),
            )
        }),
{
    let clock = written_clock(h, mi, s);
    let fields = seq![d, month, y, clock, zone];
    let words = match weekday {
        Some(w) => seq![w] + fields,
        None => fields,
    };
    fields_are_words(d);
    fields_are_words(y);
    assert(is_word(clock)) by {
        assert forall|j: int| 0 <= j < clock.len() implies !spec_is_space(#[trigger] clock[j]) by {
            clock_chars(h, mi, s, j);
        }
    }
    assert forall|i: int| 0 <= i < words.len() implies is_word(#[trigger] words[i]) by {
        if weekday is Some && i > 0 {
            assert(words[i] == fields[i - 1]);
        }
    }
    joined_words_are_found_again(words);
    assert(d.last() != ',') by {
        assert(spec_is_digit(d[d.len() - 1]));
    }
    let w = date_words(spec_join(words, " "@));
    assert(w =~= fields) by {
        if weekday is Some {
            assert(words.drop_first() =~= fields);
        }
    }
    fields_are_read(d);
    fields_are_read(y);
    a_written_clock_is_read(h, mi, s);
}

proof fn fields_are_words(s: Seq<char>)
    requires
        is_field(s),
    ensures
        is_word(s),
{
    assert forall|j: int| 0 <= j < s.len() implies !spec_is_space(#[trigger] s[j]) by {
        assert(spec_is_digit(s[j]));
    }
}

/// A year has twelve months of the lengths that everyone knows, every fourth year a day
/// more in its second, but for the hundreds that four hundred does not divide.
pub proof fn a_year_has_its_days(y: int)
    ensures
        days_in_month(y, 2) == if y % 400 == 0 || (y % 4 == 0 && y % 100 != 0) {
            29int
        } else {
            28
        },
        days_in_month(y, 4) == 30 && days_in_month(y, 6) == 30 && days_in_month(y, 9) == 30
            && days_in_month(y, 11) == 30,
        days_in_month(y, 1) == 31 && days_in_month(y, 3) == 31 && days_in_month(y, 5) == 31
            && days_in_month(y, 7) == 31 && days_in_month(y, 8) == 31 && days_in_month(y, 10) == 31
            && days_in_month(y, 12) == 31,
        spec_days(y + 1, 1, 1) - spec_days(y, 1, 1) == 337 + days_in_month(y, 2),
{
    days_follow_the_calendar(y, 1, 1);
    days_follow_the_calendar(y, 2, 1);
    days_follow_the_calendar(y, 3, 1);
    days_follow_the_calendar(y, 4, 1);
    days_follow_the_calendar(y, 5, 1);
    days_follow_the_calendar(y, 6, 1);
    days_follow_the_calendar(y, 7, 1);
    days_follow_the_calendar(y, 8, 1);
    days_follow_the_calendar(y, 9, 1);
    days_follow_the_calendar(y, 10, 1);
    days_follow_the_calendar(y, 11, 1);
    days_follow_the_calendar(y, 12, 1);
}

/// There is no thirteenth month, no thirty-second day, and no day or month before the first.
pub proof fn dates_out_of_range_are_none(y: int, m: int, d: int, clock: Clock, offset: int)
    ensures
        m < 1 || m > 12 || d < 1 || d > 31 || y < 1 || y > 9999 ==> spec_unix_seconds(
            y,
            m,
            d,
            clock,
            offset,
        ) is None,
{
}

} // verus!
