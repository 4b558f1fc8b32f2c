//! Internet addresses in text, as `std` reads them, and which of them are
//! public.
use crate::number::{
    all_digits, decimal_reads_back, digit, digits_value, is_digit_in, spec_decimal,
    spec_digit_char,
};
use vstd::prelude::*;

verus! {

/// Where the run of digits that starts at `i` ends.
pub open spec fn run_end(s: Seq<char>, base: int, i: int) -> int
    decreases s.len() - i,
{
    if i < 0 || i >= s.len() || !is_digit_in(s[i], base) {
        i
    } else {
        run_end(s, base, i + 1)
    }
}

/// A number read from a text, and the index behind it.
#[verifier::ext_equal]
pub struct Read {
    pub value: int,
    pub next: int,
}

/// The number at `i`: the whole run of digits there, which is at most `most`
/// long.
pub open spec fn number_at(s: Seq<char>, base: int, most: int, i: int) -> Option<Read> {
    let e = run_end(s, base, i);
    if e <= i || e - i > most {
        None
    } else {
        Some(Read { value: digits_value(s.subrange(i, e), base), next: e })
    }
}

/// The number of an IPv4 address at `i`: below 256, without a leading zero.
pub open spec fn octet_at(s: Seq<char>, i: int) -> Option<Read> {
    match number_at(s, 10, 3, i) {
        Some(r) if r.value <= 255 && !(s[i] == '0' && r.next - i > 1) => Some(r),
        _ => None,
    }
}

/// An IPv4 address and the index behind it.
#[verifier::ext_equal]
pub struct ReadV4 {
    pub octets: Seq<int>,
    pub next: int,
}

/// The octet at `i` behind a point, which all but the first have.
pub open spec fn next_octet(s: Seq<char>, k: int, i: int) -> Option<Read> {
    if k == 0 {
        octet_at(s, i)
    } else if 0 <= i < s.len() && s[i] == '.' {
        octet_at(s, i + 1)
    } else {
        None
    }
}

/// The octets of an IPv4 address from the `k`th on.
pub open spec fn octets_from(s: Seq<char>, k: int, i: int) -> Option<ReadV4>
    decreases 4 - k,
{
    if k >= 4 {
        Some(ReadV4 { octets: Seq::empty(), next: i })
    } else {
        match next_octet(s, k, i) {
            Some(r) => match octets_from(s, k + 1, r.next) {
                Some(rest) => Some(
                    ReadV4 { octets: seq![r.value] + rest.octets, next: rest.next },
                ),
                None => None,
            },
            None => None,
        }
    }
}

/// The IPv4 address at `i`.
pub open spec fn v4_at(s: Seq<char>, i: int) -> Option<ReadV4> {
    octets_from(s, 0, i)
}

/// Some groups of an IPv6 address, the index behind them, and whether the last
/// two were written as an IPv4 address.
#[verifier::ext_equal]
pub struct ReadGroups {
    pub groups: Seq<int>,
    pub next: int,
    pub v4: bool,
}

/// Where the `k`th group starts: behind a colon, which all but the first have.
pub open spec fn group_start(s: Seq<char>, k: int, i: int) -> Option<int> {
    if k == 0 {
        Some(i)
    } else if 0 <= i < s.len() && s[i] == ':' {
        Some(i + 1)
    } else {
        None
    }
}

/// The groups from the `k`th on, up to `limit` in all. An IPv4 address takes the
/// place of two and ends them.
pub open spec fn groups_from(s: Seq<char>, k: int, limit: int, i: int) -> ReadGroups
    decreases limit - k,
{
    let none = ReadGroups { groups: Seq::empty(), next: i, v4: false };
    if k >= limit {
        none
    } else {
        match group_start(s, k, i) {
            None => none,
            Some(j) => match v4_at(s, j) {
                Some(r) if k < limit - 1 => ReadGroups {
                    groups: seq![
                        r.octets[0] * 256 + r.octets[1],
                        r.octets[2] * 256 + r.octets[3],
                    ],
                    next: r.next,
                    v4: true,
                },
                _ => match number_at(s, 16, 4, j) {
                    Some(r) => {
                        let rest = groups_from(s, k + 1, limit, r.next);
                        ReadGroups { groups: seq![r.value] + rest.groups, ..rest }
                    },
                    None => none,
                },
            },
        }
    }
}

/// So many zeros.
pub open spec fn zeros(n: int) -> Seq<int> {
    Seq::new(n as nat, |i: int| 0)
}

/// The IPv6 address that a whole text is: eight groups, or fewer on either side
/// of `::`, which stands for one or more groups of zero.
pub open spec fn spec_parse_v6(s: Seq<char>) -> Option<Seq<int>> {
    let head = groups_from(s, 0, 8, 0);
    let n = head.groups.len();
    if n == 8 {
        if head.next == s.len() {
            Some(head.groups)
        } else {
            None
        }
    } else if head.v4 || head.next + 1 >= s.len() || s[head.next] != ':' || s[head.next + 1] != ':' {
        None
    } else {
        let tail = groups_from(s, 0, 7 - n, head.next + 2);
        if tail.next == s.len() {
            Some(head.groups + zeros(8 - n - tail.groups.len()) + tail.groups)
        } else {
            None
        }
    }
}

/// The IPv4 address that a whole text is.
pub open spec fn spec_parse_v4(s: Seq<char>) -> Option<Seq<int>> {
    match v4_at(s, 0) {
        Some(r) if r.next == s.len() => Some(r.octets),
        _ => None,
    }
}

// ---------------------------------------------------------------------------
// Reading
// ---------------------------------------------------------------------------

proof fn run_end_bounds(s: Seq<char>, base: int, i: int)
    requires
        0 <= i <= s.len(),
    ensures
        i <= run_end(s, base, i) <= s.len(),
    decreases s.len() - i,
{
    if i < s.len() && is_digit_in(s[i], base) {
        run_end_bounds(s, base, i + 1);
    }
}

fn read_number(s: &[char], base: u32, most: usize, i: usize) -> (r: Option<(u32, usize)>)
    requires
        base == 10 || base == 16,
        1 <= most <= 4,
        i <= s.len(),
    ensures
        match r {
            Some((v, n)) => number_at(s@, base as int, most as int, i as int) == Some(
                Read { value: v as int, next: n as int },
            ) && i < n <= s.len(),
            None => number_at(s@, base as int, most as int, i as int) is None,
        },
{
    let mut value: u32 = 0;
    let mut e: usize = i;
    proof {
        run_end_bounds(s@, base as int, i as int);
        assert(s@.subrange(i as int, i as int) =~= Seq::<char>::empty());
    }
    while e < s.len()
        invariant
            base == 10 || base == 16,
            1 <= most <= 4,
            i <= e <= s.len(),
            e - i <= most,
            run_end(s@, base as int, i as int) == run_end(s@, base as int, e as int),
            value == digits_value(s@.subrange(i as int, e as int), base as int),
            e - i == 0 ==> value == 0,
            e - i == 1 ==> value < 16,
            e - i == 2 ==> value < 256,
            e - i == 3 ==> value < 4096,
            e - i == 4 ==> value < 65536,
        ensures
            i <= e <= s.len(),
            e - i <= most,
            e == run_end(s@, base as int, i as int),
            value == digits_value(s@.subrange(i as int, e as int), base as int),
        decreases s.len() - e,
    {
        let d: u32 = match digit(s[e]) {
            Some(d) => d,
            None => break,
        };
        if d >= base {
            break;
        }
        if e - i == most {
            proof {
                run_end_bounds(s@, base as int, e + 1);
            }
            return None;
        }
        proof {
            let t = s@.subrange(i as int, e + 1);
            assert(t.drop_last() =~= s@.subrange(i as int, e as int));
            assert(t.last() == s@[e as int]);
        }
        value = value * base + d;
        e = e + 1;
    }
    if e == i {
        return None;
    }
    Some((value, e))
}

fn read_octet(s: &[char], i: usize) -> (r: Option<(u8, usize)>)
    requires
        i <= s.len(),
    ensures
        match r {
            Some((v, n)) => octet_at(s@, i as int) == Some(
                Read { value: v as int, next: n as int },
            ) && i < n <= s.len(),
            None => octet_at(s@, i as int) is None,
        },
{
    match read_number(s, 10, 3, i) {
        Some((v, n)) => if v <= 255 && !(s[i] == '0' && n - i > 1) {
            Some((v as u8, n))
        } else {
            None
        },
        None => None,
    }
}

/// An IPv4 address.
#[derive(Clone, Copy, PartialEq, Eq, Structural, Debug)]
pub struct V4 {
    pub a: u8,
    pub b: u8,
    pub c: u8,
    pub d: u8,
}

impl V4 {
    pub open spec fn octets(self) -> Seq<int> {
        seq![self.a as int, self.b as int, self.c as int, self.d as int]
    }
}

fn read_next_octet(s: &[char], first: bool, i: usize) -> (r: Option<(u8, usize)>)
    requires
        i <= s.len(),
    ensures
        match r {
            Some((v, n)) => next_octet(
                s@,
                if first {
                    0
                } else {
                    1
                },
                i as int,
            ) == Some(Read { value: v as int, next: n as int }) && i < n <= s.len(),
            None => next_octet(
                s@,
                if first {
                    0
                } else {
                    1
                },
                i as int,
            ) is None,
        },
{
    if first {
        read_octet(s, i)
    } else if i < s.len() && s[i] == '.' {
        read_octet(s, i + 1)
    } else {
        None
    }
}

fn read_v4(s: &[char], i: usize) -> (r: Option<(V4, usize)>)
    requires
        i <= s.len(),
    ensures
        match r {
            Some((v, n)) => v4_at(s@, i as int) == Some(
                ReadV4 { octets: v.octets(), next: n as int },
            ) && i < n <= s.len(),
            None => v4_at(s@, i as int) is None,
        },
{
    proof {
        reveal_with_fuel(octets_from, 5);
    }
    let (a, i1) = match read_next_octet(s, true, i) {
        Some(x) => x,
        None => return None,
    };
    let (b, i2) = match read_next_octet(s, false, i1) {
        Some(x) => x,
        None => return None,
    };
    let (c, i3) = match read_next_octet(s, false, i2) {
        Some(x) => x,
        None => return None,
    };
    let (d, i4) = match read_next_octet(s, false, i3) {
        Some(x) => x,
        None => return None,
    };
    let v = V4 { a, b, c, d };
    proof {
        let last = seq![d as int] + Seq::<int>::empty();
        let three = seq![c as int] + last;
        let two = seq![b as int] + three;
        assert(seq![a as int] + two =~= v.octets());
        assert(octets_from(s@, 3, i3 as int) == Some(ReadV4 { octets: last, next: i4 as int }));
        assert(octets_from(s@, 2, i2 as int) == Some(ReadV4 { octets: three, next: i4 as int }));
        assert(octets_from(s@, 1, i1 as int) == Some(ReadV4 { octets: two, next: i4 as int }));
    }
    Some((v, i4))
}

/// The values of some groups.
pub open spec fn values(v: Seq<u16>) -> Seq<int> {
    v.map_values(|x: u16| x as int)
}

struct Groups {
    groups: Vec<u16>,
    next: usize,
    v4: bool,
}

fn read_groups(s: &[char], limit: usize, start: usize) -> (r: Groups)
    requires
        limit <= 8,
        start <= s.len(),
    ensures
        groups_from(s@, 0, limit as int, start as int) == (ReadGroups {
            groups: values(r.groups@),
            next: r.next as int,
            v4: r.v4,
        }),
        start <= r.next <= s.len(),
        r.groups@.len() <= limit,
{
    let mut groups: Vec<u16> = Vec::new();
    let mut k: usize = 0;
    let mut i: usize = start;
    let ghost all = groups_from(s@, 0, limit as int, start as int);
    assert(values(groups@) =~= Seq::<int>::empty());
    assert(all.groups =~= values(groups@) + all.groups);
    while k < limit
        invariant
            limit <= 8,
            k <= limit,
            start <= i <= s.len(),
            groups@.len() == k,
            all == groups_from(s@, 0, limit as int, start as int),
            ({
                let rest = groups_from(s@, k as int, limit as int, i as int);
                &&& all.groups == values(groups@) + rest.groups
                &&& all.next == rest.next
                &&& all.v4 == rest.v4
            }),
        decreases limit - k,
    {
        let ghost before = groups@;
        let mut j: usize = i;
        if k > 0 {
            if i >= s.len() || s[i] != ':' {
                assert(all.groups =~= values(groups@));
                return Groups { groups, next: i, v4: false };
            }
            j = i + 1;
        }
        if k + 1 < limit {
            if let Some((v, n)) = read_v4(s, j) {
                let hi: u16 = (v.a as u16) * 256 + (v.b as u16);
                let lo: u16 = (v.c as u16) * 256 + (v.d as u16);
                groups.push(hi);
                groups.push(lo);
                assert(values(groups@) =~= values(before) + seq![hi as int, lo as int]);
                return Groups { groups, next: n, v4: true };
            }
        }
        match read_number(s, 16, 4, j) {
            Some((g, n)) => {
                proof {
                    four_digits_fit(s@, j as int);
                }
                groups.push(g as u16);
                proof {
                    let rest = groups_from(s@, k + 1, limit as int, n as int);
                    assert(values(groups@) =~= values(before).push(g as int));
                    assert(values(groups@) + rest.groups =~= values(before) + (seq![g as int]
                        + rest.groups));
                }
                i = n;
                k = k + 1;
            },
            None => {
                assert(all.groups =~= values(groups@));
                return Groups { groups, next: i, v4: false };
            },
        }
    }
    assert(all.groups =~= values(groups@));
    Groups { groups, next: i, v4: false }
}

proof fn digits_bound(s: Seq<char>)
    requires
        s.len() <= 4,
        forall|i: int| 0 <= i < s.len() ==> is_digit_in(#[trigger] s[i], 16),
    ensures
        0 <= digits_value(s, 16),
        s.len() == 0 ==> digits_value(s, 16) < 1,
        s.len() == 1 ==> digits_value(s, 16) < 16,
        s.len() == 2 ==> digits_value(s, 16) < 256,
        s.len() == 3 ==> digits_value(s, 16) < 4096,
        s.len() == 4 ==> digits_value(s, 16) < 65536,
    decreases s.len(),
{
    if s.len() > 0 {
        let t = s.drop_last();
        assert forall|i: int| 0 <= i < t.len() implies is_digit_in(#[trigger] t[i], 16) by {
            assert(t[i] == s[i]);
        }
        digits_bound(t);
        assert(is_digit_in(s[s.len() - 1], 16));
    }
}

proof fn run_is_digits(s: Seq<char>, base: int, i: int)
    requires
        0 <= i <= s.len(),
    ensures
        forall|j: int| i <= j < run_end(s, base, i) ==> is_digit_in(#[trigger] s[j], base),
    decreases s.len() - i,
{
    if i < s.len() && is_digit_in(s[i], base) {
        run_is_digits(s, base, i + 1);
    }
}

proof fn four_digits_fit(s: Seq<char>, i: int)
    requires
        0 <= i <= s.len(),
    ensures
        number_at(s, 16, 4, i) matches Some(r) ==> 0 <= r.value < 65536,
{
    let e = run_end(s, 16, i);
    run_end_bounds(s, 16, i);
    run_is_digits(s, 16, i);
    if i < e && e - i <= 4 {
        let t = s.subrange(i, e);
        assert forall|j: int| 0 <= j < t.len() implies is_digit_in(#[trigger] t[j], 16) by {
            assert(t[j] == s[i + j]);
        }
        digits_bound(t);
    }
}

/// The IPv4 address that a whole text is.
pub fn parse_v4(s: &[char]) -> (r: Option<V4>)
    ensures
        match r {
            Some(v) => spec_parse_v4(s@) == Some(v.octets()),
            None => spec_parse_v4(s@) is None,
        },
{
    match read_v4(s, 0) {
        Some((v, n)) => if n == s.len() {
            Some(v)
        } else {
            None
        },
        None => None,
    }
}

/// The IPv6 address that a whole text is, as its eight groups.
pub fn parse_v6(s: &[char]) -> (r: Option<Vec<u16>>)
    ensures
        match r {
            Some(v) => spec_parse_v6(s@) == Some(values(v@)) && v@.len() == 8,
            None => spec_parse_v6(s@) is None,
        },
{
    let head = read_groups(s, 8, 0);
    if head.groups.len() == 8 {
        if head.next == s.len() {
            return Some(head.groups);
        }
        return None;
    }
    if head.v4 || s.len() - head.next < 2 || s[head.next] != ':' || s[head.next + 1] != ':' {
        return None;
    }
    let n: usize = head.groups.len();
    let mut tail = read_groups(s, 7 - n, head.next + 2);
    if tail.next != s.len() {
        return None;
    }
    let mut all = head.groups;
    let ghost head_values = values(all@);
    let gap: usize = 8 - n - tail.groups.len();
    let mut k: usize = 0;
    assert(values(all@) =~= head_values + zeros(0));
    while k < gap
        invariant
            k <= gap,
            gap <= 8,
            n <= 8,
            all@.len() == n + k,
            values(all@) == head_values + zeros(k as int),
        decreases gap - k,
    {
        let ghost before = all@;
        all.push(0);
        assert(values(all@) =~= values(before).push(0));
        assert(zeros(k + 1) =~= zeros(k as int).push(0));
        assert(values(all@) =~= head_values + zeros(k + 1));
        k = k + 1;
    }
    let ghost before = all@;
    let ghost tail_groups = tail.groups@;
    all.append(&mut tail.groups);
    assert(values(all@) =~= values(before) + values(tail_groups));
    Some(all)
}

// ---------------------------------------------------------------------------
// Public addresses
// ---------------------------------------------------------------------------

/// Whether an IPv4 address is one of the public internet: not loopback,
/// private, link-local, broadcast, for documentation, multicast, of this
/// network, or shared between a carrier's customers.
pub open spec fn spec_is_public_v4(v: V4) -> bool {
    !{
        ||| v.a == 127
        ||| v.a == 10
        ||| v.a == 172 && 16 <= v.b <= 31
        ||| v.a == 192 && v.b == 168
        ||| v.a == 169 && v.b == 254
        ||| v.a == 255 && v.b == 255 && v.c == 255 && v.d == 255
        ||| v.a == 192 && v.b == 0 && v.c == 2
        ||| v.a == 198 && v.b == 51 && v.c == 100
        ||| v.a == 203 && v.b == 0 && v.c == 113
        ||| 224 <= v.a <= 239
        ||| v.a == 0
        ||| v.a == 100 && 64 <= v.b <= 127
    }
}

/// Whether an IPv4 address is one of the public internet.
pub fn is_public_v4(v: V4) -> (r: bool)
    ensures
        r == spec_is_public_v4(v),
{
    !(v.a == 127 || v.a == 10 || (v.a == 172 && 16 <= v.b && v.b <= 31) || (v.a == 192 && v.b
        == 168) || (v.a == 169 && v.b == 254) || (v.a == 255 && v.b == 255 && v.c == 255 && v.d
        == 255) || (v.a == 192 && v.b == 0 && v.c == 2) || (v.a == 198 && v.b == 51 && v.c == 100)
        || (v.a == 203 && v.b == 0 && v.c == 113) || (224 <= v.a && v.a <= 239) || v.a == 0 || (v.a
        == 100 && 64 <= v.b && v.b <= 127))
}

/// The IPv4 address that an IPv6 address maps, if it does.
pub open spec fn mapped_v4(g: Seq<int>) -> Option<V4> {
    if g[0] == 0 && g[1] == 0 && g[2] == 0 && g[3] == 0 && g[4] == 0 && g[5] == 0xffff {
        Some(
            V4 {
                a: (g[6] / 256) as u8,
                b: (g[6] % 256) as u8,
                c: (g[7] / 256) as u8,
                d: (g[7] % 256) as u8,
            },
        )
    } else {
        None
    }
}

/// Whether an IPv6 address is one of the public internet: not one that maps an
/// IPv4 address which is not, not unspecified, loopback, multicast, of a
/// private network, or link-local.
pub open spec fn spec_is_public_v6(g: Seq<int>) -> bool {
    match mapped_v4(g) {
        Some(v) => spec_is_public_v4(v),
        None => !{
            ||| (forall|i: int| 0 <= i < 7 ==> #[trigger] g[i] == 0) && (g[7] == 0 || g[7] == 1)
            ||| 0xff00 <= g[0]
            ||| 0xfc00 <= g[0] <= 0xfdff
            ||| 0xfe80 <= g[0] <= 0xfebf
        },
    }
}

/// Whether an IPv6 address is one of the public internet.
pub fn is_public_v6(g: &Vec<u16>) -> (r: bool)
    requires
        g.len() == 8,
    ensures
        r == spec_is_public_v6(values(g@)),
{
    let ghost v = values(g@);
    let low = g[0] == 0 && g[1] == 0 && g[2] == 0 && g[3] == 0 && g[4] == 0;
    if low && g[5] == 0xffff {
        let m = V4 {
            a: (g[6] / 256) as u8,
            b: (g[6] % 256) as u8,
            c: (g[7] / 256) as u8,
            d: (g[7] % 256) as u8,
        };
        assert(v[6] == g@[6] && v[7] == g@[7]);
        assert(mapped_v4(v) == Some(m));
        return is_public_v4(m);
    }
    let nearly_zero = low && g[5] == 0 && g[6] == 0 && (g[7] == 0 || g[7] == 1);
    assert(nearly_zero == ((forall|i: int| 0 <= i < 7 ==> #[trigger] v[i] == 0) && (v[7] == 0 || v[7]
        == 1))) by {
        if nearly_zero {
            assert forall|i: int| 0 <= i < 7 implies #[trigger] v[i] == 0 by {
                assert(i == 0 || i == 1 || i == 2 || i == 3 || i == 4 || i == 5 || i == 6);
            }
        } else {
            assert(v[0] == g@[0] && v[1] == g@[1] && v[2] == g@[2] && v[3] == g@[3] && v[4] == g@[4]
                && v[5] == g@[5] && v[6] == g@[6] && v[7] == g@[7]);
        }
    }
    !(nearly_zero || 0xff00 <= g[0] || (0xfc00 <= g[0] && g[0] <= 0xfdff) || (0xfe80 <= g[0] && g[0]
        <= 0xfebf))
}

/// Whether a text is an address, and if so whether it is a public one.
pub open spec fn spec_public_ip(s: Seq<char>) -> Option<bool> {
    match spec_parse_v4(s) {
        Some(o) => Some(
            spec_is_public_v4(V4 { a: o[0] as u8, b: o[1] as u8, c: o[2] as u8, d: o[3] as u8 }),
        ),
        None => match spec_parse_v6(s) {
            Some(g) => Some(spec_is_public_v6(g)),
            None => None,
        },
    }
}

/// Whether a text is an address, and if so whether it is a public one.
pub fn public_ip(s: &[char]) -> (r: Option<bool>)
    ensures
        r == spec_public_ip(s@),
{
    if let Some(v) = parse_v4(s) {
        return Some(is_public_v4(v));
    }
    match parse_v6(s) {
        Some(g) => Some(is_public_v6(&g)),
        None => None,
    }
}

/// An address that maps a private IPv4 address is as private as that.
pub proof fn mapped_addresses_are_no_way_around(g: Seq<int>)
    requires
        g.len() == 8,
        mapped_v4(g) is Some,
    ensures
        spec_is_public_v6(g) == spec_is_public_v4(mapped_v4(g)->0),
{
}

// ---------------------------------------------------------------------------
// Laws
// ---------------------------------------------------------------------------

/// An address as one number.
pub open spec fn address(v: V4) -> int {
    ((v.a * 256 + v.b) * 256 + v.c) * 256 + v.d
}

/// Whether an address is in the block that begins at another and leaves some bits free.
pub open spec fn in_block(v: V4, a: int, b: int, c: int, size: int) -> bool {
    let first = ((a * 256 + b) * 256 + c) * 256;
    first <= address(v) < first + size
}

/// The addresses that are not public are these blocks: this network, private use, shared
/// space, loopback, link-local, documentation, multicast, and broadcast.
pub proof fn what_is_not_public(v: V4)
    ensures
        spec_is_public_v4(v) <==> !({
            ||| in_block(v, 0, 0, 0, 0x100_0000)
            ||| in_block(v, 10, 0, 0, 0x100_0000)
            ||| in_block(v, 100, 64, 0, 0x40_0000)
            ||| in_block(v, 127, 0, 0, 0x100_0000)
            ||| in_block(v, 169, 254, 0, 0x1_0000)
            ||| in_block(v, 172, 16, 0, 0x10_0000)
            ||| in_block(v, 192, 0, 2, 0x100)
            ||| in_block(v, 192, 168, 0, 0x1_0000)
            ||| in_block(v, 198, 51, 100, 0x100)
            ||| in_block(v, 203, 0, 113, 0x100)
            ||| in_block(v, 224, 0, 0, 0x1000_0000)
            ||| address(v) == 0xffff_ffff
        }),
{
}

/// Of the addresses of version 6 those are not public that are loopback, unspecified,
/// multicast, local to a site or to a link, told by their leading bits.
pub proof fn what_is_not_public_in_v6(g: Seq<int>)
    requires
        g.len() == 8,
        forall|i: int| 0 <= i < 8 ==> 0 <= #[trigger] g[i] < 0x1_0000,
        g[0] != 0,
    ensures
        spec_is_public_v6(g) <==> g[0] / 0x100 != 0xff && g[0] / 0x200 != 0x7e && g[0] / 0x40
            != 0x3fa,
{
}

/// Neither the unspecified address nor the loopback one is public.
pub proof fn loopback_is_not_public(g: Seq<int>)
    requires
        g.len() == 8,
        forall|i: int| 0 <= i < 7 ==> #[trigger] g[i] == 0,
        g[7] == 0 || g[7] == 1,
    ensures
        !spec_is_public_v6(g),
{
    assert(g[5] == 0);
}

/// An address that carries one of version 4 is public where that one is: its last two
/// groups are the four numbers.
pub proof fn carried_addresses_are_judged_as_such(v: V4)
    ensures
        spec_is_public_v6(seq![0, 0, 0, 0, 0, 0xffff, v.a * 256 + v.b, v.c * 256 + v.d])
            == spec_is_public_v4(v),
{
    let g = seq![0, 0, 0, 0, 0, 0xffff, v.a * 256 + v.b, v.c * 256 + v.d];
    assert(g[6] / 256 == v.a && g[6] % 256 == v.b && g[7] / 256 == v.c && g[7] % 256 == v.d);
    assert(mapped_v4(g) == Some(v));
}

proof fn run_ends(s: Seq<char>, base: int, i: int, e: int)
    requires
        0 <= i <= e <= s.len(),
        forall|j: int| i <= j < e ==> is_digit_in(#[trigger] s[j], base),
        e < s.len() ==> !is_digit_in(s[e], base),
    ensures
        run_end(s, base, i) == e,
    decreases e - i,
{
    if i < e {
        run_ends(s, base, i + 1, e);
    }
}

proof fn octet_text(n: nat)
    requires
        n < 256,
    ensures
        0 < spec_decimal(n).len() <= 3,
        all_digits(spec_decimal(n), 10),
        digits_value(spec_decimal(n), 10) == n,
        spec_decimal(n).len() > 1 ==> spec_decimal(n)[0] != '0',
{
    decimal_reads_back(n);
    reveal_with_fuel(spec_decimal, 4);
    if n >= 100 {
        assert((n / 10) / 10 < 10);
        assert(spec_decimal(n)[0] == spec_digit_char((n / 100) as int));
    }
}

proof fn an_octet_is_read(s: Seq<char>, i: int, n: nat)
    requires
        n < 256,
        0 <= i,
        i + spec_decimal(n).len() <= s.len(),
        s.subrange(i, i + spec_decimal(n).len()) == spec_decimal(n),
        i + spec_decimal(n).len() < s.len() ==> s[i + spec_decimal(n).len()] == '.',
    ensures
        octet_at(s, i) == Some(Read { value: n as int, next: i + spec_decimal(n).len() }),
{
    let d = spec_decimal(n);
    let e = i + d.len();
    octet_text(n);
    assert forall|j: int| i <= j < e implies is_digit_in(#[trigger] s[j], 10) by {
        assert(s.subrange(i, e)[j - i] == s[j]);
        assert(is_digit_in(d[j - i], 10));
    }
    run_ends(s, 10, i, e);
    assert(s[i] == d[0]) by {
        assert(s.subrange(i, e)[0] == s[i]);
    }
}

/// Four numbers with dots between.
pub open spec fn dotted(v: V4) -> Seq<char> {
    spec_decimal(v.a as nat) + seq!['.'] + spec_decimal(v.b as nat) + seq!['.'] + spec_decimal(
        v.c as nat,
    ) + seq!['.'] + spec_decimal(v.d as nat)
}

/// Where the `k`th number of an address ends in its text.
spec fn number_end(v: V4, k: int) -> int {
    let (a, b, c, d) = (
        spec_decimal(v.a as nat).len() as int,
        spec_decimal(v.b as nat).len() as int,
        spec_decimal(v.c as nat).len() as int,
        spec_decimal(v.d as nat).len() as int,
    );
    if k <= 0 {
        a
    } else if k == 1 {
        a + 1 + b
    } else if k == 2 {
        a + 1 + b + 1 + c
    } else {
        a + 1 + b + 1 + c + 1 + d
    }
}

proof fn first_half_is_read(v: V4)
    ensures
        next_octet(dotted(v), 0, 0) == Some(Read { value: v.a as int, next: number_end(v, 0) }),
        next_octet(dotted(v), 1, number_end(v, 0)) == Some(
            Read { value: v.b as int, next: number_end(v, 1) },
        ),
{
    let s = dotted(v);
    let (i1, i2) = (number_end(v, 0), number_end(v, 1));
    assert(s.subrange(0, i1) =~= spec_decimal(v.a as nat));
    assert(s.subrange(i1 + 1, i2) =~= spec_decimal(v.b as nat));
    assert(s[i1] == '.' && s[i2] == '.');
    an_octet_is_read(s, 0, v.a as nat);
    an_octet_is_read(s, i1 + 1, v.b as nat);
}

proof fn second_half_is_read(v: V4)
    ensures
        dotted(v).len() == number_end(v, 3),
        next_octet(dotted(v), 2, number_end(v, 1)) == Some(
            Read { value: v.c as int, next: number_end(v, 2) },
        ),
        next_octet(dotted(v), 3, number_end(v, 2)) == Some(
            Read { value: v.d as int, next: number_end(v, 3) },
        ),
{
    let s = dotted(v);
    let (i2, i3, i4) = (number_end(v, 1), number_end(v, 2), number_end(v, 3));
    assert(s.subrange(i2 + 1, i3) =~= spec_decimal(v.c as nat));
    assert(s.subrange(i3 + 1, i4) =~= spec_decimal(v.d as nat));
    assert(s[i2] == '.' && s[i3] == '.' && s.len() == i4);
    an_octet_is_read(s, i2 + 1, v.c as nat);
    an_octet_is_read(s, i3 + 1, v.d as nat);
}

proof fn one_more_octet(s: Seq<char>, k: int, i: int, r: Read, octets: Seq<int>, end: int)
    requires
        0 <= k < 4,
        next_octet(s, k, i) == Some(r),
        octets_from(s, k + 1, r.next) == Some(ReadV4 { octets, next: end }),
    ensures
        octets_from(s, k, i) == Some(ReadV4 { octets: seq![r.value] + octets, next: end }),
{
}

/// An address of version 4 is read as it is written, its four numbers in their order.
pub proof fn a_written_address_is_read(v: V4)
    ensures
        spec_parse_v4(dotted(v)) == Some(seq![v.a as int, v.b as int, v.c as int, v.d as int]),
{
    first_half_is_read(v);
    second_half_is_read(v);
    octets_are_put_together(
        dotted(v),
        v,
        number_end(v, 0),
        number_end(v, 1),
        number_end(v, 2),
        number_end(v, 3),
    );
}

proof fn octets_are_put_together(s: Seq<char>, v: V4, i1: int, i2: int, i3: int, i4: int)
    requires
        next_octet(s, 0, 0) == Some(Read { value: v.a as int, next: i1 }),
        next_octet(s, 1, i1) == Some(Read { value: v.b as int, next: i2 }),
        next_octet(s, 2, i2) == Some(Read { value: v.c as int, next: i3 }),
        next_octet(s, 3, i3) == Some(Read { value: v.d as int, next: i4 }),
        s.len() == i4,
    ensures
        spec_parse_v4(s) == Some(seq![v.a as int, v.b as int, v.c as int, v.d as int]),
{
    let none = Seq::<int>::empty();
    let (a, b, c, d) = (v.a as int, v.b as int, v.c as int, v.d as int);
    assert(octets_from(s, 4, i4) == Some(ReadV4 { octets: none, next: i4 }));
    one_more_octet(s, 3, i3, Read { value: d, next: i4 }, none, i4);
    one_more_octet(s, 2, i2, Read { value: c, next: i3 }, seq![d] + none, i4);
    one_more_octet(s, 1, i1, Read { value: b, next: i2 }, seq![c] + (seq![d] + none), i4);
    one_more_octet(
        s,
        0,
        0,
        Read { value: a, next: i1 },
        seq![b] + (seq![c] + (seq![d] + none)),
        i4,
    );
    assert(seq![a] + (seq![b] + (seq![c] + (seq![d] + none))) =~= seq![a, b, c, d]);
}

/// Whether a text is a group of an address of version 6.
pub open spec fn is_group(s: Seq<char>) -> bool {
    all_digits(s, 16) && s.len() <= 4
}

/// Groups behind one another from the `k`th on, a colon before each but the first of all.
pub open spec fn written_groups(groups: Seq<Seq<char>>, k: int) -> Seq<char>
    decreases groups.len() - k,
{
    if k < 0 || k >= groups.len() {
        seq![]
    } else {
        (if k == 0 {
            seq![]
        } else {
            seq![':']
        }) + groups[k] + written_groups(groups, k + 1)
    }
}

proof fn no_v4_without_dots(s: Seq<char>, i: int)
    requires
        0 <= i <= s.len(),
        !s.contains('.'),
    ensures
        v4_at(s, i) is None,
{
    run_end_bounds(s, 10, i);
    if let Some(r) = next_octet(s, 0, i) {
        if 0 <= r.next < s.len() {
            assert(s.contains(s[r.next]));
        }
        assert(next_octet(s, 1, r.next) is None);
        assert(octets_from(s, 1, r.next) is None);
    }
}

proof fn groups_are_read(s: Seq<char>, groups: Seq<Seq<char>>, k: int, i: int)
    requires
        groups.len() == 8,
        forall|j: int| 0 <= j < 8 ==> is_group(#[trigger] groups[j]),
        0 <= k <= 8,
        0 <= i <= s.len(),
        s.subrange(i, s.len() as int) == written_groups(groups, k),
        !s.contains('.'),
    ensures
        ({
            let r = groups_from(s, k, 8, i);
            &&& r.next == s.len()
            &&& !r.v4
            &&& r.groups == Seq::new((8 - k) as nat, |j: int| digits_value(groups[k + j], 16))
        }),
    decreases 8 - k,
{
    let rest = s.subrange(i, s.len() as int);
    if k < 8 {
        let g = groups[k];
        assert(is_group(g));
        let mark = if k == 0 {
            0int
        } else {
            1int
        };
        let j = i + mark;
        let tail = written_groups(groups, k + 1);
        assert(rest.len() == mark + g.len() + tail.len());
        if k > 0 {
            assert(rest[0] == ':');
            assert(s[i] == ':');
        }
        let e = j + g.len();
        assert forall|x: int| j <= x < e implies is_digit_in(#[trigger] s[x], 16) by {
            assert(rest[x - i] == s[x]);
            assert(rest[x - i] == g[x - j]);
            assert(is_digit_in(g[x - j], 16));
        }
        assert(s.subrange(j, e) =~= g) by {
            assert forall|x: int| 0 <= x < g.len() implies s.subrange(j, e)[x] == #[trigger] g[x] by {
                assert(rest[mark + x] == s[j + x]);
                assert(rest[mark + x] == g[x]);
            }
        }
        if e < s.len() {
            assert(tail[0] == ':');
            assert(rest[e - i] == tail[0]);
            assert(s[e] == ':');
        }
        run_ends(s, 16, j, e);
        no_v4_without_dots(s, j);
        assert(s.subrange(e, s.len() as int) =~= tail) by {
            assert forall|x: int| 0 <= x < tail.len() implies s.subrange(e, s.len() as int)[x]
                == #[trigger] tail[x] by {
                assert(rest[e - i + x] == s[e + x]);
                assert(rest[e - i + x] == tail[x]);
            }
        }
        groups_are_read(s, groups, k + 1, e);
        let r = groups_from(s, k, 8, i);
        assert(r.groups =~= Seq::new((8 - k) as nat, |x: int| digits_value(groups[k + x], 16)));
    } else {
        assert(rest.len() == 0);
        assert(groups_from(s, 8, 8, i).groups =~= Seq::new(
            0,
            |x: int| digits_value(groups[k + x], 16),
        ));
    }
}

/// An address of version 6 that is written in full is read as it is written, its eight
/// groups in their order.
pub proof fn a_written_v6_address_is_read(groups: Seq<Seq<char>>)
    requires
        groups.len() == 8,
        forall|j: int| 0 <= j < 8 ==> is_group(#[trigger] groups[j]),
    ensures
        spec_parse_v6(written_groups(groups, 0)) == Some(
            Seq::new(8, |j: int| digits_value(groups[j], 16)),
        ),
{
    let s = written_groups(groups, 0);
    groups_hold_no_dot(groups, 0);
    assert(s.subrange(0, s.len() as int) =~= s);
    groups_are_read(s, groups, 0, 0);
    assert(groups_from(s, 0, 8, 0).groups =~= Seq::new(8, |j: int| digits_value(groups[j], 16)));
}

proof fn groups_hold_no_dot(groups: Seq<Seq<char>>, k: int)
    requires
        groups.len() == 8,
        forall|j: int| 0 <= j < 8 ==> is_group(#[trigger] groups[j]),
        0 <= k <= 8,
    ensures
        !written_groups(groups, k).contains('.'),
    decreases 8 - k,
{
    if k < 8 {
        groups_hold_no_dot(groups, k + 1);
        let s = written_groups(groups, k);
        let g = groups[k];
        let tail = written_groups(groups, k + 1);
        let mark = if k == 0 {
            0int
        } else {
            1int
        };
        if s.contains('.') {
            let i = s.index_of('.');
            if mark <= i < mark + g.len() {
                assert(s[i] == g[i - mark]);
                assert(is_digit_in(g[i - mark], 16));
            } else if i >= mark + g.len() {
                assert(s[i] == tail[i - mark - g.len()]);
                assert(tail.contains('.'));
            }
        }
    }
}

} // verus!
