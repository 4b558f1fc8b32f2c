//! The navigation layer of a map: its modes, its pins and its route.
use crate::number::{decimal_reads_back, parse_unsigned, spec_decimal, spec_parse_unsigned};
use crate::text::{
    is_trimmed, joined_text_splits_back, same_text, spec_is_digit, spec_join, spec_split, spec_trim,
    spells, split, texts, to_chars, to_text, trim, trimming_keeps,
};
use vstd::prelude::*;
use vstd::string::StringSliceAdditionalSpecFns;

verus! {

#[derive(Clone, Copy, PartialEq, Eq, Structural, Debug)]
pub enum NavKind {
    /// A map like any other.
    Off,
    /// Tilted, behind the vehicle, with its heading up.
    Chase3d,
    /// From above, with the heading up or with the whole route in view.
    HeadingUp2d,
}

pub open spec fn spec_nav_kind(mode: Seq<char>) -> NavKind {
    let m = spec_trim(mode);
    if m == "3d"@ || m == "3D"@ || m == "follow3d"@ {
        NavKind::Chase3d
    } else if m == "2d"@ || m == "2D"@ || m == "plan"@ || m == "follow"@ {
        NavKind::HeadingUp2d
    } else {
        NavKind::Off
    }
}

/// How a mode shows the route.
pub fn nav_kind(mode: &str) -> (r: NavKind)
    ensures
        r == spec_nav_kind(mode@),
{
    let chars = to_chars(mode);
    let m = trim(chars.as_slice());
    if spells(m, "3d") || spells(m, "3D") || spells(m, "follow3d") {
        NavKind::Chase3d
    } else if spells(m, "2d") || spells(m, "2D") || spells(m, "plan") || spells(m, "follow") {
        NavKind::HeadingUp2d
    } else {
        NavKind::Off
    }
}

/// Whether a mode shows the whole route, and does not move.
pub fn is_plan(mode: &str) -> (r: bool)
    ensures
        r == (spec_trim(mode@) == "plan"@),
{
    let chars = to_chars(mode);
    spells(trim(chars.as_slice()), "plan")
}

/// Whether the camera goes where the device is, and nowhere on its own.
pub fn is_follow(mode: &str) -> (r: bool)
    ensures
        r == (spec_trim(mode@) == "follow"@ || spec_trim(mode@) == "follow3d"@),
{
    let chars = to_chars(mode);
    let m = trim(chars.as_slice());
    spells(m, "follow") || spells(m, "follow3d")
}

/// A plan and a follow are modes, and no mode is both.
pub proof fn plans_do_not_follow(mode: Seq<char>)
    ensures
        spec_trim(mode) == "plan"@ ==> spec_nav_kind(mode) is HeadingUp2d,
        spec_trim(mode) == "follow"@ ==> spec_nav_kind(mode) is HeadingUp2d,
        spec_trim(mode) == "follow3d"@ ==> spec_nav_kind(mode) is Chase3d,
        !(spec_trim(mode) == "plan"@ && (spec_trim(mode) == "follow"@ || spec_trim(mode)
            == "follow3d"@)),
{
    reveal_strlit("plan");
    reveal_strlit("follow");
    reveal_strlit("follow3d");
    reveal_strlit("3d");
    reveal_strlit("3D");
    reveal_strlit("2d");
    reveal_strlit("2D");
    assert("plan"@.len() == 4 && "follow"@.len() == 6 && "follow3d"@.len() == 8);
    assert("3d"@.len() == 2 && "3D"@.len() == 2);
}

// ---------------------------------------------------------------------------
// Pins
// ---------------------------------------------------------------------------

/// A pin as it is written: two coordinates, and a kind.
pub struct MarkerText {
    pub lat: String,
    pub lon: String,
    /// 0 for where the route begins, 2 for where it ends, else a stop.
    pub kind: u8,
}

pub struct MarkerTextView {
    pub lat: Seq<char>,
    pub lon: Seq<char>,
    pub kind: int,
}

impl View for MarkerText {
    type V = MarkerTextView;

    open spec fn view(&self) -> MarkerTextView {
        MarkerTextView { lat: self.lat@, lon: self.lon@, kind: self.kind as int }
    }
}

/// What a list of pins says.
pub open spec fn markers(v: Seq<MarkerText>) -> Seq<MarkerTextView> {
    v.map_values(|m: MarkerText| m@)
}

/// The pin that a part of the list is, if it names two coordinates: one without a
/// kind is a stop.
pub open spec fn marker(part: Seq<char>) -> Option<MarkerTextView> {
    let f = spec_split(part, ',', 0);
    if f.len() < 2 {
        None
    } else {
        Some(
            MarkerTextView {
                lat: spec_trim(f[0]),
                lon: spec_trim(f[1]),
                kind: if f.len() > 2 {
                    match spec_parse_unsigned(spec_trim(f[2]), 255) {
                        Some(k) => k,
                        None => 1,
                    }
                } else {
                    1
                },
            },
        )
    }
}

/// The pins of the first `n` parts.
pub open spec fn markers_of(parts: Seq<Seq<char>>, n: int) -> Seq<MarkerTextView>
    decreases n,
{
    if n <= 0 {
        seq![]
    } else {
        let before = markers_of(parts, n - 1);
        match marker(parts[n - 1]) {
            Some(m) => before.push(m),
            None => before,
        }
    }
}

fn read_marker(part: &[char]) -> (r: Option<MarkerText>)
    ensures
        match r {
            Some(m) => marker(part@) == Some(m@),
            None => marker(part@) is None,
        },
{
    let f = split(part, ',');
    assert(texts(f@).len() == f@.len());
    if f.len() < 2 {
        return None;
    }
    assert(texts(f@)[0] == f@[0]@ && texts(f@)[1] == f@[1]@);
    let kind: u8 = if f.len() > 2 {
        assert(texts(f@)[2] == f@[2]@);
        match parse_unsigned(trim(f[2]), 255) {
            Some(k) => k as u8,
            None => 1,
        }
    } else {
        1
    };
    Some(MarkerText { lat: to_text(trim(f[0])), lon: to_text(trim(f[1])), kind })
}

/// The pins of a list such as `lat,lon,kind;lat,lon`, with their coordinates as they
/// are written.
pub fn parse_route_markers(s: &str) -> (r: Vec<MarkerText>)
    ensures
        markers(r@) == markers_of(
            spec_split(s@, ';', 0),
            spec_split(s@, ';', 0).len() as int,
        ),
{
    let chars = to_chars(s);
    let parts = split(chars.as_slice(), ';');
    let ghost all = spec_split(s@, ';', 0);
    assert(texts(parts@).len() == parts@.len());
    let mut r: Vec<MarkerText> = Vec::new();
    let mut i: usize = 0;
    assert(markers(r@) =~= seq![]);
    while i < parts.len()
        invariant
            i <= parts.len(),
            texts(parts@) == all,
            parts@.len() == all.len(),
            markers(r@) == markers_of(all, i as int),
        decreases parts.len() - i,
    {
        assert(texts(parts@)[i as int] == parts@[i as int]@);
        if let Some(m) = read_marker(parts[i]) {
            let ghost before = r@;
            r.push(m);
            assert(markers(r@) =~= markers(before).push(m@));
        }
        i = i + 1;
    }
    r
}

/// The color of a pin in hundredths: green where the route begins, red where it
/// ends, amber for a stop.
pub open spec fn spec_marker_color(kind: u8) -> Seq<u8> {
    if kind == 0 {
        seq![16u8, 66u8, 36u8]
    } else if kind == 2 {
        seq![88u8, 24u8, 20u8]
    } else {
        seq![95u8, 62u8, 12u8]
    }
}

/// The color of a pin in hundredths.
pub fn marker_color(kind: u8) -> (r: [u8; 3])
    ensures
        r@ == spec_marker_color(kind),
{
    let r: [u8; 3] = if kind == 0 {
        [16, 66, 36]
    } else if kind == 2 {
        [88, 24, 20]
    } else {
        [95, 62, 12]
    };
    assert(r@ =~= seq![r@[0], r@[1], r@[2]]);
    r
}

// ---------------------------------------------------------------------------
// Routes
// ---------------------------------------------------------------------------

/// A place on a route, in hundred-thousandths of a degree.
#[derive(Clone, Copy, PartialEq, Eq, Structural, Debug)]
pub struct RoutePoint {
    pub lat: i64,
    pub lon: i64,
}

/// A number of an encoded route.
pub enum Piece {
    /// The text ends in the middle of a number, or holds what is none.
    Cut,
    /// The number does not fit.
    Long,
    /// The number, and where the next one begins.
    Number { value: int, next: int },
}

/// A number in 64 bits, with a sign.
pub open spec fn wrapped(n: int) -> int {
    let m = n % 0x1_0000_0000_0000_0000;
    if m >= 0x8000_0000_0000_0000 {
        m - 0x1_0000_0000_0000_0000
    } else {
        m
    }
}

/// The number whose double, or whose double's complement where it is odd, is given.
pub open spec fn unfolded(n: int) -> int {
    if n % 2 == 0 {
        n / 2
    } else {
        -(n / 2) - 1
    }
}

/// The number that begins at `i`, with what the chunks before it count: each chunk
/// is five bits, the lowest ones first, and the last one is less than 32.
pub open spec fn piece(bytes: Seq<u8>, i: int, chunks: int, scale: int, sum: int) -> Piece
    decreases bytes.len() - i,
{
    if i < 0 || i >= bytes.len() || bytes[i] < 63 {
        Piece::Cut
    } else if chunks >= 13 {
        Piece::Long
    } else {
        let b = bytes[i] - 63;
        let now = sum + (b % 32) * scale;
        if b < 32 {
            Piece::Number { value: unfolded(wrapped(now)), next: i + 1 }
        } else {
            piece(bytes, i + 1, chunks + 1, scale * 32, now)
        }
    }
}

pub open spec fn fits(n: int) -> bool {
    i64::MIN <= n <= i64::MAX
}

/// The places that begin at `i`, after those that came before: each is given by its
/// way from the one before. A route ends where a number is cut off. None where a
/// number does not fit.
pub open spec fn places(bytes: Seq<u8>, i: int, lat: int, lon: int, before: Seq<RoutePoint>) -> Option<
    Seq<RoutePoint>,
>
    decreases bytes.len() - i,
{
    if i < 0 || i >= bytes.len() {
        Some(before)
    } else {
        match piece(bytes, i, 0, 1, 0) {
            Piece::Cut => Some(before),
            Piece::Long => None,
            Piece::Number { value: dlat, next: j } => if j <= i {
                None
            } else {
                match piece(bytes, j, 0, 1, 0) {
                    Piece::Cut => Some(before),
                    Piece::Long => None,
                    Piece::Number { value: dlon, next: k } => if !(i < k <= bytes.len()) || !fits(lat + dlat) || !fits(
                        lon + dlon,
                    ) {
                        None
                    } else {
                        places(
                            bytes,
                            k,
                            lat + dlat,
                            lon + dlon,
                            before.push(
                                RoutePoint { lat: (lat + dlat) as i64, lon: (lon + dlon) as i64 },
                            ),
                        )
                    },
                }
            },
        }
    }
}

/// What was read of a number.
enum Chunked {
    Cut,
    Long,
    Number { value: i64, next: usize },
}

proof fn piece_moves_on(bytes: Seq<u8>, i: int, chunks: int, scale: int, sum: int)
    ensures
        piece(bytes, i, chunks, scale, sum) matches Piece::Number { next, value } ==> i < next
            <= bytes.len() && fits(value),
    decreases bytes.len() - i,
{
    if 0 <= i < bytes.len() && bytes[i] >= 63 && chunks < 13 {
        let b = bytes[i] - 63;
        let now = sum + (b % 32) * scale;
        if b >= 32 {
            piece_moves_on(bytes, i + 1, chunks + 1, scale * 32, now);
        }
    }
}

fn read_piece(bytes: &[u8], from: usize) -> (r: Chunked)
    requires
        from <= bytes.len(),
    ensures
        match r {
            Chunked::Cut => piece(bytes@, from as int, 0, 1, 0) is Cut,
            Chunked::Long => piece(bytes@, from as int, 0, 1, 0) is Long,
            Chunked::Number { value, next } => piece(bytes@, from as int, 0, 1, 0) == (
            Piece::Number { value: value as int, next: next as int }) && from < next
                <= bytes.len(),
        },
{
    let mut i: usize = from;
    let mut chunks: u32 = 0;
    let mut scale: u128 = 1;
    let mut sum: u128 = 0;
    loop
        invariant
            from <= i <= bytes.len(),
            chunks <= 13,
            scale <= 0x1_0000_0000_0000_0000_0000_0000,
            sum < scale,
            scale == pow32(chunks as int),
            piece(bytes@, from as int, 0, 1, 0) == piece(
                bytes@,
                i as int,
                chunks as int,
                scale as int,
                sum as int,
            ),
        decreases bytes.len() - i,
    {
        if i >= bytes.len() || bytes[i] < 63 {
            return Chunked::Cut;
        }
        if chunks >= 13 {
            return Chunked::Long;
        }
        let b: u8 = bytes[i] - 63;
        proof {
            pow32_bound(chunks as int);
            let d = (b % 32) as int;
            let sc = scale as int;
            assert(0 <= d * sc <= 31 * sc) by (nonlinear_arith)
                requires
                    0 <= d <= 31,
                    0 <= sc,
            ;
        }
        let now: u128 = sum + (b % 32) as u128 * scale;
        if b < 32 {
            let low: u64 = (now % 0x1_0000_0000_0000_0000) as u64;
            let half: u64 = low / 2;
            let value: i64 = if low >= 0x8000_0000_0000_0000 {
                // The half of a negative number, rounded down.
                let h: i64 = (half as i128 - 0x8000_0000_0000_0000) as i64;
                if low % 2 == 0 {
                    h
                } else {
                    0 - h - 1
                }
            } else if low % 2 == 0 {
                half as i64
            } else {
                0 - half as i64 - 1
            };
            proof {
                piece_moves_on(bytes@, i as int, chunks as int, scale as int, sum as int);
            }
            return Chunked::Number { value, next: i + 1 };
        }
        sum = now;
        scale = scale * 32;
        chunks = chunks + 1;
        i = i + 1;
    }
}

/// A power of 32.
pub open spec fn pow32(n: int) -> int
    decreases n,
{
    if n <= 0 {
        1
    } else {
        32 * pow32(n - 1)
    }
}

proof fn pow32_bound(n: int)
    requires
        0 <= n <= 13,
    ensures
        1 <= pow32(n) <= 0x2_0000_0000_0000_0000,
        pow32(n + 1) == 32 * pow32(n),
{
    assert(pow32(13) == 0x2_0000_0000_0000_0000) by {
        reveal_with_fuel(pow32, 14);
    }
    pow32_grows(n, 13);
}

proof fn pow32_grows(a: int, b: int)
    requires
        0 <= a <= b,
    ensures
        1 <= pow32(a) <= pow32(b),
    decreases b,
{
    if b > 0 {
        if a < b {
            pow32_grows(a, b - 1);
        } else {
            pow32_grows(a - 1, b - 1);
        }
    }
}

/// The places of a route that is encoded with five decimals; nothing where a number
/// of it does not fit.
pub fn decode_polyline5(text: &str) -> (r: Option<Vec<RoutePoint>>)
    ensures
        match r {
            Some(route) => places(text.spec_bytes(), 0, 0, 0, seq![]) == Some(route@),
            None => places(text.spec_bytes(), 0, 0, 0, seq![]) is None,
        },
{
    let encoded = text.as_bytes();
    let mut out: Vec<RoutePoint> = Vec::new();
    let mut lat: i64 = 0;
    let mut lon: i64 = 0;
    let mut i: usize = 0;
    assert(out@ =~= seq![]);
    while i < encoded.len()
        invariant
            i <= encoded.len(),
            encoded@ == text.spec_bytes(),
            places(encoded@, 0, 0, 0, seq![]) == places(
                encoded@,
                i as int,
                lat as int,
                lon as int,
                out@,
            ),
        decreases encoded.len() - i,
    {
        match read_piece(encoded, i) {
            Chunked::Cut => {
                return Some(out);
            },
            Chunked::Long => {
                return None;
            },
            Chunked::Number { value: dlat, next: j } => match read_piece(encoded, j) {
                Chunked::Cut => {
                    return Some(out);
                },
                Chunked::Long => {
                    return None;
                },
                Chunked::Number { value: dlon, next: k } => {
                    let a: i128 = lat as i128 + dlat as i128;
                    let b: i128 = lon as i128 + dlon as i128;
                    if a < i64::MIN as i128 || a > i64::MAX as i128 || b < i64::MIN as i128 || b
                        > i64::MAX as i128 {
                        return None;
                    }
                    lat = a as i64;
                    lon = b as i64;
                    out.push(RoutePoint { lat, lon });
                    i = k;
                },
            },
        }
    }
    Some(out)
}

/// A number in chunks of five bits, the lowest ones first.
pub open spec fn chunks(v: int) -> Seq<u8>
    decreases v,
{
    if v < 32 {
        seq![(v + 63) as u8]
    } else {
        seq![(v % 32 + 95) as u8] + chunks(v / 32)
    }
}

/// Twice a number, or the complement of twice a negative one.
pub open spec fn folded(d: int) -> int {
    if d >= 0 {
        2 * d
    } else {
        -2 * d - 1
    }
}

/// A route from its `i`th place on, each place by its way from the one before.
pub open spec fn encoded_from(route: Seq<RoutePoint>, i: int, lat: int, lon: int) -> Seq<u8>
    decreases route.len() - i,
{
    if i < 0 || i >= route.len() {
        seq![]
    } else {
        chunks(folded(route[i].lat - lat)) + chunks(folded(route[i].lon - lon)) + encoded_from(
            route,
            i + 1,
            route[i].lat as int,
            route[i].lon as int,
        )
    }
}

/// A coordinate that is far from where numbers end.
pub open spec fn small(n: int) -> bool {
    -0x100_0000_0000_0000 <= n <= 0x100_0000_0000_0000
}

proof fn chunks_are_read(pre: Seq<u8>, v: int, post: Seq<u8>, k: int, scale: int, sum: int)
    requires
        0 <= k < 13,
        0 <= v < pow32(13 - k),
    ensures
        chunks(v).len() > 0,
        piece(pre + chunks(v) + post, pre.len() as int, k, scale, sum) == (Piece::Number {
            value: unfolded(wrapped(sum + v * scale)),
            next: (pre.len() + chunks(v).len()) as int,
        }),
    decreases v,
{
    let bytes = pre + chunks(v) + post;
    let i = pre.len() as int;
    assert(chunks(v).len() > 0);
    assert(bytes[i] == chunks(v)[0]);
    if v < 32 {
        assert(bytes[i] == v + 63);
        assert((bytes[i] - 63) % 32 == v);
    } else {
        assert(pow32(1) == 32) by {
            reveal_with_fuel(pow32, 2);
        }
        assert(k < 12);
        let b = bytes[i] - 63;
        assert(b == v % 32 + 32);
        let one = pre.push(bytes[i]);
        assert(one + chunks(v / 32) + post =~= bytes);
        assert(pow32(13 - k) == 32 * pow32(12 - k));
        assert(v / 32 < pow32(12 - k));
        let now = sum + (b % 32) * scale;
        chunks_are_read(one, v / 32, post, k + 1, scale * 32, now);
        assert(now + (v / 32) * (scale * 32) == sum + v * scale) by (nonlinear_arith)
            requires
                now == sum + (v % 32) * scale,
        ;
    }
}

proof fn folded_is_undone(d: int)
    requires
        -0x400_0000_0000_0000 <= d <= 0x400_0000_0000_0000,
    ensures
        0 <= folded(d) < pow32(13),
        unfolded(wrapped(folded(d))) == d,
{
    pow32_bound(13);
    assert(pow32(13) == 0x2_0000_0000_0000_0000) by {
        reveal_with_fuel(pow32, 14);
    }
}

proof fn routes_are_read(
    pre: Seq<u8>,
    route: Seq<RoutePoint>,
    i: int,
    lat: int,
    lon: int,
    before: Seq<RoutePoint>,
)
    requires
        0 <= i <= route.len(),
        small(lat),
        small(lon),
        forall|j: int|
            0 <= j < route.len() ==> small((#[trigger] route[j]).lat as int) && small(
                route[j].lon as int,
            ),
    ensures
        places(pre + encoded_from(route, i, lat, lon), pre.len() as int, lat, lon, before) == Some(
            before + route.skip(i),
        ),
    decreases route.len() - i,
{
    let bytes = pre + encoded_from(route, i, lat, lon);
    if i == route.len() {
        assert(bytes =~= pre);
        assert(before + route.skip(i) =~= before);
    } else {
        let p = route[i];
        let a = folded(p.lat - lat);
        let b = folded(p.lon - lon);
        let rest = encoded_from(route, i + 1, p.lat as int, p.lon as int);
        folded_is_undone(p.lat - lat);
        folded_is_undone(p.lon - lon);
        assert(bytes =~= pre + chunks(a) + (chunks(b) + rest));
        chunks_are_read(pre, a, chunks(b) + rest, 0, 1, 0);
        let pre2 = pre + chunks(a);
        assert(bytes =~= pre2 + chunks(b) + rest);
        chunks_are_read(pre2, b, rest, 0, 1, 0);
        let pre3 = pre2 + chunks(b);
        assert(bytes =~= pre3 + rest);
        routes_are_read(pre3, route, i + 1, p.lat as int, p.lon as int, before.push(p));
        assert(before.push(p) + route.skip(i + 1) =~= before + route.skip(i));
        assert(lat + (p.lat - lat) == p.lat);
        assert(lon + (p.lon - lon) == p.lon);
    }
}

/// A route is decoded to the places that it was encoded from.
pub proof fn encoded_routes_are_decoded(route: Seq<RoutePoint>)
    requires
        forall|j: int|
            0 <= j < route.len() ==> small((#[trigger] route[j]).lat as int) && small(
                route[j].lon as int,
            ),
    ensures
        places(encoded_from(route, 0, 0, 0), 0, 0, 0, seq![]) == Some(route),
{
    routes_are_read(seq![], route, 0, 0, 0, seq![]);
    assert(seq![] + encoded_from(route, 0, 0, 0) =~= encoded_from(route, 0, 0, 0));
    assert(Seq::<RoutePoint>::empty() + route.skip(0) =~= route);
}

// ---------------------------------------------------------------------------
// What changed
// ---------------------------------------------------------------------------

/// A pin on the map; its coordinates are the bits of floating point numbers.
#[derive(Clone, Copy, PartialEq, Eq, Structural, Debug)]
pub struct Marker {
    pub lat: u64,
    pub lon: u64,
    pub kind: u8,
}

/// The route and the pins that a map has adopted.
pub struct NavState {
    pub poly_seen: String,
    pub markers_seen: String,
    pub markers: Vec<Marker>,
}

pub struct NavView {
    pub poly_seen: Seq<char>,
    pub markers_seen: Seq<char>,
    pub markers: Seq<Marker>,
}

impl View for NavState {
    type V = NavView;

    open spec fn view(&self) -> NavView {
        NavView {
            poly_seen: self.poly_seen@,
            markers_seen: self.markers_seen@,
            markers: self.markers@,
        }
    }
}

/// A map that has adopted a route and pins: a list that it has seen is not read
/// again.
pub open spec fn adopted(v: NavView, polyline: Seq<char>, list: Seq<char>, next: Seq<Marker>) -> NavView {
    NavView {
        poly_seen: spec_trim(polyline),
        markers_seen: list,
        markers: if list == v.markers_seen {
            v.markers
        } else {
            next
        },
    }
}

/// The route that is to be decoded: one that the map has not seen.
pub open spec fn new_route(v: NavView, polyline: Seq<char>) -> Option<Seq<char>> {
    if spec_trim(polyline) == v.poly_seen {
        None
    } else {
        Some(spec_trim(polyline))
    }
}

/// Whether the overlay is to be built anew.
pub open spec fn overlay_changed(
    v: NavView,
    polyline: Seq<char>,
    list: Seq<char>,
    next: Seq<Marker>,
) -> bool {
    new_route(v, polyline) is Some || adopted(v, polyline, list, next).markers != v.markers
}

/// What a map does about the route and the pins that it is given.
pub struct Adopted {
    /// The route that is to be decoded.
    pub route: Option<String>,
    /// The overlay is to be built anew.
    pub changed: bool,
}

fn same_markers(a: &Vec<Marker>, b: &Vec<Marker>) -> (r: bool)
    ensures
        r == (a@ == b@),
{
    if a.len() != b.len() {
        return false;
    }
    let mut i: usize = 0;
    while i < a.len()
        invariant
            i <= a.len(),
            a.len() == b.len(),
            forall|j: int| 0 <= j < i ==> a@[j] == b@[j],
        decreases a.len() - i,
    {
        if a[i] != b[i] {
            return false;
        }
        i = i + 1;
    }
    assert(a@ =~= b@);
    true
}

impl NavState {
    pub fn new() -> (r: NavState)
        ensures
            r.poly_seen@.len() == 0,
            r.markers_seen@.len() == 0,
            r.markers@.len() == 0,
    {
        NavState { poly_seen: String::new(), markers_seen: String::new(), markers: Vec::new() }
    }

    /// Adopts a route and pins; `next` are the pins that the list describes.
    pub fn adopt(&mut self, polyline: &str, markers: &str, next: Vec<Marker>) -> (r: Adopted)
        ensures
            final(self)@ == adopted(old(self)@, polyline@, markers@, next@),
            (match r.route {
                Some(route) => Some(route@),
                None => None,
            }) == new_route(old(self)@, polyline@),
            r.changed == overlay_changed(old(self)@, polyline@, markers@, next@),
    {
        let mut changed = false;
        if !same_text(markers, self.markers_seen.as_str()) {
            self.markers_seen = markers.to_owned();
            if !same_markers(&next, &self.markers) {
                self.markers = next;
                changed = true;
            }
        }
        let chars = to_chars(polyline);
        let poly = to_text(trim(chars.as_slice()));
        if same_text(poly.as_str(), self.poly_seen.as_str()) {
            return Adopted { route: None, changed };
        }
        self.poly_seen = poly.clone();
        Adopted { route: Some(poly), changed: true }
    }
}

/// What a map has adopted and is given again changes nothing.
pub proof fn the_same_route_changes_nothing(
    v: NavView,
    polyline: Seq<char>,
    list: Seq<char>,
    next: Seq<Marker>,
)
    ensures
        ({
            let once = adopted(v, polyline, list, next);
            &&& adopted(once, polyline, list, next) == once
            &&& new_route(once, polyline) is None
            &&& !overlay_changed(once, polyline, list, next)
        }),
{
}

// ---------------------------------------------------------------------------
// Laws
// ---------------------------------------------------------------------------

/// A pin as it is written.
pub open spec fn written_pin(m: MarkerTextView) -> Seq<char> {
    m.lat + seq![','] + m.lon + seq![','] + spec_decimal(m.kind as nat)
}

/// Whether a pin can be written.
pub open spec fn can_be_written(m: MarkerTextView) -> bool {
    &&& is_trimmed(m.lat) && !m.lat.contains(',') && !m.lat.contains(';')
    &&& is_trimmed(m.lon) && !m.lon.contains(',') && !m.lon.contains(';')
    &&& 0 <= m.kind <= 255
}

proof fn decimals_are_digits(n: nat)
    ensures
        spec_decimal(n).len() > 0,
        forall|i: int| 0 <= i < spec_decimal(n).len() ==> spec_is_digit(#[trigger] spec_decimal(n)[i]),
    decreases n,
{
    if n >= 10 {
        decimals_are_digits(n / 10);
    }
}

proof fn a_pin_is_read(m: MarkerTextView)
    requires
        can_be_written(m),
    ensures
        marker(written_pin(m)) == Some(m),
        marker(m.lat + seq![','] + m.lon) == Some(MarkerTextView { kind: 1, ..m }),
        !written_pin(m).contains(';'),
{
    let k = spec_decimal(m.kind as nat);
    decimals_are_digits(m.kind as nat);
    decimal_reads_back(m.kind as nat);
    assert(spec_is_digit(k[0]) && spec_is_digit(k[k.len() - 1]));
    assert(!k.contains(',')) by {
        if k.contains(',') {
            assert(spec_is_digit(k[k.index_of(',')]));
        }
    }
    assert(!k.contains(';')) by {
        if k.contains(';') {
            assert(spec_is_digit(k[k.index_of(';')]));
        }
    }
    let f = seq![m.lat, m.lon, k];
    let g = seq![m.lat, m.lon];
    assert(f.drop_last() =~= g);
    assert(g.drop_last() =~= seq![m.lat]);
    assert(spec_join(seq![m.lat], seq![',']) == m.lat);
    assert(spec_join(g, seq![',']) =~= m.lat + seq![','] + m.lon);
    assert(spec_join(f, seq![',']) =~= written_pin(m));
    joined_text_splits_back(f, ',');
    joined_text_splits_back(g, ',');
    trimming_keeps(m.lat);
    trimming_keeps(m.lon);
    trimming_keeps(k);
    let w = written_pin(m);
    if w.contains(';') {
        let i = w.index_of(';');
        let a = m.lat.len() as int;
        let b = a + 1 + m.lon.len();
        if i < a {
            assert(m.lat.contains(m.lat[i]));
        } else if a < i < b {
            assert(m.lon.contains(m.lon[i - a - 1]));
        } else if i > b {
            assert(k.contains(k[i - b - 1]));
        }
    }
}

proof fn pins_are_read(list: Seq<MarkerTextView>, parts: Seq<Seq<char>>, n: int)
    requires
        0 <= n <= list.len(),
        parts == list.map_values(|m: MarkerTextView| written_pin(m)),
        forall|i: int| 0 <= i < list.len() ==> can_be_written(#[trigger] list[i]),
    ensures
        markers_of(parts, n) == list.take(n),
    decreases n,
{
    if n > 0 {
        pins_are_read(list, parts, n - 1);
        a_pin_is_read(list[n - 1]);
        assert(list.take(n - 1).push(list[n - 1]) =~= list.take(n));
    } else {
        assert(list.take(0) =~= seq![]);
    }
}

/// A list of pins is read as it is written: latitude before longitude before kind, and the
/// pins in their order.
pub proof fn written_pins_are_read(list: Seq<MarkerTextView>)
    requires
        list.len() > 0,
        forall|i: int| 0 <= i < list.len() ==> can_be_written(#[trigger] list[i]),
    ensures
        ({
            let text = spec_join(
                list.map_values(|m: MarkerTextView| written_pin(m)),
                seq![';'],
            );
            markers_of(spec_split(text, ';', 0), spec_split(text, ';', 0).len() as int) == list
        }),
{
    let parts = list.map_values(|m: MarkerTextView| written_pin(m));
    assert forall|i: int| 0 <= i < parts.len() implies !(#[trigger] parts[i]).contains(';') by {
        a_pin_is_read(list[i]);
    }
    joined_text_splits_back(parts, ';');
    pins_are_read(list, parts, list.len() as int);
    assert(list.take(list.len() as int) =~= list);
}

/// A pin without a kind, or with one that is no number, is a stop.
pub proof fn a_pin_without_a_kind_is_a_stop(m: MarkerTextView)
    requires
        can_be_written(m),
    ensures
        marker(m.lat + seq![','] + m.lon) matches Some(p) && p.kind == 1 && p.lat == m.lat && p.lon
            == m.lon,
{
    a_pin_is_read(m);
}

/// A route begins in green and ends in red, and its stops are neither: in each color the
/// part that names it is the largest, and amber has both red and green.
pub proof fn pins_are_told_apart(kind: u8)
    ensures
        ({
            let (start, end, stop) = (
                spec_marker_color(0),
                spec_marker_color(2),
                spec_marker_color(if kind == 0 || kind == 2 { 1 } else { kind }),
            );
            &&& start[1] > start[0] && start[1] > start[2]
            &&& end[0] > 2 * end[1] && end[0] > 2 * end[2]
            &&& stop[0] > stop[1] > 2 * stop[2] && stop[0] < 2 * stop[1]
            &&& kind != 0 && kind != 2 ==> spec_marker_color(kind) == spec_marker_color(1)
        }),
{
}

/// A route or a list of pins that differs is taken over, and the overlay is built anew
/// where either of them shows.
pub proof fn what_differs_is_taken_over(
    v: NavView,
    polyline: Seq<char>,
    list: Seq<char>,
    next: Seq<Marker>,
)
    ensures
        adopted(v, polyline, list, next).poly_seen == spec_trim(polyline),
        adopted(v, polyline, list, next).markers_seen == list,
        spec_trim(polyline) != v.poly_seen ==> new_route(v, polyline) == Some(spec_trim(polyline))
            && overlay_changed(v, polyline, list, next),
        list != v.markers_seen ==> adopted(v, polyline, list, next).markers == next,
        list == v.markers_seen ==> adopted(v, polyline, list, next).markers == v.markers,
        list != v.markers_seen && next != v.markers ==> overlay_changed(v, polyline, list, next),
{
}

} // verus!
