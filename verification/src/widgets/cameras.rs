//! The cameras that a preview can show.
use crate::camera::capture::CameraFlashMode;
use crate::case::{in_lower_case, to_lowercase};
use crate::text::{
    contains, find_is_first, occurs_at, same_text, spec_contains, spec_find, to_chars,
};
use vstd::prelude::*;

verus! {

// ---------------------------------------------------------------------------
// Cameras
// ---------------------------------------------------------------------------

#[derive(Clone, Copy, PartialEq, Eq, Structural, Debug)]
pub enum PreviewPixels {
    NV12,
    YUY2,
    YUV420,
    /// A layout that the preview does not draw.
    Other,
}

/// A way in which a camera delivers frames.
#[derive(Clone, Copy, PartialEq, Eq, Structural, Debug)]
pub struct PreviewFormat {
    pub format_id: u64,
    pub width: usize,
    pub height: usize,
    pub pixels: PreviewPixels,
}

/// The shape of a viewfinder, its width over its height, in parts of which this many
/// make one.
pub const ASPECT_ONE: u64 = 0x1_0000_0000;

/// Whether the preview can use a format.
pub open spec fn usable(f: PreviewFormat) -> bool {
    !(f.pixels is Other) && f.width <= 1920 && 0 < f.height <= 1080
}

/// How good a format's pixels are.
pub open spec fn pixel_rank(p: PreviewPixels) -> int {
    match p {
        PreviewPixels::NV12 => 3,
        PreviewPixels::YUY2 => 2,
        PreviewPixels::YUV420 => 1,
        PreviewPixels::Other => 0,
    }
}

/// How far a format's shape is from the viewfinder's, in parts and times the format's
/// height: what is left between its width and the width of the viewfinder's shape at
/// that height.
pub open spec fn off(f: PreviewFormat, aspect: u64) -> int {
    let d = f.width * ASPECT_ONE - aspect * f.height;
    if d < 0 {
        -d
    } else {
        d
    }
}

/// Whether a format's shape is nearer to the viewfinder's than another's: the distances
/// are over the heights, so each is held against the other's height.
pub open spec fn is_nearer(a: PreviewFormat, b: PreviewFormat, aspect: u64) -> bool {
    off(a, aspect) * b.height < off(b, aspect) * a.height
}

/// Whether a format serves the viewfinder better than another: its shape is
/// nearer, then it has more pixels, then better ones.
pub open spec fn serves_better(a: PreviewFormat, b: PreviewFormat, aspect: u64) -> bool {
    let (m, n) = (a.width * a.height, b.width * b.height);
    is_nearer(a, b, aspect) || !is_nearer(b, a, aspect) && (m > n || m == n && pixel_rank(a.pixels)
        > pixel_rank(b.pixels))
}

/// The first of the usable formats that none serves better than.
pub open spec fn spec_format_for(formats: Seq<PreviewFormat>, aspect: u64) -> Option<PreviewFormat>
    decreases formats.len(),
{
    if formats.len() == 0 {
        None
    } else {
        let before = spec_format_for(formats.drop_last(), aspect);
        let f = formats.last();
        if usable(f) && (match before {
            Some(best) => serves_better(f, best, aspect),
            None => true,
        }) {
            Some(f)
        } else {
            before
        }
    }
}

fn rank_of(p: PreviewPixels) -> (r: u8)
    ensures
        r == pixel_rank(p),
{
    match p {
        PreviewPixels::NV12 => 3,
        PreviewPixels::YUY2 => 2,
        PreviewPixels::YUV420 => 1,
        PreviewPixels::Other => 0,
    }
}

fn is_usable(f: &PreviewFormat) -> (r: bool)
    ensures
        r == usable(*f),
{
    f.pixels != PreviewPixels::Other && f.width <= 1920 && f.height <= 1080 && f.height > 0
}

fn off_of(f: &PreviewFormat, aspect: u64) -> (r: u128)
    requires
        usable(*f),
    ensures
        r == off(*f, aspect),
        r <= 0x1_0000_0000_0000_0000_0000,
{
    let (w, h): (u128, u128) = (f.width as u128, f.height as u128);
    assert(0 <= aspect * h <= 0xffff_ffff_ffff_ffff * 1080) by (nonlinear_arith)
        requires
            0 <= aspect <= 0xffff_ffff_ffff_ffff,
            0 <= h <= 1080,
    ;
    assert(0 <= w * ASPECT_ONE <= 1920 * 0x1_0000_0000) by (nonlinear_arith)
        requires
            0 <= w <= 1920,
            ASPECT_ONE == 0x1_0000_0000,
    ;
    let x: u128 = w * ASPECT_ONE as u128;
    let y: u128 = aspect as u128 * h;
    if x < y {
        y - x
    } else {
        x - y
    }
}

fn is_closer(a: &PreviewFormat, b: &PreviewFormat, aspect: u64) -> (r: bool)
    requires
        usable(*a),
        usable(*b),
    ensures
        r == is_nearer(*a, *b, aspect),
{
    let m: u128 = off_of(a, aspect);
    let n: u128 = off_of(b, aspect);
    let (g, h): (u128, u128) = (a.height as u128, b.height as u128);
    assert(0 <= m * h <= 0x1_0000_0000_0000_0000_0000 * 1080) by (nonlinear_arith)
        requires
            0 <= m <= 0x1_0000_0000_0000_0000_0000,
            0 <= h <= 1080,
    ;
    assert(0 <= n * g <= 0x1_0000_0000_0000_0000_0000 * 1080) by (nonlinear_arith)
        requires
            0 <= n <= 0x1_0000_0000_0000_0000_0000,
            0 <= g <= 1080,
    ;
    m * h < n * g
}

fn is_better(a: &PreviewFormat, b: &PreviewFormat, aspect: u64) -> (r: bool)
    requires
        usable(*a),
        usable(*b),
    ensures
        r == serves_better(*a, *b, aspect),
{
    proof {
        let (w, h, x, y) = (a.width as int, a.height as int, b.width as int, b.height as int);
        assert(0 <= w * h <= 1920 * 1080) by (nonlinear_arith)
            requires
                0 <= w <= 1920,
                0 <= h <= 1080,
        ;
        assert(0 <= x * y <= 1920 * 1080) by (nonlinear_arith)
            requires
                0 <= x <= 1920,
                0 <= y <= 1080,
        ;
    }
    let m: usize = a.width * a.height;
    let n: usize = b.width * b.height;
    is_closer(a, b, aspect) || (!is_closer(b, a, aspect) && (m > n || (m == n && rank_of(a.pixels)
        > rank_of(b.pixels))))
}

/// A camera that can be previewed.
pub struct CameraChoice {
    pub input_id: u64,
    pub front: bool,
    pub formats: Vec<PreviewFormat>,
}

pub struct ChoiceView {
    pub input_id: u64,
    pub front: bool,
    pub formats: Seq<PreviewFormat>,
}

impl View for CameraChoice {
    type V = ChoiceView;

    open spec fn view(&self) -> ChoiceView {
        ChoiceView { input_id: self.input_id, front: self.front, formats: self.formats@ }
    }
}

/// What a list of cameras holds.
pub open spec fn choices(v: Seq<CameraChoice>) -> Seq<ChoiceView> {
    v.map_values(|c: CameraChoice| c@)
}

impl CameraChoice {
    /// The best format for a viewfinder of this shape: the nearest shape, then the most
    /// pixels within 1080p, then the better pixels.
    pub fn format_for(&self, aspect: u64) -> (r: Option<PreviewFormat>)
        ensures
            r == spec_format_for(self.formats@, aspect),
    {
        let mut best: Option<PreviewFormat> = None;
        let mut i: usize = 0;
        assert(self.formats@.take(0) =~= seq![]);
        while i < self.formats.len()
            invariant
                i <= self.formats.len(),
                best == spec_format_for(self.formats@.take(i as int), aspect),
                best matches Some(b) ==> usable(b),
            decreases self.formats.len() - i,
        {
            assert(self.formats@.take(i + 1).drop_last() =~= self.formats@.take(i as int));
            assert(self.formats@.take(i + 1).last() == self.formats@[i as int]);
            let f = self.formats[i];
            if is_usable(&f) {
                let better = match &best {
                    Some(b) => is_better(&f, b, aspect),
                    None => true,
                };
                if better {
                    best = Some(f);
                }
            }
            i = i + 1;
        }
        assert(self.formats@.take(i as int) =~= self.formats@);
        best
    }
}

proof fn nearer_chains(a: PreviewFormat, b: PreviewFormat, c: PreviewFormat, aspect: u64)
    requires
        a.height > 0 && b.height > 0 && c.height > 0,
    ensures
        is_nearer(a, b, aspect) && !is_nearer(c, b, aspect) ==> is_nearer(a, c, aspect),
        !is_nearer(b, a, aspect) && is_nearer(b, c, aspect) ==> is_nearer(a, c, aspect),
        !is_nearer(b, a, aspect) && !is_nearer(c, b, aspect) ==> !is_nearer(c, a, aspect),
{
    let (x, y, z) = (off(a, aspect), off(b, aspect), off(c, aspect));
    let (f, g, h) = (a.height as int, b.height as int, c.height as int);
    // x / f, y / g and z / h are the distances.
    if x * g < y * f && !(z * g < y * h) {
        assert(x * h < z * f) by (nonlinear_arith)
            requires
                f > 0 && g > 0 && h > 0,
                x * g < y * f,
                y * h <= z * g,
        ;
    }
    if x * g <= y * f && y * h < z * g {
        assert(x * h < z * f) by (nonlinear_arith)
            requires
                f > 0 && g > 0 && h > 0,
                x * g <= y * f,
                y * h < z * g,
        ;
    }
    if x * g <= y * f && y * h <= z * g {
        assert(x * h <= z * f) by (nonlinear_arith)
            requires
                f > 0 && g > 0 && h > 0,
                x * g <= y * f,
                y * h <= z * g,
        ;
    }
}

proof fn better_chains(a: PreviewFormat, b: PreviewFormat, c: PreviewFormat, aspect: u64)
    requires
        a.height > 0 && b.height > 0 && c.height > 0,
        serves_better(a, b, aspect),
        !serves_better(c, b, aspect),
    ensures
        !serves_better(c, a, aspect),
{
    nearer_chains(a, b, c, aspect);
    nearer_chains(c, b, a, aspect);
    nearer_chains(c, a, b, aspect);
    nearer_chains(b, a, c, aspect);
    nearer_chains(a, c, b, aspect);
}

/// The best format is one that the preview can use, and no other that it can use
/// serves better. There is one if and only if some format can be used.
pub proof fn the_best_format_is_chosen(formats: Seq<PreviewFormat>, aspect: u64, i: int)
    requires
        0 <= i < formats.len(),
        usable(formats[i]),
    ensures
        spec_format_for(formats, aspect) matches Some(best) && usable(best) && formats.contains(
            best,
        ) && !serves_better(formats[i], best, aspect),
    decreases formats.len(),
{
    let init = formats.drop_last();
    let last = formats.last();
    format_is_listed(init, aspect);
    format_is_listed(formats, aspect);
    if i < formats.len() - 1 {
        assert(init[i] == formats[i]);
        the_best_format_is_chosen(init, aspect, i);
        let before = spec_format_for(init, aspect)->0;
        if usable(last) && serves_better(last, before, aspect) {
            better_chains(last, before, formats[i], aspect);
        }
    }
}

/// No format that the preview can use has a nearer shape than the chosen one.
pub proof fn the_nearest_shape_is_chosen(formats: Seq<PreviewFormat>, aspect: u64, i: int)
    requires
        0 <= i < formats.len(),
        usable(formats[i]),
    ensures
        spec_format_for(formats, aspect) matches Some(best) && !is_nearer(formats[i], best, aspect),
{
    the_best_format_is_chosen(formats, aspect, i);
}

proof fn format_is_listed(formats: Seq<PreviewFormat>, aspect: u64)
    ensures
        spec_format_for(formats, aspect) matches Some(best) ==> usable(best) && formats.contains(
            best,
        ),
    decreases formats.len(),
{
    if formats.len() > 0 {
        let init = formats.drop_last();
        format_is_listed(init, aspect);
        if let Some(best) = spec_format_for(init, aspect) {
            let k = init.index_of(best);
            assert(formats[k] == best);
        }
        assert(formats[formats.len() - 1] == formats.last());
    }
}

fn says(name: &Vec<char>, word: &str) -> (r: bool)
    ensures
        r == spec_contains(name@, word@),
{
    let w = to_chars(word);
    contains(name.as_slice(), w.as_slice())
}

/// Which camera a name in lower case describes: the front one where it says so, or
/// where it is the second of several and does not say that it is the back one.
pub open spec fn lower_is_front(n: Seq<char>, index: int, count: int) -> bool {
    spec_contains(n, "front"@) || spec_contains(n, "facetime"@) || spec_contains(n, "user"@) || (
    count > 1 && index == 1 && !spec_contains(n, "back"@))
}

/// Which camera a name in lower case describes.
pub fn is_front_in_lower(n: &Vec<char>, index: usize, count: usize) -> (r: bool)
    ensures
        r == lower_is_front(n@, index as int, count as int),
{
    says(n, "front") || says(n, "facetime") || says(n, "user") || (count > 1 && index == 1 && !says(
        n,
        "back",
    ))
}

/// Which camera a name describes.
pub fn is_front(name: &str, index: usize, count: usize) -> (r: bool)
    ensures
        r == lower_is_front(in_lower_case(name@), index as int, count as int),
{
    let chars = to_chars(name);
    let n = to_lowercase(chars.as_slice());
    is_front_in_lower(&n, index, count)
}

pub open spec fn spec_flash_mode(name: Seq<char>) -> Option<CameraFlashMode> {
    if name == "off"@ {
        Some(CameraFlashMode::Off)
    } else if name == "on"@ {
        Some(CameraFlashMode::On)
    } else if name == "auto"@ {
        Some(CameraFlashMode::Auto)
    } else if name == "torch"@ {
        Some(CameraFlashMode::Torch)
    } else {
        None
    }
}

/// The flash that a name asks for; none for a name that asks for nothing.
pub fn flash_mode(name: &str) -> (r: Option<CameraFlashMode>)
    ensures
        r == spec_flash_mode(name@),
{
    if same_text(name, "off") {
        Some(CameraFlashMode::Off)
    } else if same_text(name, "on") {
        Some(CameraFlashMode::On)
    } else if same_text(name, "auto") {
        Some(CameraFlashMode::Auto)
    } else if same_text(name, "torch") {
        Some(CameraFlashMode::Torch)
    } else {
        None
    }
}

/// Where a camera offers the very shape that is wanted, it is taken, as large as it is
/// offered within full HD; of two such formats of one size the one that needs the least
/// converting.
pub proof fn the_very_shape_is_taken(formats: Seq<PreviewFormat>, aspect: u64, i: int)
    requires
        0 <= i < formats.len(),
        usable(formats[i]),
        formats[i].width * 0x1_0000_0000 == aspect * formats[i].height,
    ensures
        spec_format_for(formats, aspect) matches Some(best) && {
            &&& formats.contains(best)
            &&& best.width * 0x1_0000_0000 == aspect * best.height
            &&& best.width <= 1920 && best.height <= 1080
            &&& best.width * best.height >= formats[i].width * formats[i].height
            &&& best.width * best.height == formats[i].width * formats[i].height ==> !(
            formats[i].pixels is NV12 && !(best.pixels is NV12)) && !(best.pixels is YUV420
                && formats[i].pixels is YUY2)
        },
{
    the_best_format_is_chosen(formats, aspect, i);
    let best = spec_format_for(formats, aspect)->0;
    let f = formats[i];
    assert(off(f, aspect) == 0);
    assert(off(f, aspect) * best.height == 0) by (nonlinear_arith)
        requires
            off(f, aspect) == 0,
    ;
    if off(best, aspect) > 0 {
        assert(off(best, aspect) * f.height > 0) by (nonlinear_arith)
            requires
                off(best, aspect) > 0,
                f.height > 0,
        ;
        assert(is_nearer(f, best, aspect));
        assert(serves_better(f, best, aspect));
    }
    assert(off(best, aspect) == 0);
    assert(off(best, aspect) * f.height == 0) by (nonlinear_arith)
        requires
            off(best, aspect) == 0,
    ;
    assert(!is_nearer(best, f, aspect));
}

/// No format beyond full HD is taken, nor one whose pixels are not known, and there is one
/// only where the camera offers it.
pub proof fn only_usable_formats_are_taken(formats: Seq<PreviewFormat>, aspect: u64)
    ensures
        match spec_format_for(formats, aspect) {
            Some(best) => formats.contains(best) && best.width <= 1920 && 0 < best.height <= 1080
                && !(best.pixels is Other),
            None => forall|i: int|
                0 <= i < formats.len() ==> (#[trigger] formats[i]).width > 1920 || formats[i].height
                    == 0 || formats[i].height > 1080 || formats[i].pixels is Other,
        },
{
    format_is_listed(formats, aspect);
    if spec_format_for(formats, aspect) is None {
        assert forall|i: int| 0 <= i < formats.len() implies !usable(#[trigger] formats[i]) by {
            if usable(formats[i]) {
                the_best_format_is_chosen(formats, aspect, i);
            }
        }
    }
}

/// A camera that says that it is in front is in front, wherever it is listed; of those that
/// do not say it, only the second is taken to be, and not where it says that it is at the
/// back.
pub proof fn cameras_are_where_they_say(before: Seq<char>, after: Seq<char>, index: int, count: int)
    ensures
        lower_is_front(before + "front"@ + after, index, count),
        lower_is_front(before + "facetime"@ + after, index, count),
        lower_is_front(before + "user"@ + after, index, count),
        lower_is_front(Seq::empty(), 1, 2),
        !lower_is_front(Seq::empty(), 0, count),
        index != 1 ==> !lower_is_front("back"@, index, count),
        !lower_is_front("back"@, 1, count),
{
    held(before, "front"@, after);
    held(before, "facetime"@, after);
    held(before, "user"@, after);
    reveal_strlit("front");
    reveal_strlit("facetime");
    reveal_strlit("user");
    reveal_strlit("back");
    let none = Seq::<char>::empty();
    assert(!spec_contains(none, "front"@) && !spec_contains(none, "facetime"@) && !spec_contains(
        none,
        "user"@,
    ) && !spec_contains(none, "back"@));
    let empty = Seq::<char>::empty();
    assert(empty + "back"@ + empty =~= "back"@);
    held(empty, "back"@, empty);
    assert(!spec_contains("back"@, "front"@) && !spec_contains("back"@, "facetime"@));
    assert("back"@.subrange(0, 4)[0] == 'b' && "user"@[0] == 'u');
    assert(!occurs_at("back"@, "user"@, 0));
    assert(spec_find("back"@, "user"@, 1) is None);
    assert(!spec_contains("back"@, "user"@));
}

proof fn held(before: Seq<char>, word: Seq<char>, after: Seq<char>)
    ensures
        spec_contains(before + word + after, word),
{
    let s = before + word + after;
    let p = before.len() as int;
    assert(s.subrange(p, p + word.len()) =~= word);
    assert(occurs_at(s, word, p));
    find_is_first(s, word, 0);
}

} // verus!
