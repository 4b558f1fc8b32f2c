//! A bottom sheet that rests at three heights and follows the finger between them.
//!
//! Heights are in 1024ths of a pixel, and times in milliseconds.
use vstd::prelude::*;

verus! {

/// A pixel.
pub const PIXEL: i64 = 1024;

/// The lowest height at which a sheet rests.
pub const PEEK_HEIGHT: i64 = 132 * PIXEL;

/// What the greatest height leaves above the sheet.
pub const FULL_TOP_GAP: i64 = 96 * PIXEL;

/// Pixels a second: a release at least as fast as this is a flick.
pub const FLICK_VELOCITY: i128 = 600;

/// The heights at which a sheet rests, rising.
#[derive(Clone, Copy, PartialEq, Eq, Structural, Debug)]
pub struct Heights {
    pub peek: i64,
    pub half: i64,
    pub full: i64,
}

impl Heights {
    pub open spec fn at(&self, detent: int) -> i64 {
        if detent <= 0 {
            self.peek
        } else if detent == 1 {
            self.half
        } else {
            self.full
        }
    }

    fn get(&self, detent: u8) -> (r: i64)
        ensures
            r == self.at(detent as int),
    {
        if detent == 0 {
            self.peek
        } else if detent == 1 {
            self.half
        } else {
            self.full
        }
    }
}

pub open spec fn spec_sheet_heights(viewport: i32) -> Heights {
    let half = (viewport * 45 / 100) as i64;
    Heights {
        peek: if PEEK_HEIGHT < half {
            PEEK_HEIGHT
        } else {
            half
        },
        half,
        full: if viewport - FULL_TOP_GAP > half {
            (viewport - FULL_TOP_GAP) as i64
        } else {
            half
        },
    }
}

/// The three heights at which a sheet rests in a viewport this tall: in a short one
/// they close up rather than cross.
pub fn sheet_heights(viewport: i32) -> (r: Heights)
    requires
        0 <= viewport,
    ensures
        r == spec_sheet_heights(viewport),
{
    let v: i64 = viewport as i64;
    let half: i64 = v * 45 / 100;
    let peek: i64 = if PEEK_HEIGHT < half {
        PEEK_HEIGHT
    } else {
        half
    };
    let full: i64 = if v - FULL_TOP_GAP > half {
        v - FULL_TOP_GAP
    } else {
        half
    };
    Heights { peek, half, full }
}

/// The heights rise, and none is above the viewport.
pub proof fn heights_rise(viewport: i32)
    requires
        0 <= viewport,
    ensures
        ({
            let h = spec_sheet_heights(viewport);
            0 <= h.peek <= h.half <= h.full <= viewport
        }),
{
}

/// How fast a finger went down at its release, as a length and the time that it
/// took; nothing where that is not known.
pub struct Velocity {
    pub down: i64,
    pub time: i64,
}

/// How far two heights are apart.
pub open spec fn apart(a: i64, b: i64) -> int {
    if a < b {
        b - a
    } else {
        a - b
    }
}

/// Where a released drag comes to rest: at the nearest height, or for a flick at the
/// next one the way the finger was going.
pub open spec fn spec_sheet_rest(at: i64, v: Velocity, h: Heights) -> int {
    if v.time > 0 && v.down * 1000 <= -FLICK_VELOCITY * PIXEL * v.time {
        if h.peek > at + PIXEL / 2 {
            0
        } else if h.half > at + PIXEL / 2 {
            1
        } else {
            2
        }
    } else if v.time > 0 && v.down * 1000 >= FLICK_VELOCITY * PIXEL * v.time {
        if h.full < at - PIXEL / 2 {
            2
        } else if h.half < at - PIXEL / 2 {
            1
        } else {
            0
        }
    } else if apart(h.peek, at) <= apart(h.half, at) && apart(h.peek, at) <= apart(h.full, at) {
        0
    } else if apart(h.half, at) <= apart(h.full, at) {
        1
    } else {
        2
    }
}

fn distance(a: i64, b: i64) -> (r: i128)
    ensures
        r == apart(a, b),
{
    if a < b {
        b as i128 - a as i128
    } else {
        a as i128 - b as i128
    }
}

/// Where a released drag comes to rest.
pub fn sheet_rest(at: i64, v: &Velocity, h: &Heights) -> (r: u8)
    ensures
        r == spec_sheet_rest(at, *v, *h),
        r <= 2,
{
    let half_pixel: i128 = PIXEL as i128 / 2;
    let a: i128 = at as i128;
    proof {
        assert(-0x10_0000_0000_0000_0000_0000 <= FLICK_VELOCITY * PIXEL * v.time
            <= 0x10_0000_0000_0000_0000_0000) by (nonlinear_arith)
            requires
                -0x8000_0000_0000_0000 <= v.time <= 0x7fff_ffff_ffff_ffff,
                FLICK_VELOCITY * PIXEL == 614400,
        ;
    }
    let limit: i128 = FLICK_VELOCITY * PIXEL as i128 * v.time as i128;
    let down: i128 = v.down as i128 * 1000;
    proof {
        assert(-FLICK_VELOCITY * PIXEL * v.time == -(FLICK_VELOCITY * PIXEL * v.time))
            by (nonlinear_arith);
    }
    if v.time > 0 && down <= 0 - limit {
        if h.peek as i128 > a + half_pixel {
            0
        } else if h.half as i128 > a + half_pixel {
            1
        } else {
            2
        }
    } else if v.time > 0 && down >= limit {
        if (h.full as i128) < a - half_pixel {
            2
        } else if (h.half as i128) < a - half_pixel {
            1
        } else {
            0
        }
    } else {
        let p = distance(h.peek, at);
        let m = distance(h.half, at);
        let f = distance(h.full, at);
        if p <= m && p <= f {
            0
        } else if m <= f {
            1
        } else {
            2
        }
    }
}

/// A drag that is no flick comes to rest at the height that is nearest.
pub proof fn a_slow_drag_rests_nearby(at: i64, v: Velocity, h: Heights, detent: int)
    requires
        0 <= detent <= 2,
        v.time <= 0 || -FLICK_VELOCITY * PIXEL * v.time < v.down * 1000 < FLICK_VELOCITY * PIXEL
            * v.time,
    ensures
        apart(h.at(spec_sheet_rest(at, v, h)), at) <= apart(h.at(detent), at),
{
}

/// A flick never brings the sheet back over the place where the finger left it.
pub proof fn a_flick_goes_on(at: i64, v: Velocity, h: Heights)
    requires
        h.peek <= h.half <= h.full,
        v.time > 0,
    ensures
        v.down * 1000 <= -FLICK_VELOCITY * PIXEL * v.time ==> h.at(spec_sheet_rest(at, v, h)) > at
            || spec_sheet_rest(at, v, h) == 2,
        v.down * 1000 >= FLICK_VELOCITY * PIXEL * v.time ==> h.at(spec_sheet_rest(at, v, h)) < at
            || spec_sheet_rest(at, v, h) == 0,
{
    assert(v.time > 0 ==> FLICK_VELOCITY * PIXEL * v.time > 0) by (nonlinear_arith)
        requires
            FLICK_VELOCITY * PIXEL == 614400,
    ;
    assert(-FLICK_VELOCITY * PIXEL * v.time == -(FLICK_VELOCITY * PIXEL * v.time))
        by (nonlinear_arith);
}

// ---------------------------------------------------------------------------
// The sheet
// ---------------------------------------------------------------------------

/// A finger on the sheet: the height at which it began, and when and where it was
/// last.
#[derive(Clone, Copy, PartialEq, Eq, Structural, Debug)]
pub struct SheetDrag {
    pub from: i64,
    pub time: i64,
    pub height: i64,
}

/// When and where a finger was before that.
#[derive(Clone, Copy, PartialEq, Eq, Structural, Debug)]
pub struct SheetPast {
    pub time: i64,
    pub height: i64,
}

pub struct SheetView {
    /// Where the sheet rests: 0 peek, 1 half, 2 full.
    pub detent: u8,
    pub height: i64,
    pub drag: Option<SheetDrag>,
    pub prev: Option<SheetPast>,
    pub viewport: i32,
}

/// A height between two others.
pub open spec fn kept_between(h: int, lowest: int, highest: int) -> int {
    if h < lowest {
        lowest
    } else if h > highest {
        highest
    } else {
        h
    }
}

/// The height that a sheet eases to in one frame: a fourth of the way, and all of it
/// once less than half a pixel is a fourth.
pub open spec fn eased(height: i64, target: i64) -> i64 {
    if apart(height, target) < 2 * PIXEL {
        target
    } else if target > height {
        (height + (target - height) / 4) as i64
    } else {
        (height - (height - target) / 4) as i64
    }
}

/// The velocity of a finger that goes up.
pub open spec fn release(drag: SheetDrag, prev: Option<SheetPast>) -> Velocity {
    match prev {
        Some(p) if drag.time > p.time => Velocity {
            down: (p.height - drag.height) as i64,
            time: (drag.time - p.time) as i64,
        },
        _ => Velocity { down: 0, time: 0 },
    }
}

/// A sheet once a finger has gone down on it.
pub open spec fn held(s: SheetView, time: i64) -> SheetView {
    SheetView { drag: Some(SheetDrag { from: s.height, time, height: s.height }), prev: None, ..s }
}

/// A sheet once the finger on it has moved, `down` from where it went down.
pub open spec fn dragged(s: SheetView, down: i32, time: i64) -> SheetView {
    match s.drag {
        Some(d) => {
            let h = spec_sheet_heights(s.viewport);
            let now = kept_between(d.from - down, h.peek as int, h.full as int) as i64;
            SheetView {
                height: now,
                drag: Some(SheetDrag { from: d.from, time, height: now }),
                prev: Some(SheetPast { time: d.time, height: d.height }),
                ..s
            }
        },
        None => s,
    }
}

/// A sheet once the finger has gone up.
pub open spec fn let_go(s: SheetView) -> SheetView {
    match s.drag {
        Some(d) => SheetView {
            detent: spec_sheet_rest(
                d.height,
                release(d, s.prev),
                spec_sheet_heights(s.viewport),
            ) as u8,
            drag: None,
            ..s
        },
        None => s,
    }
}

impl SheetView {
    /// The sheet is inside its viewport, and times are those of a clock.
    pub open spec fn wf(&self) -> bool {
        let top = 0x8000_0000int;
        &&& 0 <= self.viewport
        &&& 0 <= self.height <= top
        &&& self.detent <= 2
        &&& self.drag matches Some(d) ==> 0 <= d.from <= top && 0 <= d.height <= top && 0 <= d.time
        &&& self.prev matches Some(p) ==> 0 <= p.height <= top && 0 <= p.time
    }

    pub open spec fn spec_target(&self) -> i64 {
        spec_sheet_heights(self.viewport).at(self.detent as int)
    }

    /// The height at which the sheet is to rest.
    pub fn target(&self) -> (r: i64)
        requires
            self.wf(),
        ensures
            r == self.spec_target(),
            0 <= r <= self.viewport,
    {
        proof {
            heights_rise(self.viewport);
        }
        let h = sheet_heights(self.viewport);
        h.get(self.detent)
    }

    /// A script moves the sheet.
    pub fn set_detent(&mut self, detent: u8)
        requires
            old(self).wf(),
        ensures
            final(self).wf(),
            final(self).detent == (if detent > 2 {
                2
            } else {
                detent
            }),
            final(self).height == old(self).height,
            final(self).drag == old(self).drag,
            final(self).prev == old(self).prev,
            final(self).viewport == old(self).viewport,
    {
        self.detent = if detent > 2 {
            2
        } else {
            detent
        };
    }

    /// The sheet is drawn in a space this tall: the height of its panel.
    pub fn draw(&mut self, space: i32) -> (r: i64)
        requires
            old(self).wf(),
        ensures
            final(self).wf(),
            final(self).detent == old(self).detent,
            final(self).drag == old(self).drag,
            final(self).prev == old(self).prev,
            final(self).viewport == (if space > 0 {
                space
            } else {
                old(self).viewport
            }),
            final(self).height == (if old(self).height <= 0 {
                final(self).spec_target()
            } else {
                old(self).height
            }),
            r == final(self).height,
    {
        if space > 0 {
            self.viewport = space;
        }
        if self.height <= 0 {
            self.height = self.target();
        }
        self.height
    }

    /// A frame passes: the sheet eases towards where it rests. Whether it is to be
    /// drawn, and whether another frame is needed.
    pub fn next_frame(&mut self) -> (r: (bool, bool))
        requires
            old(self).wf(),
        ensures
            final(self).wf(),
            final(self).detent == old(self).detent,
            final(self).drag == old(self).drag,
            final(self).prev == old(self).prev,
            final(self).viewport == old(self).viewport,
            r.0 == old(self).drag is None,
            final(self).height == (if old(self).drag is None {
                eased(old(self).height, old(self).spec_target())
            } else {
                old(self).height
            }),
            r.1 == (old(self).drag is None && apart(old(self).height, old(self).spec_target()) >= 2
                * PIXEL),
    {
        let target = self.target();
        if self.drag.is_some() {
            return (false, false);
        }
        if distance(self.height, target) < 2 * PIXEL as i128 {
            self.height = target;
            (true, false)
        } else {
            if target > self.height {
                self.height = self.height + (target - self.height) / 4;
            } else {
                self.height = self.height - (self.height - target) / 4;
            }
            (true, true)
        }
    }

    /// A finger goes down on the sheet; `child_owns` is whether a child has claimed
    /// it.
    pub fn finger_down(&mut self, child_owns: bool, time: i64)
        requires
            old(self).wf(),
            0 <= time,
        ensures
            final(self).wf(),
            final(self).detent == old(self).detent,
            final(self).height == old(self).height,
            final(self).viewport == old(self).viewport,
            if child_owns {
                final(self).drag == old(self).drag && final(self).prev == old(self).prev
            } else {
                final(self).drag == Some(
                    SheetDrag { from: old(self).height, time, height: old(self).height },
                ) && final(self).prev is None
            },
            !child_owns ==> *final(self) == held(*old(self), time),
    {
        if !child_owns {
            self.drag = Some(SheetDrag { from: self.height, time, height: self.height });
            self.prev = None;
        }
    }

    /// A finger moves; `down` is how far it has gone down. Whether the sheet is to be
    /// drawn.
    pub fn finger_move(&mut self, down: i32, time: i64) -> (r: bool)
        requires
            old(self).wf(),
            0 <= time,
        ensures
            final(self).wf(),
            final(self).detent == old(self).detent,
            final(self).viewport == old(self).viewport,
            r == old(self).drag is Some,
            match old(self).drag {
                Some(d) => {
                    let h = spec_sheet_heights(old(self).viewport);
                    let now = kept_between(d.from - down, h.peek as int, h.full as int);
                    &&& final(self).height == now
                    &&& final(self).drag == Some(
                        SheetDrag { from: d.from, time, height: now as i64 },
                    )
                    &&& final(self).prev == Some(SheetPast { time: d.time, height: d.height })
                },
                None => *final(self) == *old(self),
            },
            *final(self) == dragged(*old(self), down, time),
    {
        proof {
            heights_rise(self.viewport);
        }
        match self.drag {
            Some(d) => {
                let h = sheet_heights(self.viewport);
                let wanted: i64 = d.from - down as i64;
                let now: i64 = if wanted < h.peek {
                    h.peek
                } else if wanted > h.full {
                    h.full
                } else {
                    wanted
                };
                self.prev = Some(SheetPast { time: d.time, height: d.height });
                self.drag = Some(SheetDrag { from: d.from, time, height: now });
                self.height = now;
                true
            },
            None => false,
        }
    }

    /// A finger goes up: the sheet eases to where it comes to rest. What the script
    /// is told, where that is another place than before; a frame is needed where a
    /// finger was on the sheet.
    pub fn finger_up(&mut self) -> (r: (bool, Option<u8>))
        requires
            old(self).wf(),
        ensures
            final(self).wf(),
            final(self).height == old(self).height,
            final(self).viewport == old(self).viewport,
            final(self).prev == old(self).prev,
            final(self).drag is None,
            match old(self).drag {
                Some(d) => {
                    let rest = spec_sheet_rest(
                        d.height,
                        release(d, old(self).prev),
                        spec_sheet_heights(old(self).viewport),
                    );
                    &&& final(self).detent == rest
                    &&& r.0
                    &&& r.1 == if rest != old(self).detent {
                        Some(rest as u8)
                    } else {
                        None
                    }
                },
                None => r == (false, None::<u8>) && final(self).detent == old(self).detent,
            },
            *final(self) == let_go(*old(self)),
    {
        match self.drag {
            Some(d) => {
                self.drag = None;
                let v = match self.prev {
                    Some(p) => {
                        if d.time > p.time {
                            Velocity { down: p.height - d.height, time: d.time - p.time }
                        } else {
                            Velocity { down: 0, time: 0 }
                        }
                    },
                    None => Velocity { down: 0, time: 0 },
                };
                let h = sheet_heights(self.viewport);
                let rest = sheet_rest(d.height, &v, &h);
                let moved = rest != self.detent;
                self.detent = rest;
                (
                    true,
                    if moved {
                        Some(rest)
                    } else {
                        None
                    },
                )
            },
            None => (false, None),
        }
    }
}

/// A sheet that is left alone comes to rest: each frame brings it nearer, and once it
/// is there it stays.
pub proof fn a_sheet_comes_to_rest(height: i64, target: i64)
    requires
        0 <= height <= 0x8000_0000,
        0 <= target <= 0x8000_0000,
    ensures
        height != target ==> apart(eased(height, target), target) < apart(height, target),
        eased(target, target) == target,
{
}

/// A sheet that is half open takes forty-five hundredths of the screen; where there is
/// room it peeks out by 132 pixels, and fully open it leaves 96 pixels free.
pub proof fn heights_are_as_they_should_be(viewport: i32)
    requires
        0 <= viewport,
    ensures
        ({
            let h = spec_sheet_heights(viewport);
            &&& 0 <= 45 * viewport - 100 * h.half < 100
            &&& viewport >= 300 * 1024 ==> h.peek == 132 * 1024
            &&& viewport >= 200 * 1024 ==> viewport - h.full == 96 * 1024
            &&& h.peek <= 132 * 1024
        }),
{
}

/// A flick comes to rest at the next height the way it goes: none lies between.
pub proof fn a_flick_rests_at_the_next_height(at: i64, v: Velocity, h: Heights, detent: int)
    requires
        h.peek <= h.half <= h.full,
        0 <= detent <= 2,
        v.time > 0,
    ensures
        v.down * 1000 <= -600 * 1024 * v.time && h.at(detent) > at + 512 ==> at < h.at(
            spec_sheet_rest(at, v, h),
        ) <= h.at(detent),
        v.down * 1000 >= 600 * 1024 * v.time && h.at(detent) < at - 512 ==> at > h.at(
            spec_sheet_rest(at, v, h),
        ) >= h.at(detent),
{
    let t = v.time as int;
    assert(-FLICK_VELOCITY * PIXEL * t == -614400 * t);
    assert(FLICK_VELOCITY * PIXEL * t == 614400 * t);
    assert(614400 * t > 0);
}

/// A sheet goes a quarter of its way in each frame, towards where it is to be and never
/// past it.
pub proof fn a_sheet_goes_a_quarter_of_its_way(height: i64, target: i64)
    requires
        0 <= height <= 0x8000_0000,
        0 <= target <= 0x8000_0000,
    ensures
        ({
            let next = eased(height, target);
            &&& target - height >= 2 * 1024 ==> 0 <= (target - height) - 4 * (next - height) < 4
            &&& height - target >= 2 * 1024 ==> 0 <= (height - target) - 4 * (height - next) < 4
            &&& -2 * 1024 < height - target < 2 * 1024 ==> next == target
        }),
{
}

/// A sheet that was let go goes on as fast as it was dragged: down where it came down.
pub proof fn a_drag_is_let_go_as_it_went(drag: SheetDrag, prev: SheetPast)
    requires
        0 <= drag.height <= 0x8000_0000 && 0 <= prev.height <= 0x8000_0000,
        0 <= prev.time && 0 <= drag.time,
    ensures
        ({
            let v = release(drag, Some(prev));
            &&& drag.time > prev.time ==> v.time == drag.time - prev.time && drag.height + v.down
                == prev.height
            &&& drag.time <= prev.time ==> v.time == 0
        }),
        release(drag, None).time == 0,
{
}

/// A sheet follows the finger on it, down where the finger goes down, as far as it opens
/// and closes; and where the finger comes back to, the sheet comes back to.
pub proof fn a_sheet_follows_the_finger(s: SheetView, down: i32, time: i64, later: i64)
    requires
        s.wf(),
        ({
            let h = spec_sheet_heights(s.viewport);
            h.peek <= s.height <= h.full
        }),
    ensures
        ({
            let h = spec_sheet_heights(s.viewport);
            let moved = dragged(held(s, time), down, later);
            &&& held(s, time).height == s.height
            &&& h.peek <= s.height - down <= h.full ==> moved.height == s.height - down
            &&& s.height - down < h.peek ==> moved.height == h.peek
            &&& s.height - down > h.full ==> moved.height == h.full
            &&& dragged(moved, 0, later).height == s.height
            &&& moved.detent == s.detent
        }),
{
}

/// A finger that rests before it goes up leaves the sheet at the height nearest to it, and
/// one that flicks it sends it on: up where it went up, and down where it went down.
pub proof fn a_sheet_goes_where_it_was_sent(s: SheetView, detent: int)
    requires
        s.wf(),
        s.drag is Some,
        s.prev is Some,
        0 <= detent <= 2,
    ensures
        ({
            let h = spec_sheet_heights(s.viewport);
            let (d, p) = (s.drag->0, s.prev->0);
            let rest = let_go(s).detent as int;
            let t = d.time - p.time;
            &&& let_go(s).drag is None && let_go(s).height == s.height
            &&& rest <= 2
            &&& p.height == d.height ==> apart(h.at(rest), d.height) <= apart(h.at(detent), d.height)
            &&& t > 0 && 1000 * (d.height - p.height) >= 614400 * t ==> h.at(rest) > d.height
                || rest == 2
            &&& t > 0 && 1000 * (p.height - d.height) >= 614400 * t ==> h.at(rest) < d.height
                || rest == 0
        }),
{
    let h = spec_sheet_heights(s.viewport);
    heights_rise(s.viewport);
    let (d, p) = (s.drag->0, s.prev->0);
    let v = release(d, s.prev);
    let t = v.time as int;
    assert(-FLICK_VELOCITY * PIXEL * t == -614400 * t);
    assert(FLICK_VELOCITY * PIXEL * t == 614400 * t);
    if p.height == d.height {
        a_slow_drag_rests_nearby(d.height, v, h, detent);
    }
    if v.time > 0 {
        a_flick_goes_on(d.height, v, h);
    }
}

} // verus!
