//! A view whose taps, long presses, swipes, drags and pinches call a script.
//!
//! The script is called once for each gesture, and for those that go on, a drag or
//! a pinch, only when the value moved.
use crate::widgets::pinch::{
    on_screen, pinched, spec_swipe, spec_way, square, square_apart, square_between, square_of,
    swipe, touched_all, way, Contact, Delta, PinchStep, PinchTracker, Point, Spread, Touch,
    TouchState, PIXEL,
};
use vstd::prelude::*;

verus! {

/// What a script is told of.
#[derive(Clone, Copy, PartialEq, Eq, Structural, Debug)]
pub enum GestureCall {
    Tap(Point),
    DoubleTap(Point),
    LongPress(Point),
    Swipe(Delta),
    PanBegan,
    PanMoved(Delta),
    PanEnded(Delta),
    PinchBegan { first: Point, second: Point },
    /// The pinch's scale is the root of the squares' ratio.
    PinchMoved { square: i128, base: i128, first: Point, second: Point },
    PinchEnded { square: i128, base: i128 },
}

/// A finger that is followed: where and when it went down, and what it has become.
#[derive(Clone, Copy, PartialEq, Eq, Structural, Debug)]
pub struct TouchPress {
    pub uid: u64,
    pub start: Point,
    pub time: i64,
    pub panning: bool,
    /// Spent on a long press: its going up is no tap.
    pub spent: bool,
    pub last_sent: Delta,
}

#[derive(Clone, Copy, Debug)]
pub struct GestureState {
    /// The press is the view's own: no child had claimed it.
    pub live: bool,
    /// The press moved too far for a tap.
    pub panning: bool,
    /// The way of the drag that was last told.
    pub pan_sent: Delta,
    pub last_tap: Option<(i64, Point)>,
    pub touch: Option<TouchPress>,
    /// The squares of the spread that was last told, and of the one that the pinch
    /// began with.
    pub pinch_sent: i128,
    pub pinch_base: i128,
    /// A pinch happened during the press: what follows is no tap, swipe or drag.
    pub pinched: bool,
}

pub struct GestureView {
    pub state: GestureState,
    pub pinch: PinchTracker,
}

/// A gesture view's state, its fingers, and what it has told the script.
pub struct Told {
    pub s: GestureState,
    pub contacts: Seq<Contact>,
    pub spread: Option<Spread>,
    pub calls: Seq<GestureCall>,
}

/// Movement up to this is still a tap: a finger is never perfectly still.
pub const TAP_SLOP: i128 = 10 * PIXEL;

/// A second tap this soon after the first, in milliseconds, and this close to it,
/// is a double tap.
pub const DOUBLE_TAP_TIME: i128 = 300;

pub const DOUBLE_TAP_DISTANCE: i128 = 24 * PIXEL;

/// Whether a way is too far for a tap.
pub open spec fn past_slop(d: Delta) -> bool {
    square(d) > TAP_SLOP * TAP_SLOP
}

/// Whether the ends of two ways are at least a pixel apart.
pub open spec fn moved(a: Delta, b: Delta) -> bool {
    square_between(a, b) >= PIXEL * PIXEL
}

pub open spec fn no_way() -> Delta {
    Delta { dx: 0, dy: 0 }
}

/// Something is told.
pub open spec fn tell(t: Told, s: GestureState, call: GestureCall) -> Told {
    Told { s, calls: t.calls.push(call), ..t }
}

/// A tap, and perhaps the second one of two.
pub open spec fn tapped(t: Told, at: Point, time: i64) -> Told {
    let first = tell(t, t.s, GestureCall::Tap(at));
    let double = match t.s.last_tap {
        Some((then, pos)) => time - then <= DOUBLE_TAP_TIME && square(spec_way(pos, at))
            <= DOUBLE_TAP_DISTANCE * DOUBLE_TAP_DISTANCE,
        None => false,
    };
    if double {
        tell(first, GestureState { last_tap: None, ..first.s }, GestureCall::DoubleTap(at))
    } else {
        Told { s: GestureState { last_tap: Some((time, at)), ..first.s }, ..first }
    }
}

/// A drag that has ended, and the swipe that it may have been.
pub open spec fn dragged(t: Told, d: Delta, elapsed: i64) -> Told {
    let ended = tell(t, t.s, GestureCall::PanEnded(d));
    match spec_swipe(d, elapsed) {
        Some(w) => tell(ended, ended.s, GestureCall::Swipe(w)),
        None => ended,
    }
}

/// The time from one moment to another.
pub open spec fn elapsed(from: i64, to: i64) -> i64 {
    if to - from > i64::MAX {
        i64::MAX
    } else if to - from < i64::MIN {
        i64::MIN
    } else {
        (to - from) as i64
    }
}

/// A finger that is followed moved.
pub open spec fn press_moved(t: Told, press: TouchPress, at: Point) -> Told {
    let d = spec_way(press.start, at);
    let begins = !press.panning && past_slop(d);
    let p = TouchPress { panning: press.panning || begins, ..press };
    let t1 = if begins {
        tell(t, t.s, GestureCall::PanBegan)
    } else {
        t
    };
    let sends = p.panning && moved(d, p.last_sent);
    let t2 = if sends {
        tell(t1, t1.s, GestureCall::PanMoved(d))
    } else {
        t1
    };
    Told {
        s: GestureState {
            touch: Some(
                TouchPress {
                    last_sent: if sends {
                        d
                    } else {
                        p.last_sent
                    },
                    ..p
                },
            ),
            ..t2.s
        },
        ..t2
    }
}

/// A finger that is followed went up.
pub open spec fn press_ended(t: Told, press: TouchPress, touch: Touch) -> Told {
    let up = Told { s: GestureState { touch: None, ..t.s }, ..t };
    let d = spec_way(press.start, touch.at);
    if t.s.pinched {
        up
    } else if press.panning {
        dragged(up, d, elapsed(press.time, touch.time))
    } else if !press.spent && !past_slop(d) && touch.inside {
        tapped(up, touch.at, touch.time)
    } else {
        up
    }
}

/// A view after one finger of an update.
#[verifier::opaque]
pub open spec fn fingered(t: Told, touch: Touch) -> Told {
    match touch.state {
        TouchState::Start => if t.s.touch is Some || !touch.inside || touch.claimed {
            t
        } else {
            Told {
                s: GestureState {
                    pinched: t.s.pinched && t.contacts.len() > 1,
                    touch: Some(
                        TouchPress {
                            uid: touch.uid,
                            start: touch.at,
                            time: touch.time,
                            panning: false,
                            spent: false,
                            last_sent: no_way(),
                        },
                    ),
                    ..t.s
                },
                ..t
            }
        },
        TouchState::Move | TouchState::Stable => match t.s.touch {
            Some(press) if press.uid == touch.uid && t.spread is None && !t.s.pinched => press_moved(
                t,
                press,
                touch.at,
            ),
            _ => t,
        },
        TouchState::Stop => match t.s.touch {
            Some(press) if press.uid == touch.uid => press_ended(t, press, touch),
            _ => t,
        },
    }
}

/// A view after the first `n` fingers of an update.
pub open spec fn fingered_all(t: Told, touches: Seq<Touch>, n: int) -> Told
    decreases n,
{
    if n <= 0 {
        t
    } else {
        fingered(fingered_all(t, touches, n - 1), touches[n - 1])
    }
}

/// Whether a pinch's scale moved by at least a fiftieth of what was last told; from
/// nothing, by anything.
pub open spec fn scale_moved(now: int, sent: int) -> bool {
    if sent == 0 {
        now > 0
    } else {
        10000 * now >= 10404 * sent || 10000 * now <= 9604 * sent
    }
}

/// A view after its pinch moved on.
#[verifier::opaque]
pub open spec fn pinch_stepped(t: Told, step: PinchStep, base: i128) -> Told {
    match step {
        PinchStep::Began { first, second } => {
            let s = GestureState { pinched: true, pinch_sent: base, pinch_base: base, ..t.s };
            let t1 = if s.panning {
                tell(
                    t,
                    GestureState { panning: false, ..s },
                    GestureCall::PanEnded(s.pan_sent),
                )
            } else {
                Told { s, ..t }
            };
            tell(t1, t1.s, GestureCall::PinchBegan { first, second })
        },
        PinchStep::Moved { square, base, first, second } => if scale_moved(
            square as int,
            t.s.pinch_sent as int,
        ) {
            tell(
                t,
                GestureState { pinch_sent: square, ..t.s },
                GestureCall::PinchMoved { square, base, first, second },
            )
        } else {
            t
        },
        PinchStep::Ended => tell(
            t,
            t.s,
            GestureCall::PinchEnded { square: t.s.pinch_sent, base: t.s.pinch_base },
        ),
        PinchStep::Nothing => t,
    }
}

/// A view after a touch update.
pub open spec fn updated(t: Told, touches: Seq<Touch>) -> Told {
    let contacts = touched_all(t.contacts, touches, touches.len() as int);
    let (spread, step) = pinched(contacts, t.spread);
    let base = match spread {
        Some(s) => s.square,
        None => 0,
    };
    fingered_all(
        pinch_stepped(Told { contacts, spread, ..t }, step, base),
        touches,
        touches.len() as int,
    )
}

/// A view after a finger was held still.
pub open spec fn long_pressed(t: Told, uid: u64, at: Point) -> Told {
    match t.s.touch {
        Some(p) if p.uid == uid && !p.panning && !p.spent && !t.s.pinched => tell(
            t,
            GestureState { touch: Some(TouchPress { spent: true, ..p }), ..t.s },
            GestureCall::LongPress(at),
        ),
        _ => t,
    }
}

/// What a pointer that is no finger does.
#[derive(Clone, Copy, PartialEq, Eq, Structural, Debug)]
pub enum PointerHit {
    /// It went down; whether a child of the view had claimed it.
    Down { child_owns: bool },
    /// It moved, with its way from where it went down.
    Move { from: Point, at: Point },
    LongPress { at: Point },
    Up {
        from: Point,
        at: Point,
        time: i64,
        /// When it went down.
        down: i64,
        over: bool,
        long_pressed: bool,
    },
}

/// A view after a pointer that is no finger did something.
pub open spec fn hit(t: Told, h: PointerHit) -> Told {
    let s = t.s;
    match h {
        PointerHit::Down { child_owns } => Told {
            s: GestureState {
                live: !child_owns,
                panning: false,
                pan_sent: no_way(),
                pinched: s.pinched && t.contacts.len() > 0,
                ..s
            },
            ..t
        },
        PointerHit::Move { from, at } => if s.live && t.spread is None && !s.pinched {
            let d = spec_way(from, at);
            let begins = !s.panning && past_slop(d);
            let t1 = if begins {
                tell(t, GestureState { panning: true, ..s }, GestureCall::PanBegan)
            } else {
                t
            };
            if t1.s.panning && moved(d, s.pan_sent) {
                tell(t1, GestureState { pan_sent: d, ..t1.s }, GestureCall::PanMoved(d))
            } else {
                t1
            }
        } else {
            t
        },
        PointerHit::LongPress { at } => if s.live && !s.panning && !s.pinched {
            tell(t, GestureState { live: false, ..s }, GestureCall::LongPress(at))
        } else {
            t
        },
        PointerHit::Up { from, at, time, down, over, long_pressed } => if s.live {
            let d = spec_way(from, at);
            let up = Told { s: GestureState { live: false, ..s }, ..t };
            if s.pinched {
                up
            } else if s.panning {
                dragged(
                    Told { s: GestureState { panning: false, ..up.s }, ..up },
                    d,
                    elapsed(down, time),
                )
            } else if over && !past_slop(d) && !long_pressed {
                tapped(up, at, time)
            } else {
                up
            }
        } else {
            t
        },
    }
}

fn is_past_slop(d: Delta) -> (r: bool)
    requires
        on_screen(d),
    ensures
        r == past_slop(d),
{
    square_of(d) > TAP_SLOP * TAP_SLOP
}

fn has_moved(a: Delta, b: Delta) -> (r: bool)
    requires
        on_screen(a),
        on_screen(b),
    ensures
        r == moved(a, b),
{
    square_apart(a, b) >= PIXEL * PIXEL
}

fn time_between(from: i64, to: i64) -> (r: i64)
    ensures
        r == elapsed(from, to),
{
    let d: i128 = to as i128 - from as i128;
    if d > i64::MAX as i128 {
        i64::MAX
    } else if d < i64::MIN as i128 {
        i64::MIN
    } else {
        d as i64
    }
}

pub open spec fn told(v: &GestureView, out: Seq<GestureCall>) -> Told {
    Told { s: v.state, contacts: v.pinch.contacts@, spread: v.pinch.spread, calls: out }
}

impl GestureView {
    pub open spec fn wf(&self) -> bool {
        &&& self.pinch.wf()
        &&& on_screen(self.state.pan_sent)
        &&& self.state.touch matches Some(p) ==> on_screen(p.last_sent)
        &&& 0 <= self.state.pinch_sent <= 0x8_0000_0000_0000_0000
        &&& self.pinch.spread matches Some(s) ==> 0 <= s.square <= 0x8_0000_0000_0000_0000
    }

    pub fn new() -> (r: GestureView)
        ensures
            r.wf(),
            !r.state.live && !r.state.panning && !r.state.pinched,
            r.state.touch is None && r.state.last_tap is None,
            r.state.pan_sent == (Delta { dx: 0, dy: 0 }),
            r.state.pinch_sent == 0 && r.state.pinch_base == 0,
            r.pinch.contacts@.len() == 0 && r.pinch.spread is None,
    {
        GestureView {
            state: GestureState {
                live: false,
                panning: false,
                pan_sent: Delta { dx: 0, dy: 0 },
                last_tap: None,
                touch: None,
                pinch_sent: 0,
                pinch_base: 0,
                pinched: false,
            },
            pinch: PinchTracker::new(),
        }
    }

    fn tap(&mut self, at: Point, time: i64, out: &mut Vec<GestureCall>)
        requires
            old(self).wf(),
        ensures
            final(self).wf(),
            told(final(self), final(out)@) == tapped(told(old(self), old(out)@), at, time),
    {
        out.push(GestureCall::Tap(at));
        let double = match self.state.last_tap {
            Some((then, pos)) => time as i128 - then as i128 <= DOUBLE_TAP_TIME && square_of(
                way(pos, at),
            ) <= DOUBLE_TAP_DISTANCE * DOUBLE_TAP_DISTANCE,
            None => false,
        };
        if double {
            self.state.last_tap = None;
            out.push(GestureCall::DoubleTap(at));
        } else {
            self.state.last_tap = Some((time, at));
        }
    }

    fn drag_end(&mut self, d: Delta, time: i64, out: &mut Vec<GestureCall>)
        ensures
            told(final(self), final(out)@) == dragged(told(old(self), old(out)@), d, time),
            *final(self) == *old(self),
    {
        out.push(GestureCall::PanEnded(d));
        if let Some(w) = swipe(d, time) {
            out.push(GestureCall::Swipe(w));
        }
    }

    fn handle_touch(&mut self, t: &Touch, out: &mut Vec<GestureCall>)
        requires
            old(self).wf(),
        ensures
            final(self).wf(),
            told(final(self), final(out)@) == fingered(told(old(self), old(out)@), *t),
    {
        reveal(fingered);
        match t.state {
            TouchState::Start => {
                if self.state.touch.is_some() || !t.inside || t.claimed {
                    return;
                }
                if self.pinch.contacts.len() <= 1 {
                    self.state.pinched = false;
                }
                self.state.touch = Some(
                    TouchPress {
                        uid: t.uid,
                        start: t.at,
                        time: t.time,
                        panning: false,
                        spent: false,
                        last_sent: Delta { dx: 0, dy: 0 },
                    },
                );
            },
            TouchState::Move | TouchState::Stable => {
                let mut press = match self.state.touch {
                    Some(p) => p,
                    None => {
                        return;
                    },
                };
                if press.uid != t.uid || self.pinch.pinching() || self.state.pinched {
                    return;
                }
                let d = way(press.start, t.at);
                if !press.panning && is_past_slop(d) {
                    press.panning = true;
                    out.push(GestureCall::PanBegan);
                }
                if press.panning && has_moved(d, press.last_sent) {
                    press.last_sent = d;
                    out.push(GestureCall::PanMoved(d));
                }
                self.state.touch = Some(press);
            },
            TouchState::Stop => {
                let press = match self.state.touch {
                    Some(p) => p,
                    None => {
                        return;
                    },
                };
                if press.uid != t.uid {
                    return;
                }
                self.state.touch = None;
                if self.state.pinched {
                    return;
                }
                let d = way(press.start, t.at);
                if press.panning {
                    self.drag_end(d, time_between(press.time, t.time), out);
                } else if !press.spent && !is_past_slop(d) && t.inside {
                    self.tap(t.at, t.time, out);
                }
            },
        }
    }

    fn handle_pinch(&mut self, step: PinchStep, out: &mut Vec<GestureCall>)
        requires
            old(self).wf(),
            step matches PinchStep::Moved { square, .. } ==> 0 <= square <= 0x8_0000_0000_0000_0000,
        ensures
            final(self).wf(),
            told(final(self), final(out)@) == pinch_stepped(
                told(old(self), old(out)@),
                step,
                match old(self).pinch.spread {
                    Some(s) => s.square,
                    None => 0,
                },
            ),
    {
        reveal(pinch_stepped);
        match step {
            PinchStep::Began { first, second } => {
                let base: i128 = match self.pinch.spread {
                    Some(s) => s.square,
                    None => 0,
                };
                self.state.pinched = true;
                self.state.pinch_sent = base;
                self.state.pinch_base = base;
                if self.state.panning {
                    out.push(GestureCall::PanEnded(self.state.pan_sent));
                    self.state.panning = false;
                }
                out.push(GestureCall::PinchBegan { first, second });
            },
            PinchStep::Moved { square, base, first, second } => {
                let sent: i128 = self.state.pinch_sent;
                let scaled = if sent == 0 {
                    square > 0
                } else {
                    10000 * square >= 10404 * sent || 10000 * square <= 9604 * sent
                };
                if scaled {
                    self.state.pinch_sent = square;
                    out.push(GestureCall::PinchMoved { square, base, first, second });
                }
            },
            PinchStep::Ended => {
                out.push(
                    GestureCall::PinchEnded {
                        square: self.state.pinch_sent,
                        base: self.state.pinch_base,
                    },
                );
            },
            PinchStep::Nothing => {},
        }
    }

    /// Fingers moved, went down or went up.
    pub fn handle_touches(&mut self, touches: &Vec<Touch>) -> (r: Vec<GestureCall>)
        requires
            old(self).wf(),
        ensures
            final(self).wf(),
            told(final(self), r@) == updated(told(old(self), seq![]), touches@),
    {
        let mut out: Vec<GestureCall> = Vec::new();
        let step = self.pinch.update(touches);
        assert(out@ =~= seq![]);
        self.handle_pinch(step, &mut out);
        let ghost t0 = told(self, out@);
        let mut i: usize = 0;
        while i < touches.len()
            invariant
                i <= touches.len(),
                self.wf(),
                told(self, out@) == fingered_all(t0, touches@, i as int),
            decreases touches.len() - i,
        {
            self.handle_touch(&touches[i], &mut out);
            i = i + 1;
        }
        out
    }

    /// A finger was held still.
    pub fn long_press(&mut self, uid: u64, at: Point) -> (r: Option<GestureCall>)
        requires
            old(self).wf(),
        ensures
            final(self).wf(),
            told(
                final(self),
                match r {
                    Some(call) => Seq::<GestureCall>::empty().push(call),
                    None => Seq::<GestureCall>::empty(),
                },
            ) == long_pressed(told(old(self), seq![]), uid, at),
    {
        if let Some(p) = self.state.touch {
            if p.uid == uid && !p.panning && !p.spent && !self.state.pinched {
                self.state.touch = Some(TouchPress { spent: true, ..p });
                return Some(GestureCall::LongPress(at));
            }
        }
        None
    }

    /// A pointer that is no finger did something.
    pub fn handle_hit(&mut self, h: PointerHit) -> (r: Vec<GestureCall>)
        requires
            old(self).wf(),
        ensures
            final(self).wf(),
            told(final(self), r@) == hit(told(old(self), seq![]), h),
    {
        let mut out: Vec<GestureCall> = Vec::new();
        assert(out@ =~= seq![]);
        match h {
            PointerHit::Down { child_owns } => {
                self.state.live = !child_owns;
                self.state.panning = false;
                self.state.pan_sent = Delta { dx: 0, dy: 0 };
                if !self.pinch.holding() {
                    self.state.pinched = false;
                }
            },
            PointerHit::Move { from, at } => {
                if self.state.live && !self.pinch.pinching() && !self.state.pinched {
                    let d = way(from, at);
                    if !self.state.panning && is_past_slop(d) {
                        self.state.panning = true;
                        out.push(GestureCall::PanBegan);
                    }
                    if self.state.panning && has_moved(d, self.state.pan_sent) {
                        self.state.pan_sent = d;
                        out.push(GestureCall::PanMoved(d));
                    }
                }
            },
            PointerHit::LongPress { at } => {
                if self.state.live && !self.state.panning && !self.state.pinched {
                    self.state.live = false;
                    out.push(GestureCall::LongPress(at));
                }
            },
            PointerHit::Up { from, at, time, down, over, long_pressed } => {
                if self.state.live {
                    self.state.live = false;
                    if self.state.pinched {
                        return out;
                    }
                    let d = way(from, at);
                    if self.state.panning {
                        self.state.panning = false;
                        self.drag_end(d, time_between(down, time), &mut out);
                    } else if over && !is_past_slop(d) && !long_pressed {
                        self.tap(at, time, &mut out);
                    }
                }
            },
        }
        out
    }
}

/// The fingers of a pinch, and a finger that was held still, tell nothing when they
/// go up.
pub proof fn spent_presses_are_no_taps(t: Told, press: TouchPress, touch: Touch)
    requires
        t.s.pinched || (press.spent && !press.panning),
    ensures
        press_ended(t, press, touch).calls == t.calls,
{
}

/// A finger that stays where it was last told of tells nothing.
pub proof fn a_still_finger_tells_nothing(t: Told, press: TouchPress, at: Point)
    requires
        press.panning,
        press.last_sent == spec_way(press.start, at),
    ensures
        press_moved(t, press, at).calls == t.calls,
{
    let d = press.last_sent;
    assert(square_between(d, d) == 0) by (nonlinear_arith)
        requires
            square_between(d, d) == (d.dx - d.dx) * (d.dx - d.dx) + (d.dy - d.dy) * (d.dy - d.dy),
    ;
}

/// The same gesture tells the same of a finger and of another pointer: neither tells
/// of a drag before it is too far for a tap.
pub proof fn short_ways_are_no_drags(t: Told, press: TouchPress, from: Point, at: Point)
    requires
        !press.panning,
        !t.s.panning,
        !past_slop(spec_way(from, at)),
        press.start == from,
    ensures
        press_moved(t, press, at).calls == t.calls,
        hit(t, PointerHit::Move { from, at }).calls == t.calls,
{
}

/// Fingers that pinch and keep their distance tell nothing.
pub proof fn a_still_pinch_tells_nothing(
    t: Told,
    square: i128,
    base: i128,
    first: Point,
    second: Point,
)
    requires
        0 <= square,
        t.s.pinch_sent == square,
    ensures
        pinch_stepped(t, PinchStep::Moved { square, base, first, second }, base) == t,
{
    reveal(pinch_stepped);
}

// ---------------------------------------------------------------------------
// What gestures are
// ---------------------------------------------------------------------------

/// Whether two places are no more than some pixels apart.
pub open spec fn within_pixels(a: Point, b: Point, pixels: int) -> bool {
    (b.x - a.x) * (b.x - a.x) + (b.y - a.y) * (b.y - a.y) <= (1024 * pixels) * (1024 * pixels)
}

proof fn slop_is_ten_pixels(a: Point, b: Point)
    ensures
        past_slop(spec_way(a, b)) <==> !within_pixels(a, b, 10),
        square(spec_way(a, b)) <= DOUBLE_TAP_DISTANCE * DOUBLE_TAP_DISTANCE <==> within_pixels(
            a,
            b,
            24,
        ),
{
}

/// Whether nothing is under way: no finger is followed, and no pinch happened.
pub open spec fn is_idle(t: Told) -> bool {
    t.s.touch is None && !t.s.pinched && t.spread is None
}

/// A finger that goes down and up again where it was is a tap there, and the second of two
/// such taps is a double tap besides, where it is soon and near enough. The third begins
/// anew.
pub proof fn a_finger_that_comes_and_goes_taps(t: Told, down: Touch, up: Touch)
    requires
        is_idle(t),
        down.state is Start && down.inside && !down.claimed,
        up.state is Stop && up.inside && up.uid == down.uid,
        within_pixels(down.at, up.at, 10),
    ensures
        ({
            let after = fingered(fingered(t, down), up);
            let double = t.s.last_tap matches Some((time, at)) && up.time - time <= 300
                && within_pixels(at, up.at, 24);
            &&& after.calls == if double {
                t.calls.push(GestureCall::Tap(up.at)).push(GestureCall::DoubleTap(up.at))
            } else {
                t.calls.push(GestureCall::Tap(up.at))
            }
            &&& after.s.last_tap == if double {
                None
            } else {
                Some((up.time, up.at))
            }
            &&& is_idle(after)
        }),
{
    reveal(fingered);
    slop_is_ten_pixels(down.at, up.at);
    if let Some((_, at)) = t.s.last_tap {
        slop_is_ten_pixels(at, up.at);
    }
}

/// A finger that a widget inside has claimed, or that is outside, is not followed.
pub proof fn other_fingers_are_left_alone(t: Told, down: Touch, later: Touch)
    requires
        is_idle(t),
        down.state is Start,
        down.claimed || !down.inside,
        !(later.state is Start),
    ensures
        fingered(t, down) == t,
        fingered(t, later) == t,
{
    reveal(fingered);
}

/// A finger that leaves its place drags: the drag begins once, moves by the finger's way,
/// and ends with it, and it is no tap.
pub proof fn a_finger_that_leaves_its_place_drags(t: Told, down: Touch, there: Touch, up: Touch)
    requires
        is_idle(t),
        down.state is Start && down.inside && !down.claimed,
        there.state is Move && there.uid == down.uid,
        up.state is Stop && up.uid == down.uid && up.at == there.at,
        !within_pixels(down.at, there.at, 10),
    ensures
        ({
            let way = Delta {
                dx: (there.at.x - down.at.x) as i64,
                dy: (there.at.y - down.at.y) as i64,
            };
            let dragging = fingered(fingered(t, down), there);
            let after = fingered(dragging, up);
            let told = t.calls.push(GestureCall::PanBegan).push(GestureCall::PanMoved(way));
            &&& dragging.calls == told
            &&& fingered(dragging, there).calls == told
            &&& told.len() + 1 <= after.calls.len() <= told.len() + 2
            &&& after.calls.take(told.len() as int + 1) == told.push(GestureCall::PanEnded(way))
            &&& after.calls.len() == told.len() + 2 ==> after.calls.last() is Swipe
            &&& after.s.touch is None
            &&& after.s.last_tap == t.s.last_tap
        }),
{
    reveal(fingered);
    slop_is_ten_pixels(down.at, there.at);
    let d = spec_way(down.at, there.at);
    let sq = square(d);
    assert(sq > (1024 * 10) * (1024 * 10));
    assert((1024 * 10) * (1024 * 10) == 104857600) by (nonlinear_arith);
    assert(PIXEL * PIXEL == 1048576);
    let (dx, dy) = (d.dx as int, d.dy as int);
    assert(square_between(d, no_way()) == sq) by {
        assert((dx - 0) * (dx - 0) + (dy - 0) * (dy - 0) == dx * dx + dy * dy);
    }
    assert(square_between(d, no_way()) >= 1048576);
    assert(square_between(d, d) == 0);
    assert(moved(d, no_way()));
    assert(past_slop(d));
    let dragging = fingered(fingered(t, down), there);
    let ended = dragging.calls.push(GestureCall::PanEnded(d));
    assert(ended.take(ended.len() as int) =~= ended);
    assert(forall|c: GestureCall| #[trigger] ended.push(c).take(ended.len() as int) =~= ended);
}

/// A long press is told once, and the finger's going up is then no tap.
pub proof fn a_long_press_is_no_tap(t: Told, down: Touch, at: Point, up: Touch)
    requires
        is_idle(t),
        down.state is Start && down.inside && !down.claimed,
        up.state is Stop && up.uid == down.uid,
    ensures
        ({
            let held = long_pressed(fingered(t, down), down.uid, at);
            &&& held.calls == t.calls.push(GestureCall::LongPress(at))
            &&& long_pressed(held, down.uid, at).calls == held.calls
            &&& fingered(held, up).calls == held.calls
            &&& fingered(held, up).s.touch is None
        }),
{
    reveal(fingered);
}

/// A pointer taps as a finger does, unless a widget inside has claimed its press.
pub proof fn a_pointer_that_comes_and_goes_taps(
    t: Told,
    child_owns: bool,
    from: Point,
    at: Point,
    down: i64,
    time: i64,
)
    requires
        !t.s.pinched,
        within_pixels(from, at, 10),
    ensures
        ({
            let pressed = hit(t, PointerHit::Down { child_owns });
            let after = hit(
                pressed,
                PointerHit::Up { from, at, time, down, over: true, long_pressed: false },
            );
            let double = t.s.last_tap matches Some((then, pos)) && time - then <= 300
                && within_pixels(pos, at, 24);
            &&& pressed.calls == t.calls
            &&& after.calls == if child_owns {
                t.calls
            } else if double {
                t.calls.push(GestureCall::Tap(at)).push(GestureCall::DoubleTap(at))
            } else {
                t.calls.push(GestureCall::Tap(at))
            }
            &&& !after.s.live
        }),
{
    slop_is_ten_pixels(from, at);
    if let Some((_, pos)) = t.s.last_tap {
        slop_is_ten_pixels(pos, at);
    }
}

/// A pointer that leaves its place drags as a finger does.
pub proof fn a_pointer_that_leaves_its_place_drags(
    t: Told,
    from: Point,
    at: Point,
    down: i64,
    time: i64,
)
    requires
        !t.s.pinched,
        t.spread is None,
        !within_pixels(from, at, 10),
    ensures
        ({
            let way = Delta { dx: (at.x - from.x) as i64, dy: (at.y - from.y) as i64 };
            let dragging = hit(
                hit(t, PointerHit::Down { child_owns: false }),
                PointerHit::Move { from, at },
            );
            let after = hit(
                dragging,
                PointerHit::Up { from, at, time, down, over: true, long_pressed: false },
            );
            let told = t.calls.push(GestureCall::PanBegan).push(GestureCall::PanMoved(way));
            &&& dragging.calls == told
            &&& hit(dragging, PointerHit::Move { from, at }).calls == told
            &&& hit(dragging, PointerHit::LongPress { at }).calls == told
            &&& told.len() + 1 <= after.calls.len() <= told.len() + 2
            &&& after.calls.take(told.len() as int + 1) == told.push(GestureCall::PanEnded(way))
            &&& after.calls.len() == told.len() + 2 ==> after.calls.last() is Swipe
            &&& !after.s.panning && !after.s.live
        }),
{
    slop_is_ten_pixels(from, at);
    let d = spec_way(from, at);
    let sq = square(d);
    assert(sq > (1024 * 10) * (1024 * 10));
    assert((1024 * 10) * (1024 * 10) == 104857600) by (nonlinear_arith);
    assert(PIXEL * PIXEL == 1048576);
    let (dx, dy) = (d.dx as int, d.dy as int);
    assert(square_between(d, no_way()) == sq) by {
        assert((dx - 0) * (dx - 0) + (dy - 0) * (dy - 0) == dx * dx + dy * dy);
    }
    assert(square_between(d, no_way()) >= 1048576);
    assert(square_between(d, d) == 0);
    assert(moved(d, no_way()));
    assert(past_slop(d));
    let dragging = hit(
        hit(t, PointerHit::Down { child_owns: false }),
        PointerHit::Move { from, at },
    );
    let ended = dragging.calls.push(GestureCall::PanEnded(d));
    assert(ended.take(ended.len() as int) =~= ended);
    assert(forall|c: GestureCall| #[trigger] ended.push(c).take(ended.len() as int) =~= ended);
}

/// A pinch is told of anew when its spread grew or shrank by two hundredths.
pub proof fn a_pinch_moves_by_hundredths(now: int, sent: int)
    requires
        0 <= now,
        0 < sent,
    ensures
        scale_moved(now * now, sent * sent) <==> 100 * now >= 102 * sent || 100 * now <= 98 * sent,
{
    let (a, b, c) = (100 * now, 102 * sent, 98 * sent);
    assert(10000 * (now * now) == a * a) by (nonlinear_arith)
        requires
            a == 100 * now,
    ;
    assert(10404 * (sent * sent) == b * b) by (nonlinear_arith)
        requires
            b == 102 * sent,
    ;
    assert(9604 * (sent * sent) == c * c) by (nonlinear_arith)
        requires
            c == 98 * sent,
    ;
    assert(sent * sent > 0) by (nonlinear_arith)
        requires
            sent > 0,
    ;
    assert(a * a >= b * b <==> a >= b) by (nonlinear_arith)
        requires
            a >= 0,
            b >= 0,
    ;
    assert(a * a <= c * c <==> a <= c) by (nonlinear_arith)
        requires
            a >= 0,
            c >= 0,
    ;
}

/// A pinch ends the drag that was under way, and while it has happened no finger drags,
/// taps or swipes.
pub proof fn a_pinch_ends_the_drag(
    t: Told,
    first: Point,
    second: Point,
    base: i128,
    touch: Touch,
)
    requires
        !(touch.state is Start),
    ensures
        ({
            let after = pinch_stepped(t, PinchStep::Began { first, second }, base);
            let begun = GestureCall::PinchBegan { first, second };
            &&& t.s.panning ==> after.calls == t.calls.push(
                GestureCall::PanEnded(t.s.pan_sent),
            ).push(begun)
            &&& !t.s.panning ==> after.calls == t.calls.push(begun)
            &&& !after.s.panning && after.s.pinched
            &&& fingered(after, touch).calls == after.calls
            &&& pinch_stepped(after, PinchStep::Ended, 0).calls == after.calls.push(
                GestureCall::PinchEnded { square: base, base },
            )
        }),
{
    reveal(fingered);
    reveal(pinch_stepped);
}

} // verus!
