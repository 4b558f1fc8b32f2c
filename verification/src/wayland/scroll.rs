//! Pointer scrolling: the axis events of one pointer frame add up to at most
//! one scroll.
use vstd::prelude::*;

verus! {

/// Where the axis events of a frame come from.
#[derive(Clone, Copy, PartialEq, Eq, Structural, Debug)]
pub enum AxisSource {
    Wheel,
    Finger,
    Continuous,
    WheelTilt,
}

/// The axis that an event speaks of.
#[derive(Clone, Copy, PartialEq, Eq, Structural, Debug)]
pub enum Axis {
    Vertical,
    Horizontal,
}

/// The part that a scroll plays in a touchpad gesture.
#[derive(Clone, Copy, PartialEq, Eq, Structural, Debug)]
pub enum ScrollPhase {
    /// A delta without a gesture.
    Plain,
    /// The fingers moved.
    Changed,
    /// The fingers lifted.
    Ended,
}

/// A distance per axis: 256ths of a pixel, or 120ths of a detent.
#[derive(Clone, Copy, PartialEq, Eq, Structural, Debug)]
pub struct Amount {
    pub x: i64,
    pub y: i64,
}

/// How far one axis scrolls.
#[derive(Clone, Copy, PartialEq, Eq, Structural, Debug)]
pub enum AxisScroll {
    /// A distance in 256ths of a pixel.
    Pixels(i64),
    /// Wheel steps in 120ths of a detent, each detent a fixed distance.
    Detents(i64),
}

/// What one pointer frame's axis events add up to.
#[derive(Clone, Copy, PartialEq, Eq, Structural, Debug)]
pub struct FrameScroll {
    pub x: AxisScroll,
    pub y: AxisScroll,
    pub phase: ScrollPhase,
    /// A wheel that ratchets in steps, which widgets may ease between.
    pub is_mouse: bool,
}

impl Amount {
    /// Whether either axis moved.
    pub open spec fn moved(self) -> bool {
        self.x != 0 || self.y != 0
    }

    /// No distance at all.
    pub open spec fn spec_zero() -> Amount {
        Amount { x: 0, y: 0 }
    }
}

pub open spec fn spec_is_wheel_like(source: Option<AxisSource>, has_detents: bool) -> bool {
    match source {
        Some(AxisSource::Wheel) | Some(AxisSource::WheelTilt) => true,
        Some(AxisSource::Finger) | Some(AxisSource::Continuous) => false,
        None => has_detents,
    }
}

/// Whether a pointer frame's scroll came from a source that ratchets in coarse
/// steps: its detents drive the delta and it carries no gesture phase. A frame
/// without a source is wheel-like exactly when it has detents, since a device
/// without discrete steps generates none.
pub fn scroll_is_wheel_like(source: Option<AxisSource>, has_detents: bool) -> (r: bool)
    ensures
        r == spec_is_wheel_like(source, has_detents),
{
    match source {
        Some(AxisSource::Wheel) | Some(AxisSource::WheelTilt) => true,
        Some(AxisSource::Finger) | Some(AxisSource::Continuous) => false,
        None => has_detents,
    }
}

/// Whether the frame belongs to a touchpad gesture: its source says so, or it
/// names no source while a gesture is in flight and its detents do not make it
/// a wheel.
pub open spec fn in_gesture(source: Option<AxisSource>, gesture_active: bool, detents: Amount) -> bool {
    source == Some(AxisSource::Finger) || (source is None && gesture_active && !detents.moved())
}

/// Whether the frame carries motion.
pub open spec fn has_motion(acc: Amount, detents: Amount) -> bool {
    acc.moved() || detents.moved()
}

/// Whether the frame is the lift-off of a gesture: a stop without motion.
pub open spec fn lifts_off(
    source: Option<AxisSource>,
    gesture_active: bool,
    stopped: bool,
    acc: Amount,
    detents: Amount,
) -> bool {
    in_gesture(source, gesture_active, detents) && stopped && !has_motion(acc, detents)
}

/// How far one axis scrolls: its detents where the frame is wheel-like and the
/// axis has any, else its raw distance.
pub open spec fn spec_axis_scroll(wheel_like: bool, detent: i64, raw: i64) -> AxisScroll {
    if wheel_like && detent != 0 {
        AxisScroll::Detents(detent)
    } else {
        AxisScroll::Pixels(raw)
    }
}

/// The scroll of a frame that has motion or lifts off.
pub open spec fn spec_frame_scroll(
    source: Option<AxisSource>,
    gesture_active: bool,
    stopped: bool,
    acc: Amount,
    detents: Amount,
) -> Option<FrameScroll> {
    let wheel_like = spec_is_wheel_like(source, detents.moved());
    if has_motion(acc, detents) || lifts_off(source, gesture_active, stopped, acc, detents) {
        Some(
            FrameScroll {
                x: spec_axis_scroll(wheel_like, detents.x, acc.x),
                y: spec_axis_scroll(wheel_like, detents.y, acc.y),
                phase: if !in_gesture(source, gesture_active, detents) {
                    ScrollPhase::Plain
                } else if has_motion(acc, detents) {
                    ScrollPhase::Changed
                } else {
                    ScrollPhase::Ended
                },
                is_mouse: wheel_like,
            },
        )
    } else {
        None
    }
}

/// Resolves a pointer frame's accumulated axis events into one scroll, or
/// nothing where the frame carries nothing worth dispatching.
///
/// A stop alongside live motion is one axis stopping, not the end of the
/// gesture. A stop alone ends a gesture; from a source without a gesture it
/// says nothing. Each axis takes its detents or its raw distance on its own.
pub fn frame_scroll(
    source: Option<AxisSource>,
    gesture_active: bool,
    stopped: bool,
    acc: Amount,
    detents: Amount,
) -> (r: Option<FrameScroll>)
    ensures
        r == spec_frame_scroll(source, gesture_active, stopped, acc, detents),
{
    let has_detents = detents.x != 0 || detents.y != 0;
    let has_delta = acc.x != 0 || acc.y != 0 || has_detents;
    let wheel_like = scroll_is_wheel_like(source, has_detents);
    let finger = match source {
        Some(AxisSource::Finger) => true,
        None => gesture_active && !wheel_like,
        _ => false,
    };
    let ended = finger && stopped && !has_delta;
    if !has_delta && !ended {
        return None;
    }
    let phase = if !finger {
        ScrollPhase::Plain
    } else if ended {
        ScrollPhase::Ended
    } else {
        ScrollPhase::Changed
    };
    Some(
        FrameScroll {
            x: axis_scroll(wheel_like, detents.x, acc.x),
            y: axis_scroll(wheel_like, detents.y, acc.y),
            phase,
            is_mouse: wheel_like,
        },
    )
}

fn axis_scroll(wheel_like: bool, detent: i64, raw: i64) -> (r: AxisScroll)
    ensures
        r == spec_axis_scroll(wheel_like, detent, raw),
{
    if wheel_like && detent != 0 {
        AxisScroll::Detents(detent)
    } else {
        AxisScroll::Pixels(raw)
    }
}

/// The sum of two distances, held at the ends of the range.
pub open spec fn spec_sum(a: i64, b: int) -> i64 {
    if a + b > i64::MAX {
        i64::MAX
    } else if a + b < i64::MIN {
        i64::MIN
    } else {
        (a + b) as i64
    }
}

fn sum(a: i64, b: i64) -> (r: i64)
    ensures
        r == spec_sum(a, b as int),
{
    match a.checked_add(b) {
        Some(v) => v,
        None => if b > 0 {
            i64::MAX
        } else {
            i64::MIN
        },
    }
}

/// The axis events of the current pointer frame, and whether the last
/// dispatched frame was a live gesture.
#[derive(Clone, Copy, PartialEq, Eq, Structural, Debug)]
pub struct ScrollState {
    pub accumulator: Amount,
    pub detents: Amount,
    pub source: Option<AxisSource>,
    pub stopped: bool,
    pub gesture_active: bool,
}

impl ScrollState {
    pub fn new() -> (r: ScrollState)
        ensures
            r.is_between_frames(),
            !r.gesture_active,
    {
        ScrollState {
            accumulator: Amount { x: 0, y: 0 },
            detents: Amount { x: 0, y: 0 },
            source: None,
            stopped: false,
            gesture_active: false,
        }
    }

    /// Nothing is left over from an earlier frame.
    pub open spec fn is_between_frames(self) -> bool {
        &&& self.accumulator == Amount::spec_zero()
        &&& self.detents == Amount::spec_zero()
        &&& self.source is None
        &&& !self.stopped
    }

    /// One axis of a distance moved on.
    pub open spec fn spec_along(a: Amount, axis: Axis, by: int) -> Amount {
        match axis {
            Axis::Vertical => Amount { x: a.x, y: spec_sum(a.y, by) },
            Axis::Horizontal => Amount { x: spec_sum(a.x, by), y: a.y },
        }
    }

    /// An axis event: `value` 256ths of a pixel. Positive is down or right, the
    /// convention of the widgets, so the value is taken as it comes.
    pub fn axis(&mut self, axis: Axis, value: i32)
        ensures
            *final(self) == (ScrollState {
                accumulator: Self::spec_along(old(self).accumulator, axis, value as int),
                ..*old(self)
            }),
    {
        match axis {
            Axis::Vertical => {
                self.accumulator.y = sum(self.accumulator.y, value as i64);
            },
            Axis::Horizontal => {
                self.accumulator.x = sum(self.accumulator.x, value as i64);
            },
        }
    }

    /// Whole wheel steps, from compositors that count in detents.
    pub fn axis_discrete(&mut self, axis: Axis, discrete: i32)
        ensures
            *final(self) == (ScrollState {
                detents: Self::spec_along(old(self).detents, axis, discrete * 120),
                ..*old(self)
            }),
    {
        let steps: i64 = (discrete as i64) * 120;
        match axis {
            Axis::Vertical => {
                self.detents.y = sum(self.detents.y, steps);
            },
            Axis::Horizontal => {
                self.detents.x = sum(self.detents.x, steps);
            },
        }
    }

    /// Wheel steps in 120ths of a detent.
    pub fn axis_value120(&mut self, axis: Axis, value120: i32)
        ensures
            *final(self) == (ScrollState {
                detents: Self::spec_along(old(self).detents, axis, value120 as int),
                ..*old(self)
            }),
    {
        match axis {
            Axis::Vertical => {
                self.detents.y = sum(self.detents.y, value120 as i64);
            },
            Axis::Horizontal => {
                self.detents.x = sum(self.detents.x, value120 as i64);
            },
        }
    }

    /// The source of this frame's events; a source newer than this protocol
    /// copy is `None`.
    pub fn axis_source(&mut self, source: Option<AxisSource>)
        ensures
            *final(self) == (ScrollState { source, ..*old(self) }),
    {
        self.source = source;
    }

    /// An axis stopped in this frame.
    pub fn axis_stop(&mut self)
        ensures
            *final(self) == (ScrollState { stopped: true, ..*old(self) }),
    {
        self.stopped = true;
    }

    /// The pointer left: a gesture in flight is over.
    pub fn leave(&mut self)
        ensures
            *final(self) == (ScrollState { gesture_active: false, ..*old(self) }),
    {
        self.gesture_active = false;
    }

    /// The scroll that this state's frame adds up to.
    pub open spec fn spec_scroll(self) -> Option<FrameScroll> {
        spec_frame_scroll(
            self.source,
            self.gesture_active,
            self.stopped,
            self.accumulator,
            self.detents,
        )
    }

    /// Ends the frame: its scroll, if there is one, and a clean state for the
    /// next frame. A dispatched scroll decides whether a gesture is in flight,
    /// whichever window the pointer is over.
    pub fn frame(&mut self) -> (r: Option<FrameScroll>)
        ensures
            r == old(self).spec_scroll(),
            final(self).is_between_frames(),
            final(self).gesture_active == match r {
                Some(scroll) => scroll.phase == ScrollPhase::Changed,
                None => old(self).gesture_active,
            },
    {
        let r = frame_scroll(
            self.source,
            self.gesture_active,
            self.stopped,
            self.accumulator,
            self.detents,
        );
        if let Some(scroll) = r {
            self.gesture_active = scroll.phase == ScrollPhase::Changed;
        }
        self.accumulator = Amount { x: 0, y: 0 };
        self.detents = Amount { x: 0, y: 0 };
        self.source = None;
        self.stopped = false;
        r
    }
}

/// A gesture in flight ends at its lift-off whether or not the compositor names
/// the source on that frame, with a zero distance.
pub proof fn gesture_always_ends(source: Option<AxisSource>)
    requires
        source is None || source == Some(AxisSource::Finger),
    ensures
        spec_frame_scroll(source, true, true, Amount::spec_zero(), Amount::spec_zero()) == Some(
            FrameScroll {
                x: AxisScroll::Pixels(0),
                y: AxisScroll::Pixels(0),
                phase: ScrollPhase::Ended,
                is_mouse: false,
            },
        ),
{
}

/// A frame without motion dispatches nothing unless it ends a gesture; so a
/// bare stop from a wheel, a wheel tilt or a continuous source says nothing.
pub proof fn bare_stop_without_gesture_is_silent(
    source: Option<AxisSource>,
    gesture_active: bool,
    stopped: bool,
)
    requires
        source matches Some(s) && s != AxisSource::Finger || (source is None && !gesture_active),
    ensures
        spec_frame_scroll(
            source,
            gesture_active,
            stopped,
            Amount::spec_zero(),
            Amount::spec_zero(),
        ) is None,
{
}

/// A stop alongside motion never ends a gesture.
pub proof fn motion_never_ends_a_gesture(
    source: Option<AxisSource>,
    gesture_active: bool,
    stopped: bool,
    acc: Amount,
    detents: Amount,
)
    requires
        has_motion(acc, detents),
    ensures
        spec_frame_scroll(source, gesture_active, stopped, acc, detents) matches Some(s)
            && s.phase != ScrollPhase::Ended,
{
}

/// No axis that moved is dropped: where a frame dispatches, each axis scrolls
/// by its detents or by its raw distance, and by zero only if both are zero or
/// the frame is smooth and the raw distance is zero.
pub proof fn no_axis_is_dropped(
    source: Option<AxisSource>,
    gesture_active: bool,
    stopped: bool,
    acc: Amount,
    detents: Amount,
)
    ensures
        spec_frame_scroll(source, gesture_active, stopped, acc, detents) matches Some(s) ==> {
            &&& acc.x != 0 ==> s.x != AxisScroll::Pixels(0)
            &&& acc.y != 0 ==> s.y != AxisScroll::Pixels(0)
            &&& s.is_mouse && detents.x != 0 ==> s.x == AxisScroll::Detents(detents.x)
            &&& s.is_mouse && detents.y != 0 ==> s.y == AxisScroll::Detents(detents.y)
        },
{
}

/// A scroll that is reported as mouse input carries no gesture phase.
pub proof fn mouse_scrolls_have_no_phase(
    source: Option<AxisSource>,
    gesture_active: bool,
    stopped: bool,
    acc: Amount,
    detents: Amount,
)
    ensures
        spec_frame_scroll(source, gesture_active, stopped, acc, detents) matches Some(s)
            ==> (s.is_mouse ==> s.phase == ScrollPhase::Plain),
{
}

/// What is scrolled along an axis adds up on that axis, and the other axis is kept.
pub proof fn scrolling_adds_up(a: Amount, first: int, second: int)
    requires
        -0x1000_0000 <= a.x <= 0x1000_0000 && -0x1000_0000 <= a.y <= 0x1000_0000,
        -0x1000_0000 <= first <= 0x1000_0000 && -0x1000_0000 <= second <= 0x1000_0000,
    ensures
        ({
            let down = ScrollState::spec_along(a, Axis::Vertical, first);
            let along = ScrollState::spec_along(a, Axis::Horizontal, first);
            &&& down.y == a.y + first && down.x == a.x
            &&& along.x == a.x + first && along.y == a.y
            &&& ScrollState::spec_along(down, Axis::Vertical, second) == ScrollState::spec_along(
                a,
                Axis::Vertical,
                first + second,
            )
            &&& ScrollState::spec_along(down, Axis::Horizontal, second).x == a.x + second
        }),
{
}

/// A wheel scrolls by its notches and a finger by its pixels; a device that does not say
/// what it is is a wheel where it counts notches.
pub proof fn wheels_scroll_by_notches(
    source: Option<AxisSource>,
    gesture_active: bool,
    stopped: bool,
    acc: Amount,
    detents: Amount,
)
    ensures
        spec_frame_scroll(source, gesture_active, stopped, acc, detents) matches Some(s) ==> {
            &&& source == Some(AxisSource::Finger) ==> !s.is_mouse && s.x == AxisScroll::Pixels(
                acc.x,
            ) && s.y == AxisScroll::Pixels(acc.y) && s.phase != ScrollPhase::Plain
            &&& source == Some(AxisSource::Wheel) ==> s.is_mouse && (detents.y != 0 ==> s.y
                == AxisScroll::Detents(detents.y)) && (detents.x != 0 ==> s.x
                == AxisScroll::Detents(detents.x)) && (detents.y == 0 ==> s.y
                == AxisScroll::Pixels(acc.y))
            &&& source is None ==> (s.is_mouse <==> detents.x != 0 || detents.y != 0)
            &&& source == Some(AxisSource::Continuous) ==> !s.is_mouse && s.phase
                == ScrollPhase::Plain
        },
        acc.x != 0 || acc.y != 0 || detents.x != 0 || detents.y != 0 ==> spec_frame_scroll(
            source,
            gesture_active,
            stopped,
            acc,
            detents,
        ) is Some,
{
}

} // verus!
