//! Fingers on a camera's preview: a pinch zooms, and a tap focuses.
use crate::widgets::pinch::{pinched, touched_all, PinchStep, PinchTracker, Point, Touch};
use vstd::prelude::*;

verus! {

/// What a preview does with fingers.
pub struct CameraGestures {
    pub pinch_zoom: bool,
    pub tap_to_focus: bool,
    /// The script is told of the zoom that a pinch ends with.
    pub tells_zoom: bool,
    pub pinch: PinchTracker,
}

/// What a pinch does to the zoom.
#[derive(Clone, Copy, PartialEq, Eq, Structural, Debug)]
pub enum ZoomStep {
    Nothing,
    /// The zoom is from now on scaled from what it is.
    Hold,
    /// The zoom is the held one, times the root of the squares' ratio.
    Scale { square: i128, base: i128 },
    /// The script is told of the zoom.
    Tell,
}

/// Where a preview is drawn.
#[derive(Clone, Copy, PartialEq, Eq, Structural, Debug)]
pub struct Frame {
    pub corner: Point,
    pub width: i32,
    pub height: i32,
}

/// A finger that was lifted from a preview.
#[derive(Clone, Copy, PartialEq, Eq, Structural, Debug)]
pub struct Lift {
    pub at: Point,
    pub is_over: bool,
    pub was_tap: bool,
    /// A widget inside the preview had claimed the finger.
    pub claimed: bool,
}

/// A spot of a preview: `x` of `width`, and `y` of `height`.
#[derive(Clone, Copy, PartialEq, Eq, Structural, Debug)]
pub struct Spot {
    pub x: i32,
    pub width: i32,
    pub y: i32,
    pub height: i32,
}

pub open spec fn zoom_step(step: PinchStep, tells_zoom: bool) -> ZoomStep {
    match step {
        PinchStep::Nothing => ZoomStep::Nothing,
        PinchStep::Began { .. } => ZoomStep::Hold,
        PinchStep::Moved { square, base, .. } => ZoomStep::Scale { square, base },
        PinchStep::Ended => if tells_zoom {
            ZoomStep::Tell
        } else {
            ZoomStep::Nothing
        },
    }
}

/// A number, held within a length.
pub open spec fn within(n: int, length: int) -> int {
    if n < 0 {
        0
    } else if n > length {
        length
    } else {
        n
    }
}

/// The spot of a frame that is nearest to a place.
pub open spec fn spot(frame: Frame, at: Point) -> Spot {
    Spot {
        x: within(at.x - frame.corner.x, frame.width as int) as i32,
        width: frame.width,
        y: within(at.y - frame.corner.y, frame.height as int) as i32,
        height: frame.height,
    }
}

fn held_within(n: i64, length: i32) -> (r: i32)
    requires
        length >= 0,
    ensures
        r == within(n as int, length as int),
{
    if n < 0 {
        0
    } else if n > length as i64 {
        length
    } else {
        n as i32
    }
}

impl CameraGestures {
    pub open spec fn wf(&self) -> bool {
        self.pinch.wf()
    }

    /// Whether a lifted finger asks for the focus.
    pub open spec fn focuses(&self, frame: Frame, lift: Lift) -> bool {
        &&& self.tap_to_focus && frame.width > 0 && frame.height > 0
        &&& lift.is_over && lift.was_tap && !lift.claimed
        &&& self.pinch.spread is None
    }

    pub fn new(pinch_zoom: bool, tap_to_focus: bool, tells_zoom: bool) -> (r: CameraGestures)
        ensures
            r.wf(),
            r.pinch_zoom == pinch_zoom,
            r.tap_to_focus == tap_to_focus,
            r.tells_zoom == tells_zoom,
            r.pinch.contacts@.len() == 0,
            r.pinch.spread is None,
    {
        CameraGestures { pinch_zoom, tap_to_focus, tells_zoom, pinch: PinchTracker::new() }
    }

    /// The fingers moved: what that does to the zoom. Where a pinch does not zoom, the
    /// fingers are not followed.
    pub fn handle_touches(&mut self, touches: &Vec<Touch>) -> (r: ZoomStep)
        requires
            old(self).wf(),
        ensures
            final(self).wf(),
            final(self).pinch_zoom == old(self).pinch_zoom,
            final(self).tap_to_focus == old(self).tap_to_focus,
            final(self).tells_zoom == old(self).tells_zoom,
            if old(self).pinch_zoom {
                let contacts = touched_all(
                    old(self).pinch.contacts@,
                    touches@,
                    touches@.len() as int,
                );
                let (spread, step) = pinched(contacts, old(self).pinch.spread);
                &&& final(self).pinch.contacts@ == contacts
                &&& final(self).pinch.spread == spread
                &&& r == zoom_step(step, old(self).tells_zoom)
            } else {
                *final(self) == *old(self) && r is Nothing
            },
    {
        if !self.pinch_zoom {
            return ZoomStep::Nothing;
        }
        match self.pinch.update(touches) {
            PinchStep::Nothing => ZoomStep::Nothing,
            PinchStep::Began { .. } => ZoomStep::Hold,
            PinchStep::Moved { square, base, .. } => ZoomStep::Scale { square, base },
            PinchStep::Ended => {
                if self.tells_zoom {
                    ZoomStep::Tell
                } else {
                    ZoomStep::Nothing
                }
            },
        }
    }

    /// A finger was lifted: the spot to focus on, where it tapped the preview itself.
    pub fn handle_lift(&self, frame: Frame, lift: Lift) -> (r: Option<Spot>)
        ensures
            r == (if self.focuses(frame, lift) {
                Some(spot(frame, lift.at))
            } else {
                None
            }),
    {
        if !self.tap_to_focus || frame.width <= 0 || frame.height <= 0 {
            return None;
        }
        if !lift.is_over || !lift.was_tap || lift.claimed || self.pinch.pinching() {
            return None;
        }
        Some(
            Spot {
                x: held_within(lift.at.x as i64 - frame.corner.x as i64, frame.width),
                width: frame.width,
                y: held_within(lift.at.y as i64 - frame.corner.y as i64, frame.height),
                height: frame.height,
            },
        )
    }
}

/// A tap never focuses outside the picture.
pub proof fn the_focus_is_in_the_picture(frame: Frame, at: Point)
    requires
        frame.width > 0,
        frame.height > 0,
    ensures
        ({
            let s = spot(frame, at);
            0 <= s.x <= s.width && 0 <= s.y <= s.height
        }),
{
}

/// While two fingers pinch, none of them focuses.
pub proof fn a_pinch_does_not_focus(g: CameraGestures, frame: Frame, lift: Lift)
    requires
        g.pinch.spread is Some,
    ensures
        !g.focuses(frame, lift),
{
}

/// A place inside the picture is where it is from the picture's corner, wherever the
/// picture stands, and one outside is the nearest place inside.
pub proof fn a_spot_is_where_the_finger_was(frame: Frame, at: Point)
    requires
        frame.width > 0,
        frame.height > 0,
    ensures
        ({
            let s = spot(frame, at);
            &&& s.width == frame.width && s.height == frame.height
            &&& 0 <= at.x - frame.corner.x <= frame.width ==> frame.corner.x + s.x == at.x
            &&& 0 <= at.y - frame.corner.y <= frame.height ==> frame.corner.y + s.y == at.y
            &&& at.x < frame.corner.x ==> s.x == 0
            &&& at.y < frame.corner.y ==> s.y == 0
            &&& at.x > frame.corner.x + frame.width ==> s.x == s.width
            &&& at.y > frame.corner.y + frame.height ==> s.y == s.height
        }),
{
}

/// A preview focuses on a tap in it, where it is to and has a picture, and on nothing else.
pub proof fn only_taps_focus(g: CameraGestures, frame: Frame, lift: Lift)
    ensures
        g.tap_to_focus && frame.width > 0 && frame.height > 0 && g.pinch.spread is None
            && lift.is_over && lift.was_tap && !lift.claimed ==> g.focuses(frame, lift),
        g.focuses(frame, lift) ==> g.tap_to_focus && lift.was_tap && lift.is_over && !lift.claimed,
{
}

} // verus!
