//! The pointer: which window it is over, motion that is coalesced over a batch
//! of events, the edges by which a window is resized, buttons, and scrolling.
//!
//! A step that calls back into the application ends there, and the next step
//! looks at the windows anew: the callback may have closed one.
use crate::wayland::scroll::{FrameScroll, ScrollPhase, ScrollState};
use crate::wayland::windows::{ids_reversed, index_of, index_of_finds, listed, Windows};
use vstd::prelude::*;

verus! {

/// A position on a surface, in 256ths of a pixel.
#[derive(Clone, Copy, PartialEq, Eq, Structural, Debug)]
pub struct Point {
    pub x: i32,
    pub y: i32,
}

/// The part of a window's border that a press would drag.
#[derive(Clone, Copy, PartialEq, Eq, Structural, Debug)]
pub enum ResizeEdge {
    Top,
    Bottom,
    Left,
    TopLeft,
    BottomLeft,
    Right,
    TopRight,
    BottomRight,
}

/// The cursor to show.
#[derive(Clone, Copy, PartialEq, Eq, Structural, Debug)]
pub enum CursorShape {
    Default,
    NResize,
    SResize,
    WResize,
    NwResize,
    SwResize,
    EResize,
    NeResize,
    SeResize,
}

/// A corner reaches ten pixels along both of its sides.
pub const CORNER: i128 = 2560;

/// A side reaches five pixels into the window.
pub const SIDE: i128 = 1280;

pub open spec fn spec_resize_edge(p: Point, width: i64, height: i64) -> Option<ResizeEdge> {
    let left = p.x < CORNER;
    let top = p.y < CORNER;
    let right = p.x >= width - CORNER;
    let bottom = p.y >= height - CORNER;
    if left && top {
        Some(ResizeEdge::TopLeft)
    } else if left && bottom {
        Some(ResizeEdge::BottomLeft)
    } else if p.x < SIDE {
        Some(ResizeEdge::Left)
    } else if right && top {
        Some(ResizeEdge::TopRight)
    } else if right && bottom {
        Some(ResizeEdge::BottomRight)
    } else if p.x >= width - SIDE {
        Some(ResizeEdge::Right)
    } else if p.y < SIDE {
        Some(ResizeEdge::Top)
    } else if p.y >= height - SIDE {
        Some(ResizeEdge::Bottom)
    } else {
        None
    }
}

/// The edge of a window of this size (in 256ths of a pixel) that a position is
/// on. Corners come before the sides they are part of.
pub fn resize_edge(p: Point, width: i64, height: i64) -> (r: Option<ResizeEdge>)
    ensures
        r == spec_resize_edge(p, width, height),
{
    let (x, y): (i128, i128) = (p.x as i128, p.y as i128);
    let (w, h): (i128, i128) = (width as i128, height as i128);
    if x < CORNER && y < CORNER {
        Some(ResizeEdge::TopLeft)
    } else if x < CORNER && y >= h - CORNER {
        Some(ResizeEdge::BottomLeft)
    } else if x < SIDE {
        Some(ResizeEdge::Left)
    } else if x >= w - CORNER && y < CORNER {
        Some(ResizeEdge::TopRight)
    } else if x >= w - CORNER && y >= h - CORNER {
        Some(ResizeEdge::BottomRight)
    } else if x >= w - SIDE {
        Some(ResizeEdge::Right)
    } else if y < SIDE {
        Some(ResizeEdge::Top)
    } else if y >= h - SIDE {
        Some(ResizeEdge::Bottom)
    } else {
        None
    }
}

/// A position is on no edge exactly where it is five pixels or more from every
/// side and in none of the four corner squares.
pub proof fn inside_is_no_edge(p: Point, width: i64, height: i64)
    ensures
        spec_resize_edge(p, width, height) is None <==> {
            &&& SIDE <= p.x < width - SIDE
            &&& SIDE <= p.y < height - SIDE
            &&& !((p.x < CORNER || p.x >= width - CORNER) && (p.y < CORNER || p.y >= height
                - CORNER))
        },
{
}

pub open spec fn spec_cursor(edge: ResizeEdge) -> CursorShape {
    match edge {
        ResizeEdge::TopLeft => CursorShape::NwResize,
        ResizeEdge::BottomLeft => CursorShape::SwResize,
        ResizeEdge::Left => CursorShape::WResize,
        ResizeEdge::TopRight => CursorShape::NeResize,
        ResizeEdge::BottomRight => CursorShape::SeResize,
        ResizeEdge::Right => CursorShape::EResize,
        ResizeEdge::Top => CursorShape::NResize,
        ResizeEdge::Bottom => CursorShape::SResize,
    }
}

/// The cursor that shows an edge.
pub fn cursor_for(edge: ResizeEdge) -> (r: CursorShape)
    ensures
        r == spec_cursor(edge),
{
    match edge {
        ResizeEdge::TopLeft => CursorShape::NwResize,
        ResizeEdge::BottomLeft => CursorShape::SwResize,
        ResizeEdge::Left => CursorShape::WResize,
        ResizeEdge::TopRight => CursorShape::NeResize,
        ResizeEdge::BottomRight => CursorShape::SeResize,
        ResizeEdge::Right => CursorShape::EResize,
        ResizeEdge::Top => CursorShape::NResize,
        ResizeEdge::Bottom => CursorShape::SResize,
    }
}

/// A pointer position to report to a window.
#[derive(Clone, Copy, PartialEq, Eq, Structural, Debug)]
pub struct At {
    pub window: u64,
    pub pos: Point,
}

/// A cursor to set, with the serial that the request needs.
#[derive(Clone, Copy, PartialEq, Eq, Structural, Debug)]
pub struct SetCursor {
    pub serial: u32,
    pub shape: CursorShape,
}

/// A scroll to report to a window.
#[derive(Clone, Copy, PartialEq, Eq, Structural, Debug)]
pub struct ScrollEvent {
    pub at: At,
    pub scroll: FrameScroll,
}

/// What a press leads to.
#[derive(Clone, Copy, PartialEq, Eq, Structural, Debug)]
pub enum Press {
    /// The pointer is over no window.
    Nothing,
    /// Hand the press to the compositor as an interactive resize.
    Resize { window: u64, edge: ResizeEdge },
    /// Ask the application whether the position drags the window.
    AskDrag(At),
    /// Report the press to the window.
    MouseDown(At),
}

/// What a press leads to once the application has answered.
#[derive(Clone, Copy, PartialEq, Eq, Structural, Debug)]
pub enum AfterDrag {
    /// Hand the press to the compositor as an interactive move.
    Move { window: u64 },
    MouseDown(At),
}

/// The pointer as the client sees it.
#[derive(Clone, Copy, PartialEq, Eq, Structural, Debug)]
pub struct Pointer {
    pub window: Option<u64>,
    /// The latest motion that has not been reported yet.
    pub pending_motion: Option<At>,
    pub last_pos: Point,
    pub serial: Option<u32>,
    pub resize_edge: Option<ResizeEdge>,
    pub scroll: ScrollState,
}

impl Pointer {
    pub fn new() -> (r: Pointer)
        ensures
            r.window is None,
            r.pending_motion is None,
            r.last_pos == (Point { x: 0, y: 0 }),
            r.serial is None,
            r.resize_edge is None,
            r.scroll.is_between_frames(),
            !r.scroll.gesture_active,
    {
        Pointer {
            window: None,
            pending_motion: None,
            last_pos: Point { x: 0, y: 0 },
            serial: None,
            resize_edge: None,
            scroll: ScrollState::new(),
        }
    }

    /// The pointer entered a surface.
    pub fn enter(&mut self, windows: &Windows, serial: u32, surface: u32)
        ensures
            *final(self) == (Pointer {
                serial: Some(serial),
                window: windows.spec_window_for_surface(surface),
                ..*old(self)
            }),
    {
        self.serial = Some(serial);
        self.window = windows.window_id_for_surface(surface);
    }

    /// The motion to report: the latest one, if its window is still there.
    pub open spec fn motion_due(self, windows: &Windows) -> Option<At> {
        match self.pending_motion {
            Some(at) if windows.is_live(at.window) => Some(at),
            _ => None,
        }
    }

    /// Takes the latest motion to report it, once per batch of events and
    /// before a button, a scroll or a leave. A motion for a window that has
    /// been closed in the meantime is dropped.
    pub fn flush_pending_motion(&mut self, windows: &Windows) -> (r: Option<At>)
        ensures
            r == old(self).motion_due(windows),
            *final(self) == (Pointer { pending_motion: None, ..*old(self) }),
    {
        let due = match self.pending_motion {
            Some(at) => if windows.has(at.window) {
                Some(at)
            } else {
                None
            },
            None => None,
        };
        self.pending_motion = None;
        due
    }

    /// The pointer left its window: the motion to report first.
    pub fn leave(&mut self, windows: &Windows, serial: u32) -> (r: Option<At>)
        ensures
            r == old(self).motion_due(windows),
            *final(self) == (Pointer {
                pending_motion: None,
                serial: Some(serial),
                window: None,
                resize_edge: None,
                scroll: ScrollState { gesture_active: false, ..old(self).scroll },
                ..*old(self)
            }),
    {
        let due = self.flush_pending_motion(windows);
        self.serial = Some(serial);
        self.window = None;
        self.scroll.leave();
        self.resize_edge = None;
        due
    }

    /// The edge that a position is on: of a toplevel window its edge, of
    /// anything else the one that was known before.
    pub open spec fn edge_at(self, windows: &Windows, pos: Point) -> Option<ResizeEdge> {
        match self.window {
            Some(id) => match index_of(windows.windows@, id, 0) {
                Some(i) => spec_resize_edge(
                    pos,
                    windows.windows@[i].width,
                    windows.windows@[i].height,
                ),
                None => self.resize_edge,
            },
            None => self.resize_edge,
        }
    }

    /// The cursor that a motion asks for: the edge's over an edge, the default
    /// one right after leaving an edge. It can only be set with a serial.
    pub open spec fn cursor_due(self, windows: &Windows, pos: Point) -> Option<SetCursor> {
        match (self.window, self.serial) {
            (Some(id), Some(serial)) => if !listed(windows.windows@, id) {
                None
            } else {
                match self.edge_at(windows, pos) {
                    Some(edge) => Some(SetCursor { serial, shape: spec_cursor(edge) }),
                    None => if self.resize_edge is Some {
                        Some(SetCursor { serial, shape: CursorShape::Default })
                    } else {
                        None
                    },
                }
            },
            _ => None,
        }
    }

    /// The pointer after it moved: over a window the motion waits to be
    /// reported.
    pub open spec fn after_motion(self, windows: &Windows, pos: Point) -> Pointer {
        match self.window {
            Some(window) => Pointer {
                last_pos: pos,
                resize_edge: self.edge_at(windows, pos),
                pending_motion: Some(At { window, pos }),
                ..self
            },
            None => self,
        }
    }

    /// The pointer moved. The motion is held back and replaces an earlier one;
    /// the cursor is set at once.
    pub fn motion(&mut self, windows: &Windows, pos: Point) -> (r: Option<SetCursor>)
        ensures
            r == old(self).cursor_due(windows, pos),
            *final(self) == old(self).after_motion(windows, pos),
    {
        match self.window {
            Some(window) => {
                self.last_pos = pos;
                let mut cursor: Option<SetCursor> = None;
                proof {
                    index_of_finds(windows.windows@, window, 0);
                }
                if let Some(w) = windows.window(window) {
                    match resize_edge(pos, w.width, w.height) {
                        Some(edge) => {
                            self.resize_edge = Some(edge);
                            if let Some(serial) = self.serial {
                                cursor = Some(SetCursor { serial, shape: cursor_for(edge) });
                            }
                        },
                        None => {
                            if self.resize_edge.is_some() {
                                if let Some(serial) = self.serial {
                                    cursor = Some(SetCursor { serial, shape: CursorShape::Default });
                                }
                            }
                            self.resize_edge = None;
                        },
                    }
                }
                self.pending_motion = Some(At { window, pos });
                cursor
            },
            None => None,
        }
    }

    /// A button event begins: the motion to report before it.
    pub fn button(&mut self, windows: &Windows, serial: u32) -> (r: Option<At>)
        ensures
            r == old(self).motion_due(windows),
            *final(self) == (Pointer {
                pending_motion: None,
                serial: Some(serial),
                ..*old(self)
            }),
    {
        let due = self.flush_pending_motion(windows);
        self.serial = Some(serial);
        due
    }

    /// The popups that a press dismisses: all of them, the innermost first,
    /// where the press lands on a toplevel window.
    pub fn dismissed_by_press(&self, windows: &Windows) -> (r: Vec<u64>)
        ensures
            r@ == if self.over_toplevel(windows) {
                ids_reversed(windows.popups@)
            } else {
                Seq::empty()
            },
    {
        match self.window {
            Some(id) => if windows.has_window(id) {
                windows.popups_to_dismiss()
            } else {
                Vec::new()
            },
            None => Vec::new(),
        }
    }

    /// Whether the pointer is over a toplevel window.
    pub open spec fn over_toplevel(self, windows: &Windows) -> bool {
        self.window matches Some(id) && listed(windows.windows@, id)
    }

    /// What a press leads to.
    pub open spec fn press_outcome(self, windows: &Windows, primary: bool, has_seat: bool) -> Press {
        match self.window {
            None => Press::Nothing,
            Some(window) => {
                let at = At { window, pos: self.last_pos };
                if primary && listed(windows.windows@, window) {
                    match self.resize_edge {
                        Some(edge) if has_seat => Press::Resize { window, edge },
                        _ => Press::AskDrag(at),
                    }
                } else {
                    Press::MouseDown(at)
                }
            },
        }
    }

    /// A known button was pressed. On a toplevel window the primary button
    /// resizes at an edge, which takes priority, and else may drag the window.
    pub fn press(&mut self, windows: &Windows, primary: bool, has_seat: bool) -> (r: Press)
        ensures
            r == old(self).press_outcome(windows, primary, has_seat),
            *final(self) == if primary && old(self).over_toplevel(windows) {
                Pointer { resize_edge: None, ..*old(self) }
            } else {
                *old(self)
            },
    {
        match self.window {
            None => Press::Nothing,
            Some(window) => {
                let at = At { window, pos: self.last_pos };
                if primary && windows.has_window(window) {
                    let edge = self.resize_edge;
                    self.resize_edge = None;
                    match edge {
                        Some(edge) => if has_seat {
                            Press::Resize { window, edge }
                        } else {
                            Press::AskDrag(at)
                        },
                        None => Press::AskDrag(at),
                    }
                } else {
                    Press::MouseDown(at)
                }
            },
        }
    }

    /// The application answered whether a position drags its window.
    pub fn drag_answered(&self, windows: &Windows, window: u64, caption: bool, has_seat: bool) -> (r:
        AfterDrag)
        ensures
            r == if caption && has_seat && listed(windows.windows@, window) {
                AfterDrag::Move { window }
            } else {
                AfterDrag::MouseDown(At { window, pos: self.last_pos })
            },
    {
        if caption && has_seat && windows.has_window(window) {
            AfterDrag::Move { window }
        } else {
            AfterDrag::MouseDown(At { window, pos: self.last_pos })
        }
    }

    /// A known button was released.
    pub fn release(&self) -> (r: Option<At>)
        ensures
            r == match self.window {
                Some(window) => Some(At { window, pos: self.last_pos }),
                None => None,
            },
    {
        match self.window {
            Some(window) => Some(At { window, pos: self.last_pos }),
            None => None,
        }
    }

    /// A pointer frame ends: where it scrolls over a window, the motion to
    /// report first and then the scroll.
    pub fn frame(&mut self, windows: &Windows) -> (r: (Option<At>, Option<ScrollEvent>))
        ensures
            final(self).scroll.is_between_frames(),
            match old(self).scroll.spec_scroll() {
                Some(scroll) => {
                    &&& final(self).scroll.gesture_active == (scroll.phase == ScrollPhase::Changed)
                    &&& match old(self).window {
                        Some(window) => {
                            &&& r.0 == old(self).motion_due(windows)
                            &&& r.1 == Some(
                                ScrollEvent {
                                    at: At { window, pos: old(self).last_pos },
                                    scroll,
                                },
                            )
                            &&& final(self).pending_motion is None
                        },
                        None => r.0 is None && r.1 is None && final(self).pending_motion == old(
                            self,
                        ).pending_motion,
                    }
                },
                None => {
                    &&& r.0 is None
                    &&& r.1 is None
                    &&& final(self).scroll.gesture_active == old(self).scroll.gesture_active
                    &&& final(self).pending_motion == old(self).pending_motion
                },
            },
            final(self).window == old(self).window,
            final(self).last_pos == old(self).last_pos,
            final(self).serial == old(self).serial,
            final(self).resize_edge == old(self).resize_edge,
    {
        let scroll = self.scroll.frame();
        match (scroll, self.window) {
            (Some(scroll), Some(window)) => {
                let due = self.flush_pending_motion(windows);
                (due, Some(ScrollEvent { at: At { window, pos: self.last_pos }, scroll }))
            },
            _ => (None, None),
        }
    }
}

/// Of two motions over a window only the second is reported, and it is reported
/// once.
pub proof fn only_the_latest_motion_is_reported(
    p: Pointer,
    windows: &Windows,
    first: Point,
    second: Point,
)
    requires
        p.window matches Some(id) && windows.is_live(id),
    ensures
        ({
            let moved = p.after_motion(windows, first).after_motion(windows, second);
            &&& moved.motion_due(windows) == Some(At { window: p.window->0, pos: second })
            &&& (Pointer { pending_motion: None, ..moved }).motion_due(windows) is None
        }),
{
}

/// No motion is ever reported for a window that is gone.
pub proof fn motion_is_only_for_live_windows(p: Pointer, windows: &Windows)
    ensures
        p.motion_due(windows) matches Some(at) ==> windows.is_live(at.window),
{
}

/// The way an edge faces: to the left or right, and up or down.
pub open spec fn faces(edge: ResizeEdge) -> (int, int) {
    match edge {
        ResizeEdge::Top => (0, -1),
        ResizeEdge::Bottom => (0, 1),
        ResizeEdge::Left => (-1, 0),
        ResizeEdge::TopLeft => (-1, -1),
        ResizeEdge::BottomLeft => (-1, 1),
        ResizeEdge::Right => (1, 0),
        ResizeEdge::TopRight => (1, -1),
        ResizeEdge::BottomRight => (1, 1),
    }
}

/// The way a cursor points.
pub open spec fn points(shape: CursorShape) -> (int, int) {
    match shape {
        CursorShape::Default => (0, 0),
        CursorShape::NResize => (0, -1),
        CursorShape::SResize => (0, 1),
        CursorShape::WResize => (-1, 0),
        CursorShape::NwResize => (-1, -1),
        CursorShape::SwResize => (-1, 1),
        CursorShape::EResize => (1, 0),
        CursorShape::NeResize => (1, -1),
        CursorShape::SeResize => (1, 1),
    }
}

/// The edge that is named is where the pointer is: one that faces to the left is within
/// ten pixels of the left side, and so on, and one that faces one way only is within five
/// pixels of that side.
pub proof fn an_edge_is_where_the_pointer_is(p: Point, width: i64, height: i64)
    ensures
        spec_resize_edge(p, width, height) matches Some(edge) ==> {
            let (x, y) = faces(edge);
            &&& x < 0 ==> p.x < 10 * 256
            &&& x > 0 ==> p.x >= width - 10 * 256
            &&& y < 0 ==> p.y < 10 * 256
            &&& y > 0 ==> p.y >= height - 10 * 256
            &&& x < 0 && y == 0 ==> p.x < 5 * 256
            &&& x > 0 && y == 0 ==> p.x >= width - 5 * 256
            &&& x == 0 && y < 0 ==> p.y < 5 * 256
            &&& x == 0 && y > 0 ==> p.y >= height - 5 * 256
        },
{
}

/// Every border resizes: in a window of at least twenty pixels, a pointer within five
/// pixels of one side and ten or more from the two beside it is on that side's edge, and
/// one within ten pixels of two sides that meet is on their corner.
pub proof fn every_border_has_its_edge(p: Point, width: i64, height: i64)
    requires
        width >= 20 * 256,
        height >= 20 * 256,
    ensures
        ({
            let edge = spec_resize_edge(p, width, height);
            let (left, right) = (p.x < 10 * 256, p.x >= width - 10 * 256);
            let (top, bottom) = (p.y < 10 * 256, p.y >= height - 10 * 256);
            &&& !left && !right && p.y < 5 * 256 ==> (edge matches Some(e) && faces(e) == (
                0int,
                -1int,
            ))
            &&& !left && !right && p.y >= height - 5 * 256 ==> (edge matches Some(e) && faces(e)
                == (0int, 1int))
            &&& !top && !bottom && p.x < 5 * 256 ==> (edge matches Some(e) && faces(e) == (
                -1int,
                0int,
            ))
            &&& !top && !bottom && p.x >= width - 5 * 256 ==> (edge matches Some(e) && faces(e)
                == (1int, 0int))
            &&& left && top ==> (edge matches Some(e) && faces(e) == (-1int, -1int))
            &&& left && bottom ==> (edge matches Some(e) && faces(e) == (-1int, 1int))
            &&& right && top ==> (edge matches Some(e) && faces(e) == (1int, -1int))
            &&& right && bottom ==> (edge matches Some(e) && faces(e) == (1int, 1int))
        }),
{
}

/// The cursor over an edge points the way that the edge faces.
pub proof fn the_cursor_points_where_the_edge_faces(edge: ResizeEdge)
    ensures
        points(spec_cursor(edge)) == faces(edge),
{
}

/// A primary press where the pointer has moved to the border of a toplevel window resizes
/// that window, by an edge that faces the way the cursor points there.
pub proof fn a_press_on_a_border_resizes(p: Pointer, windows: &Windows, pos: Point, id: u64)
    requires
        p.window == Some(id),
        p.serial is Some,
        index_of(windows.windows@, id, 0) matches Some(i) && spec_resize_edge(
            pos,
            windows.windows@[i].width,
            windows.windows@[i].height,
        ) is Some,
    ensures
        p.after_motion(windows, pos).press_outcome(windows, true, true) matches Press::Resize {
            window,
            edge,
        } && window == id && (p.cursor_due(windows, pos) matches Some(c) && points(c.shape)
            == faces(edge) && p.serial == Some(c.serial)),
{
    index_of_finds(windows.windows@, id, 0);
}

/// A primary press away from the borders never resizes, and another button never does: the
/// window hears of it, at the place where the pointer is.
pub proof fn other_presses_reach_the_window(p: Pointer, windows: &Windows, has_seat: bool, id: u64)
    requires
        p.window == Some(id),
    ensures
        p.press_outcome(windows, false, has_seat) == Press::MouseDown(
            At { window: id, pos: p.last_pos },
        ),
        p.resize_edge is None && listed(windows.windows@, id) ==> p.press_outcome(
            windows,
            true,
            has_seat,
        ) == Press::AskDrag(At { window: id, pos: p.last_pos }),
{
}

/// A pointer that leaves an edge for the inside of its window gets the default cursor
/// back, once.
pub proof fn leaving_an_edge_restores_the_cursor(p: Pointer, windows: &Windows, pos: Point, id: u64)
    requires
        p.window == Some(id),
        p.serial is Some,
        p.resize_edge is Some,
        index_of(windows.windows@, id, 0) matches Some(i) && spec_resize_edge(
            pos,
            windows.windows@[i].width,
            windows.windows@[i].height,
        ) is None,
    ensures
        p.cursor_due(windows, pos) matches Some(c) && points(c.shape) == (0int, 0int),
        p.after_motion(windows, pos).cursor_due(windows, pos) is None,
{
    index_of_finds(windows.windows@, id, 0);
}

} // verus!
