//! Fingers on a view: how far they went, and the pinch that two of them make.
//!
//! Places and lengths are in 1024ths of a pixel, and times in milliseconds.
use vstd::prelude::*;

verus! {

/// A pixel.
pub const PIXEL: i128 = 1024;

/// A place on the screen.
#[derive(Clone, Copy, PartialEq, Eq, Structural, Debug)]
pub struct Point {
    pub x: i32,
    pub y: i32,
}

/// The way from one place to another.
#[derive(Clone, Copy, PartialEq, Eq, Structural, Debug)]
pub struct Delta {
    pub dx: i64,
    pub dy: i64,
}

/// Whether a way is one between two places on the screen.
pub open spec fn on_screen(d: Delta) -> bool {
    -0x1_0000_0000 <= d.dx <= 0x1_0000_0000 && -0x1_0000_0000 <= d.dy <= 0x1_0000_0000
}

pub open spec fn spec_way(from: Point, to: Point) -> Delta {
    Delta { dx: (to.x - from.x) as i64, dy: (to.y - from.y) as i64 }
}

pub fn way(from: Point, to: Point) -> (r: Delta)
    ensures
        r == spec_way(from, to),
        on_screen(r),
{
    Delta { dx: to.x as i64 - from.x as i64, dy: to.y as i64 - from.y as i64 }
}

/// The square of a way's length.
pub open spec fn square(d: Delta) -> int {
    d.dx * d.dx + d.dy * d.dy
}

/// The square of the distance between the ends of two ways with one beginning.
pub open spec fn square_between(a: Delta, b: Delta) -> int {
    (a.dx - b.dx) * (a.dx - b.dx) + (a.dy - b.dy) * (a.dy - b.dy)
}

proof fn square_fits(d: int)
    requires
        -0x2_0000_0000 <= d <= 0x2_0000_0000,
    ensures
        0 <= d * d <= 0x4_0000_0000_0000_0000,
{
    assert(0 <= d * d <= 0x4_0000_0000_0000_0000) by (nonlinear_arith)
        requires
            -0x2_0000_0000 <= d <= 0x2_0000_0000,
    ;
}

pub fn square_of(d: Delta) -> (r: i128)
    requires
        on_screen(d),
    ensures
        r == square(d),
        0 <= r <= 0x8_0000_0000_0000_0000,
{
    proof {
        square_fits(d.dx as int);
        square_fits(d.dy as int);
    }
    d.dx as i128 * d.dx as i128 + d.dy as i128 * d.dy as i128
}

pub fn square_apart(a: Delta, b: Delta) -> (r: i128)
    requires
        on_screen(a),
        on_screen(b),
    ensures
        r == square_between(a, b),
{
    let x: i128 = a.dx as i128 - b.dx as i128;
    let y: i128 = a.dy as i128 - b.dy as i128;
    proof {
        square_fits(x as int);
        square_fits(y as int);
    }
    x * x + y * y
}

// ---------------------------------------------------------------------------
// Swipes
// ---------------------------------------------------------------------------

/// The way that a swipe goes, when the travel was one: the greater part of it at
/// least one and a half times the other, at least 60 pixels, and in no more than
/// 450 milliseconds.
pub open spec fn spec_swipe(d: Delta, elapsed: i64) -> Option<Delta> {
    let (x, y) = (
        if d.dx < 0 {
            -d.dx
        } else {
            d.dx as int
        },
        if d.dy < 0 {
            -d.dy
        } else {
            d.dy as int
        },
    );
    if elapsed > 450 {
        None
    } else if x >= 60 * PIXEL && 2 * x >= 3 * y {
        Some(Delta { dx: d.dx, dy: 0 })
    } else if y >= 60 * PIXEL && 2 * y >= 3 * x {
        Some(Delta { dx: 0, dy: d.dy })
    } else {
        None
    }
}

/// The way that a swipe goes, when the travel was one.
pub fn swipe(d: Delta, elapsed: i64) -> (r: Option<Delta>)
    ensures
        r == spec_swipe(d, elapsed),
{
    let x: i128 = if d.dx < 0 {
        0 - d.dx as i128
    } else {
        d.dx as i128
    };
    let y: i128 = if d.dy < 0 {
        0 - d.dy as i128
    } else {
        d.dy as i128
    };
    if elapsed > 450 {
        return None;
    }
    if x >= 60 * PIXEL && 2 * x >= 3 * y {
        return Some(Delta { dx: d.dx, dy: 0 });
    }
    if y >= 60 * PIXEL && 2 * y >= 3 * x {
        return Some(Delta { dx: 0, dy: d.dy });
    }
    None
}

/// A swipe goes along one axis, the way the finger went.
pub proof fn a_swipe_goes_along_one_axis(d: Delta, elapsed: i64)
    ensures
        spec_swipe(d, elapsed) matches Some(s) ==> {
            &&& (s.dx == 0) != (s.dy == 0)
            &&& s.dx != 0 ==> s.dx == d.dx
            &&& s.dy != 0 ==> s.dy == d.dy
        },
{
}

// ---------------------------------------------------------------------------
// Pinches
// ---------------------------------------------------------------------------

#[derive(Clone, Copy, PartialEq, Eq, Structural, Debug)]
pub enum TouchState {
    Start,
    Stop,
    Move,
    Stable,
}

/// A finger in a touch update.
#[derive(Clone, Copy, PartialEq, Eq, Structural, Debug)]
pub struct Touch {
    pub uid: u64,
    pub state: TouchState,
    pub at: Point,
    pub time: i64,
    /// The finger is inside the view, as far as the view shows.
    pub inside: bool,
    /// A widget inside the view has claimed the finger.
    pub claimed: bool,
}

/// A finger that went down inside the view.
#[derive(Clone, Copy, PartialEq, Eq, Structural, Debug)]
pub struct Contact {
    pub uid: u64,
    pub pos: Point,
}

/// Two fingers down, and the square of how far apart they began.
#[derive(Clone, Copy, PartialEq, Eq, Structural, Debug)]
pub struct Spread {
    pub first: u64,
    pub second: u64,
    pub square: i128,
}

/// What a touch update did to a pinch.
#[derive(Clone, Copy, PartialEq, Eq, Structural, Debug)]
pub enum PinchStep {
    Nothing,
    Began { first: Point, second: Point },
    /// The pinch's scale is the root of the squares' ratio.
    Moved { square: i128, base: i128, first: Point, second: Point },
    Ended,
}

/// Follows the fingers that started inside a view and reports a pinch.
pub struct PinchTracker {
    pub contacts: Vec<Contact>,
    pub spread: Option<Spread>,
}

/// The first finger, `from` or later, with an identity.
pub open spec fn finger(contacts: Seq<Contact>, uid: u64, from: int) -> Option<int>
    decreases contacts.len() - from,
{
    if from < 0 || from >= contacts.len() {
        None
    } else if contacts[from].uid == uid {
        Some(from)
    } else {
        finger(contacts, uid, from + 1)
    }
}

pub proof fn finger_finds(contacts: Seq<Contact>, uid: u64, from: int)
    requires
        0 <= from <= contacts.len(),
    ensures
        match finger(contacts, uid, from) {
            Some(i) => from <= i < contacts.len() && contacts[i].uid == uid,
            None => forall|j: int| from <= j < contacts.len() ==> (#[trigger] contacts[j]).uid != uid,
        },
    decreases contacts.len() - from,
{
    if from < contacts.len() && contacts[from].uid != uid {
        finger_finds(contacts, uid, from + 1);
    }
}

/// The other fingers.
pub open spec fn without(contacts: Seq<Contact>, uid: u64) -> Seq<Contact>
    decreases contacts.len(),
{
    if contacts.len() == 0 {
        seq![]
    } else {
        let before = without(contacts.drop_last(), uid);
        if contacts.last().uid == uid {
            before
        } else {
            before.push(contacts.last())
        }
    }
}

/// The fingers after one of them moved, went down or went up.
pub open spec fn touched(contacts: Seq<Contact>, t: Touch) -> Seq<Contact> {
    match t.state {
        TouchState::Start => if t.inside && finger(contacts, t.uid, 0) is None {
            contacts.push(Contact { uid: t.uid, pos: t.at })
        } else {
            contacts
        },
        TouchState::Stop => without(contacts, t.uid),
        TouchState::Move | TouchState::Stable => match finger(contacts, t.uid, 0) {
            Some(i) => contacts.update(i, (Contact { pos: t.at, ..contacts[i] })),
            None => contacts,
        },
    }
}

/// The fingers after the first `n` touches of an update.
pub open spec fn touched_all(contacts: Seq<Contact>, touches: Seq<Touch>, n: int) -> Seq<Contact>
    decreases n,
{
    if n <= 0 {
        contacts
    } else {
        touched(touched_all(contacts, touches, n - 1), touches[n - 1])
    }
}

/// The square of how far apart two fingers are, and at least one pixel: no ratio
/// is infinite.
pub open spec fn spread_square(a: Point, b: Point) -> int {
    let s = square(spec_way(a, b));
    if s < PIXEL * PIXEL {
        PIXEL * PIXEL
    } else {
        s
    }
}

/// The pinch after an update: two fingers that still pinch, and what happened.
pub open spec fn pinched(contacts: Seq<Contact>, spread: Option<Spread>) -> (
    Option<Spread>,
    PinchStep,
) {
    match spread {
        None => if contacts.len() >= 2 {
            let (a, b) = (contacts[0], contacts[1]);
            (
                Some(
                    Spread {
                        first: a.uid,
                        second: b.uid,
                        square: spread_square(a.pos, b.pos) as i128,
                    },
                ),
                PinchStep::Began { first: a.pos, second: b.pos },
            )
        } else {
            (None, PinchStep::Nothing)
        },
        Some(s) => match (finger(contacts, s.first, 0), finger(contacts, s.second, 0)) {
            (Some(i), Some(j)) => (
                spread,
                PinchStep::Moved {
                    square: square(spec_way(contacts[i].pos, contacts[j].pos)) as i128,
                    base: s.square,
                    first: contacts[i].pos,
                    second: contacts[j].pos,
                },
            ),
            _ => (None, PinchStep::Ended),
        },
    }
}

impl PinchTracker {
    /// No finger is listed twice.
    pub open spec fn wf(&self) -> bool {
        forall|i: int, j: int|
            0 <= i < j < self.contacts@.len() ==> (#[trigger] self.contacts@[i]).uid != (
            #[trigger] self.contacts@[j]).uid
    }

    pub fn new() -> (r: PinchTracker)
        ensures
            r.wf(),
            r.contacts@ == Seq::<Contact>::empty(),
            r.spread is None,
    {
        let r = PinchTracker { contacts: Vec::new(), spread: None };
        assert(r.contacts@ =~= Seq::<Contact>::empty());
        r
    }

    fn find(&self, uid: u64) -> (r: Option<usize>)
        ensures
            match r {
                Some(i) => i < self.contacts.len() && finger(self.contacts@, uid, 0) == Some(
                    i as int,
                ),
                None => finger(self.contacts@, uid, 0) is None,
            },
    {
        let mut i: usize = 0;
        while i < self.contacts.len()
            invariant
                i <= self.contacts.len(),
                finger(self.contacts@, uid, 0) == finger(self.contacts@, uid, i as int),
            decreases self.contacts.len() - i,
        {
            if self.contacts[i].uid == uid {
                return Some(i);
            }
            i = i + 1;
        }
        None
    }

    fn lift(&mut self, uid: u64)
        requires
            old(self).wf(),
        ensures
            final(self).wf(),
            final(self).contacts@ == without(old(self).contacts@, uid),
            final(self).spread == old(self).spread,
    {
        let mut kept: Vec<Contact> = Vec::new();
        let mut i: usize = 0;
        assert(self.contacts@.take(0) =~= seq![]);
        while i < self.contacts.len()
            invariant
                i <= self.contacts.len(),
                self.wf(),
                *self == *old(self),
                kept@ == without(self.contacts@.take(i as int), uid),
                forall|a: int| 0 <= a < kept@.len() ==> exists|b: int|
                    0 <= b < i && #[trigger] kept@[a] == self.contacts@[b],
                forall|a: int, b: int|
                    0 <= a < b < kept@.len() ==> (#[trigger] kept@[a]).uid != (
                    #[trigger] kept@[b]).uid,
            decreases self.contacts.len() - i,
        {
            assert(self.contacts@.take(i + 1).drop_last() =~= self.contacts@.take(i as int));
            assert(self.contacts@.take(i + 1).last() == self.contacts@[i as int]);
            let c = self.contacts[i];
            if c.uid != uid {
                let ghost before = kept@;
                kept.push(c);
                proof {
                    assert forall|a: int| 0 <= a < kept@.len() implies exists|b: int|
                        0 <= b < i + 1 && #[trigger] kept@[a] == self.contacts@[b] by {
                        if a < before.len() {
                            let b = choose|b: int| 0 <= b < i && before[a] == self.contacts@[b];
                            assert(kept@[a] == self.contacts@[b]);
                        } else {
                            assert(kept@[a] == self.contacts@[i as int]);
                        }
                    }
                    assert forall|a: int, b: int| 0 <= a < b < kept@.len() implies (
                    #[trigger] kept@[a]).uid != (#[trigger] kept@[b]).uid by {
                        assert(kept@[a] == before[a]);
                        if b < before.len() {
                            assert(kept@[b] == before[b]);
                        } else {
                            let k = choose|k: int| 0 <= k < i && before[a] == self.contacts@[k];
                            assert(self.contacts@[k].uid != self.contacts@[i as int].uid);
                        }
                    }
                }
            }
            i = i + 1;
        }
        assert(self.contacts@.take(i as int) =~= self.contacts@);
        self.contacts = kept;
    }

    fn touch(&mut self, t: &Touch)
        requires
            old(self).wf(),
        ensures
            final(self).wf(),
            final(self).contacts@ == touched(old(self).contacts@, *t),
            final(self).spread == old(self).spread,
    {
        proof {
            finger_finds(self.contacts@, t.uid, 0);
        }
        match t.state {
            TouchState::Start => {
                if t.inside && self.find(t.uid).is_none() {
                    self.contacts.push(Contact { uid: t.uid, pos: t.at });
                }
            },
            TouchState::Stop => {
                self.lift(t.uid);
            },
            TouchState::Move | TouchState::Stable => {
                if let Some(i) = self.find(t.uid) {
                    self.contacts.set(i, Contact { uid: t.uid, pos: t.at });
                }
            },
        }
    }

    /// The fingers moved: what that did to the pinch.
    pub fn update(&mut self, touches: &Vec<Touch>) -> (r: PinchStep)
        requires
            old(self).wf(),
        ensures
            final(self).wf(),
            final(self).contacts@ == touched_all(
                old(self).contacts@,
                touches@,
                touches@.len() as int,
            ),
            (final(self).spread, r) == pinched(final(self).contacts@, old(self).spread),
            r matches PinchStep::Moved { square, .. } ==> 0 <= square <= 0x8_0000_0000_0000_0000,
            r matches PinchStep::Began { .. } ==> (final(self).spread matches Some(s) && 0
                <= s.square <= 0x8_0000_0000_0000_0000),
    {
        let mut i: usize = 0;
        while i < touches.len()
            invariant
                i <= touches.len(),
                self.wf(),
                self.spread == old(self).spread,
                self.contacts@ == touched_all(old(self).contacts@, touches@, i as int),
            decreases touches.len() - i,
        {
            self.touch(&touches[i]);
            i = i + 1;
        }
        match self.spread {
            None => {
                if self.contacts.len() >= 2 {
                    let a = self.contacts[0];
                    let b = self.contacts[1];
                    let s = square_of(way(a.pos, b.pos));
                    let square: i128 = if s < PIXEL * PIXEL {
                        PIXEL * PIXEL
                    } else {
                        s
                    };
                    self.spread = Some(Spread { first: a.uid, second: b.uid, square });
                    PinchStep::Began { first: a.pos, second: b.pos }
                } else {
                    PinchStep::Nothing
                }
            },
            Some(s) => match (self.find(s.first), self.find(s.second)) {
                (Some(i), Some(j)) => {
                    let first = self.contacts[i].pos;
                    let second = self.contacts[j].pos;
                    let square = square_of(way(first, second));
                    PinchStep::Moved { square, base: s.square, first, second }
                },
                _ => {
                    self.spread = None;
                    PinchStep::Ended
                },
            },
        }
    }

    pub fn pinching(&self) -> (r: bool)
        ensures
            r == self.spread is Some,
    {
        self.spread.is_some()
    }

    /// Whether a finger is still down: its going up is no tap.
    pub fn holding(&self) -> (r: bool)
        ensures
            r == (self.contacts@.len() > 0),
    {
        self.contacts.len() > 0
    }
}

/// A finger that goes down outside a view is not part of its pinch.
pub proof fn fingers_outside_do_not_pinch(contacts: Seq<Contact>, t: Touch)
    requires
        t.state is Start,
        !t.inside,
    ensures
        touched(contacts, t) == contacts,
{
}

/// A pinch ends when one of its fingers goes up.
pub proof fn a_lifted_finger_ends_the_pinch(contacts: Seq<Contact>, spread: Spread, t: Touch)
    requires
        t.state is Stop,
        t.uid == spread.first || t.uid == spread.second,
    ensures
        pinched(touched(contacts, t), Some(spread)) == (None::<Spread>, PinchStep::Ended),
{
    without_is_gone(contacts, t.uid);
    finger_finds(touched(contacts, t), spread.first, 0);
    finger_finds(touched(contacts, t), spread.second, 0);
}

proof fn without_is_gone(contacts: Seq<Contact>, uid: u64)
    ensures
        forall|i: int|
            0 <= i < without(contacts, uid).len() ==> (#[trigger] without(contacts, uid)[i]).uid
                != uid,
    decreases contacts.len(),
{
    if contacts.len() > 0 {
        without_is_gone(contacts.drop_last(), uid);
        let before = without(contacts.drop_last(), uid);
        assert forall|i: int| 0 <= i < without(contacts, uid).len() implies (#[trigger] without(
            contacts,
            uid,
        )[i]).uid != uid by {
            if i < before.len() {
                assert(without(contacts, uid)[i] == before[i]);
            }
        }
    }
}

/// The other way.
pub open spec fn reversed(d: Delta) -> Delta {
    Delta { dx: (-d.dx) as i64, dy: (-d.dy) as i64 }
}

/// The same way with the axes exchanged.
pub open spec fn exchanged(d: Delta) -> Delta {
    Delta { dx: d.dy, dy: d.dx }
}

/// Swipes know no side: the reversed way is swiped where the way is, and reversed; and the
/// same holds with the axes exchanged.
pub proof fn swipes_are_symmetric(d: Delta, elapsed: i64)
    requires
        on_screen(d),
    ensures
        spec_swipe(reversed(d), elapsed) == match spec_swipe(d, elapsed) {
            Some(s) => Some(reversed(s)),
            None => None,
        },
        spec_swipe(exchanged(d), elapsed) == match spec_swipe(d, elapsed) {
            Some(s) => Some(exchanged(s)),
            None => None,
        },
{
}

/// A way is swiped exactly where it took at most 450 milliseconds, is at least 60 pixels
/// along one axis, and there at least one and a half times as long as along the other,
/// whatever its sign; the swipe goes that far along that axis.
pub proof fn far_quick_straight_ways_are_swipes(d: Delta, elapsed: i64)
    ensures
        ({
            let sideways = (d.dx >= 61440 || d.dx <= -61440) && 4 * d.dx * d.dx >= 9 * d.dy * d.dy;
            let upright = (d.dy >= 61440 || d.dy <= -61440) && 4 * d.dy * d.dy >= 9 * d.dx * d.dx;
            &&& elapsed <= 450 && sideways ==> spec_swipe(d, elapsed) == Some(
                Delta { dx: d.dx, dy: 0 },
            )
            &&& elapsed <= 450 && upright ==> spec_swipe(d, elapsed) == Some(
                Delta { dx: 0, dy: d.dy },
            )
            &&& elapsed > 450 || !(sideways || upright) ==> spec_swipe(d, elapsed) is None
        }),
{
    let x = if d.dx < 0 {
        -d.dx
    } else {
        d.dx as int
    };
    let y = if d.dy < 0 {
        -d.dy
    } else {
        d.dy as int
    };
    assert(x * x == d.dx * d.dx && y * y == d.dy * d.dy) by (nonlinear_arith)
        requires
            x == d.dx || x == -d.dx,
            y == d.dy || y == -d.dy,
    ;
    assert((2 * x >= 3 * y) == (4 * (x * x) >= 9 * (y * y))) by (nonlinear_arith)
        requires
            x >= 0,
            y >= 0,
    ;
    assert((2 * y >= 3 * x) == (4 * (y * y) >= 9 * (x * x))) by (nonlinear_arith)
        requires
            x >= 0,
            y >= 0,
    ;
    assert(4 * d.dx * d.dx == 4 * (d.dx * d.dx) && 9 * d.dy * d.dy == 9 * (d.dy * d.dy) && 4 * d.dy
        * d.dy == 4 * (d.dy * d.dy) && 9 * d.dx * d.dx == 9 * (d.dx * d.dx)) by (nonlinear_arith);
}

/// A finger that comes and goes leaves the others as they were; one that moves is where it
/// moved to, and the others stay.
pub proof fn fingers_are_followed(contacts: Seq<Contact>, down: Touch, there: Touch, up: Touch, k: int)
    requires
        down.state is Start && down.inside,
        there.state is Move && there.uid == down.uid,
        up.state is Stop && up.uid == down.uid,
        forall|i: int| 0 <= i < contacts.len() ==> (#[trigger] contacts[i]).uid != down.uid,
        0 <= k < contacts.len(),
    ensures
        ({
            let held = touched(contacts, down);
            let moved = touched(held, there);
            let new = contacts.len() as int;
            &&& held.len() == contacts.len() + 1 && moved.len() == contacts.len() + 1
            &&& held[new].uid == down.uid && held[new].pos == down.at
            &&& moved[new].uid == down.uid && moved[new].pos == there.at
            &&& held[k] == contacts[k] && moved[k] == contacts[k]
            &&& touched(moved, up) == contacts
        }),
{
    let held = touched(contacts, down);
    finger_finds(contacts, down.uid, 0);
    finger_finds(held, down.uid, 0);
    let moved = touched(held, there);
    nothing_to_take(contacts, down.uid);
    assert(moved.drop_last() =~= contacts);
}

proof fn nothing_to_take(contacts: Seq<Contact>, uid: u64)
    requires
        forall|i: int| 0 <= i < contacts.len() ==> (#[trigger] contacts[i]).uid != uid,
    ensures
        without(contacts, uid) == contacts,
    decreases contacts.len(),
{
    if contacts.len() > 0 {
        let init = contacts.drop_last();
        assert forall|i: int| 0 <= i < init.len() implies (#[trigger] init[i]).uid != uid by {
            assert(init[i] == contacts[i]);
        }
        nothing_to_take(init, uid);
        assert(contacts[contacts.len() - 1].uid != uid);
        assert(init.push(contacts.last()) =~= contacts);
    } else {
        assert(without(contacts, uid) =~= contacts);
    }
}

/// A pinch measures the way between the two fingers that began it, wherever they stand
/// among the fingers and whatever the others do; fingers that are where they were have
/// the spread that they began with.
pub proof fn a_pinch_is_of_its_two_fingers(
    began: Seq<Contact>,
    now: Seq<Contact>,
    i: int,
    j: int,
)
    requires
        began.len() >= 2,
        began[0].uid != began[1].uid,
        0 <= i < now.len() && 0 <= j < now.len(),
        now[i].uid == began[0].uid && now[j].uid == began[1].uid,
        forall|a: int, b: int|
            0 <= a < b < now.len() ==> (#[trigger] now[a]).uid != (#[trigger] now[b]).uid,
    ensures
        ({
            let (spread, step) = pinched(began, None);
            let (x, y) = (now[j].pos.x - now[i].pos.x, now[j].pos.y - now[i].pos.y);
            &&& step matches PinchStep::Began { first, second } && first == began[0].pos && second
                == began[1].pos
            &&& pinched(now, spread).0 == spread
            &&& pinched(now, spread).1 matches PinchStep::Moved { square, base, first, second } && {
                &&& square == x * x + y * y
                &&& first == now[i].pos && second == now[j].pos
                &&& base >= 1024 * 1024
                &&& now[i].pos == began[0].pos && now[j].pos == began[1].pos && square >= 1024
                    * 1024 ==> square == base
            }
        }),
{
    let (spread, step) = pinched(began, None);
    finger_finds(now, began[0].uid, 0);
    finger_finds(now, began[1].uid, 0);
    let f = finger(now, began[0].uid, 0)->0;
    let g = finger(now, began[1].uid, 0)->0;
    assert(f == i) by {
        if f < i {
            assert(now[f].uid != now[i].uid);
        } else if i < f {
            assert(now[i].uid != now[f].uid);
        }
    }
    assert(g == j) by {
        if g < j {
            assert(now[g].uid != now[j].uid);
        } else if j < g {
            assert(now[j].uid != now[g].uid);
        }
    }
    let d = spec_way(now[i].pos, now[j].pos);
    square_fits(d.dx as int);
    square_fits(d.dy as int);
    let e = spec_way(began[0].pos, began[1].pos);
    square_fits(e.dx as int);
    square_fits(e.dy as int);
    assert(PIXEL * PIXEL == 1024 * 1024);
}

} // verus!
