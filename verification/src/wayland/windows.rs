//! The client's windows and popups: which one a surface belongs to, which
//! frame callbacks are outstanding, and how the compositor's configure events
//! change their geometry.
use vstd::prelude::*;

verus! {

/// One window or popup. Sizes and positions are in 256ths of a pixel.
#[derive(Clone, Copy, PartialEq, Eq, Structural, Debug)]
pub struct Window {
    pub id: u64,
    /// The protocol id of its surface.
    pub surface: u32,
    pub x: i64,
    pub y: i64,
    pub width: i64,
    pub height: i64,
    /// The pixels of the display to one of these, in 120ths.
    pub scale: u32,
    /// Whether the first configure event has come.
    pub configured: bool,
}

/// Why a popup is dismissed.
#[derive(Clone, Copy, PartialEq, Eq, Structural, Debug)]
pub enum PopupDismissReason {
    Compositor,
    FocusLost,
    OutsideClick,
}

/// The index of the first entry with this id.
pub open spec fn index_of(list: Seq<Window>, id: u64, from: int) -> Option<int>
    decreases list.len() - from,
{
    if from < 0 || from >= list.len() {
        None
    } else if list[from].id == id {
        Some(from)
    } else {
        index_of(list, id, from + 1)
    }
}

/// Whether an entry with this id is listed.
pub open spec fn listed(list: Seq<Window>, id: u64) -> bool {
    exists|i: int| 0 <= i < list.len() && #[trigger] list[i].id == id
}

/// `index_of` finds an entry exactly where one is listed.
pub proof fn index_of_finds(list: Seq<Window>, id: u64, from: int)
    requires
        0 <= from <= list.len(),
    ensures
        match index_of(list, id, from) {
            Some(i) => from <= i < list.len() && list[i].id == id,
            None => forall|i: int| from <= i < list.len() ==> #[trigger] list[i].id != id,
        },
    decreases list.len() - from,
{
    if from < list.len() && list[from].id != id {
        index_of_finds(list, id, from + 1);
    }
}

/// The first entry of a list that owns a surface.
pub open spec fn owner(list: Seq<Window>, surface: u32, from: int) -> Option<u64>
    decreases list.len() - from,
{
    if from < 0 || from >= list.len() {
        None
    } else if list[from].surface == surface {
        Some(list[from].id)
    } else {
        owner(list, surface, from + 1)
    }
}

fn find_id(list: &Vec<Window>, id: u64) -> (r: Option<usize>)
    ensures
        match r {
            Some(i) => index_of(list@, id, 0) == Some(i as int) && i < list.len() && list@[i as int].id
                == id && listed(list@, id),
            None => index_of(list@, id, 0) is None && !listed(list@, id),
        },
{
    proof {
        index_of_finds(list@, id, 0);
    }
    let mut i: usize = 0;
    while i < list.len()
        invariant
            i <= list.len(),
            index_of(list@, id, 0) == index_of(list@, id, i as int),
        decreases list.len() - i,
    {
        if list[i].id == id {
            return Some(i);
        }
        i = i + 1;
    }
    None
}

fn find_owner(list: &Vec<Window>, surface: u32) -> (r: Option<u64>)
    ensures
        r == owner(list@, surface, 0),
{
    let mut i: usize = 0;
    while i < list.len()
        invariant
            i <= list.len(),
            owner(list@, surface, 0) == owner(list@, surface, i as int),
        decreases list.len() - i,
    {
        if list[i].surface == surface {
            return Some(list[i].id);
        }
        i = i + 1;
    }
    None
}

/// A geometry as a change event reports it.
#[derive(Clone, Copy, PartialEq, Eq, Structural, Debug)]
pub struct Geometry {
    pub x: i64,
    pub y: i64,
    pub width: i64,
    pub height: i64,
    /// In 120ths.
    pub scale: u32,
}

/// A window's geometry changed.
#[derive(Clone, Copy, PartialEq, Eq, Structural, Debug)]
pub struct GeometryChange {
    pub window: u64,
    pub old: Geometry,
    pub new: Geometry,
}

/// What a toplevel configure event asks for.
#[derive(Clone, Copy, PartialEq, Eq, Structural, Debug)]
pub struct ToplevelConfigure {
    pub change: GeometryChange,
    /// Full screen, or maximized, which is reported the same way.
    pub is_fullscreen: bool,
}

impl Window {
    pub open spec fn spec_geometry(self) -> Geometry {
        Geometry {
            x: self.x,
            y: self.y,
            width: self.width,
            height: self.height,
            scale: self.scale,
        }
    }

    pub fn geometry(&self) -> (r: Geometry)
        ensures
            r == self.spec_geometry(),
    {
        Geometry {
            x: self.x,
            y: self.y,
            width: self.width,
            height: self.height,
            scale: self.scale,
        }
    }
}

/// The toplevel windows and the popups, each in the order they were opened.
pub struct Windows {
    pub windows: Vec<Window>,
    pub popups: Vec<Window>,
}

/// A window's place and size once it is given a size; it keeps its own where it is left
/// to choose.
pub open spec fn configured_size(w: Window, width: i32, height: i32) -> Geometry {
    let named = width > 0 && height > 0;
    Geometry {
        x: 0,
        y: 0,
        width: if named {
            (width * 256) as i64
        } else {
            w.width
        },
        height: if named {
            (height * 256) as i64
        } else {
            w.height
        },
        scale: w.scale,
    }
}

/// The ids of a list, last first.
pub open spec fn ids_reversed(list: Seq<Window>) -> Seq<u64> {
    Seq::new(list.len(), |i: int| list[list.len() - 1 - i].id)
}

/// Whether a toplevel's list of states, 32-bit words in the machine's byte
/// order, holds `needle`. Bytes left over after the last whole word say
/// nothing.
pub open spec fn state_word(states: Seq<u8>, k: int) -> Seq<u8> {
    states.subrange(4 * k, 4 * k + 4)
}

pub open spec fn spec_has_state(states: Seq<u8>, needle: Seq<u8>) -> bool {
    exists|k: int| 0 <= k && 4 * k + 4 <= states.len() && #[trigger] state_word(states, k) == needle
}

/// Whether a toplevel's list of states holds `needle`, given as the four bytes
/// that the machine stores it in.
pub fn xdg_toplevel_has_state(states: &[u8], needle: [u8; 4]) -> (r: bool)
    ensures
        r == spec_has_state(states@, needle@),
{
    let mut i: usize = 0;
    let ghost mut k: int = 0;
    while states.len() - i >= 4
        invariant
            i <= states.len(),
            i == 4 * k,
            0 <= k,
            forall|j: int| 0 <= j < k ==> #[trigger] state_word(states@, j) != needle@,
        decreases states.len() - i,
    {
        if states[i] == needle[0] && states[i + 1] == needle[1] && states[i + 2] == needle[2]
            && states[i + 3] == needle[3] {
            assert(state_word(states@, k) =~= needle@);
            return true;
        }
        proof {
            let w = state_word(states@, k);
            assert(w[0] == states@[i as int] && w[1] == states@[i + 1] && w[2] == states@[i + 2]
                && w[3] == states@[i + 3]);
            assert(w != needle@);
            k = k + 1;
        }
        i = i + 4;
    }
    false
}

impl Windows {
    pub fn new() -> (r: Windows)
        ensures
            r.windows@.len() == 0,
            r.popups@.len() == 0,
    {
        Windows { windows: Vec::new(), popups: Vec::new() }
    }

    /// The window that owns a surface, else the popup that does.
    pub open spec fn spec_window_for_surface(&self, surface: u32) -> Option<u64> {
        match owner(self.windows@, surface, 0) {
            Some(id) => Some(id),
            None => owner(self.popups@, surface, 0),
        }
    }

    pub fn window_id_for_surface(&self, surface: u32) -> (r: Option<u64>)
        ensures
            r == self.spec_window_for_surface(surface),
    {
        match find_owner(&self.windows, surface) {
            Some(id) => Some(id),
            None => find_owner(&self.popups, surface),
        }
    }

    /// The entry of a window, else of a popup, with this id.
    pub open spec fn spec_entry(&self, id: u64) -> Option<Window> {
        match index_of(self.windows@, id, 0) {
            Some(i) => Some(self.windows@[i]),
            None => match index_of(self.popups@, id, 0) {
                Some(i) => Some(self.popups@[i]),
                None => None,
            },
        }
    }

    /// The surface that a window's shell surface was made for.
    pub fn xdg_surface_for_window(&self, id: u64) -> (r: Option<u32>)
        ensures
            r == match self.spec_entry(id) {
                Some(w) => Some(w.surface),
                None => None,
            },
    {
        match find_id(&self.windows, id) {
            Some(i) => Some(self.windows[i].surface),
            None => match find_id(&self.popups, id) {
                Some(i) => Some(self.popups[i].surface),
                None => None,
            },
        }
    }

    /// Whether a toplevel window has this id.
    pub fn has_window(&self, id: u64) -> (r: bool)
        ensures
            r == listed(self.windows@, id),
    {
        find_id(&self.windows, id).is_some()
    }

    /// Whether a window or a popup has this id.
    pub open spec fn is_live(&self, id: u64) -> bool {
        listed(self.windows@, id) || listed(self.popups@, id)
    }

    pub fn has(&self, id: u64) -> (r: bool)
        ensures
            r == self.is_live(id),
    {
        find_id(&self.windows, id).is_some() || find_id(&self.popups, id).is_some()
    }

    /// The toplevel window with this id.
    pub fn window(&self, id: u64) -> (r: Option<Window>)
        ensures
            r == match index_of(self.windows@, id, 0) {
                Some(i) => Some(self.windows@[i]),
                None => None,
            },
            r is Some <==> listed(self.windows@, id),
    {
        match find_id(&self.windows, id) {
            Some(i) => Some(self.windows[i]),
            None => None,
        }
    }

    /// The compositor prefers a scale, in 120ths, for a window or a popup that is
    /// known: the change that is reported, of the scale alone. The entry itself takes
    /// it over when the change is handled.
    pub fn preferred_scale(&self, id: u64, scale: u32) -> (r: Option<GeometryChange>)
        ensures
            r == match self.spec_entry(id) {
                Some(w) => Some(
                    GeometryChange {
                        window: id,
                        old: w.spec_geometry(),
                        new: Geometry { scale, ..w.spec_geometry() },
                    },
                ),
                None => None,
            },
    {
        let w = match find_id(&self.windows, id) {
            Some(i) => self.windows[i],
            None => match find_id(&self.popups, id) {
                Some(i) => self.popups[i],
                None => return None,
            },
        };
        let before = w.geometry();
        Some(GeometryChange { window: id, old: before, new: Geometry { scale, ..before } })
    }

    /// The popups to dismiss, the innermost first.
    pub fn popups_to_dismiss(&self) -> (r: Vec<u64>)
        ensures
            r@ == ids_reversed(self.popups@),
    {
        let mut r: Vec<u64> = Vec::new();
        let mut i: usize = self.popups.len();
        while i > 0
            invariant
                i <= self.popups.len(),
                r@ == ids_reversed(self.popups@).take(self.popups.len() - i),
            decreases i,
        {
            i = i - 1;
            r.push(self.popups[i].id);
            assert(r@ =~= ids_reversed(self.popups@).take(self.popups.len() - i));
        }
        assert(r@ =~= ids_reversed(self.popups@));
        r
    }

    /// A toplevel configure event: the new size where the compositor names one
    /// (both sides positive), else the window keeps its size. The position is
    /// always the origin. An unknown window says nothing.
    pub fn toplevel_configure(
        &self,
        id: u64,
        width: i32,
        height: i32,
        maximized: bool,
        fullscreen: bool,
    ) -> (r: Option<ToplevelConfigure>)
        ensures
            r == match index_of(self.windows@, id, 0) {
                Some(i) => {
                    let w = self.windows@[i];
                    Some(
                        ToplevelConfigure {
                            change: GeometryChange {
                                window: id,
                                old: w.spec_geometry(),
                                new: configured_size(w, width, height),
                            },
                            is_fullscreen: fullscreen || maximized,
                        },
                    )
                },
                None => None,
            },
    {
        match find_id(&self.windows, id) {
            Some(i) => {
                let w = self.windows[i];
                let named = width > 0 && height > 0;
                let new = Geometry {
                    x: 0,
                    y: 0,
                    width: if named {
                        (width as i64) * 256
                    } else {
                        w.width
                    },
                    height: if named {
                        (height as i64) * 256
                    } else {
                        w.height
                    },
                    scale: w.scale,
                };
                Some(
                    ToplevelConfigure {
                        change: GeometryChange { window: id, old: w.geometry(), new },
                        is_fullscreen: fullscreen || maximized,
                    },
                )
            },
            None => None,
        }
    }

    /// The entry with its first configure event taken note of.
    pub open spec fn configured_at(list: Seq<Window>, i: int) -> Seq<Window> {
        list.update(i, Window { configured: true, ..list[i] })
    }

    /// The change that a first configure event reports: from no size at all to
    /// the size that the window has.
    pub open spec fn first_configure(w: Window) -> Option<GeometryChange> {
        if w.configured {
            None
        } else {
            Some(
                GeometryChange {
                    window: w.id,
                    old: Geometry { width: 0, height: 0, ..w.spec_geometry() },
                    new: w.spec_geometry(),
                },
            )
        }
    }

    /// A shell surface was configured: the window, else the popup, counts as
    /// configured from now on, and its first time reports its geometry.
    pub fn surface_configure(&mut self, id: u64) -> (r: Option<GeometryChange>)
        ensures
            r == match old(self).spec_entry(id) {
                Some(w) => Self::first_configure(w),
                None => None,
            },
            match index_of(old(self).windows@, id, 0) {
                Some(i) => final(self).windows@ == Self::configured_at(old(self).windows@, i)
                    && final(self).popups@ == old(self).popups@,
                None => final(self).windows@ == old(self).windows@ && match index_of(
                    old(self).popups@,
                    id,
                    0,
                ) {
                    Some(i) => final(self).popups@ == Self::configured_at(old(self).popups@, i),
                    None => final(self).popups@ == old(self).popups@,
                },
            },
    {
        match find_id(&self.windows, id) {
            Some(i) => {
                let mut w = self.windows[i];
                let r = Self::first_change(&w);
                w.configured = true;
                self.windows.set(i, w);
                r
            },
            None => match find_id(&self.popups, id) {
                Some(i) => {
                    let mut w = self.popups[i];
                    let r = Self::first_change(&w);
                    w.configured = true;
                    self.popups.set(i, w);
                    r
                },
                None => None,
            },
        }
    }

    fn first_change(w: &Window) -> (r: Option<GeometryChange>)
        ensures
            r == Self::first_configure(*w),
    {
        if w.configured {
            None
        } else {
            let new = w.geometry();
            Some(
                GeometryChange {
                    window: w.id,
                    old: Geometry { width: 0, height: 0, ..new },
                    new,
                },
            )
        }
    }

    /// A popup after a configure event: moved, and resized where the compositor
    /// names a size.
    pub open spec fn popup_placed(w: Window, x: i32, y: i32, width: i32, height: i32) -> Window {
        let named = width > 0 && height > 0;
        Window {
            x: (x * 256) as i64,
            y: (y * 256) as i64,
            width: if named {
                (width * 256) as i64
            } else {
                w.width
            },
            height: if named {
                (height * 256) as i64
            } else {
                w.height
            },
            ..w
        }
    }

    /// A popup configure event: the popup takes the geometry, and a change is
    /// reported exactly where the geometry is a new one.
    pub fn popup_configure(&mut self, id: u64, x: i32, y: i32, width: i32, height: i32) -> (r:
        Option<GeometryChange>)
        ensures
            final(self).windows@ == old(self).windows@,
            match index_of(old(self).popups@, id, 0) {
                Some(i) => {
                    let before = old(self).popups@[i];
                    let after = Self::popup_placed(before, x, y, width, height);
                    &&& final(self).popups@ == old(self).popups@.update(i, after)
                    &&& r == if after.spec_geometry() == before.spec_geometry() {
                        None
                    } else {
                        Some(
                            GeometryChange {
                                window: id,
                                old: before.spec_geometry(),
                                new: after.spec_geometry(),
                            },
                        )
                    }
                },
                None => final(self).popups@ == old(self).popups@ && r is None,
            },
    {
        match find_id(&self.popups, id) {
            Some(i) => {
                let before = self.popups[i];
                let mut after = before;
                after.x = (x as i64) * 256;
                after.y = (y as i64) * 256;
                if width > 0 && height > 0 {
                    after.width = (width as i64) * 256;
                    after.height = (height as i64) * 256;
                }
                self.popups.set(i, after);
                if after.geometry() == before.geometry() {
                    None
                } else {
                    Some(
                        GeometryChange {
                            window: id,
                            old: before.geometry(),
                            new: after.geometry(),
                        },
                    )
                }
            },
            None => None,
        }
    }
}

// ---------------------------------------------------------------------------
// Frame callbacks
// ---------------------------------------------------------------------------

/// The windows whose last presented frame awaits its frame callback; none is
/// listed twice.
pub struct FrameCallbacks {
    pending: Vec<u64>,
}

impl View for FrameCallbacks {
    type V = Set<u64>;

    closed spec fn view(&self) -> Set<u64> {
        self.pending@.to_set()
    }
}

impl FrameCallbacks {
    pub fn new() -> (r: FrameCallbacks)
        ensures
            r@ == Set::<u64>::empty(),
    {
        let r = FrameCallbacks { pending: Vec::new() };
        assert(r@ =~= Set::<u64>::empty());
        r
    }

    /// Whether the compositor is not ready yet for another frame on a window.
    pub fn is_frame_callback_pending(&self, window: u64) -> (r: bool)
        ensures
            r == self@.contains(window),
    {
        let mut i: usize = 0;
        while i < self.pending.len()
            invariant
                i <= self.pending.len(),
                forall|j: int| 0 <= j < i ==> self.pending@[j] != window,
            decreases self.pending.len() - i,
        {
            if self.pending[i] == window {
                assert(self.pending@.contains(window));
                return true;
            }
            i = i + 1;
        }
        false
    }

    /// A frame was presented on a window.
    pub fn set_frame_callback_pending(&mut self, window: u64)
        ensures
            final(self)@ == old(self)@.insert(window),
    {
        if !self.is_frame_callback_pending(window) {
            let ghost before = self.pending@;
            self.pending.push(window);
            proof {
                assert forall|w: u64| self@.contains(w) <==> old(self)@.insert(window).contains(
                    w,
                ) by {
                    if before.contains(w) {
                        let i = choose|i: int| 0 <= i < before.len() && before[i] == w;
                        assert(self.pending@[i] == w);
                    }
                    assert(self.pending@[before.len() as int] == window);
                    if self.pending@.contains(w) && w != window {
                        let i = choose|i: int|
                            0 <= i < self.pending@.len() && self.pending@[i] == w;
                        assert(before[i] == w);
                    }
                }
            }
        }
        assert(self@ =~= old(self)@.insert(window));
    }

    /// The callback fired, or the window was closed, which never fires one.
    pub fn clear_frame_callback_pending(&mut self, window: u64)
        ensures
            final(self)@ == old(self)@.remove(window),
    {
        let mut kept: Vec<u64> = Vec::new();
        let mut i: usize = 0;
        while i < self.pending.len()
            invariant
                i <= self.pending.len(),
                self.pending@ == old(self).pending@,
                kept@.to_set() == self.pending@.take(i as int).to_set().remove(window),
            decreases self.pending.len() - i,
        {
            let id: u64 = self.pending[i];
            let ghost before = kept@;
            let ghost seen = self.pending@.take(i as int);
            if id != window {
                kept.push(id);
            }
            proof {
                let next = self.pending@.take(i + 1);
                assert(next =~= seen.push(id));
                assert forall|w: u64| kept@.contains(w) <==> next.contains(w) && w != window by {
                    lemma_push_contains(seen, id, w);
                    lemma_push_contains(before, id, w);
                    assert(before.to_set().contains(w) <==> seen.to_set().remove(window).contains(w));
                }
                assert(kept@.to_set() =~= next.to_set().remove(window));
            }
            i = i + 1;
        }
        assert(self.pending@.take(i as int) =~= self.pending@);
        self.pending = kept;
    }

    /// Whether any window awaits its callback.
    pub fn any_frame_callback_pending(&self) -> (r: bool)
        ensures
            r == (self@ != Set::<u64>::empty()),
    {
        proof {
            if self.pending@.len() > 0 {
                assert(self.pending@.contains(self.pending@[0]));
                assert(self@.contains(self.pending@[0]));
            } else {
                assert(self@ =~= Set::<u64>::empty());
            }
        }
        self.pending.len() > 0
    }
}

proof fn lemma_push_contains(s: Seq<u64>, x: u64, w: u64)
    ensures
        s.push(x).contains(w) <==> s.contains(w) || w == x,
{
    let t = s.push(x);
    if s.contains(w) {
        let i = choose|i: int| 0 <= i < s.len() && s[i] == w;
        assert(t[i] == w);
    }
    assert(t[s.len() as int] == x);
    if t.contains(w) && w != x {
        let i = choose|i: int| 0 <= i < t.len() && t[i] == w;
        assert(s[i] == w);
    }
}

/// A closed window never keeps a frame from being presented: clearing it takes
/// back what presenting did, and touches no other window.
pub proof fn clearing_undoes_presenting(pending: Set<u64>, window: u64, other: u64)
    requires
        window != other,
    ensures
        !pending.insert(window).remove(window).contains(window),
        pending.insert(window).remove(window).contains(other) == pending.contains(other),
{
}

/// A surface belongs to a window that is there and that has it.
pub proof fn a_surface_belongs_to_its_window(list: Seq<Window>, surface: u32, from: int)
    requires
        0 <= from <= list.len(),
    ensures
        match owner(list, surface, from) {
            Some(id) => exists|i: int|
                from <= i < list.len() && (#[trigger] list[i]).id == id && list[i].surface
                    == surface,
            None => forall|i: int|
                from <= i < list.len() ==> (#[trigger] list[i]).surface != surface,
        },
    decreases list.len() - from,
{
    if from < list.len() {
        if list[from].surface != surface {
            a_surface_belongs_to_its_window(list, surface, from + 1);
            if let Some(id) = owner(list, surface, from) {
                let i = choose|i: int|
                    from + 1 <= i < list.len() && (#[trigger] list[i]).id == id && list[i].surface
                        == surface;
                assert(list[i].id == id && list[i].surface == surface);
            }
        } else {
            assert(list[from].id == list[from].id && list[from].surface == surface);
        }
    }
}

/// The popup that was opened last is dismissed first.
pub proof fn the_last_popup_goes_first(list: Seq<Window>, last: Window)
    ensures
        ids_reversed(list.push(last)) == seq![last.id] + ids_reversed(list),
        ids_reversed(Seq::empty()).len() == 0,
{
    assert(ids_reversed(list.push(last)) =~= seq![last.id] + ids_reversed(list));
}

/// A state is found where it stands among the others, and not in the middle of two.
pub proof fn a_state_is_found_among_others(before: Seq<u8>, needle: Seq<u8>, after: Seq<u8>)
    requires
        needle.len() == 4,
        before.len() % 4 == 0,
    ensures
        spec_has_state(before + needle + after, needle),
        spec_has_state(before, needle) || spec_has_state(after, needle) ==> spec_has_state(
            before + after,
            needle,
        ),
        spec_has_state(before + after, needle) ==> spec_has_state(before, needle) || spec_has_state(
            after,
            needle,
        ),
        !spec_has_state(Seq::empty(), needle),
{
    let all = before + needle + after;
    let n = before.len() as int / 4;
    assert(state_word(all, n) =~= needle);
    let both = before + after;
    if spec_has_state(before, needle) {
        let k = choose|k: int|
            0 <= k && 4 * k + 4 <= before.len() && #[trigger] state_word(before, k) == needle;
        assert(state_word(both, k) =~= state_word(before, k));
    }
    if spec_has_state(after, needle) {
        let k = choose|k: int|
            0 <= k && 4 * k + 4 <= after.len() && #[trigger] state_word(after, k) == needle;
        assert(state_word(both, n + k) =~= state_word(after, k));
    }
    if spec_has_state(both, needle) {
        let k = choose|k: int|
            0 <= k && 4 * k + 4 <= both.len() && #[trigger] state_word(both, k) == needle;
        if k < n {
            assert(state_word(both, k) =~= state_word(before, k));
        } else {
            assert(state_word(both, k) =~= state_word(after, k - n));
        }
    }
}

/// A window takes the size that it is given, in its own measure of 256 to a pixel, and
/// keeps its own where it is left to choose; its scale stays either way.
pub proof fn windows_take_the_size_they_are_given(
    w: Window,
    x: i32,
    y: i32,
    width: i32,
    height: i32,
)
    ensures
        ({
            let g = configured_size(w, width, height);
            let p = Windows::popup_placed(w, x, y, width, height);
            &&& width > 0 && height > 0 ==> g.width == 256 * width && g.height == 256 * height
            &&& width <= 0 || height <= 0 ==> g.width == w.width && g.height == w.height
            &&& g.scale == w.scale && g.x == 0 && g.y == 0
            &&& p.x == 256 * x && p.y == 256 * y
            &&& p.width == g.width && p.height == g.height && p.scale == w.scale
            &&& p.id == w.id && p.surface == w.surface && p.configured == w.configured
        }),
{
}

/// The first configure of a surface shows it at its size, from nothing; a later one
/// changes nothing.
pub proof fn a_surface_is_shown_once(w: Window)
    ensures
        !w.configured ==> (Windows::first_configure(w) matches Some(c) && c.window == w.id
            && c.new == w.spec_geometry() && c.old.width == 0 && c.old.height == 0 && c.old.scale
            == w.scale),
        Windows::first_configure(Windows::configured_at(seq![w], 0)[0]) is None,
{
}

/// A surface is a window's where a window has it, and else a popup's; what it is found as is
/// live.
pub proof fn windows_are_looked_at_before_popups(w: &Windows, surface: u32)
    ensures
        ({
            let found = w.spec_window_for_surface(surface);
            &&& owner(w.windows@, surface, 0) is Some ==> found == owner(w.windows@, surface, 0)
            &&& found matches Some(id) ==> w.is_live(id)
            &&& found is None ==> forall|i: int|
                0 <= i < w.popups@.len() ==> (#[trigger] w.popups@[i]).surface != surface
            &&& found is None ==> forall|i: int|
                0 <= i < w.windows@.len() ==> (#[trigger] w.windows@[i]).surface != surface
        }),
{
    a_surface_belongs_to_its_window(w.windows@, surface, 0);
    a_surface_belongs_to_its_window(w.popups@, surface, 0);
}

} // verus!
