//! The compositor's globals: which ones this client binds, at which version,
//! and which devices can be made once they are there.
use crate::text::same_text;
use crate::wayland::windows::PopupDismissReason;
use vstd::prelude::*;

verus! {

/// A global that this client binds.
#[derive(Clone, Copy, PartialEq, Eq, Structural, Debug)]
pub enum Global {
    Compositor,
    WmBase,
    Seat,
    DataDeviceManager,
    DecorationManager,
    CursorShapeManager,
    FractionalScaleManager,
    Viewporter,
    Shm,
    ToplevelIconManager,
    TextInputManager,
    PrimarySelectionManager,
}

/// The global that an interface name announces.
pub open spec fn spec_global(interface: Seq<char>) -> Option<Global> {
    if interface == "wl_compositor"@ {
        Some(Global::Compositor)
    } else if interface == "xdg_wm_base"@ {
        Some(Global::WmBase)
    } else if interface == "wl_seat"@ {
        Some(Global::Seat)
    } else if interface == "wl_data_device_manager"@ {
        Some(Global::DataDeviceManager)
    } else if interface == "zxdg_decoration_manager_v1"@ {
        Some(Global::DecorationManager)
    } else if interface == "wp_cursor_shape_manager_v1"@ {
        Some(Global::CursorShapeManager)
    } else if interface == "wp_fractional_scale_manager_v1"@ {
        Some(Global::FractionalScaleManager)
    } else if interface == "wp_viewporter"@ {
        Some(Global::Viewporter)
    } else if interface == "wl_shm"@ {
        Some(Global::Shm)
    } else if interface == "xdg_toplevel_icon_manager_v1"@ {
        Some(Global::ToplevelIconManager)
    } else if interface == "zwp_text_input_manager_v3"@ {
        Some(Global::TextInputManager)
    } else if interface == "zwp_primary_selection_device_manager_v1"@ {
        Some(Global::PrimarySelectionManager)
    } else {
        None
    }
}

/// The version to bind: the seat's at most nine (eight brings high-resolution
/// wheel steps), the data device manager's at most three, the first of all
/// others.
pub open spec fn spec_bind_version(global: Global, version: u32) -> u32 {
    let most: u32 = match global {
        Global::Seat => 9,
        Global::DataDeviceManager => 3,
        _ => 1,
    };
    match global {
        Global::Seat | Global::DataDeviceManager => if version < most {
            version
        } else {
            most
        },
        _ => most,
    }
}

/// Which global an announcement is to be bound as, and at which version.
pub fn global_to_bind(interface: &str, version: u32) -> (r: Option<(Global, u32)>)
    ensures
        r == match spec_global(interface@) {
            Some(g) => Some((g, spec_bind_version(g, version))),
            None => None,
        },
{
    let g = if same_text(interface, "wl_compositor") {
        Global::Compositor
    } else if same_text(interface, "xdg_wm_base") {
        Global::WmBase
    } else if same_text(interface, "wl_seat") {
        Global::Seat
    } else if same_text(interface, "wl_data_device_manager") {
        Global::DataDeviceManager
    } else if same_text(interface, "zxdg_decoration_manager_v1") {
        Global::DecorationManager
    } else if same_text(interface, "wp_cursor_shape_manager_v1") {
        Global::CursorShapeManager
    } else if same_text(interface, "wp_fractional_scale_manager_v1") {
        Global::FractionalScaleManager
    } else if same_text(interface, "wp_viewporter") {
        Global::Viewporter
    } else if same_text(interface, "wl_shm") {
        Global::Shm
    } else if same_text(interface, "xdg_toplevel_icon_manager_v1") {
        Global::ToplevelIconManager
    } else if same_text(interface, "zwp_text_input_manager_v3") {
        Global::TextInputManager
    } else if same_text(interface, "zwp_primary_selection_device_manager_v1") {
        Global::PrimarySelectionManager
    } else {
        return None;
    };
    let bound: u32 = match g {
        Global::Seat => if version < 9 {
            version
        } else {
            9
        },
        Global::DataDeviceManager => if version < 3 {
            version
        } else {
            3
        },
        _ => 1,
    };
    Some((g, bound))
}

/// What of the compositor's globals and devices this client has.
#[derive(Clone, Copy, PartialEq, Eq, Structural, Debug)]
pub struct Globals {
    pub compositor: bool,
    pub wm_base: bool,
    pub seat: bool,
    pub data_device_manager: bool,
    pub data_device: bool,
    pub cursor_manager: bool,
    pub text_input_manager: bool,
    pub primary_selection_manager: bool,
    pub primary_selection_device: bool,
}

/// What a seat event asks to be made, in this order.
#[derive(Clone, Copy, PartialEq, Eq, Structural, Debug)]
pub struct SeatDevices {
    pub data_device: bool,
    pub text_input: bool,
    pub keyboard: bool,
    pub pointer: bool,
    /// A cursor shape device for the pointer.
    pub cursor_shape: bool,
}

impl Globals {
    pub fn new() -> (r: Globals)
        ensures
            r == (Globals {
                compositor: false,
                wm_base: false,
                seat: false,
                data_device_manager: false,
                data_device: false,
                cursor_manager: false,
                text_input_manager: false,
                primary_selection_manager: false,
                primary_selection_device: false,
            }),
    {
        Globals {
            compositor: false,
            wm_base: false,
            seat: false,
            data_device_manager: false,
            data_device: false,
            cursor_manager: false,
            text_input_manager: false,
            primary_selection_manager: false,
            primary_selection_device: false,
        }
    }

    /// Whether windows can be opened.
    pub fn available(&self) -> (r: bool)
        ensures
            r == (self.compositor && self.wm_base),
    {
        self.compositor && self.wm_base
    }

    pub open spec fn wants_data_device(self) -> bool {
        !self.data_device && self.data_device_manager && self.seat
    }

    pub open spec fn wants_primary_selection_device(self) -> bool {
        !self.primary_selection_device && self.primary_selection_manager && self.seat
    }

    /// Makes the data device once its manager and the seat are there: whether
    /// it is to be made now.
    pub fn ensure_data_device(&mut self) -> (r: bool)
        ensures
            r == old(self).wants_data_device(),
            *final(self) == (Globals { data_device: old(self).data_device || r, ..*old(self) }),
    {
        let now = !self.data_device && self.data_device_manager && self.seat;
        if now {
            self.data_device = true;
        }
        now
    }

    /// The same for the primary selection.
    pub fn ensure_primary_selection_device(&mut self) -> (r: bool)
        ensures
            r == old(self).wants_primary_selection_device(),
            *final(self) == (Globals {
                primary_selection_device: old(self).primary_selection_device || r,
                ..*old(self)
            }),
    {
        let now = !self.primary_selection_device && self.primary_selection_manager && self.seat;
        if now {
            self.primary_selection_device = true;
        }
        now
    }

    /// A text is copied: whether the data device is to be made first, and whether the
    /// selection can then be claimed.
    pub fn claims_clipboard(&mut self) -> (r: (bool, bool))
        ensures
            r.0 == old(self).wants_data_device(),
            r.1 == (old(self).data_device_manager && (old(self).data_device || old(self).seat)),
            *final(self) == (Globals { data_device: old(self).data_device || r.0, ..*old(self) }),
    {
        let made = self.ensure_data_device();
        (made, self.data_device_manager && self.data_device)
    }

    /// A text is selected: whether the primary selection can be claimed.
    pub fn claims_primary_selection(&self) -> (r: bool)
        ensures
            r == (self.primary_selection_device && self.primary_selection_manager),
    {
        self.primary_selection_device && self.primary_selection_manager
    }

    /// The client with one more global bound.
    pub open spec fn with(self, g: Global) -> Globals {
        match g {
            Global::Compositor => Globals { compositor: true, ..self },
            Global::WmBase => Globals { wm_base: true, ..self },
            Global::Seat => Globals { seat: true, ..self },
            Global::DataDeviceManager => Globals { data_device_manager: true, ..self },
            Global::CursorShapeManager => Globals { cursor_manager: true, ..self },
            Global::TextInputManager => Globals { text_input_manager: true, ..self },
            Global::PrimarySelectionManager => Globals { primary_selection_manager: true, ..self },
            _ => self,
        }
    }

    /// A global was bound: whether the data device, or the primary selection
    /// device, is to be made now. The seat and the data device manager make the
    /// first possible; only its own manager is taken as occasion for the second.
    pub fn bound(&mut self, g: Global) -> (r: (bool, bool))
        ensures
            r.0 == ((g == Global::Seat || g == Global::DataDeviceManager) && old(self).with(
                g,
            ).wants_data_device()),
            r.1 == (g == Global::PrimarySelectionManager && old(self).with(
                g,
            ).wants_primary_selection_device()),
            *final(self) == (Globals {
                data_device: old(self).data_device || r.0,
                primary_selection_device: old(self).primary_selection_device || r.1,
                ..old(self).with(g)
            }),
    {
        let mut made: (bool, bool) = (false, false);
        match g {
            Global::Compositor => {
                self.compositor = true;
            },
            Global::WmBase => {
                self.wm_base = true;
            },
            Global::Seat => {
                self.seat = true;
                made.0 = self.ensure_data_device();
            },
            Global::DataDeviceManager => {
                self.data_device_manager = true;
                made.0 = self.ensure_data_device();
            },
            Global::CursorShapeManager => {
                self.cursor_manager = true;
            },
            Global::TextInputManager => {
                self.text_input_manager = true;
            },
            Global::PrimarySelectionManager => {
                self.primary_selection_manager = true;
                made.1 = self.ensure_primary_selection_device();
            },
            _ => {},
        }
        made
    }

    /// A seat event with the capabilities that it names, if it names any.
    pub fn seat_event(&mut self, capabilities: Option<(bool, bool)>) -> (r: SeatDevices)
        ensures
            r.data_device == old(self).wants_data_device(),
            r.text_input == old(self).text_input_manager,
            r.keyboard == (capabilities matches Some(c) && c.0),
            r.pointer == (capabilities matches Some(c) && c.1),
            r.cursor_shape == (r.pointer && old(self).cursor_manager),
            *final(self) == (Globals {
                data_device: old(self).data_device || r.data_device,
                ..*old(self)
            }),
    {
        let data_device = self.ensure_data_device();
        let (keyboard, pointer) = match capabilities {
            Some(c) => c,
            None => (false, false),
        };
        SeatDevices {
            data_device,
            text_input: self.text_input_manager,
            keyboard,
            pointer,
            cursor_shape: pointer && self.cursor_manager,
        }
    }
}

/// Whichever of the seat and the data device manager is bound last, the data
/// device is made then, and only once.
pub proof fn data_device_is_made_once(g: Globals)
    requires
        !g.seat,
        !g.data_device_manager,
        !g.data_device,
    ensures
        !g.with(Global::Seat).wants_data_device(),
        !g.with(Global::DataDeviceManager).wants_data_device(),
        g.with(Global::Seat).with(Global::DataDeviceManager).wants_data_device(),
        g.with(Global::DataDeviceManager).with(Global::Seat).wants_data_device(),
        !(Globals {
            data_device: true,
            ..g.with(Global::Seat).with(Global::DataDeviceManager)
        }).wants_data_device(),
{
}

/// What is reported when the compositor takes a popup down.
#[derive(Clone, Copy, PartialEq, Eq, Structural, Debug)]
pub enum PopupEvent {
    Closed { window: u64 },
    Dismissed { window: u64, reason: PopupDismissReason },
}

/// The compositor took a popup down. Its closing is reported before its
/// dismissal: the application frees the window on the latter.
pub fn popup_done(window: u64) -> (r: [PopupEvent; 2])
    ensures
        r@ == seq![
            PopupEvent::Closed { window },
            PopupEvent::Dismissed { window, reason: PopupDismissReason::Compositor },
        ],
{
    let r = [
        PopupEvent::Closed { window },
        PopupEvent::Dismissed { window, reason: PopupDismissReason::Compositor },
    ];
    assert(r@ =~= seq![
        PopupEvent::Closed { window },
        PopupEvent::Dismissed { window, reason: PopupDismissReason::Compositor },
    ]);
    r
}

/// A global is never bound in a later version than the compositor has.
pub proof fn no_later_version_is_bound(global: Global, version: u32)
    requires
        version >= 1,
    ensures
        1 <= spec_bind_version(global, version) <= version,
        spec_bind_version(Global::Seat, version) <= 9,
        version >= 9 ==> spec_bind_version(Global::Seat, version) == 9,
        version <= 9 ==> spec_bind_version(Global::Seat, version) == version,
        version <= 3 ==> spec_bind_version(Global::DataDeviceManager, version) == version,
        version >= 3 ==> spec_bind_version(Global::DataDeviceManager, version) == 3,
{
}

/// The order in which globals are bound does not matter, and what is bound stays so.
pub proof fn globals_are_bound_in_any_order(g: Globals, a: Global, b: Global)
    ensures
        g.with(a).with(b) == g.with(b).with(a),
        g.with(a).with(a) == g.with(a),
        g.compositor ==> g.with(a).compositor,
        g.wm_base ==> g.with(a).wm_base,
        g.with(Global::Compositor).with(Global::WmBase).compositor && g.with(
            Global::Compositor,
        ).with(Global::WmBase).wm_base,
        g.with(a).data_device == g.data_device,
        a != Global::Seat ==> g.with(a).seat == g.seat,
        a != Global::Compositor ==> g.with(a).compositor == g.compositor,
        a != Global::WmBase ==> g.with(a).wm_base == g.wm_base,
{
}

} // verus!
