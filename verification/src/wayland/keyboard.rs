//! The keyboard: focus, shortcuts, text, and keys that repeat while held.
use crate::text::{is_control, spec_is_control, to_chars};
use crate::wayland::windows::Windows;
use vstd::prelude::*;

verus! {

/// The timer that repeats a held key; high, so that no application timer has
/// the same id.
pub const KEY_REPEAT_TIMER_ID: u64 = 0xffff_ffff_ffff_fffe;

#[derive(Clone, Copy, PartialEq, Eq, Structural, Debug)]
pub struct Modifiers {
    pub shift: bool,
    pub control: bool,
    pub alt: bool,
    pub logo: bool,
}

/// A key, by what the keymap makes of it.
#[derive(Clone, Copy, PartialEq, Eq, Structural, Debug)]
pub enum KeyCode {
    KeyV,
    KeyC,
    KeyX,
    /// Any other key, by its number.
    Other(u32),
}

#[derive(Clone, Copy, PartialEq, Eq, Structural, Debug)]
pub enum Shortcut {
    Paste,
    Copy,
    Cut,
}

/// The clipboard shortcut that a key is with the primary modifier: V pastes, C copies
/// and X cuts.
pub open spec fn spec_shortcut_of(key: KeyCode) -> Option<Shortcut> {
    match key {
        KeyCode::KeyV => Some(Shortcut::Paste),
        KeyCode::KeyC => Some(Shortcut::Copy),
        KeyCode::KeyX => Some(Shortcut::Cut),
        KeyCode::Other(_) => None,
    }
}

/// The clipboard shortcut that a key is with the primary modifier.
pub fn shortcut_of(key: KeyCode) -> (r: Option<Shortcut>)
    ensures
        r == spec_shortcut_of(key),
{
    match key {
        KeyCode::KeyV => Some(Shortcut::Paste),
        KeyCode::KeyC => Some(Shortcut::Copy),
        KeyCode::KeyX => Some(Shortcut::Cut),
        KeyCode::Other(_) => None,
    }
}

/// A key that is being held.
pub struct KeyRepeat {
    pub key: KeyCode,
    pub text: String,
    /// Still waiting for the initial delay.
    pub in_initial_delay: bool,
}

/// A change of keyboard focus: who loses it, then who gets it.
#[derive(Clone, Copy, PartialEq, Eq, Structural, Debug)]
pub struct FocusChange {
    pub lost: Option<u64>,
    pub got: Option<u64>,
}

/// What a pressed key leads to, in this order.
pub struct KeyPressed {
    pub shortcut: Option<Shortcut>,
    pub key: KeyCode,
    /// Text to enter.
    pub text: Option<String>,
    /// Milliseconds until the key starts to repeat, where it does.
    pub repeat_after: Option<i32>,
}

/// What a repeat of the held key leads to.
pub struct KeyRepeated {
    /// Repeats a second from now on, where the initial delay has just passed.
    pub start_rate: Option<i32>,
    pub key: KeyCode,
    pub text: Option<String>,
}

/// Whether a text holds anything but control characters.
pub open spec fn printable(s: Seq<char>) -> bool {
    exists|i: int| 0 <= i < s.len() && !spec_is_control(#[trigger] s[i])
}

pub fn is_printable(s: &str) -> (r: bool)
    ensures
        r == printable(s@),
{
    let v = to_chars(s);
    let mut i: usize = 0;
    while i < v.len()
        invariant
            v@ == s@,
            i <= v.len(),
            forall|j: int| 0 <= j < i ==> spec_is_control(#[trigger] v@[j]),
        decreases v.len() - i,
    {
        if !is_control(v[i]) {
            return true;
        }
        i = i + 1;
    }
    false
}

impl Modifiers {
    pub open spec fn is_primary(self) -> bool {
        self.control || self.logo
    }

    /// Whether keys enter no text.
    pub open spec fn blocks_text(self) -> bool {
        self.control || self.logo || self.alt
    }
}

pub struct Keyboard {
    pub window: Option<u64>,
    pub serial: Option<u32>,
    pub modifiers: Modifiers,
    /// Repeats a second; none if not positive.
    pub repeat_rate: i32,
    /// Milliseconds before a held key repeats.
    pub repeat_delay: i32,
    pub repeat: Option<KeyRepeat>,
}

/// What a text types while some modifiers are held.
pub open spec fn typed(m: Modifiers, text: String) -> Option<String> {
    if !m.blocks_text() && printable(text@) {
        Some(text)
    } else {
        None
    }
}

/// What a key that is pressed leads to.
pub open spec fn press_of(k: Keyboard, key: KeyCode, text: String, repeats: bool) -> KeyPressed {
    KeyPressed {
        shortcut: if k.modifiers.is_primary() {
            spec_shortcut_of(key)
        } else {
            None
        },
        key,
        text: typed(k.modifiers, text),
        repeat_after: if repeats && k.repeat_rate > 0 {
            Some(k.repeat_delay)
        } else {
            None
        },
    }
}

/// A keyboard once a key is pressed.
pub open spec fn after_press(
    k: Keyboard,
    serial: u32,
    key: KeyCode,
    text: String,
    repeats: bool,
) -> Keyboard {
    Keyboard {
        serial: Some(serial),
        repeat: if repeats && k.repeat_rate > 0 {
            Some(KeyRepeat { key, text, in_initial_delay: true })
        } else {
            k.repeat
        },
        ..k
    }
}

/// A keyboard once a key is released.
pub open spec fn after_release(k: Keyboard, key: KeyCode) -> Keyboard {
    match k.repeat {
        Some(held) if held.key == key => Keyboard { repeat: None, ..k },
        _ => k,
    }
}

/// What a repeat of the held key leads to.
pub open spec fn repeat_of(k: Keyboard) -> Option<KeyRepeated> {
    match k.repeat {
        Some(held) => Some(
            KeyRepeated {
                start_rate: if held.in_initial_delay {
                    Some(k.repeat_rate)
                } else {
                    None
                },
                key: held.key,
                text: typed(k.modifiers, held.text),
            },
        ),
        None => None,
    }
}

/// A keyboard once the held key has repeated.
pub open spec fn after_repeat(k: Keyboard) -> Keyboard {
    match k.repeat {
        Some(held) => Keyboard {
            repeat: Some(KeyRepeat { in_initial_delay: false, ..held }),
            ..k
        },
        None => k,
    }
}

impl Keyboard {
    pub fn new() -> (r: Keyboard)
        ensures
            r.window is None,
            r.serial is None,
            r.modifiers == (Modifiers { shift: false, control: false, alt: false, logo: false }),
            r.repeat_rate == 25,
            r.repeat_delay == 600,
            r.repeat is None,
    {
        Keyboard {
            window: None,
            serial: None,
            modifiers: Modifiers { shift: false, control: false, alt: false, logo: false },
            repeat_rate: 25,
            repeat_delay: 600,
            repeat: None,
        }
    }

    /// Nothing but the focus and the serial differ.
    pub open spec fn keeps_keys(self, other: Keyboard) -> bool {
        &&& self.modifiers == other.modifiers
        &&& self.repeat_rate == other.repeat_rate
        &&& self.repeat_delay == other.repeat_delay
    }

    /// The keyboard entered a surface: its window, where it is a known one that
    /// did not have the focus, takes it from the one that had it.
    pub fn enter(&mut self, windows: &Windows, serial: u32, surface: u32) -> (r: FocusChange)
        ensures
            final(self).serial == Some(serial),
            final(self).keeps_keys(*old(self)),
            final(self).repeat == old(self).repeat,
            match windows.spec_window_for_surface(surface) {
                Some(id) if old(self).window != Some(id) => {
                    &&& r == (FocusChange { lost: old(self).window, got: Some(id) })
                    &&& final(self).window == Some(id)
                },
                _ => {
                    &&& r == (FocusChange { lost: None, got: None })
                    &&& final(self).window == old(self).window
                },
            },
    {
        self.serial = Some(serial);
        if let Some(id) = windows.window_id_for_surface(surface) {
            let focused = match self.window {
                Some(w) => w == id,
                None => false,
            };
            if !focused {
                let lost = self.window;
                self.window = Some(id);
                return FocusChange { lost, got: Some(id) };
            }
        }
        FocusChange { lost: None, got: None }
    }

    /// The keyboard left a surface: no key repeats any more, and the surface's
    /// window loses the focus if it had it. The popups are dismissed after it.
    pub fn leave(&mut self, windows: &Windows, serial: u32, surface: u32) -> (r: Option<u64>)
        ensures
            final(self).serial == Some(serial),
            final(self).keeps_keys(*old(self)),
            final(self).repeat is None,
            ({
                let owner = windows.spec_window_for_surface(surface);
                if owner is Some && old(self).window == owner {
                    r == owner && final(self).window is None
                } else {
                    r is None && final(self).window == old(self).window
                }
            }),
    {
        self.repeat = None;
        self.serial = Some(serial);
        if let Some(id) = windows.window_id_for_surface(surface) {
            if let Some(w) = self.window {
                if w == id {
                    self.window = None;
                    return Some(id);
                }
            }
        }
        None
    }

    /// The serial of an event that comes before the keymap is known.
    pub fn pressed_without_keymap(&mut self, serial: u32)
        ensures
            *final(self) == (Keyboard { serial: Some(serial), ..*old(self) }),
    {
        self.serial = Some(serial);
    }

    /// A key was pressed that the keymap turns into `text`. With control or
    /// logo held it may be a clipboard shortcut; with those or alt it enters no
    /// text. A key that repeats starts its delay anew.
    pub fn pressed(&mut self, serial: u32, key: KeyCode, text: String, repeats: bool) -> (r: KeyPressed)
        ensures
            r.key == key,
            r.shortcut == if old(self).modifiers.is_primary() {
                spec_shortcut_of(key)
            } else {
                None
            },
            r.text == if !old(self).modifiers.blocks_text() && printable(text@) {
                Some(text)
            } else {
                None
            },
            final(self).serial == Some(serial),
            final(self).window == old(self).window,
            final(self).keeps_keys(*old(self)),
            if repeats && old(self).repeat_rate > 0 {
                &&& r.repeat_after == Some(old(self).repeat_delay)
                &&& final(self).repeat == Some(KeyRepeat { key, text, in_initial_delay: true })
            } else {
                &&& r.repeat_after is None
                &&& final(self).repeat == old(self).repeat
            },
            r == press_of(*old(self), key, text, repeats),
            *final(self) == after_press(*old(self), serial, key, text, repeats),
    {
        self.serial = Some(serial);
        let primary = self.modifiers.control || self.modifiers.logo;
        let shortcut = if primary {
            shortcut_of(key)
        } else {
            None
        };
        let blocked = primary || self.modifiers.alt;
        let entered = if !blocked && is_printable(text.as_str()) {
            Some(text.clone())
        } else {
            None
        };
        let mut repeat_after: Option<i32> = None;
        if repeats && self.repeat_rate > 0 {
            repeat_after = Some(self.repeat_delay);
            self.repeat = Some(KeyRepeat { key, text, in_initial_delay: true });
        }
        KeyPressed { shortcut, key, text: entered, repeat_after }
    }

    /// A key was released: whether that stops the repeating of it.
    pub fn released(&mut self, key: KeyCode) -> (r: bool)
        ensures
            r == (old(self).repeat matches Some(held) && held.key == key),
            final(self).repeat == if r {
                None
            } else {
                old(self).repeat
            },
            final(self).serial == old(self).serial,
            final(self).window == old(self).window,
            final(self).keeps_keys(*old(self)),
            *final(self) == after_release(*old(self), key),
    {
        let stops = match &self.repeat {
            Some(held) => held.key == key,
            None => false,
        };
        if stops {
            self.repeat = None;
        }
        stops
    }

    pub fn repeat_info(&mut self, rate: i32, delay: i32)
        ensures
            *final(self) == (Keyboard { repeat_rate: rate, repeat_delay: delay, ..*old(self) }),
    {
        self.repeat_rate = rate;
        self.repeat_delay = delay;
    }

    pub fn set_modifiers(&mut self, modifiers: Modifiers)
        ensures
            *final(self) == (Keyboard { modifiers, ..*old(self) }),
    {
        self.modifiers = modifiers;
    }

    /// A timer fired: `None` if it is not the one that repeats keys. The first
    /// time for a held key, the timer starts to run at the repeat rate.
    pub fn handle_key_repeat_timer(&mut self, timer: u64) -> (r: Option<Option<KeyRepeated>>)
        ensures
            r is Some <==> timer == KEY_REPEAT_TIMER_ID,
            r matches Some(fired) ==> match old(self).repeat {
                Some(held) => {
                    &&& fired matches Some(f)
                    &&& f.key == held.key
                    &&& f.start_rate == if held.in_initial_delay {
                        Some(old(self).repeat_rate)
                    } else {
                        None
                    }
                    &&& f.text == if !old(self).modifiers.blocks_text() && printable(held.text@) {
                        Some(held.text)
                    } else {
                        None
                    }
                    &&& final(self).repeat == Some(KeyRepeat { in_initial_delay: false, ..held })
                },
                None => fired is None && final(self).repeat is None,
            },
            r is None ==> final(self).repeat == old(self).repeat,
            r matches Some(fired) ==> fired == repeat_of(*old(self)) && *final(self) == after_repeat(
                *old(self),
            ),
            final(self).serial == old(self).serial,
            final(self).window == old(self).window,
            final(self).keeps_keys(*old(self)),
    {
        if timer != KEY_REPEAT_TIMER_ID {
            return None;
        }
        match self.repeat.take() {
            Some(held) => {
                let start_rate = if held.in_initial_delay {
                    Some(self.repeat_rate)
                } else {
                    None
                };
                let blocked = self.modifiers.control || self.modifiers.logo || self.modifiers.alt;
                let text = if !blocked && is_printable(held.text.as_str()) {
                    Some(held.text.clone())
                } else {
                    None
                };
                let key = held.key;
                self.repeat = Some(KeyRepeat { key, text: held.text, in_initial_delay: false });
                Some(Some(KeyRepeated { start_rate, key, text }))
            },
            None => Some(None),
        }
    }
}

/// A text is typed where any of it shows: control characters alone are none, and do not
/// hide what stands beside them.
pub proof fn what_shows_is_typed(a: Seq<char>, b: Seq<char>, c: char)
    ensures
        printable(a + b) <==> printable(a) || printable(b),
        printable(seq![c]) <==> !(c as u32 <= 0x1f || 0x7f <= c as u32 <= 0x9f),
        !printable(Seq::empty()),
{
    let ab = a + b;
    if printable(a) {
        let i = choose|i: int| 0 <= i < a.len() && !spec_is_control(#[trigger] a[i]);
        assert(ab[i] == a[i]);
    }
    if printable(b) {
        let i = choose|i: int| 0 <= i < b.len() && !spec_is_control(#[trigger] b[i]);
        assert(ab[a.len() + i] == b[i]);
    }
    if printable(ab) {
        let i = choose|i: int| 0 <= i < ab.len() && !spec_is_control(#[trigger] ab[i]);
        if i < a.len() {
            assert(ab[i] == a[i]);
        } else {
            assert(ab[i] == b[i - a.len()]);
        }
    }
    assert(seq![c][0] == c);
}

/// Shift types text and makes no shortcut; control and the logo key do the opposite, and
/// alt does neither.
pub proof fn modifiers_type_or_command(m: Modifiers)
    ensures
        m.is_primary() ==> m.blocks_text(),
        !m.control && !m.logo ==> !m.is_primary(),
        (Modifiers { shift: !m.shift, ..m }).is_primary() == m.is_primary(),
        (Modifiers { shift: !m.shift, ..m }).blocks_text() == m.blocks_text(),
        (Modifiers { alt: true, ..m }).blocks_text(),
        (Modifiers { alt: !m.alt, ..m }).is_primary() == m.is_primary(),
        (Modifiers { control: true, ..m }).is_primary() && (Modifiers {
            logo: true,
            ..m
        }).is_primary(),
        !m.control && !m.logo && !m.alt ==> !m.blocks_text(),
{
}

/// A key that is held types its text again and again until it is released, at the rate that
/// is named once; another key's release does not stop it, and a keyboard without a rate
/// repeats nothing.
pub proof fn a_held_key_repeats(
    k: Keyboard,
    serial: u32,
    key: KeyCode,
    other: KeyCode,
    text: String,
)
    requires
        k.repeat is None,
        key != other,
    ensures
        ({
            let held = after_press(k, serial, key, text, true);
            let once = after_repeat(held);
            &&& k.repeat_rate > 0 ==> {
                &&& press_of(k, key, text, true).repeat_after == Some(k.repeat_delay)
                &&& repeat_of(held) matches Some(r) && r.key == key && r.text == press_of(
                    k,
                    key,
                    text,
                    true,
                ).text && r.start_rate == Some(k.repeat_rate)
                &&& repeat_of(once) matches Some(r) && r.key == key && r.text == press_of(
                    k,
                    key,
                    text,
                    true,
                ).text && r.start_rate is None
                &&& repeat_of(after_release(once, other)) == repeat_of(once)
                &&& repeat_of(after_release(once, key)) is None
            }
            &&& k.repeat_rate <= 0 ==> repeat_of(held) is None && press_of(
                k,
                key,
                text,
                true,
            ).repeat_after is None
            &&& repeat_of(after_press(k, serial, key, text, false)) is None
        }),
{
}

/// A shortcut is a key with control or the logo key, and types nothing; the same key by
/// itself is none, and types its text.
pub proof fn shortcuts_type_nothing(k: Keyboard, text: String, key: KeyCode, repeats: bool)
    requires
        printable(text@),
    ensures
        press_of(k, key, text, repeats).shortcut is Some ==> press_of(k, key, text, repeats).text
            is None && (k.modifiers.control || k.modifiers.logo),
        k.modifiers.control ==> press_of(k, KeyCode::KeyV, text, repeats).shortcut == Some(
            Shortcut::Paste,
        ) && press_of(k, KeyCode::KeyC, text, repeats).shortcut == Some(Shortcut::Copy) && press_of(
            k,
            KeyCode::KeyX,
            text,
            repeats,
        ).shortcut == Some(Shortcut::Cut),
        !k.modifiers.control && !k.modifiers.logo && !k.modifiers.alt ==> press_of(
            k,
            key,
            text,
            repeats,
        ).text == Some(text) && press_of(k, key, text, repeats).shortcut is None,
        press_of(k, key, text, repeats).key == key,
{
}

} // verus!
