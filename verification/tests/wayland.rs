use makepad_host::wayland::clipboard::{
    is_text_mime_type, pasted, preferred_clipboard_mime_type, strip_nuls, text_mime_types,
    Clipboard, Offers, Paste, PrimarySelection,
};
use makepad_host::wayland::globals::{global_to_bind, popup_done, Global, Globals, PopupEvent};
use makepad_host::wayland::keyboard::{
    is_printable, shortcut_of, KeyCode, Keyboard, Modifiers, Shortcut, KEY_REPEAT_TIMER_ID,
};
use makepad_host::wayland::pointer::{
    cursor_for, resize_edge, AfterDrag, CursorShape, Point, Pointer, Press, ResizeEdge,
};
use makepad_host::wayland::scroll::{Axis, AxisSource, ScrollPhase};
use makepad_host::wayland::text_input::TextInput;
use makepad_host::wayland::windows::{
    xdg_toplevel_has_state, FrameCallbacks, PopupDismissReason, Window, Windows,
};

fn window(id: u64, surface: u32) -> Window {
    Window { id, surface, x: 0, y: 0, width: 400 * 256, height: 300 * 256, scale: 120, configured: false }
}

fn windows() -> Windows {
    Windows { windows: vec![window(1, 11)], popups: vec![window(2, 22)] }
}

fn px(x: i32, y: i32) -> Point {
    Point { x: x * 256, y: y * 256 }
}

#[test]
fn surfaces_belong_to_windows_and_popups() {
    let w = windows();
    assert_eq!(w.window_id_for_surface(11), Some(1));
    assert_eq!(w.window_id_for_surface(22), Some(2));
    assert_eq!(w.window_id_for_surface(33), None);
    assert!(w.has_window(1) && !w.has_window(2) && w.has(2));
    assert_eq!(w.popups_to_dismiss(), vec![2]);
}

#[test]
fn states_are_found_in_an_array_of_numbers() {
    let states = [1u32, 4].iter().flat_map(|n| n.to_ne_bytes()).collect::<Vec<u8>>();
    assert!(xdg_toplevel_has_state(&states, 4u32.to_ne_bytes()));
    assert!(!xdg_toplevel_has_state(&states, 2u32.to_ne_bytes()));
}

#[test]
fn the_first_configure_shows_a_window() {
    let mut w = windows();
    let c = w.toplevel_configure(1, 800, 600, true, false).expect("a window");
    assert_eq!((c.change.new.width, c.change.new.height), (800 * 256, 600 * 256));
    assert!(c.is_fullscreen, "maximized is reported the same way");
    assert!(w.surface_configure(1).is_some());
    assert!(w.surface_configure(1).is_none(), "only the first one is news");
    let p = w.popup_configure(2, 5, 6, 70, 80).expect("a popup");
    assert_eq!((p.new.x, p.new.y, p.new.width, p.new.height), (5 * 256, 6 * 256, 70 * 256, 80 * 256));
}

#[test]
fn a_frame_is_waited_for_once_per_window() {
    let mut f = FrameCallbacks::new();
    f.set_frame_callback_pending(1);
    assert!(f.is_frame_callback_pending(1) && f.any_frame_callback_pending());
    f.clear_frame_callback_pending(1);
    assert!(!f.any_frame_callback_pending());
}

#[test]
fn borders_resize() {
    assert_eq!(resize_edge(px(1, 1), 400 * 256, 300 * 256), Some(ResizeEdge::TopLeft));
    assert_eq!(resize_edge(px(399, 150), 400 * 256, 300 * 256), Some(ResizeEdge::Right));
    assert_eq!(resize_edge(px(200, 150), 400 * 256, 300 * 256), None);
    assert_eq!(cursor_for(ResizeEdge::BottomRight), CursorShape::SeResize);
}

#[test]
fn motion_is_held_until_it_is_due() {
    let w = windows();
    let mut p = Pointer::new();
    p.enter(&w, 1, 11);
    p.motion(&w, px(100, 100));
    p.motion(&w, px(120, 100));
    assert!(p.frame(&w).0.is_none(), "nothing scrolled");
    let moved = p.flush_pending_motion(&w);
    assert_eq!(moved.map(|a| (a.window, a.pos)), Some((1, px(120, 100))), "only the latest one");
    assert!(p.flush_pending_motion(&w).is_none());
}

#[test]
fn a_press_resizes_drags_or_is_reported() {
    let w = windows();
    let mut p = Pointer::new();
    assert!(matches!(p.press(&w, true, true), Press::Nothing));
    p.enter(&w, 1, 11);
    p.motion(&w, px(1, 150));
    p.button(&w, 2);
    assert!(matches!(p.press(&w, true, true), Press::Resize { window: 1, edge: ResizeEdge::Left }));
    p.motion(&w, px(200, 150));
    assert!(matches!(p.press(&w, true, true), Press::AskDrag(_)));
    assert!(matches!(p.press(&w, false, true), Press::MouseDown(_)));
    assert!(matches!(p.drag_answered(&w, 1, true, true), AfterDrag::Move { window: 1 }));
    assert!(matches!(p.drag_answered(&w, 1, false, true), AfterDrag::MouseDown(_)));
    assert_eq!(p.dismissed_by_press(&w), vec![2], "a press outside closes a popup");
}

#[test]
fn scrolling_is_reported_with_the_frame() {
    let w = windows();
    let mut p = Pointer::new();
    p.enter(&w, 1, 11);
    p.motion(&w, px(100, 100));
    p.scroll.axis_source(Some(AxisSource::Finger));
    p.scroll.axis(Axis::Vertical, 512);
    let scroll = p.frame(&w).1.expect("a scroll");
    assert_eq!(scroll.scroll.phase, ScrollPhase::Changed);
}

#[test]
fn focus_moves_between_windows() {
    let w = windows();
    let mut k = Keyboard::new();
    let change = k.enter(&w, 1, 11);
    assert_eq!((change.lost, change.got), (None, Some(1)));
    let change = k.enter(&w, 2, 22);
    assert_eq!(change.got, Some(2));
    assert_eq!(k.leave(&w, 3, 22), Some(2));
    assert_eq!(k.window, None);
}

#[test]
fn keys_repeat_after_a_delay() {
    let mut k = Keyboard::new();
    k.repeat_info(25, 600);
    let key = KeyCode::Other(30);
    let pressed = k.pressed(1, key, "a".into(), true);
    assert_eq!(pressed.text.as_deref(), Some("a"));
    assert_eq!(pressed.repeat_after, Some(600));
    assert!(k.handle_key_repeat_timer(KEY_REPEAT_TIMER_ID + 1).is_none(), "another timer");
    let first = k.handle_key_repeat_timer(KEY_REPEAT_TIMER_ID).flatten().expect("a repeat");
    assert_eq!(first.start_rate, Some(25));
    assert_eq!(first.text.as_deref(), Some("a"));
    let second = k.handle_key_repeat_timer(KEY_REPEAT_TIMER_ID).flatten().expect("a repeat");
    assert_eq!(second.start_rate, None);
    assert!(k.released(key));
    assert!(matches!(k.handle_key_repeat_timer(KEY_REPEAT_TIMER_ID), Some(None)));
}

#[test]
fn shortcuts_enter_no_text() {
    let mut k = Keyboard::new();
    k.set_modifiers(Modifiers { shift: false, control: true, alt: false, logo: false });
    let pressed = k.pressed(1, KeyCode::KeyV, "v".into(), false);
    assert!(matches!(pressed.shortcut, Some(Shortcut::Paste)));
    assert_eq!(shortcut_of(KeyCode::KeyC), Some(Shortcut::Copy));
    assert_eq!(shortcut_of(KeyCode::KeyX), Some(Shortcut::Cut));
    assert_eq!(shortcut_of(KeyCode::Other(47)), None);
    assert!(pressed.text.is_none() && pressed.repeat_after.is_none());
    assert!(is_printable("a") && !is_printable("\u{8}") && !is_printable(""));
}

#[test]
fn compositions_are_previewed_and_committed() {
    let mut t = TextInput::new();
    t.preedit_string(Some("ni".into()));
    let applied = t.done();
    assert_eq!(applied.preedit.as_deref(), Some("ni"));
    assert!(applied.commit.is_none());
    t.commit_string(Some("你".into()));
    let applied = t.done();
    assert_eq!(applied.commit.as_deref(), Some("你"));
    t.commit_string(Some(String::new()));
    assert!(t.done().commit.is_none(), "nothing is entered");
}

#[test]
fn text_is_pasted_in_the_best_type() {
    assert!(is_text_mime_type("text/plain;charset=utf-8") && !is_text_mime_type("image/png"));
    let first = text_mime_types()[0].to_string();
    assert_eq!(preferred_clipboard_mime_type(&vec![]), None);
    assert_eq!(preferred_clipboard_mime_type(&vec!["image/png".into(), "x".into()]), Some("image/png"), "else the first");
    assert_eq!(
        preferred_clipboard_mime_type(&vec!["text/plain".into(), first.clone()]),
        Some(first.as_str())
    );
    let mut offers = Offers::new();
    offers.data_offer(7);
    offers.offer_type(7, "text/plain".into());
    offers.selection(Some(7));
    assert_eq!(offers.active.as_ref().map(|o| o.mime_types.clone()), Some(vec!["text/plain".to_string()]));
    offers.selection(None);
    assert!(offers.active.is_none());
}

#[test]
fn pasted_bytes_become_text() {
    assert_eq!(strip_nuls(b"ab\0".to_vec()), b"ab".to_vec());
    assert_eq!(pasted(String::new()), None);
    let mut c = Clipboard::new();
    c.dispatch_paste_bytes(b"a\xffb\0".to_vec());
    assert_eq!(c.take_pending_paste_text_input().as_deref(), Some("a\u{fffd}b"));
    assert_eq!(c.take_pending_paste_text_input(), None);
    assert!(!c.read_ended(vec![]) || c.pending_paste.is_none());
}

#[test]
fn copied_text_comes_back() {
    let mut c = Clipboard::new();
    c.set_clipboard_text(Some(9), "grüß 你".into());
    let sent = c.sends("text/plain").map(|t| t.as_bytes().to_vec()).unwrap_or_default();
    c.dispatch_paste_bytes(sent);
    assert_eq!(c.take_pending_paste_text_input().as_deref(), Some("grüß 你"));
}

#[test]
fn copied_text_is_sent_to_others() {
    let mut c = Clipboard::new();
    c.queue_copy("x".into());
    assert_eq!(c.flush_pending_clipboard_copy().as_deref(), Some("x"));
    assert_eq!(c.flush_pending_clipboard_copy(), None);
    c.set_clipboard_text(Some(9), "x".into());
    assert_eq!(c.sends("text/plain"), Some("x"));
    assert_eq!(c.sends("image/png"), None);
    assert!(matches!(c.request_clipboard_paste(), Paste::Own("x")));
    c.source_cancelled(9);
    assert!(c.source.is_none());
    c.set_clipboard_text(None, "y".into());
    assert_eq!(c.sends("TEXT"), Some("x"), "what was not claimed is forgotten");
    assert!(matches!(Clipboard::new().request_clipboard_paste(), Paste::Nothing));
}

#[test]
fn selected_text_is_sent_to_others() {
    let mut p = PrimarySelection::new();
    p.set_primary_selection_text(Some(3), "a".into());
    assert_eq!((p.sends(), p.source), ("a", Some(3)));
    p.set_primary_selection_text(None, "b".into());
    assert_eq!((p.sends(), p.source), ("b", Some(3)));
    p.source_cancelled();
    assert_eq!((p.sends(), p.source), ("b", None));
    let mut g = Globals::new();
    assert_eq!(g.claims_clipboard(), (false, false));
    assert!(!g.claims_primary_selection());
    g.bound(Global::Seat);
    g.data_device_manager = true;
    assert_eq!(g.claims_clipboard(), (true, true));
    assert_eq!(g.claims_clipboard(), (false, true));
    g.bound(Global::PrimarySelectionManager);
    assert!(g.claims_primary_selection());
}

#[test]
fn globals_are_bound_and_devices_made_once() {
    assert_eq!(global_to_bind("wl_compositor", 99).map(|(g, _)| g), Some(Global::Compositor));
    assert_eq!(global_to_bind("unknown", 1), None);
    let mut g = Globals::new();
    assert!(!g.available());
    g.bound(Global::Compositor);
    g.bound(Global::WmBase);
    g.bound(Global::Seat);
    assert!(g.available());
    g.bound(Global::DataDeviceManager);
    assert!(g.data_device && !g.ensure_data_device(), "made once");
    let devices = g.seat_event(Some((true, true)));
    assert!(devices.keyboard && devices.pointer && !devices.data_device);
    assert!(matches!(
        popup_done(5),
        [PopupEvent::Closed { window: 5 }, PopupEvent::Dismissed { window: 5, reason: PopupDismissReason::Compositor }]
            | [PopupEvent::Dismissed { window: 5, reason: PopupDismissReason::Compositor }, PopupEvent::Closed { window: 5 }]
    ));
}

#[test]
fn windows_have_surfaces_and_scales() {
    let w = windows();
    assert_eq!(w.xdg_surface_for_window(2), Some(22));
    assert_eq!(w.xdg_surface_for_window(9), None);
    let change = w.preferred_scale(1, 180).expect("a known window");
    assert_eq!((change.window, change.old.scale, change.new.scale), (1, 120, 180));
    assert_eq!((change.old.width, change.new.width), (400 * 256, 400 * 256));
    assert_eq!(w.preferred_scale(9, 180), None);
    let mut k = Keyboard::new();
    k.pressed_without_keymap(4);
    assert_eq!(k.serial, Some(4));
}
