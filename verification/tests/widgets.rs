use makepad_host::camera::capture::{CameraCaptureResult, CameraFlashMode, CaptureKind};
use makepad_host::harmony::permissions::PermissionStatus;
use makepad_host::splash::policy::{set_policy_for_heap, PolicyTable};
use makepad_host::svg::{
    parse_gradient_units, parse_linear_gradient, parse_radial_gradient, parse_spread_method,
    parse_stop, GradientUnits, SpreadMethod, StopPart,
};
use makepad_host::textmap::TextMap;
use makepad_host::widgets::camera_gestures::{CameraGestures, Frame, Lift, Spot, ZoomStep};
use makepad_host::widgets::camera_preview::{
    capture_path, capture_relative_path, CameraCall, CameraControl, CameraDesc, CameraEvent,
    CameraPreview, CameraState, CapturePlace, ScriptAnswer, ScriptCall, FIRST_ASPECT, PHOTO_ASPECT,
};
use makepad_host::widgets::cameras::{
    flash_mode, is_front, CameraChoice, PreviewFormat, PreviewPixels, ASPECT_ONE,
};
use makepad_host::widgets::devices::{
    gc_web_readers, release_cameras, release_isolate_devices, Opened,
};
use makepad_host::widgets::gesture_view::{GestureCall, GestureView, PointerHit};
use makepad_host::widgets::kit::{
    ink, retire_overlay, takes_event, Controller, Generations, KitAction, PaintCall,
};
use makepad_host::widgets::nav::{
    decode_polyline5, is_follow, is_plan, marker_color, nav_kind, parse_route_markers, Marker,
    NavKind, NavState, RoutePoint,
};
use makepad_host::widgets::pinch::{
    swipe, Delta, PinchStep, PinchTracker, Point, Touch, TouchState,
};
use makepad_host::widgets::sheet::{sheet_heights, sheet_rest, SheetView, Velocity};
use makepad_host::widgets::web_reader::{ReaderCall, WebReader};

// ---------------------------------------------------------------------------
// Cameras
// ---------------------------------------------------------------------------

fn format(width: usize, height: usize, pixels: PreviewPixels, id: u64) -> PreviewFormat {
    PreviewFormat { format_id: id, width, height, pixels }
}

/// The shape of a viewfinder.
fn aspect(a: f64) -> u64 {
    (a * ASPECT_ONE as f64).round() as u64
}

#[test]
fn the_preview_profile_matches_the_viewfinder_then_takes_the_most_pixels() {
    let choice = CameraChoice {
        input_id: 1,
        front: false,
        formats: vec![
            format(640, 480, PreviewPixels::NV12, 1),
            format(1440, 1080, PreviewPixels::NV12, 2),
            format(1920, 1080, PreviewPixels::NV12, 3),
            format(4032, 3024, PreviewPixels::NV12, 4),
        ],
    };
    assert_eq!(
        choice.format_for(aspect(4.0 / 3.0)).map(|f| (f.width, f.height)),
        Some((1440, 1080)),
        "4:3, and within 1080p"
    );
    assert_eq!(choice.format_for(aspect(16.0 / 9.0)).map(|f| (f.width, f.height)), Some((1920, 1080)));
}

#[test]
fn the_nearest_shape_comes_before_more_pixels() {
    let choice = CameraChoice {
        input_id: 1,
        front: false,
        formats: vec![
            format(1920, 1080, PreviewPixels::NV12, 1),
            format(854, 480, PreviewPixels::NV12, 2),
        ],
    };
    assert_eq!(choice.format_for(aspect(1.7792)).map(|f| f.format_id), Some(2));
    assert_eq!(choice.format_for(aspect(1.7778)).map(|f| f.format_id), Some(1));
    assert_eq!(FIRST_ASPECT, aspect(1.3333));
    assert_eq!(PHOTO_ASPECT, aspect(4.0 / 3.0));
}

#[test]
fn a_camera_is_front_when_it_says_so_or_is_the_unnamed_second() {
    assert!(is_front("Front Camera", 0, 2));
    assert!(is_front("FaceTime HD Camera", 0, 1));
    assert!(!is_front("Back Camera", 1, 2));
    assert!(is_front("camera1", 1, 2));
    assert!(!is_front("camera0", 0, 2));
}

#[test]
fn flash_names_map_and_unknown_ones_are_ignored() {
    assert_eq!(flash_mode("torch"), Some(CameraFlashMode::Torch));
    assert_eq!(flash_mode("strobe"), None);
}

#[test]
fn better_pixels_win_between_equal_formats() {
    let choice = CameraChoice {
        input_id: 1,
        front: false,
        formats: vec![
            format(640, 480, PreviewPixels::Other, 1),
            format(640, 480, PreviewPixels::YUV420, 2),
            format(640, 480, PreviewPixels::NV12, 3),
            format(640, 480, PreviewPixels::YUY2, 4),
        ],
    };
    assert_eq!(choice.format_for(aspect(1.3333)).map(|f| f.format_id), Some(3));
}

fn descs() -> Vec<CameraDesc> {
    vec![
        CameraDesc {
            input_id: 10,
            name: "Back Camera".into(),
            formats: vec![format(640, 480, PreviewPixels::NV12, 1)],
        },
        CameraDesc {
            input_id: 11,
            name: "Front Camera".into(),
            formats: vec![format(640, 480, PreviewPixels::NV12, 2)],
        },
        CameraDesc { input_id: 12, name: "odd".into(), formats: vec![] },
    ]
}

fn running() -> CameraPreview {
    let mut p = CameraPreview::new();
    p.start(true, 0);
    p.handle_event(CameraEvent::Cameras(descs()), 0);
    p.handle_event(CameraEvent::Permission(PermissionStatus::Granted), 0);
    p.handle_event(CameraEvent::Prepared, 0);
    p
}

#[test]
fn a_preview_opens_when_it_may_and_there_is_a_camera() {
    let mut p = CameraPreview::new();
    let (ok, calls) = p.start(true, 100);
    assert!(ok);
    assert!(matches!(calls[0], CameraCall::RequestCamera));
    assert!(matches!(calls[1], CameraCall::ListCameras));
    assert!(matches!(calls[2], CameraCall::StartTimer));
    assert_eq!(calls.len(), 3);
    assert!(p.handle_event(CameraEvent::Cameras(descs()), 200).is_empty(), "no answer yet");
    assert_eq!(p.cameras.len(), 2);
    let calls = p.handle_event(CameraEvent::Permission(PermissionStatus::Granted), 300);
    assert!(matches!(calls[0], CameraCall::Open { input: 10, format: 1 }));
    assert!(matches!(calls[1], CameraCall::Register));
    assert_eq!(p.state.state, CameraState::Starting);
    p.handle_event(CameraEvent::Prepared, 400);
    assert_eq!(p.running_input(), Some(10));
}

#[test]
fn a_preview_without_an_answer_opens_after_a_while() {
    let mut p = CameraPreview::new();
    p.start(true, 100);
    p.handle_event(CameraEvent::Cameras(descs()), 100);
    p.draw();
    assert_eq!(p.handle_event(CameraEvent::Tick, 2099).len(), 1, "it waits");
    p.draw();
    assert!(matches!(p.handle_event(CameraEvent::Tick, 2100)[0], CameraCall::Open { .. }));
}

#[test]
fn a_denied_preview_says_so() {
    let mut p = CameraPreview::new();
    assert!(!p.start(false, 0).0);
    assert_eq!(p.last_error, "this app was not granted the camera");
    p.start(true, 0);
    let calls = p.handle_event(CameraEvent::Permission(PermissionStatus::DeniedPermanent), 0);
    assert!(matches!(calls[0], CameraCall::Fail));
    assert_eq!(p.last_error, "camera permission DeniedPermanent");
    assert!(!p.state.wanted);
}

#[test]
fn switching_reopens_the_camera_on_the_other_side() {
    let mut p = running();
    let (_, calls) = p.script_call(ScriptCall::Switch, 0);
    assert!(matches!(calls[0], CameraCall::Close));
    p.handle_event(CameraEvent::Released, 0);
    p.draw();
    assert!(matches!(p.handle_event(CameraEvent::Tick, 0)[0], CameraCall::Open { input: 11, .. }));
    assert!(matches!(p.script_call(ScriptCall::Facing, 0).0, ScriptAnswer::Text(t) if t == "front"));
}

#[test]
fn a_preview_that_left_the_screen_is_closed() {
    let mut p = running();
    p.recording = Some("DCIM/VID_1.mp4".into());
    assert!(matches!(p.handle_event(CameraEvent::Tick, 0)[0], CameraCall::Redraw));
    let calls = p.handle_event(CameraEvent::Tick, 500);
    assert!(matches!(calls[0], CameraCall::StopVideo { input: 10 }));
    assert!(matches!(calls[1], CameraCall::Close));
    assert_eq!(p.state.state, CameraState::Stopping);
    assert!(p.recording.is_none());
}

#[test]
fn pictures_and_recordings_need_a_running_camera_and_room() {
    let place = || Some(CapturePlace { relative: "DCIM/IMG_1.jpg".into(), file: "/j/DCIM/IMG_1.jpg".into() });
    let mut p = CameraPreview::new();
    assert!(!p.capture(place(), false).0);
    assert_eq!(p.last_error, "the camera is not running");
    let mut p = running();
    assert!(!p.capture(None, false).0);
    assert_eq!(p.last_error, "this app's storage is full or missing");
    let (ok, calls) = p.capture(place(), true);
    assert!(ok && matches!(&calls[0], CameraCall::Photo { input: 10, library: true, .. }));
    assert_eq!(p.last, "DCIM/IMG_1.jpg");
    let (ok, calls) = p.record_start(place(), true, false);
    assert!(ok && matches!(calls[0], CameraCall::RequestMicrophone));
    assert!(matches!(&calls[1], CameraCall::StartVideo { audio: true, .. }));
    assert!(p.record_start(None, false, false).0, "one runs already");
    assert!(matches!(p.record_stop(), Some(CameraCall::StopVideo { input: 10 })));
    let stopped = CameraCaptureResult::VideoStopped { path: "x".into() };
    assert!(matches!(p.handle_event(CameraEvent::Capture { input: 10, result: stopped }, 0)[0], CameraCall::Captured));
    assert!(p.recording.is_none());
    let failed = CameraCaptureResult::Failed { what: CaptureKind::Photo, error: "busy".into() };
    p.handle_event(CameraEvent::Capture { input: 10, result: failed }, 0);
    assert_eq!(p.last_error, "photo failed: busy");
    p.handle_event(CameraEvent::DecodingError("lost".into()), 0);
    assert_eq!(p.last_error, "the camera stopped: lost");
}

#[test]
fn a_running_camera_takes_orders() {
    let mut p = running();
    let (_, calls) = p.script_call(ScriptCall::SetFlash(Some("torch".into())), 0);
    assert!(matches!(
        calls[0],
        CameraCall::Control { input: 10, control: CameraControl::Flash(CameraFlashMode::Torch) }
    ));
    assert!(p.script_call(ScriptCall::SetFlash(Some("strobe".into())), 0).1.is_empty());
    let stop = p.stop();
    assert!(matches!(stop[0], CameraCall::Close) && matches!(stop[1], CameraCall::StopTimer));
    assert!(p.control(CameraControl::ZoomRatio(0)).is_none());
}

#[test]
fn captures_are_named_by_their_time_and_kept_where_they_may_be() {
    assert_eq!(capture_relative_path("IMG", 1234, "jpg"), "DCIM/IMG_1234.jpg");
    let name = || "DCIM/IMG_1.jpg".to_string();
    assert!(capture_path(name(), true, false, Some("/j/x".into()), None).is_none(), "no room");
    assert!(capture_path(name(), true, true, None, Some("/d")).is_none(), "no jail");
    assert_eq!(capture_path(name(), true, true, Some("/j/x".into()), None).map(|p| p.file).as_deref(), Some("/j/x"));
    assert_eq!(capture_path(name(), false, false, None, Some("/d")).map(|p| p.file).as_deref(), Some("/d/DCIM/IMG_1.jpg"));
    assert!(capture_path(name(), false, true, None, None).is_none());
}

#[test]
fn a_closing_app_lets_go_of_its_devices() {
    let (mut cameras, mut readers) = (Opened::new(), Opened::new());
    cameras.opened(1, 100);
    cameras.opened(1, 101);
    cameras.opened(1, 100);
    cameras.opened(2, 200);
    readers.opened(1, 300);
    readers.opened(3, 301);
    let released = release_isolate_devices(&mut cameras, &mut readers, 1);
    assert_eq!(released.cameras, vec![100, 101]);
    assert_eq!(released.web_views, vec![300]);
    assert!(release_cameras(&mut cameras, 1).is_empty());
    assert_eq!(release_cameras(&mut cameras, 2), vec![200]);
    assert_eq!(gc_web_readers(&mut readers, &[1, 3, 3]), vec![301]);
    cameras.opened(1, 100);
    assert_eq!(release_cameras(&mut cameras, 1), vec![100], "opened again, stopped again");
}

// ---------------------------------------------------------------------------
// Web pages
// ---------------------------------------------------------------------------

#[test]
fn a_page_is_opened_where_the_app_may() {
    let mut policies = PolicyTable::new();
    set_policy_for_heap(&mut policies, 5, vec!["net".into()], vec!["a.example".into()], None);
    let mut opened = Opened::new();
    let mut reader = WebReader::new(5, 50);
    let (ok, calls) = reader.script_open(&policies, &mut opened, Some(" https://b.example/ "));
    assert!(!ok && matches!(calls[0], ReaderCall::Report));
    assert_eq!(
        reader.last_error,
        "refused https://b.example/: not on this app's host list, and no `web` grant"
    );
    let (ok, calls) = reader.open(&policies, &mut opened, "https://a.example/x");
    assert!(ok && matches!(&calls[0], ReaderCall::Spawn { navigable: false, url } if url == "https://a.example/x"));
    assert_eq!(calls.len(), 3);
    set_policy_for_heap(&mut policies, 5, vec!["web".into()], vec![], None);
    let (ok, calls) = reader.open(&policies, &mut opened, "https://b.example/");
    assert!(ok && matches!(&calls[0], ReaderCall::Spawn { navigable: true, .. }));
    assert_eq!(gc_web_readers(&mut opened, &[5]), vec![50], "one web view, whatever it opened");
    assert!(gc_web_readers(&mut opened, &[5]).is_empty());
    assert!(reader.open(&policies, &mut opened, "https://b.example/").0);
    assert_eq!(gc_web_readers(&mut opened, &[5]), vec![50], "also one that was opened again");
    assert!(!reader.script_open(&policies, &mut opened, None).0);
}

#[test]
fn a_page_hides_when_it_is_not_drawn_and_comes_back() {
    let policies = PolicyTable::new();
    let mut opened = Opened::new();
    let mut reader = WebReader::new(1, 9);
    assert!(reader.open(&policies, &mut opened, "http://any/").0);
    assert!(matches!(reader.watchdog()[0], ReaderCall::Redraw));
    assert!(matches!(reader.watchdog()[0], ReaderCall::Update { show: false }));
    assert!(!reader.state.overlay_visible);
    assert!(matches!(reader.draw(), Some(ReaderCall::Update { show: true })));
    assert!(reader.page_error(8, "other").is_empty());
    assert_eq!(reader.page_error(9, "no route").len(), 2);
    assert_eq!(reader.last_error, "could not load http://any/: no route");
    assert!(matches!(reader.draw(), Some(ReaderCall::Update { show: false })));
    assert_eq!(reader.close().len(), 2);
    assert!(reader.close().is_empty() && reader.draw().is_none());
}

// ---------------------------------------------------------------------------
// Gestures
// ---------------------------------------------------------------------------

fn way(dx: f64, dy: f64) -> Delta {
    Delta { dx: (dx * 1024.0) as i64, dy: (dy * 1024.0) as i64 }
}

fn at(x: f64, y: f64) -> Point {
    Point { x: (x * 1024.0) as i32, y: (y * 1024.0) as i32 }
}

fn touch(uid: u64, state: TouchState, x: f64, y: f64, side: f64) -> Touch {
    let inside = x >= 0.0 && y >= 0.0 && x <= side && y <= side;
    Touch { uid, state, at: at(x, y), time: 1000, inside, claimed: false }
}

#[test]
fn a_swipe_is_fast_and_along_one_axis() {
    assert_eq!(swipe(way(-120.0, 10.0), 200), Some(way(-120.0, 0.0)));
    assert_eq!(swipe(way(5.0, 90.0), 200), Some(way(0.0, 90.0)));
    assert_eq!(swipe(way(-120.0, 100.0), 200), None, "a diagonal is no swipe");
    assert_eq!(swipe(way(-120.0, 0.0), 1000), None, "a slow drag is no swipe");
    assert_eq!(swipe(way(-30.0, 0.0), 100), None, "nor is a short one");
}

/// A step of a pinch: its scale and its center.
fn scale(step: PinchStep) -> Option<(f64, f64, f64)> {
    match step {
        PinchStep::Moved { square, base, first, second } => Some((
            (square as f64 / base as f64).sqrt(),
            (first.x as f64 + second.x as f64) / 2048.0,
            (first.y as f64 + second.y as f64) / 2048.0,
        )),
        _ => None,
    }
}

#[test]
fn two_fingers_inside_the_view_pinch_relative_to_their_start() {
    let mut pinch = PinchTracker::new();
    assert_eq!(pinch.update(&vec![touch(1, TouchState::Start, 100.0, 200.0, 400.0)]), PinchStep::Nothing);
    assert_eq!(
        pinch.update(&vec![touch(2, TouchState::Start, 300.0, 200.0, 400.0)]),
        PinchStep::Began { first: at(100.0, 200.0), second: at(300.0, 200.0) }
    );
    assert_eq!(
        scale(pinch.update(&vec![touch(2, TouchState::Move, 500.0, 200.0, 400.0)])),
        Some((2.0, 300.0, 200.0))
    );
    assert_eq!(pinch.update(&vec![touch(1, TouchState::Stop, 100.0, 200.0, 400.0)]), PinchStep::Ended);
    assert!(pinch.holding(), "a finger is still down: its release is not a tap");
    pinch.update(&vec![touch(2, TouchState::Stop, 500.0, 200.0, 400.0)]);
    assert!(!pinch.holding());
}

#[test]
fn a_finger_that_starts_outside_the_view_is_not_part_of_its_pinch() {
    let mut pinch = PinchTracker::new();
    pinch.update(&vec![touch(1, TouchState::Start, 50.0, 50.0, 100.0)]);
    assert_eq!(pinch.update(&vec![touch(2, TouchState::Start, 500.0, 50.0, 100.0)]), PinchStep::Nothing);
}

#[test]
fn taps_double_taps_and_long_presses_are_told_apart() {
    let mut view = GestureView::new();
    let down = vec![touch(1, TouchState::Start, 50.0, 50.0, 100.0)];
    let up = vec![touch(1, TouchState::Stop, 52.0, 50.0, 100.0)];
    assert!(view.handle_touches(&down).is_empty());
    assert_eq!(view.handle_touches(&up), vec![GestureCall::Tap(at(52.0, 50.0))]);
    view.handle_touches(&down);
    assert_eq!(
        view.handle_touches(&up),
        vec![GestureCall::Tap(at(52.0, 50.0)), GestureCall::DoubleTap(at(52.0, 50.0))]
    );
    view.handle_touches(&down);
    assert_eq!(view.long_press(1, at(50.0, 50.0)), Some(GestureCall::LongPress(at(50.0, 50.0))));
    assert_eq!(view.long_press(1, at(50.0, 50.0)), None);
    assert!(view.handle_touches(&up).is_empty(), "a long press is no tap");
}

#[test]
fn a_drag_is_told_when_it_moves_and_may_be_a_swipe() {
    let mut view = GestureView::new();
    view.handle_touches(&vec![touch(1, TouchState::Start, 10.0, 50.0, 400.0)]);
    assert!(view.handle_touches(&vec![touch(1, TouchState::Move, 20.0, 50.0, 400.0)]).is_empty());
    assert_eq!(
        view.handle_touches(&vec![touch(1, TouchState::Move, 90.0, 50.0, 400.0)]),
        vec![GestureCall::PanBegan, GestureCall::PanMoved(way(80.0, 0.0))]
    );
    assert!(view.handle_touches(&vec![touch(1, TouchState::Stable, 90.5, 50.0, 400.0)]).is_empty());
    assert_eq!(
        view.handle_touches(&vec![touch(1, TouchState::Stop, 90.0, 50.0, 400.0)]),
        vec![GestureCall::PanEnded(way(80.0, 0.0)), GestureCall::Swipe(way(80.0, 0.0))]
    );
}

#[test]
fn a_mouse_drags_and_clicks_too() {
    let mut view = GestureView::new();
    view.handle_hit(PointerHit::Down { child_owns: true });
    let up = |time| PointerHit::Up {
        from: at(1.0, 1.0), at: at(1.0, 1.0), time, down: 0, over: true, long_pressed: false,
    };
    assert!(view.handle_hit(up(10)).is_empty(), "a button has it");
    view.handle_hit(PointerHit::Down { child_owns: false });
    assert_eq!(view.handle_hit(up(10)), vec![GestureCall::Tap(at(1.0, 1.0))]);
    view.handle_hit(PointerHit::Down { child_owns: false });
    assert_eq!(
        view.handle_hit(PointerHit::Move { from: at(0.0, 0.0), at: at(30.0, 0.0) }).len(),
        2
    );
    view.handle_touches(&vec![touch(1, TouchState::Start, 10.0, 10.0, 100.0)]);
    let calls = view.handle_touches(&vec![touch(2, TouchState::Start, 90.0, 10.0, 100.0)]);
    assert_eq!(calls[0], GestureCall::PanEnded(way(30.0, 0.0)), "the drag gives way to the pinch");
    assert!(matches!(calls[1], GestureCall::PinchBegan { .. }));
    assert!(view.handle_touches(&vec![touch(2, TouchState::Move, 91.0, 10.0, 100.0)]).is_empty());
    assert!(matches!(
        view.handle_touches(&vec![touch(2, TouchState::Move, 95.0, 10.0, 100.0)])[0],
        GestureCall::PinchMoved { .. }
    ));
    let closed = touch(2, TouchState::Move, 10.0, 10.0, 100.0);
    assert!(matches!(view.handle_touches(&vec![closed])[0], GestureCall::PinchMoved { square: 0, .. }));
    assert!(view.handle_touches(&vec![closed]).is_empty(), "nothing is told again");
    assert!(matches!(
        view.handle_touches(&vec![touch(2, TouchState::Move, 95.0, 10.0, 100.0)])[0],
        GestureCall::PinchMoved { .. }
    ));
    assert!(matches!(
        view.handle_touches(&vec![touch(2, TouchState::Stop, 95.0, 10.0, 100.0)])[0],
        GestureCall::PinchEnded { .. }
    ));
}

/// Where a drag in a viewport this tall comes to rest.
fn rest(at: f64, velocity: f64, viewport: f64) -> u8 {
    let h = sheet_heights((viewport * 1024.0) as i32);
    let v = Velocity { down: (velocity * 1024.0) as i64, time: 1000 };
    sheet_rest((at * 1024.0) as i64, &v, &h)
}

#[test]
fn the_sheet_rests_at_the_nearest_detent_or_flicks_to_the_next() {
    let h = sheet_heights(800 * 1024);
    assert_eq!([h.peek, h.half, h.full], [132 * 1024, 360 * 1024, 704 * 1024]);
    assert_eq!(rest(200.0, 0.0, 800.0), 0);
    assert_eq!(rest(300.0, 0.0, 800.0), 1);
    assert_eq!(rest(200.0, -900.0, 800.0), 1, "an upward flick goes to the next detent up");
    assert_eq!(rest(650.0, 900.0, 800.0), 1, "a downward flick to the next one down");
    let h = sheet_heights(200 * 1024);
    assert!(h.peek <= h.half && h.half <= h.full && h.full <= 200 * 1024);
}

#[test]
fn a_sheet_follows_the_finger_and_eases_to_rest() {
    let mut sheet = SheetView { detent: 0, height: 0, drag: None, prev: None, viewport: 0 };
    assert_eq!(sheet.draw(800 * 1024), 132 * 1024);
    sheet.finger_down(false, 0);
    assert!(sheet.finger_move(-200 * 1024, 1000));
    assert!(sheet.finger_move(-230 * 1024, 2000));
    assert_eq!(sheet.finger_up(), (true, Some(1)));
    let mut frames = 0;
    while sheet.next_frame().1 {
        frames += 1;
        assert!(frames < 100);
    }
    assert_eq!(sheet.height, 360 * 1024);
    sheet.set_detent(7);
    assert_eq!(sheet.target(), 704 * 1024);
}

// ---------------------------------------------------------------------------
// Components
// ---------------------------------------------------------------------------

#[test]
fn changed_initial_selection_including_none_reconciles_source_paint() {
    for selected in [-1, 0, 2] {
        let mut controller = Controller::new();
        let contract = format!(r#"{{"selected_index":{selected},"source_selected_index":1}}"#);
        controller.refresh(&contract);
        assert_eq!(controller.selected, selected);
        assert!(controller.reconcile_selection);
        controller.reconcile_selection = false;
        controller.refresh(&contract);
        assert!(!controller.reconcile_selection, "unchanged contracts retain user selection");
    }
}

const CONTRACT: &str = r#"{
    "selected_index": 1, "source_selected_index": 1,
    "bindings": {"control": "c", "label": "l", "input": "i"},
    "action_bindings": {"a/b~c": "x", "go": "y"},
    "active_color": 4278190335, "inactive_surface": 1,
    "items": [
        {"root": "r0", "control": "k0", "surfaces": ["s0", 7], "paint": ["p0"]},
        {"root": "r1", "control": "k1", "paint": ["p1"]},
        {"control": "k2", "source_enabled": false}
    ]}"#;

fn ids(list: &[&str]) -> Vec<String> {
    list.iter().map(|s| s.to_string()).collect()
}

fn kit() -> Controller {
    let mut controller = Controller::new();
    controller.refresh(CONTRACT);
    controller
}

#[test]
fn a_selection_is_shown_by_its_items() {
    let mut c = kit();
    assert!(!c.reconcile_selection);
    assert_eq!(c.selected, 1);
    let (ok, calls) = c.select(1, &vec![false, false, true]);
    assert!(ok);
    assert!(matches!(&calls[0], PaintCall::Mark { id: Some(i), on: false } if i == "r0"));
    assert!(matches!(&calls[1], PaintCall::Radio { id: Some(i), on: false } if i == "k0"));
    assert!(matches!(&calls[2], PaintCall::Fill { id: Some(i), color: 1 } if i == "s0"));
    assert!(matches!(&calls[3], PaintCall::Fill { id: None, color: 1 }));
    assert!(matches!(&calls[4], PaintCall::Ink { id: Some(i), color: 0xff4c5fef } if i == "p0"));
    assert!(matches!(&calls[5], PaintCall::Mark { id: Some(i), on: true } if i == "r1"));
    assert!(matches!(&calls[7], PaintCall::Ink { color: 0xff0000ff, .. }));
    assert_eq!(calls.len(), 10, "a disabled item keeps its paint");
    assert!(!c.select(2, &vec![false, false, true]).0, "nor can it be selected");
    assert!(!c.select(3, &vec![]).0 && !c.select(-2, &vec![]).0);
    assert!(c.select(-1, &vec![]).0);
    assert!(!c.select_index(usize::MAX, &vec![]).0);
    assert_eq!(c.selected_value(None).as_deref(), Some("-1"));
}

#[test]
fn events_are_reported_by_their_part() {
    let mut c = kit();
    let answer = c.event(&ids(&["c", "x", "k0", "k1"]), &vec![false, false, false], "a", "b");
    assert!(matches!(answer.reports[0], KitAction::Activated));
    assert!(matches!(&answer.reports[1], KitAction::Action(n) if n == "a/b~c"));
    assert_eq!(answer.reports[2].selected(), Some(0));
    assert_eq!(answer.reports[3].changed().map(|s| s.as_str()), Some("b"));
    assert_eq!(answer.reports.len(), 4);
    assert_eq!(c.selected, 0);
    assert!(!answer.paint.is_empty());
    let quiet = c.event(&ids(&[]), &vec![], "b", "b");
    assert!(quiet.reports.is_empty() && quiet.paint.is_empty());
    assert!(takes_event(true, true) && takes_event(false, false) && !takes_event(false, true));
}

#[test]
fn a_component_has_content_and_can_be_turned_off() {
    let mut c = kit();
    assert_eq!(c.content(&ids(&["l", "i"])).as_deref(), Some("i"));
    assert_eq!(c.content(&ids(&["l"])).as_deref(), Some("l"));
    assert_eq!(c.content(&ids(&[])), None);
    assert_eq!(c.set_content("title", &ids(&["l"])), None);
    assert_eq!(c.set_content("label", &ids(&["l"])).as_deref(), Some("l"));
    let mut odd = Controller::new();
    odd.refresh(r#"{"bindings":{"a":{"b":"inner"},"a/b":"x","~1":"y"}}"#);
    assert_eq!(odd.set_content("a/b", &ids(&["x", "inner"])).as_deref(), Some("x"), "a role is one key");
    assert_eq!(odd.set_content("~1", &ids(&["y"])).as_deref(), Some("y"));
    assert_eq!(odd.set_content("a", &ids(&["inner"])), None);
    odd.refresh(r#"{"bindings":["x"]}"#);
    assert_eq!(odd.set_content("0", &ids(&["x"])), None, "a list has no roles");
    assert_eq!(c.primary().as_deref(), Some("i"));
    assert!(c.disabled(false, false) && c.disabled(true, true) && !c.disabled(true, false));
    let off = c.set_disabled(false);
    assert_eq!(off.len(), 2 + 2 + 3);
    assert!(off[6].disabled && !off[5].disabled, "an item that is off in the design stays off");
    assert!(c.is_interactive(true) && !c.is_interactive(false));
    let drawn = c.draw(true, false, &vec![]);
    assert!(drawn.overlay && drawn.paint.is_empty());
    c.reconcile_selection = true;
    assert!(!c.draw(true, true, &vec![]).paint.is_empty() && !c.reconcile_selection);
    let mut empty = Controller::new();
    empty.refresh("not json");
    assert_eq!(empty.selected, -1);
    assert!(!empty.reconcile_selection && !empty.is_interactive(true));
    assert_eq!(empty.selected_value(Some(true)).as_deref(), Some("true"));
}

#[test]
fn colors_and_overlays_of_components() {
    let c = ink(0x80112233);
    assert_eq!((c.alpha, c.red, c.green, c.blue), (0x80, 0x11, 0x22, 0x33));
    let mut g = Generations { last: 7 };
    assert!(retire_overlay(None, 1, &mut g).is_none());
    let cleared = retire_overlay(Some(3), 1, &mut g).expect("an overlay");
    assert_eq!((cleared.list, cleared.recording_gen, cleared.uniforms_gen), (3, 8, 9));
    assert_eq!(g.last, 9);
    assert!(KitAction::Activated.activated() && KitAction::Nothing.action().is_none());
}

// ---------------------------------------------------------------------------
// Maps
// ---------------------------------------------------------------------------

#[test]
fn nav_modes_classify() {
    assert_eq!(nav_kind(""), NavKind::Off);
    assert_eq!(nav_kind(" 3d "), NavKind::Chase3d);
    assert_eq!(nav_kind("follow3d"), NavKind::Chase3d);
    assert_eq!(nav_kind("2d"), NavKind::HeadingUp2d);
    assert_eq!(nav_kind("plan"), NavKind::HeadingUp2d);
    assert!(is_plan("plan") && !is_plan("2d"));
    assert!(is_follow("follow") && !is_follow("3d"));
}

/// The pins of a list that are at a place.
fn pins(list: &str) -> Vec<(f64, f64, u8)> {
    let place = |lat: f64, lon: f64| {
        lat.is_finite() && lon.is_finite() && !(lat.abs() < 1e-9 && lon.abs() < 1e-9)
    };
    parse_route_markers(list)
        .into_iter()
        .map(|m| (m.lat.parse().unwrap_or(f64::NAN), m.lon.parse().unwrap_or(f64::NAN), m.kind))
        .filter(|m| place(m.0, m.1))
        .collect()
}

#[test]
fn route_markers_parse_and_drop_unresolved() {
    let found = pins("37.37,-121.96,0;0,0,1;37.40,-121.90;37.33,-121.89,2");
    assert_eq!(found, vec![(37.37, -121.96, 0), (37.40, -121.90, 1), (37.33, -121.89, 2)]);
    assert!(pins("").is_empty());
}

#[test]
fn pins_without_a_kind_are_stops() {
    let kinds: Vec<u8> = parse_route_markers("1,2, +2 ;1,2,256;1,2,x;1").iter().map(|m| m.kind).collect();
    assert_eq!(kinds, vec![2, 1, 1]);
    assert_eq!(marker_color(0), [16, 66, 36]);
    assert_eq!(marker_color(2), [88, 24, 20]);
    assert_eq!(marker_color(9), [95, 62, 12]);
}

#[test]
fn routes_are_decoded() {
    let p = |lat, lon| RoutePoint { lat, lon };
    assert_eq!(
        decode_polyline5("_p~iF~ps|U_ulLnnqC_mqNvxq`@"),
        Some(vec![p(3850000, -12020000), p(4070000, -12095000), p(4325200, -12645300)])
    );
    assert_eq!(decode_polyline5("_p~iF~ps|U_ulL"), Some(vec![p(3850000, -12020000)]), "a route that is cut off");
    assert_eq!(decode_polyline5(""), Some(vec![]));
    assert_eq!(decode_polyline5(&"~".repeat(20)), None, "a number that does not fit");
}

#[test]
fn a_map_adopts_what_is_new() {
    let mut nav = NavState::new();
    let pins = || vec![Marker { lat: 1, lon: 2, kind: 0 }];
    let first = nav.adopt(" abc ", "1,2", pins());
    assert!(first.changed);
    assert_eq!(first.route.as_deref(), Some("abc"));
    let again = nav.adopt("abc", "1,2", vec![]);
    assert!(!again.changed && again.route.is_none());
    assert!(!nav.adopt("abc", "1.0,2.0", pins()).changed, "the same pins, written otherwise");
    assert!(nav.adopt("abc", "", vec![]).changed);
}

// ---------------------------------------------------------------------------
// Gradients
// ---------------------------------------------------------------------------

fn attrs(list: &[(&str, &str)]) -> TextMap<String> {
    let mut m: TextMap<String> = TextMap::new();
    for (k, v) in list {
        m.insert(k, v.to_string());
    }
    m
}

/// A coordinate as a share of the whole.
fn share(c: &Option<String>) -> f64 {
    let text = c.as_deref().expect("a coordinate");
    match text.strip_suffix('%') {
        Some(n) => n.parse::<f64>().expect("a number") / 100.0,
        None => text.parse().expect("a number"),
    }
}

#[test]
fn percentage_gradient_coordinates_do_not_fall_back_to_horizontal_defaults() {
    let g = parse_linear_gradient(&attrs(&[
        ("id", "linear"), ("x1", "9.2%"), ("y1", "17.6%"), ("x2", "91.8%"), ("y2", "79.4%"),
    ]));
    assert_eq!(g.id.as_deref(), Some("linear"));
    for (a, b) in g.coordinates.iter().zip([0.092, 0.176, 0.918, 0.794]) {
        assert!((share(a) - b).abs() < 0.00001);
    }
    let g = parse_radial_gradient(&attrs(&[
        ("id", "radial"), ("cx", "25%"), ("cy", "75%"), ("r", "60%"), ("fx", "20%"), ("fy", "80%"),
    ]));
    let c: Vec<f64> = g.coordinates.iter().map(share).collect();
    assert_eq!(c, vec![0.25, 0.75, 0.6, 0.2, 0.8]);
}

#[test]
fn gradients_have_units_spreads_and_parents() {
    assert_eq!(parse_gradient_units(" userSpaceOnUse "), GradientUnits::UserSpaceOnUse);
    assert_eq!(parse_gradient_units("other"), GradientUnits::ObjectBoundingBox);
    assert_eq!(parse_spread_method("reflect"), SpreadMethod::Reflect);
    assert_eq!(parse_spread_method("repeat "), SpreadMethod::Repeat);
    assert_eq!(parse_spread_method(""), SpreadMethod::Pad);
    let g = parse_linear_gradient(&attrs(&[("xlink:href", "#base"), ("spreadmethod", "repeat")]));
    assert_eq!(g.href.as_deref(), Some("base"));
    assert_eq!(g.spread, Some(SpreadMethod::Repeat));
    assert!(g.units.is_none() && g.transform.is_none());
    assert!(parse_linear_gradient(&attrs(&[("href", "base")])).href.is_none());
}

#[test]
fn a_stop_reads_its_attributes_and_then_its_style() {
    let s = parse_stop(&attrs(&[
        ("offset", " 50 %"), ("stop-color", "#fff"), ("stop-opacity", " 0.5 "),
        ("style", "Stop-Color : red; stop-opacity:0.2;fill:none;oops"),
    ]));
    assert_eq!(s.offset, Some(("50".to_string(), true)));
    assert!(matches!(&s.parts[0], StopPart::Color(c) if c == "#fff"));
    assert!(matches!(&s.parts[1], StopPart::Opacity(o) if o == "0.5"));
    assert!(matches!(&s.parts[2], StopPart::Color(c) if c == "red"));
    assert!(matches!(&s.parts[3], StopPart::Opacity(o) if o == "0.2"));
    assert_eq!(s.parts.len(), 4);
    assert_eq!(parse_stop(&attrs(&[])).offset, None);
}

// ---------------------------------------------------------------------------
// Fingers on a camera
// ---------------------------------------------------------------------------

fn finger_at(uid: u64, state: TouchState, x: i32) -> Touch {
    Touch { uid, state, at: Point { x, y: 0 }, time: 0, inside: true, claimed: false }
}

#[test]
fn a_pinch_zooms_the_camera() {
    let mut g = CameraGestures::new(true, true, true);
    let down = vec![finger_at(1, TouchState::Start, 0), finger_at(2, TouchState::Start, 10240)];
    assert_eq!(g.handle_touches(&down), ZoomStep::Hold);
    let apart = vec![finger_at(2, TouchState::Move, 20480)];
    assert_eq!(
        g.handle_touches(&apart),
        ZoomStep::Scale { square: 20480 * 20480, base: 10240 * 10240 }
    );
    let frame = Frame { corner: Point { x: 0, y: 0 }, width: 1024, height: 1024 };
    let lift = Lift { at: Point { x: 1, y: 1 }, is_over: true, was_tap: true, claimed: false };
    assert_eq!(g.handle_lift(frame, lift), None, "a pinch does not focus");
    assert_eq!(g.handle_touches(&vec![finger_at(2, TouchState::Stop, 20480)]), ZoomStep::Tell);
    let mut quiet = CameraGestures::new(false, true, true);
    assert_eq!(quiet.handle_touches(&down), ZoomStep::Nothing);
    assert!(!quiet.pinch.holding());
}

#[test]
fn a_tap_focuses_the_camera() {
    let g = CameraGestures::new(true, true, false);
    let frame = Frame { corner: Point { x: 100, y: 200 }, width: 1000, height: 500 };
    let lift = Lift { at: Point { x: 350, y: 900 }, is_over: true, was_tap: true, claimed: false };
    assert_eq!(
        g.handle_lift(frame, lift),
        Some(Spot { x: 250, width: 1000, y: 500, height: 500 }),
        "held within the picture"
    );
    let left = Lift { at: Point { x: 0, y: 200 }, ..lift };
    assert_eq!(g.handle_lift(frame, left).map(|s| (s.x, s.y)), Some((0, 0)));
    assert_eq!(g.handle_lift(frame, Lift { claimed: true, ..lift }), None);
    assert_eq!(g.handle_lift(frame, Lift { was_tap: false, ..lift }), None);
    assert_eq!(g.handle_lift(frame, Lift { is_over: false, ..lift }), None);
    assert_eq!(g.handle_lift(Frame { width: 0, ..frame }, lift), None);
    assert_eq!(CameraGestures::new(true, false, false).handle_lift(frame, lift), None);
}
