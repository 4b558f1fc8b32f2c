use makepad_host::wayland::scroll::{
    frame_scroll, scroll_is_wheel_like, Amount, Axis, AxisScroll, AxisSource, FrameScroll,
    ScrollPhase, ScrollState,
};

/// Pixels, in the units of the protocol.
fn px(x: f64, y: f64) -> Amount {
    Amount { x: (x * 256.0) as i64, y: (y * 256.0) as i64 }
}

/// Detents of a wheel, in the units of the protocol.
fn detents(x: i64, y: i64) -> Amount {
    Amount { x: x * 120, y: y * 120 }
}

/// A frame without a stop, from a source with no gesture in flight.
fn plain_frame(source: Option<AxisSource>, acc: Amount, d: Amount) -> Option<FrameScroll> {
    frame_scroll(source, false, false, acc, d)
}

#[test]
fn wheel_like_sources_take_the_detent_path() {
    for source in [AxisSource::Wheel, AxisSource::WheelTilt] {
        assert!(scroll_is_wheel_like(Some(source), true));
        assert!(scroll_is_wheel_like(Some(source), false));
    }
    for source in [AxisSource::Finger, AxisSource::Continuous] {
        assert!(!scroll_is_wheel_like(Some(source), false));
        assert!(!scroll_is_wheel_like(Some(source), true));
    }
}

#[test]
fn a_frame_without_an_axis_source_is_classified_by_its_detents() {
    assert!(scroll_is_wheel_like(None, true));
    assert!(!scroll_is_wheel_like(None, false));
}

#[test]
fn each_axis_chooses_detents_or_raw_pixels_on_its_own() {
    let frame = plain_frame(Some(AxisSource::Wheel), px(7.5, 15.0), detents(0, 1))
        .expect("a frame with a delta dispatches");
    assert_eq!((frame.x, frame.y), (AxisScroll::Pixels(1920), AxisScroll::Detents(120)));
    assert!(frame.is_mouse);
    assert_eq!(frame.phase, ScrollPhase::Plain);
}

#[test]
fn a_wheel_frame_without_detents_keeps_its_raw_distance_unscaled() {
    let frame = plain_frame(Some(AxisSource::Wheel), px(0.0, 15.0), detents(0, 0))
        .expect("a frame with a delta dispatches");
    assert_eq!((frame.x, frame.y), (AxisScroll::Pixels(0), AxisScroll::Pixels(3840)));
}

#[test]
fn a_sourceless_frame_with_detents_takes_the_wheel_path() {
    let frame = plain_frame(None, px(0.0, 15.0), detents(0, 1)).expect("a frame with a delta dispatches");
    assert_eq!((frame.x, frame.y), (AxisScroll::Pixels(0), AxisScroll::Detents(120)));
    assert!(frame.is_mouse);
    assert_eq!(frame.phase, ScrollPhase::Plain);
}

#[test]
fn a_touchpad_gesture_reports_changed_then_ended_at_lift_off() {
    let moving = plain_frame(Some(AxisSource::Finger), px(0.0, 12.0), detents(0, 0))
        .expect("a frame with a delta dispatches");
    assert_eq!(moving.phase, ScrollPhase::Changed);
    assert_eq!((moving.x, moving.y), (AxisScroll::Pixels(0), AxisScroll::Pixels(3072)));
    assert!(!moving.is_mouse);
    let lifted = frame_scroll(Some(AxisSource::Finger), true, true, px(0.0, 0.0), detents(0, 0))
        .expect("a bare stop ends the gesture");
    assert_eq!(lifted.phase, ScrollPhase::Ended);
    assert_eq!((lifted.x, lifted.y), (AxisScroll::Pixels(0), AxisScroll::Pixels(0)));
}

#[test]
fn a_stop_alongside_live_motion_is_one_axis_stopping_not_lift_off() {
    let frame = frame_scroll(Some(AxisSource::Finger), true, true, px(0.0, 12.0), detents(0, 0))
        .expect("a frame with a delta dispatches");
    assert_eq!(frame.phase, ScrollPhase::Changed);
}

#[test]
fn a_gesture_in_flight_still_ends_when_the_compositor_drops_the_axis_source() {
    let frame = frame_scroll(None, true, true, px(0.0, 0.0), detents(0, 0))
        .expect("the in-flight gesture recognises its own lift-off");
    assert_eq!(frame.phase, ScrollPhase::Ended);
    assert!(frame_scroll(None, false, true, px(0.0, 0.0), detents(0, 0)).is_none());
}

#[test]
fn a_bare_stop_from_a_source_with_no_gesture_dispatches_nothing() {
    for source in [AxisSource::Wheel, AxisSource::WheelTilt, AxisSource::Continuous] {
        assert!(
            frame_scroll(Some(source), true, true, px(0.0, 0.0), detents(0, 0)).is_none(),
            "{source:?} has no gesture to end"
        );
    }
}

#[test]
fn a_trackpoint_scroll_is_a_plain_delta_that_skips_wheel_easing() {
    let frame = plain_frame(Some(AxisSource::Continuous), px(0.0, 9.0), detents(0, 0))
        .expect("a frame with a delta dispatches");
    assert_eq!(frame.phase, ScrollPhase::Plain);
    assert_eq!((frame.x, frame.y), (AxisScroll::Pixels(0), AxisScroll::Pixels(2304)));
    assert!(!frame.is_mouse);
}

#[test]
fn an_empty_frame_dispatches_nothing() {
    assert!(plain_frame(None, px(0.0, 0.0), detents(0, 0)).is_none());
}

#[test]
fn a_gesture_that_began_is_ended_by_its_stop() {
    let mut state = ScrollState::new();
    state.axis_source(Some(AxisSource::Finger));
    state.axis(Axis::Vertical, 256 * 3);
    let moving = state.frame().expect("it moves");
    assert_eq!(moving.phase, ScrollPhase::Changed);
    state.axis_stop();
    let lifted = state.frame().expect("it ends");
    assert_eq!(lifted.phase, ScrollPhase::Ended);
    state.axis_stop();
    assert!(state.frame().is_none(), "it ends once");
}
