use makepad_host::camera::android::{
    active_size, crop_region, flash_codes, focus_codes, format_for_key, jpeg_orientation, key_for,
    lens_facing, metering_region, offered, refresh_slot_encoder, texture_frame_check, texture_frame_read,
    ActiveArray, AndroidCameraDevice, AndroidCaptureContext, AndroidCaptureSession,
    AndroidImageReaderMode, AndroidStillContext, CameraStreamKey, EncoderStep, FrameRoute,
    LensFacing, ReaderPlan, SessionOutput, StillRefusal, StreamConfiguration, StreamDispatch, TextureState,
    VideoEncodeError, VideoEncodeSource, VideoFormat, VideoPixelFormat,
    AIMAGE_FORMAT_JPEG, AIMAGE_FORMAT_YUV_420_888,
};
use makepad_host::camera::android::{
    configure_video_encoder, encoder_started, is_front_facing, listed_camera, measure,
    preview_rotation, sensor_orientation_for_input, CameraCharacteristics, ConfigureStep,
};
use makepad_host::camera::android_frame::{
    AcquiredImage, CameraColorMatrix, CameraFrameLayout, Delivered, ImagePlane, VideoBytes,
};
use makepad_host::camera::android_start::{
    control_entries, deliveries, still_entries, AndroidControl, AndroidStart, CameraControlState,
    Consumer, FocusPoint, RequestEntry, StartCall, StartStep, StillSize,
};
use makepad_host::camera::capture::{
    failed, push_capture_result, saved_to_library, take_capture_results, CameraCaptureRequest,
    CameraCaptureResult, CameraFlashMode, CaptureKind, CaptureResults, PhotoShared,
};
use makepad_host::camera::frame::still_len;
use makepad_host::camera::harmony::{control_calls, no_video_profile, unnamed_camera, Control, ControlCall};
use makepad_host::camera::harmony_capture::still_unread;
use makepad_host::camera::frame::{
    flip_rows, jpeg_end, pack_i420, packed_layout, planes_layout, read_frame, FrameShared,
    I420Frame, NativeBufferPlane, Plane,
};
use makepad_host::camera::harmony::{
    cam_error, camera_name, choose_stream, format_key, labelled_error, photo_profile,
    preview_profiles, record_fps, record_plan, recorder_config, rotation_steps, sensor_point, turned,
    session_plan, video_profile, ActiveInputs, CameraProfile, CameraSize, CameraVideoProfile,
    Coordinate, OhDevice, OhFormat, ReceiverPlan, StreamError, UseInput,
};
use makepad_host::camera::harmony_capture::{
    capture_step, pause_answered, photo_answered, photo_setting, still_result, stop_session,
    video_started, video_stopped, CaptureStep, SessionState,
};
use makepad_host::camera::harmony_frame::{MappedImage, RawFrame, Run};
use makepad_host::camera::session::{
    may_start_video, stop_video, Argument, RecordBuild, RecordRefusal, RecordRelease, RecordStep,
    Release, SessionBuild, Step,
};
use makepad_host::camera::streams::{CameraStreams, Slot};

fn frame(width: u32, n: u8) -> I420Frame {
    I420Frame { width, height: 1, y: vec![n], u: vec![], v: vec![] }
}

#[test]
fn the_latest_frame_wins_and_its_memory_is_used_again() {
    let mut s = FrameShared::new(5);
    assert!(s.take_latest().is_none());
    s.publish(frame(1, 1));
    s.publish(frame(2, 2));
    assert_eq!(s.take_spare().width, 1, "the unread frame's memory");
    let latest = s.take_latest().expect("a frame");
    assert_eq!(latest.width, 2);
    s.recycle(latest);
    assert_eq!(s.take_spare().width, 2);
    assert!(s.log_once() && !s.log_once());
    assert!(s.is_from(5));
    s.park();
    assert!(!s.is_from(5));
}

#[test]
fn planes_are_read_row_by_row() {
    // 2 x 2 pixels, luma rows of 3 bytes, then one pair of chroma bytes.
    let bytes = [1, 2, 0, 3, 4, 0, 7, 8, 0];
    let planes = vec![
        NativeBufferPlane { offset: 0, row_stride: 3, column_stride: 1 },
        NativeBufferPlane { offset: 6, row_stride: 3, column_stride: 2 },
    ];
    let layout = planes_layout(&planes, 0, 2, 2);
    assert_eq!((layout.y_off, layout.y_stride, layout.uv_off), (0, 3, 6));
    let f = read_frame(&bytes, layout, 2, 2, I420Frame::empty());
    assert_eq!((f.width, f.height), (2, 2));
    assert_eq!(f.y, vec![1, 2, 3, 4]);
    let mut chroma = vec![f.u[0], f.v[0]];
    chroma.sort();
    assert_eq!(chroma, vec![7, 8]);
    let packed = packed_layout(None, 0, 2, 2);
    assert_eq!((packed.y_stride, packed.uv_off), (2, 4));
}

#[test]
fn rows_are_flipped_and_planes_packed() {
    assert_eq!(flip_rows(&vec![1, 2, 3, 4, 5, 6], 2, 3), vec![5, 6, 3, 4, 1, 2]);
    let y = [1, 2, 9, 3, 4, 9];
    let (u, v) = ([5, 0], [6, 0]);
    let packed = pack_i420(
        &Plane { bytes: &y, row_stride: 3, pixel_stride: 1 },
        &Plane { bytes: &u, row_stride: 2, pixel_stride: 2 },
        &Plane { bytes: &v, row_stride: 2, pixel_stride: 2 },
        2,
        2,
    );
    assert_eq!(packed, vec![1, 2, 3, 4, 5, 6]);
    assert_eq!(jpeg_end(&[0xff, 0xd8, 1, 0xff, 0xd9, 0, 0]), 5);
}

#[test]
fn capture_results_are_taken_in_order() {
    let mut r = CaptureResults::new();
    push_capture_result(&mut r, 1, CameraCaptureResult::VideoPaused);
    push_capture_result(&mut r, 2, failed(CaptureKind::Video, "x"));
    let taken = take_capture_results(&mut r);
    assert_eq!(taken.len(), 2);
    assert!(matches!(taken[0], (1, CameraCaptureResult::VideoPaused)));
    assert!(take_capture_results(&mut r).is_empty());
    assert!(matches!(
        saved_to_library("p".into(), false, "u".into()),
        CameraCaptureResult::SavedToLibrary { uri: None, .. }
    ));
}

#[test]
fn a_photo_goes_to_the_first_path_that_waits() {
    let mut p = PhotoShared::new(3, 7);
    p.ask("a".into(), false);
    p.ask("b".into(), true);
    p.refused(&"a".to_string());
    assert_eq!(p.arrived(4), None, "another receiver");
    assert_eq!(p.arrived(3), Some(("b".to_string(), true)));
    assert_eq!(p.arrived(3), None);
}

#[test]
fn errors_of_the_camera_have_names() {
    assert!(!cam_error(7400101).is_empty());
    assert!(labelled_error("open", 1).starts_with("open"));
    assert!(camera_name(true, "id").to_lowercase().contains("front"));
}

fn size(width: u32, height: u32) -> CameraSize {
    CameraSize { width, height }
}

#[test]
fn profiles_are_chosen_for_the_preview() {
    let p = |w, h| CameraProfile { format: 1003, size: size(w, h) };
    assert_eq!(preview_profiles(&vec![p(640, 480), p(640, 480), p(1920, 1080)]).len(), 2, "each size once");
    let best = photo_profile(&vec![p(640, 480), p(4000, 3000), p(1920, 1080)], size(1440, 1080)).expect("a photo");
    assert_eq!((best.size.width, best.size.height), (4000, 3000), "the largest of the shape");
    let v = |w, h, min, max| CameraVideoProfile { format: 1003, size: size(w, h), min, max };
    let chosen = video_profile(&vec![v(640, 480, 15, 30), v(1440, 1080, 15, 60)], size(1440, 1080));
    assert_eq!(chosen.map(|c| c.size), Some(size(1440, 1080)));
    assert_eq!(record_fps(&v(1, 1, 15, 60)), 30);
    assert_eq!(record_fps(&v(1, 1, 10, 24)), 24);
    let c = recorder_config(false, size(1440, 1080), 30);
    assert!(!c.is_hdr && !c.enable_temporal_scale);
    assert_eq!(c.file_generation_mode, 0);
    let profile = CameraVideoProfile { format: 1003, size: size(1440, 1080), min: 24, max: 60 };
    let plan = record_plan(profile, size(1440, 1080), true, 12);
    assert_eq!(plan.config, recorder_config(true, size(1440, 1080), 30));
    assert_eq!((plan.url.as_str(), plan.video_orientation), ("fd://12", "90"));
    assert_eq!((plan.genre, plan.custom_key, plan.custom_value), ("", "", ""));
    assert_eq!((c.video_frame_width, c.video_frame_height, c.video_frame_rate), (1440, 1080, 30));
    assert_ne!(format_key("a", size(1, 2)), format_key("a", size(2, 1)));
}

#[test]
fn points_turn_with_the_sensor() {
    assert_eq!(rotation_steps(false, Some(90)) % 4, rotation_steps(false, Some(90)));
    assert_eq!(sensor_point(0), (Coordinate::X, Coordinate::Y));
    assert_eq!(turned(-90), turned(270));
}

#[test]
fn streams_are_refused_without_a_device() {
    assert!(matches!(choose_stream(false, &vec![], 1, 1), Err(StreamError::NoManager)));
    assert!(matches!(choose_stream(true, &vec![], 1, 1), Err(StreamError::UnknownInput)));
    let mut active = ActiveInputs { inputs: vec![] };
    assert!(matches!(active.use_video_input(vec![(1, 2)], false), UseInput::Restart(Some((1, 2)))));
    assert!(matches!(active.use_video_input(vec![(1, 2)], true), UseInput::Keep));
    assert!(matches!(active.use_video_input(vec![], true), UseInput::Restart(None)));
}

#[test]
fn a_session_is_built_step_by_step_and_given_back() {
    let size = |width, height| CameraSize { width, height };
    let profile = |width, height| CameraProfile { format: 1003, size: size(width, height) };
    let devices = vec![OhDevice {
        input_id: 1,
        name: "back".into(),
        front: false,
        formats: vec![OhFormat { format_id: 7, profile: profile(1440, 1080) }],
        photo_profiles: vec![profile(640, 480), profile(4000, 3000)],
        video_profiles: vec![],
    }];
    let plan = session_plan(true, true, &devices, 1, 7, true).expect("a plan");
    assert_eq!(plan.receiver, ReceiverPlan { size: size(1440, 1080), capacity: 4 });
    assert_eq!(plan.photo.map(|p| p.receiver), Some(ReceiverPlan { size: size(4000, 3000), capacity: 2 }));
    let silent = session_plan(true, true, &devices, 1, 7, false).expect("a plan");
    assert!(silent.photo.is_none(), "no stills without the calls for them");
    assert_eq!(session_plan(true, true, &devices, 2, 7, true), Err(StreamError::UnknownInput));
    assert_eq!(session_plan(false, true, &devices, 1, 7, true), Err(StreamError::NoCameraNdk));
    assert_eq!(StreamError::NoCameraNdk.message(), "camera NDK not available");
    let mut b = SessionBuild::new(silent);
    assert_eq!(b.argument(), Argument::Receiver(plan.receiver));
    let mut steps = 0;
    while b.step != Step::Running {
        let a = b.answered(0, true);
        assert!(a.error.is_none() && a.release.is_empty());
        steps += 1;
        assert!(steps < 30);
    }
    let released = b.stop();
    assert!(released.contains(&Release::Session) && released.contains(&Release::Input));
    let mut b = SessionBuild::new(plan);
    let mut arguments = vec![];
    while b.step != Step::Running {
        arguments.push(b.argument());
        b.answered(0, true);
    }
    assert!(arguments.contains(&Argument::Receiver(plan.photo.expect("stills").receiver)));
    assert!(arguments.contains(&Argument::Profile(profile(1440, 1080))));
    assert!(arguments.contains(&Argument::Profile(profile(4000, 3000))));
    assert!(arguments.contains(&Argument::Device(0)));
    let mut shared = FrameShared::new(3);
    let mut photo = Some(PhotoShared::new(4, 1));
    let mut other = b;
    let end = stop_session(true, &mut b, &mut shared, &mut photo, Some("v.mp4".into()), true);
    assert_eq!(end.recording.first(), Some(&RecordRelease::StopRecorder));
    assert_eq!(end.recording.last(), Some(&RecordRelease::Recorder));
    assert!(matches!(&end.report, Some(CameraCaptureResult::VideoStopped { path }) if path == "v.mp4"));
    assert_eq!(end.release.first(), Some(&Release::ReceiverOff));
    assert_eq!((shared.receiver, photo.map(|p| p.receiver)), (0, Some(0)));
    assert!(!b.held.session);
    let end = stop_session(false, &mut other, &mut shared, &mut None, Some("v.mp4".into()), true);
    assert!(end.recording.is_empty() && end.report.is_none() && end.release.is_empty());
    let mut b = SessionBuild::new(plan);
    b.answered(0, true);
    let a = b.answered(5, false);
    assert_eq!((b.step, b.failed), (Step::Receiver, None), "it stays where it failed");
    assert!(a.error.is_some());
    assert!(!a.error.expect("an error").message().is_empty());
}

#[test]
fn a_recording_is_built_and_refused() {
    let mut r = RecordBuild::new(true);
    let mut steps = 0;
    while r.step != RecordStep::Recording {
        assert!(r.answered(0, true).error.is_none());
        steps += 1;
        assert!(steps < 30);
    }
    let mut r = RecordBuild::new(true);
    assert_eq!(r.answered(0, true).rotate, None);
    assert_eq!(RecordBuild { ..r }.answered(0, true).rotate, Some(90), "once it is prepared");
    let a = r.answered(9, true);
    assert!(a.error.is_some() && !a.release.is_empty() && a.rotate.is_none());
    assert_eq!(r.step, RecordStep::Prepare);
    assert!(may_start_video(true, true, false, true, true).is_ok());
    for (refusal, expected) in [
        (may_start_video(false, true, false, true, true), RecordRefusal::NoCameraNdk),
        (may_start_video(true, false, false, true, true), RecordRefusal::NoSession),
        (may_start_video(true, true, true, true, true), RecordRefusal::AlreadyRecording),
        (may_start_video(true, true, false, false, true), RecordRefusal::NoRecorderNdk),
        (may_start_video(true, true, false, true, false), RecordRefusal::UnknownInput),
    ] {
        assert_eq!(refusal.err(), Some(expected));
        assert!(!expected.message().is_empty());
    }
    assert!(matches!(stop_video(true, true, false, true), Err(RecordRefusal::NotRecording)));
    assert!(stop_video(true, true, true, true).is_ok());
}

#[test]
fn captures_are_taken_where_the_session_can() {
    let photo = || CameraCaptureRequest::Photo { path: "p".into(), library: true };
    assert!(matches!(capture_step(true, None, photo()), CaptureStep::Report(_)));
    let ready = SessionState {
        has_stills: true, has_photo_output: true, recording: false, can_pause: true, can_resume: true,
    };
    assert!(matches!(capture_step(true, Some(ready), photo()), CaptureStep::TakePhoto { library: true, .. }));
    assert!(matches!(capture_step(false, Some(ready), photo()), CaptureStep::Nothing));
    assert!(matches!(capture_step(false, None, photo()), CaptureStep::Nothing), "nothing without a service");
    assert!(photo_setting(Some(90), false).quality >= 0);
    let mut shared = PhotoShared::new(1, 1);
    shared.ask("p".into(), false);
    assert!(photo_answered(&mut shared, &"p".to_string(), 0).is_none());
    assert!(photo_answered(&mut shared, &"p".to_string(), 3).is_some());
    assert!(shared.pending.is_empty());
    assert!(matches!(still_result("p".into(), Ok((1, 2))), CameraCaptureResult::Photo { width: 1, height: 2, .. }));
    assert!(matches!(still_result("p".into(), Err("e".into())), CameraCaptureResult::Failed { what: CaptureKind::Photo, .. }));
    assert!(matches!(video_started("v".into(), Ok(())), CameraCaptureResult::VideoStarted { .. }));
    assert!(matches!(video_stopped(Err("e".into())), CameraCaptureResult::Failed { what: CaptureKind::Video, .. }));
    assert!(matches!(pause_answered(true, 0), CameraCaptureResult::VideoResumed));
    assert!(matches!(pause_answered(false, 1), CameraCaptureResult::Failed { .. }));
}

fn device() -> AndroidCameraDevice {
    AndroidCameraDevice {
        input_id: 1,
        formats: vec![VideoFormat {
            format_id: 2, width: 640, height: 480, frame_rate: None, pixel_format: VideoPixelFormat::YUV420,
        }],
        sensor_orientation_degrees: 90,
        front_facing: false,
        active_array: ActiveArray { left: 0, top: 0, right: 4000, bottom: 3000 },
        still_size: Some((4000, 3000)),
    }
}

#[test]
fn an_android_camera_offers_streams_and_stills() {
    let c = |format, width, height, input| StreamConfiguration { format, width, height, input };
    let o = offered(&vec![
        c(AIMAGE_FORMAT_YUV_420_888, 640, 480, false),
        c(AIMAGE_FORMAT_YUV_420_888, 640, 480, true),
        c(AIMAGE_FORMAT_JPEG, 4000, 3000, false),
        c(AIMAGE_FORMAT_JPEG, 1000, 1000, false),
    ]);
    assert_eq!(o.still_size, Some((4000, 3000)), "the largest one");
    assert!(o.streams.iter().all(|s| !s.input));
    assert_eq!(lens_facing(0), Some(LensFacing::Front));
    let devices = vec![device()];
    assert_eq!(key_for(&devices, 1, 2), Some(CameraStreamKey { input_id: 1, format_id: 2 }));
    assert_eq!(key_for(&devices, 1, 3), None);
    assert!(format_for_key(&devices, CameraStreamKey { input_id: 1, format_id: 2 }).is_some());
    assert_eq!(jpeg_orientation(&device()), 90);
}

#[test]
fn zoom_and_focus_are_regions_of_the_sensor() {
    let a = device().active_array;
    assert_eq!(active_size(a), (4000, 3000));
    let all = crop_region(a, 4000, 3000);
    assert_eq!((all.left, all.top, all.width, all.height), (0, 0, 4000, 3000));
    let half = crop_region(a, 2000, 1500);
    assert_eq!((half.left, half.top), (1000, 750));
    let m = metering_region(a, 2000, 1500);
    assert!(0 <= m.left && m.left <= m.right && m.right <= 4000);
    assert_ne!(flash_codes(CameraFlashMode::Torch), flash_codes(CameraFlashMode::Off));
    assert_ne!(focus_codes(true), focus_codes(false));
}

#[test]
fn frames_are_routed_by_what_is_wanted() {
    let none = StreamDispatch {
        video_inputs: 0, frame_inputs: 0, preview_frame_inputs: 0, preview_hardware_buffer_inputs: 0, encoders: 0,
    };
    assert!(!none.needs_image_reader());
    let gpu = StreamDispatch { preview_hardware_buffer_inputs: 1, ..none };
    assert!(gpu.needs_image_reader());
    assert_eq!(gpu.reader_mode(), AndroidImageReaderMode::HardwareBufferYuv);
    let mut context = AndroidCaptureContext {
        dispatch: gpu,
        format: device().formats[0],
        alive: true,
        reader_mode: AndroidImageReaderMode::HardwareBufferYuv,
        logged_first_hardware_buffer_frame: false,
    };
    assert_eq!(context.frame_route(), FrameRoute::HardwareBuffer);
    assert_eq!(context.hardware_frame(9, 100).timestamp_ns, 100);
    context.alive = false;
    assert_eq!(context.frame_route(), FrameRoute::Drop);
    let mut still = AndroidStillContext::new(1);
    still.ask("p".into());
    assert_eq!(still.arrived().as_deref(), Some("p"));
    assert_eq!(still.arrived(), None);
    assert!(!StillRefusal::NoStream.message().is_empty());
}

#[test]
fn a_session_without_outputs_is_not_opened() {
    let empty = AndroidCaptureSession {
        image_reader: false, image_output: false, image_target: false, image_window: false,
        preview_output: false, preview_target: false, preview_window: false,
        still_reader: false, still_output: false, still_target: false, still_window: false, still_context: false,
    };
    assert!(empty.outputs().is_none() && !empty.can_take_still());
    let preview = AndroidCaptureSession { preview_output: true, preview_target: true, preview_window: true, ..empty };
    assert_eq!(preview.outputs(), Some(vec![SessionOutput::Preview]));
    assert!(!preview.stop().is_empty());
}

#[test]
fn encoders_take_textures_that_fit() {
    let texture = TextureState { width: 64, height: 48, is_bgra: true, is_uploaded: true };
    assert_eq!(texture_frame_check(Some(VideoEncodeSource::Texture), true, Some(texture)), Ok((64, 48)));
    assert_eq!(texture_frame_read(true, true), Ok(()));
    assert_eq!(texture_frame_read(false, true), Err(VideoEncodeError::InvalidTexture));
    assert_eq!(texture_frame_read(true, false), Err(VideoEncodeError::UnsupportedTextureFormat));
    assert_eq!(texture_frame_check(None, true, Some(texture)), Err(VideoEncodeError::EncoderNotStarted));
    assert_eq!(texture_frame_check(Some(VideoEncodeSource::Camera), true, Some(texture)), Err(VideoEncodeError::UnsupportedSource));
    assert_eq!(texture_frame_check(Some(VideoEncodeSource::Texture), true, None), Err(VideoEncodeError::InvalidTexture));
    let key = CameraStreamKey { input_id: 1, format_id: 2 };
    let format = device().formats[0];
    let camera = Some(VideoEncodeSource::Camera);
    assert_eq!(refresh_slot_encoder(None, Some(key), Some(format), true), EncoderStep::Stop);
    assert_eq!(refresh_slot_encoder(Some(VideoEncodeSource::Texture), None, None, false), EncoderStep::Keep);
    assert_eq!(refresh_slot_encoder(camera, None, None, true), EncoderStep::Stop);
    assert_eq!(refresh_slot_encoder(camera, Some(key), Some(format), false), EncoderStep::Stop);
    assert_eq!(
        refresh_slot_encoder(camera, Some(key), Some(format), true),
        EncoderStep::Start { width: 640, height: 480, fps: None }
    );
}

#[test]
fn streams_follow_their_consumers() {
    let devices = vec![device()];
    let mut s = CameraStreams::new(1);
    assert_eq!(s.register_preview(&devices, 50, 1, 2, true, false, None), None);
    let key = CameraStreamKey { input_id: 1, format_id: 2 };
    let done = s.reconcile_streams(&devices);
    assert!(done.stopped.is_empty());
    assert_eq!(done.restarts.len(), 1);
    assert_eq!((done.restarts[0].key, done.restarts[0].stop), (key, None));
    let start = done.restarts[0].start.expect("a start");
    assert_eq!(start.still.map(|s| (s.width, s.height)), devices[0].still_size);
    assert!(start.needs_image_reader && start.preview_window.is_none());
    let applied = s.session_started(&devices, key, Some(77)).expect("controls");
    assert_eq!(applied.controls, CameraControlState::new());
    assert_eq!(applied.active_array, devices[0].active_array);
    let (session, applied) = s.control(&devices, 1, AndroidControl::Flash(CameraFlashMode::Torch)).expect("a session");
    assert_eq!((session, applied.controls.flash), (77, CameraFlashMode::Torch));
    assert!(s.control(&devices, 9, AndroidControl::ContinuousFocus).is_none());
    let again = s.reconcile_streams(&devices);
    assert!(again.restarts[0].stop.is_none() && again.restarts[0].start.is_none(), "it runs as it is needed");
    s.update_preview_window(50, Some(5));
    let moved = s.reconcile_streams(&devices);
    assert_eq!(moved.restarts[0].stop, Some(77));
    assert_eq!(moved.restarts[0].start.and_then(|p| p.preview_window), Some(5));
    let applied = s.session_started(&devices, key, Some(78)).expect("controls");
    assert_eq!(applied.controls.flash, CameraFlashMode::Torch, "what was set is set again");
    assert_eq!(s.stream_of_input(1), Some(key));
    s.unregister_preview(50);
    assert_eq!(s.reconcile_streams(&devices).stopped, vec![78], "a stream without consumers is stopped");
    assert_eq!(s.slots.len(), 1);
    let slot: &Slot = &s.slots[0];
    assert!(slot.stream.is_none());
}

#[test]
fn an_android_session_comes_up_answer_by_answer() {
    let dispatch = StreamDispatch {
        video_inputs: 0, frame_inputs: 1, preview_frame_inputs: 0, preview_hardware_buffer_inputs: 0, encoders: 0,
    };
    let still = Some(StillSize { width: 4000, height: 3000 });
    let format = |pixel_format| VideoFormat { width: 1280, height: 720, pixel_format, ..device().formats[0] };
    let mut start = AndroidStart::new(&dispatch, &format(VideoPixelFormat::MJPEG), true, true, still);
    let mut all = vec![];
    while start.step != StartStep::Running {
        all.extend(start.answered(true));
        assert!(all.len() < 40);
    }
    let plan = ReaderPlan {
        width: 1280,
        height: 720,
        format: AIMAGE_FORMAT_JPEG,
        max_images: 2,
        gpu_sampled: false,
        jpeg_quality: Some(60),
    };
    assert_eq!(all[1], StartCall::NewReader(plan));
    assert!(all.contains(&StartCall::JpegQuality(60)));
    let still = ReaderPlan { width: 4000, height: 3000, jpeg_quality: None, ..plan };
    assert!(all.contains(&StartCall::NewStillReader(still)));
    let gpu = StreamDispatch { frame_inputs: 0, preview_hardware_buffer_inputs: 1, ..dispatch };
    let gpu = AndroidStart::new(&gpu, &format(VideoPixelFormat::Other), false, true, None);
    assert_eq!(
        gpu.plan,
        Some(ReaderPlan {
            format: AIMAGE_FORMAT_YUV_420_888, max_images: 3, gpu_sampled: true, jpeg_quality: None, ..plan
        })
    );
    assert_eq!(all.last(), Some(&StartCall::Repeat));
    assert_eq!(
        start.parts.outputs(),
        Some(vec![SessionOutput::Still, SessionOutput::Image, SessionOutput::Preview])
    );
    let mut refused = AndroidStart::new(&dispatch, &format(VideoPixelFormat::YUV420), false, true, None);
    assert_eq!(refused.answered(false), vec![StartCall::FreeContext]);
    assert_eq!(refused.step, StartStep::Failed);
    let mut odd = AndroidStart::new(&dispatch, &format(VideoPixelFormat::Other), false, true, None);
    assert_eq!(
        odd.answered(true),
        vec![StartCall::CreateRequest, StartCall::CloseDevice, StartCall::FreeContext]
    );
    let mut nothing = AndroidStart::new(&dispatch, &format(VideoPixelFormat::YUV420), false, false, None);
    assert_eq!(
        nothing.answered(true),
        vec![
            StartCall::CreateRequest, StartCall::CreateOutputs, StartCall::FreeOutputs,
            StartCall::FreeRequest, StartCall::CloseDevice, StartCall::FreeContext,
        ]
    );
}

#[test]
fn frames_are_handed_out_in_order() {
    let d = StreamDispatch {
        video_inputs: 1, frame_inputs: 2, preview_frame_inputs: 1, preview_hardware_buffer_inputs: 1, encoders: 1,
    };
    assert_eq!(
        deliveries(FrameRoute::Planes, &d),
        vec![
            Consumer::FrameInput(0), Consumer::FrameInput(1), Consumer::PreviewFrame(0),
            Consumer::Encoder(0), Consumer::VideoInput(0),
        ]
    );
    assert_eq!(deliveries(FrameRoute::HardwareBuffer, &d), vec![Consumer::HardwareBuffer(0)]);
    assert!(deliveries(FrameRoute::Drop, &d).is_empty());
}

#[test]
fn controls_are_entries_of_a_request() {
    let mut c = CameraControlState::new();
    assert_eq!((c.zoom, c.focus), (1.0f32.to_bits(), None));
    c.control(AndroidControl::Flash(CameraFlashMode::Torch));
    c.control(AndroidControl::FocusPoint(FocusPoint { x: 1, y: 2 }));
    assert!(c.focus.is_some());
    c.control(AndroidControl::ContinuousFocus);
    assert_eq!((c.flash, c.focus), (CameraFlashMode::Torch, None));
    let crop = crop_region(device().active_array, 4000, 3000);
    let entries = control_entries(crop, c.zoom, -6, c.flash, None);
    assert_eq!(
        entries[2..],
        [
            RequestEntry::ExposureCompensation(-6), RequestEntry::AeMode(1), RequestEntry::FlashMode(2),
            RequestEntry::AfMode(4), RequestEntry::AfTrigger(0),
        ]
    );
    let region = metering_region(device().active_array, 10, 10);
    assert_eq!(control_entries(crop, c.zoom, 0, c.flash, Some(region)).len(), 9);
    assert_eq!(still_entries(90, crop, CameraFlashMode::On)[3], RequestEntry::AeMode(3));
}

#[test]
fn android_cameras_are_listed_by_what_they_say() {
    let c = |lens, streams| CameraCharacteristics { lens, orientation: Some(270), active_array: None, streams };
    let yuv = || vec![StreamConfiguration { format: AIMAGE_FORMAT_YUV_420_888, width: 640, height: 480, input: false }];
    let (facing, d) = listed_camera(&c(Some(0), yuv()), 7, &vec![9]).expect("a camera");
    assert_eq!((facing, d.front_facing, d.sensor_orientation_degrees), (LensFacing::Front, true, 270));
    assert_eq!((d.formats[0].format_id, d.formats[0].width), (9, 640));
    assert!(d.still_size.is_none());
    assert!(listed_camera(&c(Some(9), yuv()), 7, &vec![9]).is_none(), "it faces no known way");
    assert!(listed_camera(&c(None, yuv()), 7, &vec![9]).is_none());
    assert!(listed_camera(&c(Some(1), vec![]), 7, &vec![]).is_none(), "it delivers nothing");
    let devices = vec![d, device()];
    assert_eq!(sensor_orientation_for_input(&devices, 7), 90);
    assert_eq!(sensor_orientation_for_input(&devices, 1), 270);
    assert_eq!(preview_rotation(&devices[1]), 3);
    assert!(is_front_facing(&devices, 7) && !is_front_facing(&devices, 1));
    assert_eq!((measure(-5), measure(5)), (0, 5));
    assert_eq!(configure_video_encoder(VideoEncodeSource::Camera), ConfigureStep::FollowCamera);
    assert_eq!(configure_video_encoder(VideoEncodeSource::Frames), ConfigureStep::Start);
    assert_eq!(encoder_started(false), Err(VideoEncodeError::CodecUnavailable));
}

#[test]
fn controls_reach_the_running_session_only() {
    assert!(control_calls(None, &vec![(1, 2)], 1, Control::ZoomRatio).is_empty());
    assert!(control_calls(Some(0), &vec![(1, 2)], 3, Control::ZoomRatio).is_empty());
    assert_eq!(control_calls(Some(0), &vec![(1, 2)], 1, Control::ZoomRatio), vec![ControlCall::Zoom]);
    assert_eq!(unnamed_camera(3), "camera3");
    assert_eq!(no_video_profile(size(640, 480)), "no video profile at 640x480");
    assert!(matches!(still_unread(5), CameraCaptureResult::Failed { error, .. } if error == "read still: 5"));
    assert_eq!(still_len(0, 3, 4), 12);
    assert_eq!(still_len(7, 3, 4), 7);
}

#[test]
fn a_preview_can_have_another_window() {
    let devices = vec![device()];
    let mut s = CameraStreams::new(0);
    s.register_preview(&devices, 50, 1, 2, true, false, Some(8));
    assert_eq!(s.update_preview_window(50, Some(8)), (None, false));
    assert_eq!(s.update_preview_window(50, None), (Some(8), true), "the old one is released");
    assert_eq!(s.update_preview_window(51, Some(9)), (None, false));
}

#[test]
fn images_are_handed_out_as_their_session_reads_them() {
    let y = [1, 2, 9, 3, 4, 9];
    let (u, v) = ([5, 0], [6, 0]);
    let plane = |bytes, row_stride| ImagePlane { bytes, row_stride, pixel_stride: 0 };
    let image = AcquiredImage {
        timestamp_ns: -1,
        buffer: None,
        first: plane(Some(&y[..]), 3),
        second: plane(Some(&u[..]), 2),
        third: plane(Some(&v[..]), -2),
    };
    let planes = VideoFormat {
        width: 2,
        height: 2,
        pixel_format: VideoPixelFormat::YUV420,
        ..device().formats[0]
    };
    let mut c = AndroidCaptureContext {
        dispatch: StreamDispatch {
            video_inputs: 1, frame_inputs: 0, preview_frame_inputs: 0, preview_hardware_buffer_inputs: 0, encoders: 0,
        },
        format: planes,
        alive: true,
        reader_mode: AndroidImageReaderMode::CpuReadable,
        logged_first_hardware_buffer_frame: false,
    };
    let Delivered::Frame { frame, video } = c.image_available(image) else { panic!("a frame") };
    assert_eq!((frame.timestamp_ns, frame.width, frame.height), (0, 2, 2));
    assert_eq!((frame.layout, frame.matrix), (CameraFrameLayout::I420, CameraColorMatrix::BT601));
    let strides: Vec<_> = frame.planes.iter().map(|p| (p.row_stride, p.pixel_stride)).collect();
    assert_eq!(strides, vec![(3, 1), (2, 1), (0, 1)]);
    assert!(matches!(video, VideoBytes::Packed(b) if b == vec![1, 2, 3, 4, 5, 6]));
    let torn = AcquiredImage { third: plane(None, 2), ..image };
    assert!(matches!(c.image_available(torn), Delivered::Nothing));

    c.format.pixel_format = VideoPixelFormat::MJPEG;
    let Delivered::Frame { frame, video } = c.image_available(image) else { panic!("a frame") };
    assert_eq!(frame.layout, CameraFrameLayout::Mjpeg);
    assert_eq!((frame.planes.len(), frame.planes[0].row_stride), (1, 6));
    assert!(matches!(video, VideoBytes::Compressed(b) if b == &y[..]));

    c.reader_mode = AndroidImageReaderMode::HardwareBufferYuv;
    assert!(matches!(c.image_available(image), Delivered::BufferMissing));
    let buffered = AcquiredImage { buffer: Some(8), ..image };
    assert!(matches!(c.image_available(buffered), Delivered::HardwareBuffer(f) if f.buffer == 8));
    assert!(c.logged_first_hardware_buffer_frame);
    c.alive = false;
    assert!(matches!(c.image_available(buffered), Delivered::Nothing));
}

#[test]
fn arrived_images_are_published() {
    let bytes = [1, 2, 0, 3, 4, 0, 7, 8, 0];
    let image = |width, format| MappedImage {
        width,
        height: 2,
        format,
        bytes: &bytes,
        planes: vec![
            NativeBufferPlane { offset: 0, row_stride: 3, column_stride: 1 },
            NativeBufferPlane { offset: 6, row_stride: 3, column_stride: 2 },
        ],
        row_stride: None,
    };
    let mut s = FrameShared::new(5);
    assert!(s.image_arrived(&image(0, 24), true).is_none());
    let read = s.image_arrived(&image(2, 7), true).expect("a frame");
    assert!(read.first && read.unexpected);
    assert_eq!(
        read.raw,
        Some(RawFrame {
            y: Run { start: 0, len: 6 },
            y_stride: 3,
            uv: Run { start: 6, len: 2 },
            uv_stride: 2,
            whole: Run { start: 0, len: 8 },
        })
    );
    let latest = s.take_latest().expect("a frame");
    assert_eq!((latest.y, latest.u, latest.v), (vec![1, 2, 3, 4], vec![7], vec![8]));
    let read = s.image_arrived(&image(2, 25), false).expect("a frame");
    assert!(!read.first && !read.unexpected && read.raw.is_none());
    let latest = s.take_latest().expect("a frame");
    assert_eq!((latest.u, latest.v), (vec![8], vec![7]), "the other chroma comes first");
}
