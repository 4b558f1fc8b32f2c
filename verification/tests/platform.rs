use makepad_host::camera::capture::CameraCaptureResult;
use makepad_host::camera::frame::{FrameShared, I420Frame};
use makepad_host::harmony::media::{
    CxOpenHarmonyMedia, MidiData, OhCameraPlayer, OsMidiInput, OsMidiOutput,
};
use makepad_host::harmony::permissions::{
    ohos_permission_from_name, ohos_permission_js_function, permission_status, PendingPermissions,
    Permission, PermissionStatus, PermissionStep,
};
use makepad_host::harmony::platform::{
    camera_not_opened, no_playback, pass_target, raw_candidates, should_draw, CameraBound,
    FromOhosMessage, MessageAction, OhosHost, OpAction, PassParent, PassTarget, PlatformOp,
    SafeAreaInsets, TextInput, TouchPoint, VideoSource,
};
use makepad_host::network::slots::{
    address, clear_platform_backend, clear_platform_socket_factory, connect_platform_socket_stream,
    create_backend, no_backend, plain_stream_address, register_platform_backend,
    register_platform_socket_factory, Connect, PlatformSocketFactory, PlatformSocketStream, Slot,
    StreamError,
};
use makepad_host::network::web_socket::{
    map_ws_event, outbound, use_plain, BackendError, NetworkResponse, OhosBackend,
    WebSocketMessage, WebSocketTransport, WsSend,
};
use makepad_host::widgets::pinch::{Point, TouchState};

#[test]
fn permissions_have_names_and_functions() {
    let (name, function) = ohos_permission_js_function(Permission::Camera).expect("a camera");
    assert_eq!((name, function), ("camera", "requestCameraPermission"));
    assert_eq!(ohos_permission_from_name(name), Some(Permission::Camera));
    assert_eq!(ohos_permission_from_name("gravity"), None);
    assert!(ohos_permission_js_function(Permission::SceneAccess).is_none());
    assert_eq!(permission_status(false, true), PermissionStatus::DeniedCanRetry);
    assert_eq!(permission_status(false, false), PermissionStatus::DeniedPermanent);
}

#[test]
fn an_answer_goes_to_everyone_who_asked() {
    let mut p = PendingPermissions::new();
    assert!(matches!(p.request(Permission::Camera, 1, false), PermissionStep::Answer(_)), "no bridge");
    assert!(matches!(p.request(Permission::Camera, 1, true), PermissionStep::Call("requestCameraPermission")));
    p.request(Permission::Camera, 2, true);
    p.request(Permission::Location, 3, true);
    let answers = p.answered("camera", true, false);
    assert_eq!(answers.iter().map(|a| a.request_id).collect::<Vec<_>>(), vec![1, 2]);
    assert!(answers.iter().all(|a| a.status == PermissionStatus::Granted));
    assert_eq!(p.pending.len(), 1);
    let lost = p.call_failed(Permission::Location, 3);
    assert_eq!(lost.request_id, 3);
    assert!(p.pending.is_empty());
}

#[test]
fn players_show_frames_while_they_play() {
    let mut player = OhCameraPlayer::new(1, 2, true);
    assert!(player.frame(0, 10).is_none(), "an empty frame");
    let shown = player.frame(640, 480).expect("a frame");
    assert_eq!(shown.prepared, Some((640, 480)));
    assert_eq!(player.frame(640, 480).expect("a frame").prepared, None, "prepared once");
    let picture = |width| I420Frame { width, height: 1, y: vec![], u: vec![], v: vec![] };
    let mut shared = FrameShared::new(1);
    shared.publish(picture(0));
    assert!(player.take_frame(&mut shared).is_none() && shared.spare.is_some(), "given back");
    shared.publish(picture(7));
    player.playing = false;
    assert!(player.take_frame(&mut shared).is_none() && shared.latest.is_some());
    player.playing = true;
    assert_eq!(player.take_frame(&mut shared).map(|f| f.width), Some(7));
    let mut media = CxOpenHarmonyMedia::new();
    media.bind_player(OhCameraPlayer::new(1, 0, false));
    media.set_playing(1, true);
    assert!(media.players[0].playing);
    assert_eq!(media.release_camera_player(1), (true, true), "the last one stops the camera");
    assert_eq!(media.release_camera_player(1).0, false);
    OsMidiOutput {}.send(None, MidiData { data: [1, 2, 3] });
    assert!(OsMidiInput {}.receive().is_none());
}

#[test]
fn messages_of_the_system_become_actions() {
    let mut host = OhosHost::new();
    let actions = host.handle_message(FromOhosMessage::SurfaceChanged { width: 100, height: 200 });
    assert!(actions.iter().any(|a| matches!(a, MessageAction::Resize { width: 100, height: 200 })));
    assert_eq!(host.display_size, (100, 200));
    let insets = SafeAreaInsets { top: 1, right: 2, bottom: 3, left: 4 };
    assert!(matches!(host.handle_message(FromOhosMessage::AvoidArea(insets))[0], MessageAction::PublishSafeArea(_)));
    assert!(matches!(host.handle_message(FromOhosMessage::DeleteLeft(3))[0], MessageAction::Backspaces(3)));
    let saved = FromOhosMessage::CaptureSaved { path: "p".into(), ok: true, uri: "u".into() };
    assert!(matches!(
        &host.handle_message(saved)[0],
        MessageAction::Captured(CameraCaptureResult::SavedToLibrary { uri: Some(u), .. }) if u == "u"
    ));
    assert!(host.request_gps() && !host.request_gps(), "asked once");
}

#[test]
fn operations_are_carried_out_or_refused() {
    let mut host = OhosHost::new();
    assert!(matches!(host.handle_platform_op(PlatformOp::StopTimer { timer: 7 }, true)[0], OpAction::StopTimer { timer: 7 }));
    let camera = VideoSource::Camera { input_id: 1, format_id: 2 };
    let prepare = PlatformOp::PrepareVideoPlayback { video_id: 5, source: camera, autoplay: true };
    assert!(host
        .handle_platform_op(prepare, true)
        .iter()
        .any(|a| matches!(a, OpAction::PrepareCamera { video_id: 5, input_id: 1, format_id: 2, autoplay: true })));
    let other = PlatformOp::PrepareVideoPlayback { video_id: 6, source: VideoSource::Other, autoplay: true };
    assert!(host.handle_platform_op(other, true).iter().any(|a| matches!(a, OpAction::DecodingError { video_id: 6 })));
    assert!(should_draw(true, false, false) && !should_draw(false, false, false));
    assert_eq!(pass_target(PassParent::Window), Some(PassTarget::Screen));
    assert_eq!(pass_target(PassParent::Nothing), Some(PassTarget::Texture));
    assert_eq!(pass_target(PassParent::Xr), None);
    assert!(raw_candidates("a/b.ttf", None).contains(&"a/b.ttf".to_string()));
}

/// A stream that goes nowhere.
struct Quiet;

impl PlatformSocketStream for Quiet {
    fn set_read_timeout(&mut self, _milliseconds: Option<u64>) -> bool {
        true
    }
    fn set_write_timeout(&mut self, _milliseconds: Option<u64>) -> bool {
        true
    }
    fn read(&mut self, _most: usize) -> Option<Vec<u8>> {
        None
    }
    fn write(&mut self, bytes: &Vec<u8>) -> Option<usize> {
        Some(bytes.len())
    }
    fn flush(&mut self) -> bool {
        true
    }
    fn shutdown(&mut self) {}
}

/// A factory that makes plain streams only.
struct Plain;

impl PlatformSocketFactory for Plain {
    type Stream = Quiet;
    fn connect(&self, _host: &str, _port: &str, use_tls: bool, _ignore_ssl_cert: bool) -> Result<Quiet, StreamError> {
        if use_tls {
            Err(StreamError::TlsUnsupported)
        } else {
            Ok(Quiet)
        }
    }
}

#[test]
fn streams_come_from_the_platform_or_are_plain() {
    let mut slot: Slot<Plain> = Slot::new();
    assert!(matches!(
        connect_platform_socket_stream(&slot, "h", "80", false, false, true),
        Connect::PlainTcp { address } if address == "h:80"
    ));
    assert!(matches!(
        connect_platform_socket_stream(&slot, "h", "80", true, false, true),
        Connect::Refused(_)
    ));
    register_platform_socket_factory(&mut slot, Plain);
    assert!(matches!(connect_platform_socket_stream(&slot, "h", "80", false, false, true), Connect::Platform(Ok(_))));
    assert!(matches!(
        connect_platform_socket_stream(&slot, "h", "80", true, false, true),
        Connect::Platform(Err(StreamError::TlsUnsupported))
    ));
    clear_platform_socket_factory(&mut slot);
    assert!(slot.value.is_none());
    assert_eq!(address("h", "80"), "h:80");
    assert!(plain_stream_address("h", "80", true).is_err());
    assert_eq!(plain_stream_address("h", "80", false), Ok("h:80".to_string()));
    for e in [StreamError::NotRegistered, StreamError::TlsUnsupported, StreamError::ConnectFailed] {
        assert!(!e.message().is_empty());
    }
}

#[test]
fn the_backend_is_the_one_that_was_registered() {
    let mut slot: Slot<u8> = Slot::new();
    assert!(create_backend(&slot).is_none());
    assert!(!no_backend().is_empty());
    register_platform_backend(&mut slot, 1);
    register_platform_backend(&mut slot, 2);
    assert_eq!(create_backend(&slot), Some(&2));
    clear_platform_backend(&mut slot);
    assert!(create_backend(&slot).is_none());
}

#[test]
fn web_sockets_are_plain_and_known_by_their_number() {
    assert!(use_plain(WebSocketTransport::PlainTcp, "wss"));
    assert!(!use_plain(WebSocketTransport::Platform, "ws"));
    let mut backend = OhosBackend::new();
    assert!(matches!(backend.http_start(), Err(BackendError::HttpNeedsPlatform)));
    assert!(matches!(backend.ws_open(1, WebSocketTransport::Auto, "wss"), Err(BackendError::TlsNeedsPlatform)));
    assert!(backend.ws_open(1, WebSocketTransport::Auto, "ws").is_ok());
    assert!(matches!(backend.ws_send(2, WsSend::Text("x".into())), Err(BackendError::NotOpen)));
    assert!(matches!(backend.ws_send(1, WsSend::Text("x".into())), Ok(WebSocketMessage::Text(t)) if t == "x"));
    assert!(backend.ws_close(1) && !backend.ws_close(1));
    assert!(matches!(outbound(WsSend::Binary(vec![1])), WebSocketMessage::Binary(b) if b == vec![1]));
    assert!(matches!(
        map_ws_event(9, WebSocketMessage::Closed),
        NetworkResponse::WsClosed { socket_id: 9 }
    ));
    assert!(!BackendError::SendFailed.message("9").is_empty());
}

#[test]
fn the_camera_list_goes_out_once() {
    let mut media = CxOpenHarmonyMedia::new();
    assert!(!media.handle_media_signals(), "nobody asked");
    assert!(media.camera() && !media.camera(), "enumerated once");
    assert!(media.handle_media_signals() && !media.handle_media_signals());
    media.reinitialise_media();
    assert!(media.has_camera && media.camera_descs_sent);
    let mut host = OhosHost::new();
    host.handle_message(FromOhosMessage::SurfaceChanged { width: 1, height: 1 });
    assert!(host.take_first_after_resize() && !host.take_first_after_resize());
    assert_eq!(no_playback(), "video playback is not implemented on OpenHarmony (camera sources only)");
    assert_eq!(camera_not_opened(), "the camera could not be opened (see the ohos camera log lines)");
    assert!(matches!(OhosBackend::new().http_cancel(), Err(BackendError::HttpNeedsPlatform)));
}

#[test]
fn fingers_and_text_are_reported() {
    let mut host = OhosHost::new();
    let finger = |uid: u64, time: i64| TouchPoint {
        uid,
        state: TouchState::Start,
        at: Point { x: 1, y: 2 },
        time,
    };
    let actions = host.handle_message(FromOhosMessage::Touch(vec![finger(1, 7), finger(2, 9)]));
    assert!(matches!(&actions[0], MessageAction::Touched { time: 7, touches } if touches.len() == 2));
    let text = TextInput { input: "a".into(), replace_last: false, was_paste: false };
    let actions = host.handle_message(FromOhosMessage::TextInput(text));
    assert!(matches!(&actions[0], MessageAction::TextInput(t) if t.input == "a"));
    assert!(host.handle_message(FromOhosMessage::VSync).is_empty());
}

#[test]
fn a_camera_is_bound_and_released() {
    let mut host = OhosHost::new();
    assert_eq!(host.camera_prepared(4, None, true), CameraBound::DecodingError);
    assert!(host.media.players.is_empty());
    assert_eq!(host.camera_prepared(4, Some(1), true), CameraBound::TexturesReady);
    assert_eq!(host.media.players, vec![OhCameraPlayer::new(4, 1, true)]);
    assert_eq!(host.media.release_camera_player(4), (true, true));
    assert!(host.media.players.is_empty());
    assert!(host.media.handle_media_signals(), "the list of cameras goes out");
    assert!(!host.media.handle_media_signals());
    let mut host = OhosHost::new();
    assert!(!host.media.handle_media_signals());
    let source = VideoSource::Camera { input_id: 1, format_id: 2 };
    host.handle_platform_op(PlatformOp::PrepareVideoPlayback { video_id: 5, source, autoplay: true }, true);
    assert!(host.media.handle_media_signals(), "preparing asks for the cameras");
    let mut host = OhosHost::new();
    let op = PlatformOp::PrepareVideoPlayback { video_id: 5, source: VideoSource::Other, autoplay: true };
    host.handle_platform_op(op, true);
    assert!(!host.media.handle_media_signals());
}
