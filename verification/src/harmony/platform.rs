//! What the application does with the messages of the system and the operations
//! of its own widgets.
use crate::camera::capture::{saved_to_library, CameraCaptureResult};
use crate::harmony::media::{
    player_index, players_without, CxOpenHarmonyMedia, OhCameraPlayer,
};
use crate::harmony::permissions::{
    answers, asking_for, asking_for_others, spec_from_name, spec_js_function, spec_status,
    PendingPermission, PendingPermissions, Permission, PermissionResult, PermissionStatus,
    PermissionStep,
};
use crate::text::{occurs_at, push_text, spec_starts_with, starts_with, to_chars, to_text};
use crate::widgets::pinch::{Point, TouchState};
use vstd::prelude::*;

verus! {

// ---------------------------------------------------------------------------
// Messages
// ---------------------------------------------------------------------------

/// The system bars, in pixels.
#[derive(Clone, Copy, PartialEq, Eq, Structural, Debug)]
pub struct SafeAreaInsets {
    pub top: i64,
    pub right: i64,
    pub bottom: i64,
    pub left: i64,
}

/// A text that is entered.
pub struct TextInput {
    pub input: String,
    pub replace_last: bool,
    pub was_paste: bool,
}

/// A finger on the display, in pixels of it.
#[derive(Clone, Copy, PartialEq, Eq, Structural, Debug)]
pub struct TouchPoint {
    pub uid: u64,
    pub state: TouchState,
    pub at: Point,
    pub time: i64,
}

/// A message of the system.
pub enum FromOhosMessage {
    /// A frame begins; the messages that are waiting are handled before it is drawn.
    VSync,
    SurfaceCreated,
    SurfaceDestroyed,
    SurfaceChanged { width: i32, height: i32 },
    PermissionResult { permission: String, granted: bool, can_retry: bool },
    CaptureSaved { path: String, ok: bool, uri: String },
    AvoidArea(SafeAreaInsets),
    Touch(Vec<TouchPoint>),
    TextInput(TextInput),
    DeleteLeft(u32),
    ResizeTextIME { is_open: bool, keyboard_height: i32 },
}

/// What is done about a message.
pub enum MessageAction {
    UpdateSurface,
    DestroySurface,
    /// The window takes the whole display; its geometry is reported, everything
    /// is drawn again and the atlases start anew.
    Resize { width: i32, height: i32 },
    Permissions(Vec<PermissionResult>),
    Captured(CameraCaptureResult),
    /// Report the geometry of every window with these insets.
    PublishSafeArea(SafeAreaInsets),
    /// Report the fingers, in the window's own pixels, at the time of the first.
    Touched { time: i64, touches: Vec<TouchPoint> },
    TextInput(TextInput),
    /// Press and release backspace this many times.
    Backspaces(u32),
    KeyboardShown { height: i32 },
    /// The keyboard was dismissed.
    KeyboardHidden,
}

/// What the application knows of the system.
pub struct OhosHost {
    pub native_safe_area_insets: SafeAreaInsets,
    pub pending_permissions: PendingPermissions,
    pub first_after_resize: bool,
    pub display_size: (i32, i32),
    pub quit: bool,
    pub media: CxOpenHarmonyMedia,
    pub asked_for_gps: bool,
}

impl OhosHost {
    pub fn new() -> (r: OhosHost)
        ensures
            r.native_safe_area_insets == (SafeAreaInsets { top: 0, right: 0, bottom: 0, left: 0 }),
            r.pending_permissions.pending@.len() == 0,
            r.first_after_resize,
            r.display_size == (1260i32, 2503i32),
            !r.quit,
            r.media.wf(),
            r.media.players@.len() == 0,
            !r.media.has_camera && !r.media.camera_descs_sent,
            !r.asked_for_gps,
    {
        OhosHost {
            native_safe_area_insets: SafeAreaInsets { top: 0, right: 0, bottom: 0, left: 0 },
            pending_permissions: PendingPermissions::new(),
            first_after_resize: true,
            display_size: (1260, 2503),
            quit: false,
            media: CxOpenHarmonyMedia::new(),
            asked_for_gps: false,
        }
    }

    /// What is done about a message of the system. A safe area that is already
    /// known is not reported again. An update of the fingers names at least one.
    pub fn handle_message(&mut self, message: FromOhosMessage) -> (r: Vec<MessageAction>)
        requires
            message matches FromOhosMessage::Touch(touches) ==> touches@.len() > 0,
        ensures
            message is VSync ==> r@.len() == 0,
            message matches FromOhosMessage::Touch(touches) ==> r@ == seq![
                MessageAction::Touched { time: touches@[0].time, touches },
            ],
            message matches FromOhosMessage::TextInput(input) ==> r@ == seq![
                MessageAction::TextInput(input),
            ],
            final(self).media == old(self).media,
            final(self).quit == old(self).quit,
            final(self).asked_for_gps == old(self).asked_for_gps,
            message is SurfaceChanged ==> {
                &&& r@ == seq![
                    MessageAction::UpdateSurface,
                    MessageAction::Resize {
                        width: message->SurfaceChanged_width,
                        height: message->SurfaceChanged_height,
                    },
                ]
                &&& final(self).display_size == (
                    message->SurfaceChanged_width,
                    message->SurfaceChanged_height,
                )
                &&& final(self).first_after_resize
            },
            !(message is SurfaceChanged) ==> final(self).display_size == old(self).display_size
                && final(self).first_after_resize == old(self).first_after_resize,
            message is SurfaceCreated ==> r@ == seq![MessageAction::UpdateSurface],
            message is SurfaceDestroyed ==> r@ == seq![MessageAction::DestroySurface],
            message matches FromOhosMessage::PermissionResult { permission, granted, can_retry }
                ==> {
                let wanted = spec_from_name(permission@);
                &&& r@.len() == 1
                &&& r@[0] matches MessageAction::Permissions(results)
                &&& results@ == answers(
                    asking_for(old(self).pending_permissions.pending@, wanted),
                    spec_status(granted, can_retry),
                )
                &&& final(self).pending_permissions.pending@ == asking_for_others(
                    old(self).pending_permissions.pending@,
                    wanted,
                )
            },
            !(message is PermissionResult) ==> final(self).pending_permissions == old(
                self,
            ).pending_permissions,
            message matches FromOhosMessage::CaptureSaved { path, ok, uri } ==> r@ == seq![
                MessageAction::Captured(
                    CameraCaptureResult::SavedToLibrary {
                        path,
                        uri: if ok {
                            Some(uri)
                        } else {
                            None
                        },
                    },
                ),
            ],
            message matches FromOhosMessage::AvoidArea(insets) ==> {
                &&& final(self).native_safe_area_insets == insets
                &&& r@ == if old(self).native_safe_area_insets == insets {
                    Seq::empty()
                } else {
                    seq![MessageAction::PublishSafeArea(insets)]
                }
            },
            !(message is AvoidArea) ==> final(self).native_safe_area_insets == old(
                self,
            ).native_safe_area_insets,
            message matches FromOhosMessage::DeleteLeft(n) ==> r@ == seq![
                MessageAction::Backspaces(n),
            ],
            message matches FromOhosMessage::ResizeTextIME { is_open, keyboard_height } ==> r@
                == if is_open {
                seq![MessageAction::KeyboardShown { height: keyboard_height }]
            } else {
                seq![MessageAction::KeyboardHidden]
            },
    {
        let mut r: Vec<MessageAction> = Vec::new();
        match message {
            FromOhosMessage::VSync => {},
            FromOhosMessage::SurfaceCreated => {
                r.push(MessageAction::UpdateSurface);
            },
            FromOhosMessage::SurfaceDestroyed => {
                r.push(MessageAction::DestroySurface);
            },
            FromOhosMessage::SurfaceChanged { width, height } => {
                self.display_size = (width, height);
                self.first_after_resize = true;
                r.push(MessageAction::UpdateSurface);
                r.push(MessageAction::Resize { width, height });
                assert(r@ =~= seq![
                    MessageAction::UpdateSurface,
                    MessageAction::Resize { width, height },
                ]);
            },
            FromOhosMessage::PermissionResult { permission, granted, can_retry } => {
                let results = self.pending_permissions.answered(
                    permission.as_str(),
                    granted,
                    can_retry,
                );
                r.push(MessageAction::Permissions(results));
            },
            FromOhosMessage::CaptureSaved { path, ok, uri } => {
                r.push(MessageAction::Captured(saved_to_library(path, ok, uri)));
            },
            FromOhosMessage::AvoidArea(insets) => {
                if self.native_safe_area_insets != insets {
                    self.native_safe_area_insets = insets;
                    r.push(MessageAction::PublishSafeArea(insets));
                }
            },
            FromOhosMessage::Touch(touches) => {
                r.push(MessageAction::Touched { time: touches[0].time, touches });
            },
            FromOhosMessage::TextInput(input) => {
                r.push(MessageAction::TextInput(input));
            },
            FromOhosMessage::DeleteLeft(n) => {
                r.push(MessageAction::Backspaces(n));
            },
            FromOhosMessage::ResizeTextIME { is_open, keyboard_height } => {
                if is_open {
                    r.push(MessageAction::KeyboardShown { height: keyboard_height });
                } else {
                    r.push(MessageAction::KeyboardHidden);
                }
            },
        }
        r
    }

    /// Whether the frame after a resize is due, in which everything is drawn
    /// again; it is due once.
    pub fn take_first_after_resize(&mut self) -> (r: bool)
        ensures
            r == old(self).first_after_resize,
            !final(self).first_after_resize,
            final(self).media == old(self).media,
            final(self).native_safe_area_insets == old(self).native_safe_area_insets,
            final(self).pending_permissions == old(self).pending_permissions,
            final(self).display_size == old(self).display_size,
            final(self).quit == old(self).quit,
            final(self).asked_for_gps == old(self).asked_for_gps,
    {
        let due = self.first_after_resize;
        self.first_after_resize = false;
        due
    }

    /// A fix is asked for: there is no location service, which is noted once.
    pub fn request_gps(&mut self) -> (r: bool)
        ensures
            r == !old(self).asked_for_gps,
            final(self).asked_for_gps,
            final(self).media == old(self).media,
            final(self).native_safe_area_insets == old(self).native_safe_area_insets,
            final(self).pending_permissions == old(self).pending_permissions,
            final(self).display_size == old(self).display_size,
            final(self).quit == old(self).quit,
            final(self).first_after_resize == old(self).first_after_resize,
    {
        let first = !self.asked_for_gps;
        self.asked_for_gps = true;
        first
    }
}

/// Whether a frame is drawn at all: something is dirty, wants to be drawn, or
/// asked for the next frame.
pub fn should_draw(passes_dirty: bool, needs_redraw: bool, wants_next_frame: bool) -> (r: bool)
    ensures
        r == (passes_dirty || needs_redraw || wants_next_frame),
{
    passes_dirty || needs_redraw || wants_next_frame
}

/// What a draw pass belongs to.
#[derive(Clone, Copy, PartialEq, Eq, Structural, Debug)]
pub enum PassParent {
    Xr,
    Window,
    DrawPass,
    Nothing,
}

/// Where a draw pass is drawn.
#[derive(Clone, Copy, PartialEq, Eq, Structural, Debug)]
pub enum PassTarget {
    Screen,
    Texture,
}

/// Where a draw pass is drawn: a window's on the screen, others into a texture;
/// a headset's not at all.
pub fn pass_target(parent: PassParent) -> (r: Option<PassTarget>)
    ensures
        r == match parent {
            PassParent::Xr => None,
            PassParent::Window => Some(PassTarget::Screen),
            PassParent::DrawPass | PassParent::Nothing => Some(PassTarget::Texture),
        },
{
    match parent {
        PassParent::Xr => None,
        PassParent::Window => Some(PassTarget::Screen),
        PassParent::DrawPass | PassParent::Nothing => Some(PassTarget::Texture),
    }
}

// ---------------------------------------------------------------------------
// Operations
// ---------------------------------------------------------------------------

/// Where a video comes from.
#[derive(Clone, Copy, PartialEq, Eq, Structural, Debug)]
pub enum VideoSource {
    Camera { input_id: u64, format_id: u64 },
    Other,
}

/// An operation of the application.
#[derive(Clone, Copy, PartialEq, Eq, Structural, Debug)]
pub enum PlatformOp {
    CreateWindow { window: u64 },
    CreatePopupWindow { window: u64, parent: u64 },
    StartTimer { timer: u64, repeats: bool },
    StopTimer { timer: u64 },
    Quit,
    ShowTextIme,
    HideTextIme,
    StartExternalDragging,
    SelectTrack,
    CheckPermission { permission: Permission, request_id: i32 },
    RequestPermission { permission: Permission, request_id: i32 },
    PrepareVideoPlayback { video_id: u64, source: VideoSource, autoplay: bool },
    BeginVideoPlayback { video_id: u64 },
    ResumeVideoPlayback { video_id: u64 },
    PauseVideoPlayback { video_id: u64 },
    MuteVideoPlayback,
    SetCursor,
    CleanupVideoPlaybackResources { video_id: u64 },
    NativePreview,
    Unknown,
}

/// What is done about an operation.
#[derive(Clone, Copy, PartialEq, Eq, Debug)]
pub enum OpAction {
    CreateWindow { window: u64 },
    CreatePopupWindow { window: u64, parent: u64 },
    StartTimer { timer: u64, repeats: bool },
    StopTimer { timer: u64 },
    /// Call a function of the system.
    Call(&'static str),
    /// Dragging files out is not there: the drag ends at once.
    DragEnd,
    PermissionAnswer(PermissionResult),
    /// Ask the system for a permission by this function.
    RequestPermission { function: &'static str, permission: Permission, request_id: i32 },
    /// Stop the camera stream.
    StopCamera,
    PlaybackReleased { video_id: u64 },
    /// Start the camera stream and bind the widget to it.
    PrepareCamera { video_id: u64, input_id: u64, format_id: u64, autoplay: bool },
    /// Videos other than the camera are not there.
    DecodingError { video_id: u64 },
    NotImplemented,
}

/// Whether an operation is one that nothing is done about: no track can be
/// selected, touch screens have no pointer to shape, and so on.
pub open spec fn is_ignored(op: PlatformOp) -> bool {
    match op {
        PlatformOp::SelectTrack | PlatformOp::MuteVideoPlayback | PlatformOp::SetCursor
        | PlatformOp::NativePreview => true,
        _ => false,
    }
}

/// What releasing a widget's player does.
pub open spec fn release_actions(players: Seq<OhCameraPlayer>, video_id: u64) -> Seq<OpAction> {
    if player_index(players, video_id, 0) is Some && players_without(players, video_id).len() == 0 {
        seq![OpAction::StopCamera]
    } else {
        Seq::empty()
    }
}

/// Whether an operation asks for the cameras: it prepares one, or takes the last widget
/// off the stream, which then stops. The list of them goes out with the next media
/// signal.
pub open spec fn asks_for_cameras(op: PlatformOp, players: Seq<OhCameraPlayer>) -> bool {
    match op {
        PlatformOp::PrepareVideoPlayback { video_id, source, .. } => source is Camera
            || release_actions(players, video_id).len() > 0,
        PlatformOp::CleanupVideoPlaybackResources { video_id } => release_actions(
            players,
            video_id,
        ).len() > 0,
        _ => false,
    }
}

impl OhosHost {
    /// What is done about an operation that makes no use of a camera preview.
    pub open spec fn plain_actions(op: PlatformOp) -> Option<Seq<OpAction>> {
        match op {
            PlatformOp::CreateWindow { window } => Some(seq![OpAction::CreateWindow { window }]),
            PlatformOp::CreatePopupWindow { window, parent } => Some(
                seq![OpAction::CreatePopupWindow { window, parent }],
            ),
            PlatformOp::StartTimer { timer, repeats } => Some(
                seq![OpAction::StartTimer { timer, repeats }],
            ),
            PlatformOp::StopTimer { timer } => Some(seq![OpAction::StopTimer { timer }]),
            PlatformOp::Quit => Some(Seq::empty()),
            PlatformOp::ShowTextIme => Some(seq![OpAction::Call("showKeyBoard")]),
            PlatformOp::HideTextIme => Some(seq![OpAction::Call("hideKeyBoard")]),
            PlatformOp::StartExternalDragging => Some(seq![OpAction::DragEnd]),
            PlatformOp::Unknown => Some(seq![OpAction::NotImplemented]),
            _ => if is_ignored(op) {
                Some(Seq::empty())
            } else {
                None
            },
        }
    }

    /// What is done about an operation.
    pub fn handle_platform_op(&mut self, op: PlatformOp, has_bridge: bool) -> (r: Vec<OpAction>)
        requires
            old(self).media.wf(),
        ensures
            final(self).media.wf(),
            final(self).quit == (old(self).quit || op == PlatformOp::Quit),
            final(self).native_safe_area_insets == old(self).native_safe_area_insets,
            final(self).display_size == old(self).display_size,
            final(self).first_after_resize == old(self).first_after_resize,
            final(self).asked_for_gps == old(self).asked_for_gps,
            final(self).media.has_camera == (old(self).media.has_camera || asks_for_cameras(
                op,
                old(self).media.players@,
            )),
            final(self).media.camera_descs_sent == old(self).media.camera_descs_sent,
            !(op is CheckPermission) && !(op is RequestPermission)
                ==> final(self).pending_permissions == old(self).pending_permissions,
            Self::plain_actions(op) matches Some(actions) ==> {
                &&& r@ == actions
                &&& final(self).media == old(self).media
            },
            op matches PlatformOp::PrepareVideoPlayback { video_id, source, autoplay } ==> {
                let had = player_index(old(self).media.players@, video_id, 0) is Some;
                &&& final(self).media.players@ == players_without(
                    old(self).media.players@,
                    video_id,
                )
                &&& r@ == release_actions(old(self).media.players@, video_id) + (if had {
                    seq![OpAction::PlaybackReleased { video_id }]
                } else {
                    Seq::empty()
                }) + seq![
                    match source {
                        VideoSource::Camera { input_id, format_id } => OpAction::PrepareCamera {
                            video_id,
                            input_id,
                            format_id,
                            autoplay,
                        },
                        VideoSource::Other => OpAction::DecodingError { video_id },
                    },
                ]
            },
            op matches PlatformOp::CleanupVideoPlaybackResources { video_id } ==> {
                &&& final(self).media.players@ == players_without(
                    old(self).media.players@,
                    video_id,
                )
                &&& r@ == release_actions(old(self).media.players@, video_id) + seq![
                    OpAction::PlaybackReleased { video_id },
                ]
            },
            op is BeginVideoPlayback || op is ResumeVideoPlayback || op is PauseVideoPlayback ==> {
                let video_id = match op {
                    PlatformOp::BeginVideoPlayback { video_id } => video_id,
                    PlatformOp::ResumeVideoPlayback { video_id } => video_id,
                    PlatformOp::PauseVideoPlayback { video_id } => video_id,
                    _ => 0,
                };
                &&& r@.len() == 0
                &&& final(self).media.players@ == match player_index(
                    old(self).media.players@,
                    video_id,
                    0,
                ) {
                    Some(i) => old(self).media.players@.update(
                        i,
                        OhCameraPlayer {
                            playing: !(op is PauseVideoPlayback),
                            ..old(self).media.players@[i]
                        },
                    ),
                    None => old(self).media.players@,
                }
            },
            op is CheckPermission || op is RequestPermission ==> {
                let (permission, request_id) = match op {
                    PlatformOp::CheckPermission { permission, request_id } => (
                        permission,
                        request_id,
                    ),
                    PlatformOp::RequestPermission { permission, request_id } => (
                        permission,
                        request_id,
                    ),
                    _ => (Permission::Camera, 0i32),
                };
                &&& r@.len() == 1
                &&& final(self).media == old(self).media
                &&& final(self).pending_permissions.pending@ == Self::waiting_after(
                    old(self).pending_permissions.pending@,
                    permission,
                    request_id,
                    has_bridge,
                )
                &&& match spec_js_function(permission) {
                    Some((_, function)) if has_bridge => {
                        &&& r@[0] matches OpAction::RequestPermission {
                            function: f,
                            permission: p,
                            request_id: i,
                        }
                        &&& f@ == function
                        &&& p == permission
                        &&& i == request_id
                    },
                    other => r@[0] == OpAction::PermissionAnswer(
                        PermissionResult {
                            permission,
                            request_id,
                            status: if other is Some {
                                PermissionStatus::NotDetermined
                            } else {
                                PermissionStatus::DeniedPermanent
                            },
                        },
                    ),
                }
            },
    {
        let mut r: Vec<OpAction> = Vec::new();
        match op {
            PlatformOp::CreateWindow { window } => {
                r.push(OpAction::CreateWindow { window });
            },
            PlatformOp::CreatePopupWindow { window, parent } => {
                r.push(OpAction::CreatePopupWindow { window, parent });
            },
            PlatformOp::StartTimer { timer, repeats } => {
                r.push(OpAction::StartTimer { timer, repeats });
            },
            PlatformOp::StopTimer { timer } => {
                r.push(OpAction::StopTimer { timer });
            },
            PlatformOp::Quit => {
                self.quit = true;
            },
            PlatformOp::ShowTextIme => {
                r.push(OpAction::Call("showKeyBoard"));
            },
            PlatformOp::HideTextIme => {
                r.push(OpAction::Call("hideKeyBoard"));
            },
            PlatformOp::StartExternalDragging => {
                r.push(OpAction::DragEnd);
            },
            PlatformOp::SelectTrack | PlatformOp::MuteVideoPlayback | PlatformOp::SetCursor
            | PlatformOp::NativePreview => {},
            PlatformOp::CheckPermission { permission, request_id } => {
                r.push(self.ask(permission, request_id, has_bridge));
            },
            PlatformOp::RequestPermission { permission, request_id } => {
                r.push(self.ask(permission, request_id, has_bridge));
            },
            PlatformOp::PrepareVideoPlayback { video_id, source, autoplay } => {
                let (had, stops) = self.media.release_camera_player(video_id);
                if stops {
                    r.push(OpAction::StopCamera);
                }
                if had {
                    r.push(OpAction::PlaybackReleased { video_id });
                }
                match source {
                    VideoSource::Camera { input_id, format_id } => {
                        self.media.camera();
                        r.push(
                            OpAction::PrepareCamera { video_id, input_id, format_id, autoplay },
                        );
                    },
                    VideoSource::Other => {
                        r.push(OpAction::DecodingError { video_id });
                    },
                }
                assert(r@ =~= release_actions(old(self).media.players@, video_id) + (if had {
                    seq![OpAction::PlaybackReleased { video_id }]
                } else {
                    Seq::empty()
                }) + seq![
                    match source {
                        VideoSource::Camera { input_id, format_id } => OpAction::PrepareCamera {
                            video_id,
                            input_id,
                            format_id,
                            autoplay,
                        },
                        VideoSource::Other => OpAction::DecodingError { video_id },
                    },
                ]);
            },
            PlatformOp::BeginVideoPlayback { video_id } => {
                self.media.set_playing(video_id, true);
            },
            PlatformOp::ResumeVideoPlayback { video_id } => {
                self.media.set_playing(video_id, true);
            },
            PlatformOp::PauseVideoPlayback { video_id } => {
                self.media.set_playing(video_id, false);
            },
            PlatformOp::CleanupVideoPlaybackResources { video_id } => {
                let (_, stops) = self.media.release_camera_player(video_id);
                if stops {
                    r.push(OpAction::StopCamera);
                }
                r.push(OpAction::PlaybackReleased { video_id });
                assert(r@ =~= release_actions(old(self).media.players@, video_id) + seq![
                    OpAction::PlaybackReleased { video_id },
                ]);
            },
            PlatformOp::Unknown => {
                r.push(OpAction::NotImplemented);
            },
        }
        r
    }

    /// The requests that wait once one more was made.
    pub open spec fn waiting_after(
        pending: Seq<PendingPermission>,
        permission: Permission,
        request_id: i32,
        has_bridge: bool,
    ) -> Seq<PendingPermission> {
        if spec_js_function(permission) is Some && has_bridge {
            pending.push(PendingPermission { permission, request_id })
        } else {
            pending
        }
    }

    fn ask(&mut self, permission: Permission, request_id: i32, has_bridge: bool) -> (r: OpAction)
        ensures
            final(self).media == old(self).media,
            final(self).asked_for_gps == old(self).asked_for_gps,
            final(self).pending_permissions.pending@ == Self::waiting_after(
                old(self).pending_permissions.pending@,
                permission,
                request_id,
                has_bridge,
            ),
            final(self).quit == old(self).quit,
            final(self).native_safe_area_insets == old(self).native_safe_area_insets,
            final(self).display_size == old(self).display_size,
            final(self).first_after_resize == old(self).first_after_resize,
            match spec_js_function(permission) {
                Some((_, function)) if has_bridge => {
                    &&& r matches OpAction::RequestPermission {
                        function: f,
                        permission: p,
                        request_id: i,
                    }
                    &&& f@ == function
                    &&& p == permission
                    &&& i == request_id
                },
                other => r == OpAction::PermissionAnswer(
                    PermissionResult {
                        permission,
                        request_id,
                        status: if other is Some {
                            PermissionStatus::NotDetermined
                        } else {
                            PermissionStatus::DeniedPermanent
                        },
                    },
                ),
            },
    {
        match self.pending_permissions.request(permission, request_id, has_bridge) {
            PermissionStep::Answer(result) => OpAction::PermissionAnswer(result),
            PermissionStep::Call(function) => OpAction::RequestPermission {
                function,
                permission,
                request_id,
            },
        }
    }
}

/// What came of a widget that asked for the camera.
#[derive(Clone, Copy, PartialEq, Eq, Structural, Debug)]
pub enum CameraBound {
    /// The textures of the widget are ready.
    TexturesReady,
    /// The camera could not be opened.
    DecodingError,
}

impl OhosHost {
    /// The stream was started for a widget, with these quarter turns, or could not be:
    /// the widget is bound to it. The cameras have been asked for either way.
    pub fn camera_prepared(&mut self, video_id: u64, rotation_steps: Option<i32>, autoplay: bool)
        -> (r: CameraBound)
        requires
            old(self).media.wf(),
        ensures
            final(self).media.wf(),
            r is TexturesReady <==> rotation_steps is Some,
            rotation_steps is None ==> final(self).media.players@ == old(self).media.players@,
            rotation_steps matches Some(steps) ==> final(self).media.players@ == players_without(
                old(self).media.players@,
                video_id,
            ).push(
                OhCameraPlayer {
                    video_id,
                    rotation_steps: steps,
                    width: 0,
                    height: 0,
                    prepared: false,
                    playing: autoplay,
                },
            ),
            final(self).media.has_camera,
            final(self).media.camera_descs_sent == old(self).media.camera_descs_sent,
            final(self).native_safe_area_insets == old(self).native_safe_area_insets,
            final(self).pending_permissions == old(self).pending_permissions,
            final(self).display_size == old(self).display_size,
            final(self).quit == old(self).quit,
            final(self).first_after_resize == old(self).first_after_resize,
            final(self).asked_for_gps == old(self).asked_for_gps,
    {
        self.media.camera();
        match rotation_steps {
            Some(steps) => {
                self.media.bind_player(OhCameraPlayer::new(video_id, steps, autoplay));
                CameraBound::TexturesReady
            },
            None => CameraBound::DecodingError,
        }
    }
}

/// Binding a widget that has no player to the camera, and releasing it, leaves the
/// other players as they were.
pub proof fn releasing_undoes_preparing(players: Seq<OhCameraPlayer>, player: OhCameraPlayer)
    requires
        player_index(players, player.video_id, 0) is None,
    ensures
        players_without(
            players_without(players, player.video_id).push(player),
            player.video_id,
        ) == players,
{
    pushed_player_is_found(players, player, 0);
    assert(players.push(player).remove(players.len() as int) =~= players);
}

proof fn pushed_player_is_found(rest: Seq<OhCameraPlayer>, player: OhCameraPlayer, from: int)
    requires
        0 <= from <= rest.len(),
        player_index(rest, player.video_id, from) is None,
    ensures
        player_index(rest.push(player), player.video_id, from) == Some(rest.len() as int),
    decreases rest.len() - from,
{
    let all = rest.push(player);
    if from < rest.len() {
        assert(all[from] == rest[from]);
        pushed_player_is_found(rest, player, from + 1);
    }
}

/// The message for a video that is not the camera.
pub fn no_playback() -> (r: &'static str)
    ensures
        r@ == "video playback is not implemented on OpenHarmony (camera sources only)"@,
{
    "video playback is not implemented on OpenHarmony (camera sources only)"
}

/// The message for a camera that could not be opened.
pub fn camera_not_opened() -> (r: &'static str)
    ensures
        r@ == "the camera could not be opened (see the ohos camera log lines)"@,
{
    "the camera could not be opened (see the ohos camera log lines)"
}

// ---------------------------------------------------------------------------
// Files of the package
// ---------------------------------------------------------------------------

/// Where a file of the package is looked for, in order: at its path, and under
/// the package's root unless the path is under it already.
pub open spec fn raw_candidates_of(path: Seq<char>, root: Option<Seq<char>>) -> Seq<Seq<char>> {
    match root {
        Some(root) if !spec_starts_with(path, root + "/"@) => seq![path, root + "/"@ + path],
        _ => seq![path],
    }
}

/// The views of a list of strings.
pub open spec fn views(v: Seq<String>) -> Seq<Seq<char>> {
    v.map_values(|s: String| s@)
}

/// Where a file of the package is looked for.
pub fn raw_candidates(path: &str, root: Option<&str>) -> (r: Vec<String>)
    ensures
        views(r@) == raw_candidates_of(
            path@,
            match root {
                Some(s) => Some(s@),
                None => None,
            },
        ),
{
    let mut r: Vec<String> = Vec::new();
    r.push(path.to_owned());
    assert(views(r@) =~= seq![path@]);
    if let Some(root) = root {
        let mut prefix: Vec<char> = Vec::new();
        push_text(&mut prefix, root);
        push_text(&mut prefix, "/");
        assert(prefix@ =~= root@ + "/"@);
        let under = to_text(prefix.as_slice());
        let p = to_chars(path);
        if !starts_with(p.as_slice(), under.as_str()) {
            push_text(&mut prefix, path);
            assert(prefix@ =~= root@ + "/"@ + path@);
            r.push(to_text(prefix.as_slice()));
            assert(views(r@) =~= seq![path@, root@ + "/"@ + path@]);
        }
    }
    r
}

/// A file is looked for by its own path and below the root of the app, unless its path
/// begins there already.
pub proof fn files_are_looked_for_below_the_root(path: Seq<char>, root: Seq<char>)
    ensures
        raw_candidates_of(path, None) == seq![path],
        raw_candidates_of(root + "/"@ + path, Some(root)) == seq![root + "/"@ + path],
        raw_candidates_of(path, Some(root)).contains(path),
        !spec_starts_with(path, root + "/"@) ==> raw_candidates_of(path, Some(root)).last() == root
            + "/"@ + path,
{
    let full = root + "/"@ + path;
    let lead = root + "/"@;
    assert(full.subrange(0, lead.len() as int) =~= lead);
    assert(occurs_at(full, lead, 0));
    assert(raw_candidates_of(path, Some(root))[0] == path);
}

/// The camera stops when the last player that shows it goes, and not before.
pub proof fn the_camera_stops_with_its_last_player(
    players: Seq<OhCameraPlayer>,
    player: OhCameraPlayer,
    video_id: u64,
)
    requires
        player_index(players, player.video_id, 0) is None,
    ensures
        release_actions(seq![player], player.video_id) == seq![OpAction::StopCamera],
        players.len() > 0 ==> release_actions(players.push(player), player.video_id).len() == 0,
        player_index(players, video_id, 0) is None ==> release_actions(players, video_id).len() == 0,
{
    pushed_player_is_found(players, player, 0);
    let one = seq![player];
    assert(player_index(one, player.video_id, 0) == Some(0int));
    assert(one.remove(0).len() == 0);
}

} // verus!
