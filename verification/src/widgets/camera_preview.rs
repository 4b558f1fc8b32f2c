//! The device camera inside a script app: a live preview, and capture and control
//! from script.
//!
//! The camera is a device that a person can see is on, so it is closed as soon as
//! it is not needed: when the preview has not been drawn between two looks of a
//! watchdog, when the app stops it, and when the app closes.
use crate::camera::capture::{CameraCaptureResult, CameraFlashMode, CaptureKind};
use crate::case::in_lower_case;
use crate::harmony::permissions::PermissionStatus;
use crate::number::{decimal, spec_decimal};
use crate::text::{push_all, push_text, same_text, to_text};
use crate::widgets::cameras::{
    choices, flash_mode, is_front, lower_is_front, spec_flash_mode, spec_format_for, CameraChoice,
    ChoiceView, PreviewFormat, ASPECT_ONE,
};
use vstd::prelude::*;

verus! {

/// How long a camera may be without an answer on its permission, in milliseconds,
/// before it opens anyway.
pub const PERMISSION_GRACE: u64 = 2000;

/// The shape of a photo: four by three.
pub const PHOTO_ASPECT: u64 = 5_726_623_061;

/// The shape that a viewfinder starts with: 1.3333.
pub const FIRST_ASPECT: u64 = 5_726_479_896;

#[derive(Clone, Copy, PartialEq, Eq, Structural, Debug)]
pub enum CameraState {
    Idle,
    Starting,
    Running,
    Stopping,
}

#[derive(Clone, Copy, PartialEq, Eq, Structural, Debug)]
pub struct PreviewState {
    /// The app asked for a preview, and has not stopped it.
    pub wanted: bool,
    pub state: CameraState,
    /// The app wants the front camera.
    pub want_front: bool,
    /// The camera that was opened last.
    pub input: Option<u64>,
    pub open_front: bool,
    /// The shape of the viewfinder, its width over its height.
    pub aspect: u64,
    /// The shape that the camera was opened for.
    pub open_aspect: u64,
    pub permission: Option<PermissionStatus>,
    /// When permission was asked for.
    pub asked_at: u64,
    /// The watchdog runs.
    pub timer: bool,
    /// The preview was drawn since the watchdog last looked.
    pub drawn: bool,
}

pub struct CameraPreview {
    pub state: PreviewState,
    pub cameras: Vec<CameraChoice>,
    /// The recording that runs, by the app's own name of it.
    pub recording: Option<String>,
    /// The last capture, by the app's own name of it.
    pub last: String,
    pub last_error: String,
}

#[verifier::ext_equal]
pub struct PreviewView {
    pub state: PreviewState,
    pub cameras: Seq<ChoiceView>,
    pub recording: Option<Seq<char>>,
    pub last: Seq<char>,
    pub last_error: Seq<char>,
}

impl View for CameraPreview {
    type V = PreviewView;

    open spec fn view(&self) -> PreviewView {
        PreviewView {
            state: self.state,
            cameras: choices(self.cameras@),
            recording: match self.recording {
                Some(r) => Some(r@),
                None => None,
            },
            last: self.last@,
            last_error: self.last_error@,
        }
    }
}

/// What a camera is told; numbers are the bits of floating point ones.
#[derive(Clone, Copy, PartialEq, Eq, Structural, Debug)]
pub enum CameraControl {
    ZoomRatio(u32),
    Flash(CameraFlashMode),
    ExposureBias(u32),
    FocusPoint { x: u64, y: u64 },
}

/// What a preview tells the host to do.
pub enum CameraCall {
    /// Tell the script of the error that the preview holds.
    Fail,
    RequestCamera,
    RequestMicrophone,
    /// Ask for the list of cameras.
    ListCameras,
    StartTimer,
    StopTimer,
    /// Preview a camera.
    Open { input: u64, format: u64 },
    /// The preview is among those that its heap opened; the host lists it once.
    Register,
    /// Close the camera.
    Close,
    Photo { input: u64, path: String, library: bool },
    StartVideo { input: u64, path: String, audio: bool, library: bool },
    StopVideo { input: u64 },
    Control { input: u64, control: CameraControl },
    /// Tell the script of a capture.
    Captured,
    Redraw,
}

pub enum CameraCallView {
    Fail,
    RequestCamera,
    RequestMicrophone,
    ListCameras,
    StartTimer,
    StopTimer,
    Open { input: u64, format: u64 },
    Register,
    Close,
    Photo { input: u64, path: Seq<char>, library: bool },
    StartVideo { input: u64, path: Seq<char>, audio: bool, library: bool },
    StopVideo { input: u64 },
    Control { input: u64, control: CameraControl },
    Captured,
    Redraw,
}

impl View for CameraCall {
    type V = CameraCallView;

    open spec fn view(&self) -> CameraCallView {
        match self {
            CameraCall::Fail => CameraCallView::Fail,
            CameraCall::RequestCamera => CameraCallView::RequestCamera,
            CameraCall::RequestMicrophone => CameraCallView::RequestMicrophone,
            CameraCall::ListCameras => CameraCallView::ListCameras,
            CameraCall::StartTimer => CameraCallView::StartTimer,
            CameraCall::StopTimer => CameraCallView::StopTimer,
            CameraCall::Open { input, format } => CameraCallView::Open {
                input: *input,
                format: *format,
            },
            CameraCall::Register => CameraCallView::Register,
            CameraCall::Close => CameraCallView::Close,
            CameraCall::Photo { input, path, library } => CameraCallView::Photo {
                input: *input,
                path: path@,
                library: *library,
            },
            CameraCall::StartVideo { input, path, audio, library } => CameraCallView::StartVideo {
                input: *input,
                path: path@,
                audio: *audio,
                library: *library,
            },
            CameraCall::StopVideo { input } => CameraCallView::StopVideo { input: *input },
            CameraCall::Control { input, control } => CameraCallView::Control {
                input: *input,
                control: *control,
            },
            CameraCall::Captured => CameraCallView::Captured,
            CameraCall::Redraw => CameraCallView::Redraw,
        }
    }
}

/// What a list of calls says.
pub open spec fn said(v: Seq<CameraCall>) -> Seq<CameraCallView> {
    v.map_values(|c: CameraCall| c@)
}

/// A preview, and what it has told the host to do.
pub struct Told {
    pub now: PreviewView,
    pub calls: Seq<CameraCallView>,
}

// ---------------------------------------------------------------------------
// What a preview does
// ---------------------------------------------------------------------------

pub open spec fn permission_name(status: PermissionStatus) -> Seq<char> {
    match status {
        PermissionStatus::Granted => "Granted"@,
        PermissionStatus::DeniedCanRetry => "DeniedCanRetry"@,
        PermissionStatus::DeniedPermanent => "DeniedPermanent"@,
        PermissionStatus::NotDetermined => "NotDetermined"@,
    }
}

/// Whether the viewfinder has another shape than the camera was opened for: they differ
/// by more than a twentieth.
pub open spec fn is_reshaped(s: PreviewState) -> bool {
    20 * (s.aspect - s.open_aspect) > ASPECT_ONE || 20 * (s.open_aspect - s.aspect) > ASPECT_ONE
}

fn has_new_shape(s: &PreviewState) -> (r: bool)
    ensures
        r == is_reshaped(*s),
{
    let (a, b): (u128, u128) = (s.aspect as u128, s.open_aspect as u128);
    let one: u128 = ASPECT_ONE as u128;
    if a < b {
        20 * (b - a) > one
    } else {
        20 * (a - b) > one
    }
}

/// Whether the camera is open, or on its way to be.
pub open spec fn is_open(s: PreviewState) -> bool {
    s.state is Starting || s.state is Running
}

/// An error is held, and the script hears of it.
pub open spec fn failed(t: Told, why: Seq<char>) -> Told {
    Told {
        now: PreviewView { last_error: why, ..t.now },
        calls: t.calls.push(CameraCallView::Fail),
    }
}

/// The camera is closed, and a recording with it; whether the app wants a preview
/// is kept.
pub open spec fn halted(t: Told) -> Told {
    if is_open(t.now.state) {
        let calls = match (t.now.recording, t.now.state.input) {
            (Some(_), Some(input)) => t.calls.push(CameraCallView::StopVideo { input }),
            _ => t.calls,
        };
        Told {
            now: PreviewView {
                state: PreviewState { state: CameraState::Stopping, ..t.now.state },
                recording: None,
                ..t.now
            },
            calls: calls.push(CameraCallView::Close),
        }
    } else {
        t
    }
}

/// The first camera on a side.
pub open spec fn on_side(cameras: Seq<ChoiceView>, front: bool, from: int) -> Option<int>
    decreases cameras.len() - from,
{
    if from < 0 || from >= cameras.len() {
        None
    } else if cameras[from].front == front {
        Some(from)
    } else {
        on_side(cameras, front, from + 1)
    }
}

/// The camera that is opened: the first on the side that is wanted, else the
/// first of all.
pub open spec fn chosen(cameras: Seq<ChoiceView>, front: bool) -> Option<int> {
    match on_side(cameras, front, 0) {
        Some(i) => Some(i),
        None => if cameras.len() > 0 {
            Some(0)
        } else {
            None
        },
    }
}

/// The chosen camera is opened, if it can be previewed.
pub open spec fn opened(t: Told) -> Told {
    let s = t.now.state;
    match chosen(t.now.cameras, s.want_front) {
        Some(i) => match spec_format_for(t.now.cameras[i].formats, s.aspect) {
            Some(f) => {
                let camera = t.now.cameras[i];
                let calls = t.calls.push(
                    CameraCallView::Open { input: camera.input_id, format: f.format_id },
                );
                Told {
                    now: PreviewView {
                        state: PreviewState {
                            state: CameraState::Starting,
                            input: Some(camera.input_id),
                            open_front: camera.front,
                            open_aspect: s.aspect,
                            ..s
                        },
                        ..t.now
                    },
                    calls: calls.push(CameraCallView::Register),
                }
            },
            None => t,
        },
        None => t,
    }
}

/// Whether the wait for an answer on the permission is still on.
pub open spec fn waits(s: PreviewState, now: u64) -> bool {
    s.permission is None && now - s.asked_at < PERMISSION_GRACE
}

/// One step towards what the app wants.
#[verifier::opaque]
pub open spec fn driven(t: Told, now: u64) -> Told {
    let s = t.now.state;
    match s.state {
        CameraState::Running => if (s.want_front != s.open_front || is_reshaped(s)) && on_side(
            t.now.cameras,
            s.want_front,
            0,
        ) is Some {
            halted(t)
        } else {
            t
        },
        CameraState::Idle => if !s.wanted {
            t
        } else {
            match s.permission {
                Some(PermissionStatus::Granted) => opened(t),
                Some(status) => failed(
                    Told {
                        now: PreviewView {
                            state: PreviewState { wanted: false, ..s },
                            ..t.now
                        },
                        ..t
                    },
                    "camera permission "@ + permission_name(status),
                ),
                None => if waits(s, now) {
                    t
                } else {
                    opened(
                        Told {
                            now: PreviewView {
                                state: PreviewState {
                                    permission: Some(PermissionStatus::Granted),
                                    ..s
                                },
                                ..t.now
                            },
                            ..t
                        },
                    )
                },
            }
        },
        _ => t,
    }
}

/// A call, where it is due.
pub open spec fn then_if(t: Told, due: bool, call: CameraCallView, s: PreviewState) -> Told {
    if due {
        Told { now: PreviewView { state: s, ..t.now }, calls: t.calls.push(call) }
    } else {
        t
    }
}

/// The app asks for a preview.
pub open spec fn started(t: Told, granted: bool, now: u64) -> Told {
    if !granted {
        failed(t, "this app was not granted the camera"@)
    } else {
        let s0 = PreviewState { wanted: true, ..t.now.state };
        let t0 = Told { now: PreviewView { state: s0, ..t.now }, ..t };
        let s1 = PreviewState { asked_at: now, ..s0 };
        let t1 = then_if(t0, s0.permission is None, CameraCallView::RequestCamera, s1);
        let t2 = then_if(
            t1,
            t.now.cameras.len() == 0,
            CameraCallView::ListCameras,
            t1.now.state,
        );
        let t3 = then_if(
            t2,
            !s0.timer,
            CameraCallView::StartTimer,
            PreviewState { timer: true, ..t2.now.state },
        );
        driven(
            Told {
                now: PreviewView { state: PreviewState { drawn: true, ..t3.now.state }, ..t3.now },
                ..t3
            },
            now,
        )
    }
}

/// The app stops the preview.
pub open spec fn stopped(t: Told) -> Told {
    let h = halted(
        Told {
            now: PreviewView { state: PreviewState { wanted: false, ..t.now.state }, ..t.now },
            ..t
        },
    );
    then_if(
        h,
        h.now.state.timer,
        CameraCallView::StopTimer,
        PreviewState { timer: false, ..h.now.state },
    )
}

/// Where a capture is kept: the app's own name of it, and the file.
pub struct CapturePlace {
    pub relative: String,
    pub file: String,
}

/// Whether the camera runs, and which one.
pub open spec fn running(s: PreviewState) -> Option<u64> {
    if s.state is Running {
        s.input
    } else {
        None
    }
}

/// The app takes a picture.
pub open spec fn pictured(t: Told, place: Option<CapturePlace>, library: bool) -> Told {
    match running(t.now.state) {
        None => failed(t, "the camera is not running"@),
        Some(input) => match place {
            None => failed(t, "this app's storage is full or missing"@),
            Some(p) => Told {
                now: PreviewView { last: p.relative@, ..t.now },
                calls: t.calls.push(CameraCallView::Photo { input, path: p.file@, library }),
            },
        },
    }
}

/// The app starts a recording.
pub open spec fn recorded(t: Told, place: Option<CapturePlace>, audio: bool, library: bool) -> Told {
    match running(t.now.state) {
        None => failed(t, "the camera is not running"@),
        Some(input) => if t.now.recording is Some {
            t
        } else {
            match place {
                None => failed(t, "this app's storage is full or missing"@),
                Some(p) => {
                    let calls = if audio {
                        t.calls.push(CameraCallView::RequestMicrophone)
                    } else {
                        t.calls
                    };
                    Told {
                        now: PreviewView { recording: Some(p.relative@), ..t.now },
                        calls: calls.push(
                            CameraCallView::StartVideo { input, path: p.file@, audio, library },
                        ),
                    }
                },
            }
        },
    }
}

/// What is said of a capture that failed.
pub open spec fn failure(what: CaptureKind, error: Seq<char>) -> Seq<char> {
    (match what {
        CaptureKind::Capture => "capture"@,
        CaptureKind::Photo => "photo"@,
        CaptureKind::Video => "video"@,
    }) + " failed: "@ + error
}

/// A capture has come to an end.
#[verifier::opaque]
pub open spec fn captured(t: Told, result: CameraCaptureResult) -> Told {
    match result {
        CameraCaptureResult::Photo { .. } => Told {
            calls: t.calls.push(CameraCallView::Captured),
            ..t
        },
        CameraCaptureResult::VideoStopped { .. } => Told {
            now: match t.now.recording {
                Some(name) => PreviewView { last: name, recording: None, ..t.now },
                None => t.now,
            },
            calls: t.calls.push(CameraCallView::Captured),
        },
        CameraCaptureResult::Failed { what, error } => failed(
            if what is Video {
                Told { now: PreviewView { recording: None, ..t.now }, ..t }
            } else {
                t
            },
            failure(what, error@),
        ),
        _ => t,
    }
}

/// The watchdog looks.
#[verifier::opaque]
pub open spec fn watched(t: Told, now: u64) -> Told {
    if !t.now.state.timer {
        t
    } else if t.now.state.drawn {
        let t0 = Told {
            now: PreviewView { state: PreviewState { drawn: false, ..t.now.state }, ..t.now },
            ..t
        };
        let t1 = if t0.now.state.state is Idle {
            driven(t0, now)
        } else {
            t0
        };
        Told { calls: t1.calls.push(CameraCallView::Redraw), ..t1 }
    } else {
        halted(t)
    }
}

/// A preview that has told nothing yet.
pub open spec fn quiet(v: PreviewView) -> Told {
    Told { now: v, calls: seq![] }
}

/// A camera that the platform lists.
pub struct CameraDesc {
    pub input_id: u64,
    pub name: String,
    pub formats: Vec<PreviewFormat>,
}

/// The first `n` cameras of a list, those of them that can be previewed.
pub open spec fn listed(descs: Seq<CameraDesc>, n: int) -> Seq<ChoiceView>
    decreases n,
{
    if n <= 0 {
        seq![]
    } else {
        let d = descs[n - 1];
        let before = listed(descs, n - 1);
        if spec_format_for(d.formats@, PHOTO_ASPECT) is Some {
            before.push(
                ChoiceView {
                    input_id: d.input_id,
                    front: lower_is_front(in_lower_case(d.name@), n - 1, descs.len() as int),
                    formats: d.formats@,
                },
            )
        } else {
            before
        }
    }
}

/// What happens to a preview.
pub enum CameraEvent {
    /// The watchdog's time.
    Tick,
    /// The answer on the camera's permission.
    Permission(PermissionStatus),
    /// The platform's list of cameras.
    Cameras(Vec<CameraDesc>),
    /// The camera delivers frames.
    Prepared,
    /// The camera is closed.
    Released,
    DecodingError(String),
    /// A capture of a camera has come to an end.
    Capture { input: u64, result: CameraCaptureResult },
}

/// A preview in another state of its camera.
pub open spec fn in_state(t: Told, state: CameraState) -> Told {
    Told { now: PreviewView { state: PreviewState { state, ..t.now.state }, ..t.now }, ..t }
}

/// A preview after an event.
pub open spec fn evented(t: Told, event: CameraEvent, now: u64) -> Told {
    let s = t.now.state;
    match event {
        CameraEvent::Tick => watched(t, now),
        CameraEvent::Permission(status) => driven(
            Told {
                now: PreviewView {
                    state: PreviewState { permission: Some(status), ..s },
                    ..t.now
                },
                ..t
            },
            now,
        ),
        CameraEvent::Cameras(descs) => driven(
            Told {
                now: PreviewView { cameras: listed(descs@, descs@.len() as int), ..t.now },
                ..t
            },
            now,
        ),
        CameraEvent::Prepared => if s.state is Starting {
            in_state(t, CameraState::Running)
        } else {
            t
        },
        CameraEvent::Released => if s.state is Stopping {
            in_state(t, CameraState::Idle)
        } else {
            t
        },
        CameraEvent::DecodingError(error) => if is_open(s) {
            failed(in_state(t, CameraState::Idle), "the camera stopped: "@ + error@)
        } else {
            t
        },
        CameraEvent::Capture { input, result } => if Some(input) == s.input {
            captured(t, result)
        } else {
            t
        },
    }
}

// ---------------------------------------------------------------------------
// Doing it
// ---------------------------------------------------------------------------

fn tell(out: &mut Vec<CameraCall>, call: CameraCall)
    ensures
        said(final(out)@) == said(old(out)@).push(call@),
{
    out.push(call);
    assert(said(out@) =~= said(old(out)@).push(call@));
}

fn two(a: &str, b: &str) -> (r: String)
    ensures
        r@ == a@ + b@,
{
    let mut out: Vec<char> = Vec::new();
    push_text(&mut out, a);
    push_text(&mut out, b);
    assert(out@ =~= a@ + b@);
    to_text(out.as_slice())
}

pub open spec fn told(p: &CameraPreview, out: &Vec<CameraCall>) -> Told {
    Told { now: p@, calls: said(out@) }
}

impl CameraPreview {
    pub fn new() -> (r: CameraPreview)
        ensures
            r@ == (PreviewView {
                state: PreviewState {
                    wanted: false,
                    state: CameraState::Idle,
                    want_front: false,
                    input: None,
                    open_front: false,
                    aspect: FIRST_ASPECT,
                    open_aspect: 0,
                    permission: None,
                    asked_at: 0,
                    timer: false,
                    drawn: false,
                },
                cameras: seq![],
                recording: None,
                last: seq![],
                last_error: seq![],
            }),
    {
        let r = CameraPreview {
            state: PreviewState {
                wanted: false,
                state: CameraState::Idle,
                want_front: false,
                input: None,
                open_front: false,
                aspect: FIRST_ASPECT,
                open_aspect: 0,
                permission: None,
                asked_at: 0,
                timer: false,
                drawn: false,
            },
            cameras: Vec::new(),
            recording: None,
            last: String::new(),
            last_error: String::new(),
        };
        assert(r@.cameras =~= seq![]);
        assert(r@.last =~= seq![]);
        assert(r@.last_error =~= seq![]);
        r
    }

    fn fail(&mut self, out: &mut Vec<CameraCall>, why: String)
        ensures
            told(final(self), final(out)) == failed(told(old(self), old(out)), why@),
    {
        self.last_error = why;
        tell(out, CameraCall::Fail);
    }

    fn halt(&mut self, out: &mut Vec<CameraCall>)
        ensures
            told(final(self), final(out)) == halted(told(old(self), old(out))),
    {
        match self.state.state {
            CameraState::Starting | CameraState::Running => {
                if self.recording.is_some() {
                    if let Some(input) = self.state.input {
                        tell(out, CameraCall::StopVideo { input });
                    }
                }
                self.recording = None;
                self.state.state = CameraState::Stopping;
                tell(out, CameraCall::Close);
            },
            _ => {},
        }
    }

    fn first_on_side(&self, front: bool) -> (r: Option<usize>)
        ensures
            match r {
                Some(i) => i < self.cameras.len() && on_side(self@.cameras, front, 0) == Some(
                    i as int,
                ),
                None => on_side(self@.cameras, front, 0) is None,
            },
    {
        let mut i: usize = 0;
        while i < self.cameras.len()
            invariant
                i <= self.cameras.len(),
                on_side(self@.cameras, front, 0) == on_side(self@.cameras, front, i as int),
            decreases self.cameras.len() - i,
        {
            assert(self@.cameras[i as int] == self.cameras@[i as int]@);
            if self.cameras[i].front == front {
                return Some(i);
            }
            i = i + 1;
        }
        None
    }

    fn open(&mut self, out: &mut Vec<CameraCall>)
        ensures
            told(final(self), final(out)) == opened(told(old(self), old(out))),
    {
        let i = match self.first_on_side(self.state.want_front) {
            Some(i) => i,
            None => {
                if self.cameras.len() == 0 {
                    return;
                }
                0
            },
        };
        assert(self@.cameras[i as int] == self.cameras@[i as int]@);
        if let Some(f) = self.cameras[i].format_for(self.state.aspect) {
            let input = self.cameras[i].input_id;
            tell(out, CameraCall::Open { input, format: f.format_id });
            tell(out, CameraCall::Register);
            self.state = PreviewState {
                state: CameraState::Starting,
                input: Some(input),
                open_front: self.cameras[i].front,
                open_aspect: self.state.aspect,
                ..self.state
            };
        }
    }

    fn drive(&mut self, out: &mut Vec<CameraCall>, now: u64)
        ensures
            told(final(self), final(out)) == driven(told(old(self), old(out)), now),
    {
        reveal(driven);
        match self.state.state {
            CameraState::Running => {
                if (self.state.want_front != self.state.open_front || has_new_shape(&self.state))
                    && self.first_on_side(self.state.want_front).is_some() {
                    self.halt(out);
                }
            },
            CameraState::Idle => {
                if self.state.wanted {
                    match self.state.permission {
                        Some(PermissionStatus::Granted) => {
                            self.open(out);
                        },
                        Some(status) => {
                            self.state.wanted = false;
                            let name = match status {
                                PermissionStatus::Granted => "Granted",
                                PermissionStatus::DeniedCanRetry => "DeniedCanRetry",
                                PermissionStatus::DeniedPermanent => "DeniedPermanent",
                                PermissionStatus::NotDetermined => "NotDetermined",
                            };
                            self.fail(out, two("camera permission ", name));
                        },
                        None => {
                            if now < self.state.asked_at || now - self.state.asked_at
                                < PERMISSION_GRACE {
                                return;
                            }
                            self.state.permission = Some(PermissionStatus::Granted);
                            self.open(out);
                        },
                    }
                }
            },
            _ => {},
        }
    }

    /// The app asks for a preview; `granted` is whether it may have one. Whether
    /// it may.
    pub fn start(&mut self, granted: bool, now: u64) -> (r: (bool, Vec<CameraCall>))
        ensures
            r.0 == granted,
            told(final(self), &r.1) == started(quiet(old(self)@), granted, now),
    {
        let mut out: Vec<CameraCall> = Vec::new();
        assert(said(out@) =~= seq![]);
        if !granted {
            self.fail(&mut out, "this app was not granted the camera".to_owned());
            return (false, out);
        }
        self.state.wanted = true;
        if self.state.permission.is_none() {
            self.state.asked_at = now;
            tell(&mut out, CameraCall::RequestCamera);
        }
        if self.cameras.len() == 0 {
            tell(&mut out, CameraCall::ListCameras);
        }
        if !self.state.timer {
            self.state.timer = true;
            tell(&mut out, CameraCall::StartTimer);
        }
        self.state.drawn = true;
        self.drive(&mut out, now);
        (true, out)
    }

    /// The app stops the preview.
    pub fn stop(&mut self) -> (r: Vec<CameraCall>)
        ensures
            told(final(self), &r) == stopped(quiet(old(self)@)),
    {
        let mut out: Vec<CameraCall> = Vec::new();
        assert(said(out@) =~= seq![]);
        self.state.wanted = false;
        self.halt(&mut out);
        if self.state.timer {
            self.state.timer = false;
            tell(&mut out, CameraCall::StopTimer);
        }
        out
    }

    /// The app wants the front camera, or the back one.
    pub fn face(&mut self, front: bool, now: u64) -> (r: Vec<CameraCall>)
        ensures
            told(final(self), &r) == faced(quiet(old(self)@), front, now),
    {
        let mut out: Vec<CameraCall> = Vec::new();
        assert(said(out@) =~= seq![]);
        self.state.want_front = front;
        self.drive(&mut out, now);
        out
    }

    /// The app wants a viewfinder of another shape.
    pub fn set_aspect(&mut self, aspect: u64, now: u64) -> (r: Vec<CameraCall>)
        ensures
            told(final(self), &r) == shaped(quiet(old(self)@), aspect, now),
    {
        let mut out: Vec<CameraCall> = Vec::new();
        assert(said(out@) =~= seq![]);
        self.state.aspect = aspect;
        self.drive(&mut out, now);
        out
    }

    /// The app takes a picture; `place` is where it is kept, if the app has room.
    /// Whether a picture is taken.
    pub fn capture(&mut self, place: Option<CapturePlace>, library: bool) -> (r: (
        bool,
        Vec<CameraCall>,
    ))
        ensures
            r.0 == (running(old(self).state) is Some && place is Some),
            told(final(self), &r.1) == pictured(quiet(old(self)@), place, library),
    {
        let mut out: Vec<CameraCall> = Vec::new();
        assert(said(out@) =~= seq![]);
        match self.running_input() {
            None => {
                self.fail(&mut out, "the camera is not running".to_owned());
                (false, out)
            },
            Some(input) => match place {
                None => {
                    self.fail(&mut out, "this app's storage is full or missing".to_owned());
                    (false, out)
                },
                Some(p) => {
                    self.last = p.relative;
                    tell(&mut out, CameraCall::Photo { input, path: p.file, library });
                    (true, out)
                },
            },
        }
    }

    /// The app starts a recording; `place` is where it is kept, if the app has
    /// room. Whether one runs.
    pub fn record_start(&mut self, place: Option<CapturePlace>, audio: bool, library: bool) -> (r: (
        bool,
        Vec<CameraCall>,
    ))
        ensures
            r.0 == (running(old(self).state) is Some && (old(self).recording is Some
                || place is Some)),
            told(final(self), &r.1) == recorded(quiet(old(self)@), place, audio, library),
    {
        let mut out: Vec<CameraCall> = Vec::new();
        assert(said(out@) =~= seq![]);
        match self.running_input() {
            None => {
                self.fail(&mut out, "the camera is not running".to_owned());
                (false, out)
            },
            Some(input) => {
                if self.recording.is_some() {
                    return (true, out);
                }
                match place {
                    None => {
                        self.fail(&mut out, "this app's storage is full or missing".to_owned());
                        (false, out)
                    },
                    Some(p) => {
                        if audio {
                            tell(&mut out, CameraCall::RequestMicrophone);
                        }
                        self.recording = Some(p.relative);
                        tell(
                            &mut out,
                            CameraCall::StartVideo { input, path: p.file, audio, library },
                        );
                        (true, out)
                    },
                }
            },
        }
    }

    /// The app stops its recording. The recording ends when the camera says so.
    pub fn record_stop(&self) -> (r: Option<CameraCall>)
        ensures
            match r {
                Some(call) => self.recording is Some && (self.state.input matches Some(input)
                    && call@ == (CameraCallView::StopVideo { input })),
                None => self.recording is None || self.state.input is None,
            },
    {
        match (self.state.input, &self.recording) {
            (Some(input), Some(_)) => Some(CameraCall::StopVideo { input }),
            _ => None,
        }
    }

    /// The camera that runs.
    pub fn running_input(&self) -> (r: Option<u64>)
        ensures
            r == running(self.state),
    {
        match self.state.state {
            CameraState::Running => self.state.input,
            _ => None,
        }
    }

    /// The camera is told something, if it runs.
    pub fn control(&self, control: CameraControl) -> (r: Option<CameraCall>)
        ensures
            match r {
                Some(call) => running(self.state) matches Some(input) && call@ == (
                CameraCallView::Control { input, control }),
                None => running(self.state) is None,
            },
    {
        match self.running_input() {
            Some(input) => Some(CameraCall::Control { input, control }),
            None => None,
        }
    }

    fn captured(&mut self, out: &mut Vec<CameraCall>, result: CameraCaptureResult)
        ensures
            told(final(self), final(out)) == captured(told(old(self), old(out)), result),
    {
        reveal(captured);
        match result {
            CameraCaptureResult::Photo { .. } => {
                tell(out, CameraCall::Captured);
            },
            CameraCaptureResult::VideoStopped { .. } => {
                let mut ended: Option<String> = None;
                core::mem::swap(&mut self.recording, &mut ended);
                if let Some(name) = ended {
                    self.last = name;
                }
                tell(out, CameraCall::Captured);
            },
            CameraCaptureResult::Failed { what, error } => {
                if what == CaptureKind::Video {
                    self.recording = None;
                }
                let begin = two(what.name(), " failed: ");
                let why = two(begin.as_str(), error.as_str());
                self.fail(out, why);
            },
            _ => {},
        }
    }

    fn watch(&mut self, out: &mut Vec<CameraCall>, now: u64)
        ensures
            told(final(self), final(out)) == watched(told(old(self), old(out)), now),
    {
        reveal(watched);
        if self.state.timer {
            if self.state.drawn {
                self.state.drawn = false;
                if self.state.state == CameraState::Idle {
                    self.drive(out, now);
                }
                tell(out, CameraCall::Redraw);
            } else {
                self.halt(out);
            }
        }
    }

    /// The preview has been drawn.
    pub fn draw(&mut self)
        ensures
            final(self)@ == (PreviewView {
                state: PreviewState { drawn: true, ..old(self).state },
                ..old(self)@
            }),
    {
        self.state.drawn = true;
    }

    /// Something happened to the preview.
    pub fn handle_event(&mut self, event: CameraEvent, now: u64) -> (r: Vec<CameraCall>)
        ensures
            told(final(self), &r) == evented(quiet(old(self)@), event, now),
    {
        let mut out: Vec<CameraCall> = Vec::new();
        assert(said(out@) =~= seq![]);
        match event {
            CameraEvent::Tick => {
                self.watch(&mut out, now);
            },
            CameraEvent::Permission(status) => {
                self.state.permission = Some(status);
                self.drive(&mut out, now);
            },
            CameraEvent::Cameras(descs) => {
                self.cameras = previewable(descs);
                self.drive(&mut out, now);
            },
            CameraEvent::Prepared => {
                if self.state.state == CameraState::Starting {
                    self.state.state = CameraState::Running;
                }
            },
            CameraEvent::Released => {
                if self.state.state == CameraState::Stopping {
                    self.state.state = CameraState::Idle;
                }
            },
            CameraEvent::DecodingError(error) => {
                match self.state.state {
                    CameraState::Starting | CameraState::Running => {
                        self.state.state = CameraState::Idle;
                        self.fail(&mut out, two("the camera stopped: ", error.as_str()));
                    },
                    _ => {},
                }
            },
            CameraEvent::Capture { input, result } => {
                let ours = match self.state.input {
                    Some(i) => i == input,
                    None => false,
                };
                if ours {
                    self.captured(&mut out, result);
                }
            },
        }
        out
    }
}

/// The app wants the front camera, or the back one.
pub open spec fn faced(t: Told, front: bool, now: u64) -> Told {
    driven(
        Told {
            now: PreviewView { state: PreviewState { want_front: front, ..t.now.state }, ..t.now },
            ..t
        },
        now,
    )
}

/// The app wants a viewfinder of another shape.
pub open spec fn shaped(t: Told, aspect: u64, now: u64) -> Told {
    driven(
        Told { now: PreviewView { state: PreviewState { aspect, ..t.now.state }, ..t.now }, ..t },
        now,
    )
}

/// Whether a viewfinder can have a shape: wider than a fifth of its height, and narrower
/// than five times it.
pub open spec fn is_shape(aspect: u64) -> bool {
    5 * aspect > ASPECT_ONE && aspect < 5 * ASPECT_ONE
}

/// The cameras of a list that can be previewed.
fn previewable(descs: Vec<CameraDesc>) -> (r: Vec<CameraChoice>)
    ensures
        choices(r@) == listed(descs@, descs@.len() as int),
{
    let mut r: Vec<CameraChoice> = Vec::new();
    let mut i: usize = 0;
    assert(choices(r@) =~= seq![]);
    while i < descs.len()
        invariant
            i <= descs.len(),
            choices(r@) == listed(descs@, i as int),
        decreases descs.len() - i,
    {
        let front = is_front(descs[i].name.as_str(), i, descs.len());
        let formats = copied(&descs[i].formats);
        let choice = CameraChoice { input_id: descs[i].input_id, front, formats };
        if choice.format_for(PHOTO_ASPECT).is_some() {
            let ghost before = r@;
            r.push(choice);
            assert(choices(r@) =~= choices(before).push(choice@));
        }
        i = i + 1;
    }
    r
}

fn copied(formats: &Vec<PreviewFormat>) -> (r: Vec<PreviewFormat>)
    ensures
        r@ == formats@,
{
    let mut r: Vec<PreviewFormat> = Vec::new();
    let mut i: usize = 0;
    while i < formats.len()
        invariant
            i <= formats.len(),
            r@ == formats@.take(i as int),
        decreases formats.len() - i,
    {
        r.push(formats[i]);
        i = i + 1;
        assert(r@ =~= formats@.take(i as int));
    }
    assert(r@ =~= formats@);
    r
}

// ---------------------------------------------------------------------------
// From script
// ---------------------------------------------------------------------------

/// A method of a preview, with what a script gave it.
pub enum ScriptCall {
    /// Whether the app may have a preview.
    Start { granted: bool },
    Stop,
    Switch,
    SetFacing(Option<String>),
    /// The shape that the script gave, if that is a number of its range.
    SetAspect(Option<u64>),
    Facing,
    Capture { place: Option<CapturePlace>, library: bool },
    RecordStart { place: Option<CapturePlace>, audio: bool, library: bool },
    RecordStop,
    IsRecording,
    IsRunning,
    Control(Option<CameraControl>),
    SetFlash(Option<String>),
    Last,
    Error,
}

/// What a script gets back.
pub enum ScriptAnswer {
    Nil,
    Flag(bool),
    Text(String),
}

pub enum ScriptAnswerView {
    Nil,
    Flag(bool),
    Text(Seq<char>),
}

impl View for ScriptAnswer {
    type V = ScriptAnswerView;

    open spec fn view(&self) -> ScriptAnswerView {
        match self {
            ScriptAnswer::Nil => ScriptAnswerView::Nil,
            ScriptAnswer::Flag(b) => ScriptAnswerView::Flag(*b),
            ScriptAnswer::Text(t) => ScriptAnswerView::Text(t@),
        }
    }
}

/// A camera that runs is told something.
pub open spec fn controlled(t: Told, control: CameraControl) -> Told {
    match running(t.now.state) {
        Some(input) => Told {
            calls: t.calls.push(CameraCallView::Control { input, control }),
            ..t
        },
        None => t,
    }
}

/// A preview after a script's call.
pub open spec fn called(t: Told, call: ScriptCall, now: u64) -> Told {
    match call {
        ScriptCall::Start { granted } => started(t, granted, now),
        ScriptCall::Stop => stopped(t),
        ScriptCall::Switch => faced(t, !t.now.state.want_front, now),
        ScriptCall::SetFacing(Some(facing)) => faced(t, facing@ == "front"@, now),
        ScriptCall::SetAspect(Some(aspect)) => if is_shape(aspect) {
            shaped(t, aspect, now)
        } else {
            t
        },
        ScriptCall::Capture { place, library } => pictured(t, place, library),
        ScriptCall::RecordStart { place, audio, library } => recorded(t, place, audio, library),
        ScriptCall::RecordStop => match (t.now.state.input, t.now.recording) {
            (Some(input), Some(_)) => Told {
                calls: t.calls.push(CameraCallView::StopVideo { input }),
                ..t
            },
            _ => t,
        },
        ScriptCall::Control(Some(control)) => controlled(t, control),
        ScriptCall::SetFlash(Some(name)) => match spec_flash_mode(name@) {
            Some(mode) => controlled(t, CameraControl::Flash(mode)),
            None => t,
        },
        _ => t,
    }
}

/// What a script gets back from a call on a preview.
pub open spec fn answered(v: PreviewView, call: ScriptCall) -> ScriptAnswerView {
    match call {
        ScriptCall::Start { granted } => ScriptAnswerView::Flag(granted),
        ScriptCall::Facing => ScriptAnswerView::Text(
            if v.state.want_front {
                "front"@
            } else {
                "back"@
            },
        ),
        ScriptCall::Capture { place, .. } => ScriptAnswerView::Flag(
            running(v.state) is Some && place is Some,
        ),
        ScriptCall::RecordStart { place, .. } => ScriptAnswerView::Flag(
            running(v.state) is Some && (v.recording is Some || place is Some),
        ),
        ScriptCall::IsRecording => ScriptAnswerView::Flag(v.recording is Some),
        ScriptCall::IsRunning => ScriptAnswerView::Flag(v.state.state is Running),
        ScriptCall::Last => ScriptAnswerView::Text(v.last),
        ScriptCall::Error => ScriptAnswerView::Text(v.last_error),
        _ => ScriptAnswerView::Nil,
    }
}

fn one(call: Option<CameraCall>) -> (r: Vec<CameraCall>)
    ensures
        said(r@) == match call {
            Some(c) => Seq::<CameraCallView>::empty().push(c@),
            None => Seq::<CameraCallView>::empty(),
        },
{
    let mut out: Vec<CameraCall> = Vec::new();
    assert(said(out@) =~= Seq::<CameraCallView>::empty());
    if let Some(c) = call {
        tell(&mut out, c);
    }
    out
}

impl CameraPreview {
    /// A script calls a method of the preview.
    pub fn script_call(&mut self, call: ScriptCall, now: u64) -> (r: (
        ScriptAnswer,
        Vec<CameraCall>,
    ))
        ensures
            told(final(self), &r.1) == called(quiet(old(self)@), call, now),
            r.0@ == answered(old(self)@, call),
    {
        match call {
            ScriptCall::Start { granted } => {
                let (ok, out) = self.start(granted, now);
                (ScriptAnswer::Flag(ok), out)
            },
            ScriptCall::Stop => {
                let out = self.stop();
                (ScriptAnswer::Nil, out)
            },
            ScriptCall::Switch => {
                let out = self.face(!self.state.want_front, now);
                (ScriptAnswer::Nil, out)
            },
            ScriptCall::SetFacing(facing) => {
                let out = match facing {
                    Some(facing) => self.face(same_text(facing.as_str(), "front"), now),
                    None => one(None),
                };
                (ScriptAnswer::Nil, out)
            },
            ScriptCall::SetAspect(shape) => {
                let out = match shape {
                    Some(aspect) => if aspect > ASPECT_ONE / 5 && aspect < 5 * ASPECT_ONE {
                        self.set_aspect(aspect, now)
                    } else {
                        one(None)
                    },
                    None => one(None),
                };
                (ScriptAnswer::Nil, out)
            },
            ScriptCall::Facing => {
                let name = if self.state.want_front {
                    "front".to_owned()
                } else {
                    "back".to_owned()
                };
                (ScriptAnswer::Text(name), one(None))
            },
            ScriptCall::Capture { place, library } => {
                let (ok, out) = self.capture(place, library);
                (ScriptAnswer::Flag(ok), out)
            },
            ScriptCall::RecordStart { place, audio, library } => {
                let (ok, out) = self.record_start(place, audio, library);
                (ScriptAnswer::Flag(ok), out)
            },
            ScriptCall::RecordStop => (ScriptAnswer::Nil, one(self.record_stop())),
            ScriptCall::IsRecording => (
                ScriptAnswer::Flag(self.recording.is_some()),
                one(None),
            ),
            ScriptCall::IsRunning => (
                ScriptAnswer::Flag(self.state.state == CameraState::Running),
                one(None),
            ),
            ScriptCall::Control(control) => {
                let out = match control {
                    Some(control) => one(self.control(control)),
                    None => one(None),
                };
                (ScriptAnswer::Nil, out)
            },
            ScriptCall::SetFlash(name) => {
                let mode = match &name {
                    Some(name) => flash_mode(name.as_str()),
                    None => None,
                };
                let out = match mode {
                    Some(mode) => one(self.control(CameraControl::Flash(mode))),
                    None => one(None),
                };
                (ScriptAnswer::Nil, out)
            },
            ScriptCall::Last => (ScriptAnswer::Text(self.last.clone()), one(None)),
            ScriptCall::Error => (ScriptAnswer::Text(self.last_error.clone()), one(None)),
        }
    }
}

/// An app's own name of a capture: its kind, and the time at which it was made.
pub open spec fn capture_name(kind: Seq<char>, now: u64, ext: Seq<char>) -> Seq<char> {
    "DCIM/"@ + kind + "_"@ + spec_decimal(now as nat) + "."@ + ext
}

/// An app's own name of a capture; `now` is the time in milliseconds.
pub fn capture_relative_path(kind: &str, now: u64, ext: &str) -> (r: String)
    ensures
        r@ == capture_name(kind@, now, ext@),
{
    let number = decimal(now);
    let mut out: Vec<char> = Vec::new();
    push_text(&mut out, "DCIM/");
    push_text(&mut out, kind);
    push_text(&mut out, "_");
    push_all(&mut out, number.as_slice());
    push_text(&mut out, ".");
    push_text(&mut out, ext);
    assert(out@ =~= capture_name(kind@, now, ext@));
    to_text(out.as_slice())
}

/// The file of a capture. A policed app's captures are its own: they land in its
/// jail, where there is room. The host's own surfaces write beside its data.
pub fn capture_path(
    relative: String,
    enforced: bool,
    has_room: bool,
    jailed: Option<String>,
    data_dir: Option<&str>,
) -> (r: Option<CapturePlace>)
    ensures
        match r {
            Some(place) => place.relative == relative && if enforced {
                has_room && jailed == Some(place.file)
            } else {
                data_dir matches Some(dir) && place.file@ == dir@ + "/"@ + relative@
            },
            None => if enforced {
                !has_room || jailed is None
            } else {
                data_dir is None
            },
        },
{
    if enforced {
        if !has_room {
            return None;
        }
        match jailed {
            Some(file) => Some(CapturePlace { relative, file }),
            None => None,
        }
    } else {
        match data_dir {
            Some(dir) => {
                let mut out: Vec<char> = Vec::new();
                push_text(&mut out, dir);
                push_text(&mut out, "/");
                push_text(&mut out, relative.as_str());
                assert(out@ =~= dir@ + "/"@ + relative@);
                Some(CapturePlace { relative, file: to_text(out.as_slice()) })
            },
            None => None,
        }
    }
}

// ---------------------------------------------------------------------------
// What holds of a preview
// ---------------------------------------------------------------------------

/// A camera that is not drawn between two looks of the watchdog is closed.
pub proof fn an_undrawn_camera_is_closed(t: Told, first: u64, second: u64)
    requires
        t.now.state.timer,
    ensures
        !is_open(watched(watched(t, first), second).now.state),
{
    reveal(watched);
    reveal(driven);
}

/// An app that has stopped its preview has no camera and no recording, and none
/// opens until it asks again.
pub proof fn a_stopped_preview_stays_closed(t: Told, now: u64)
    ensures
        !is_open(stopped(t).now.state),
        is_open(t.now.state) ==> stopped(t).now.recording is None,
        !stopped(t).now.state.timer,
        !is_open(driven(stopped(t), now).now.state),
        driven(stopped(t), now).calls == stopped(t).calls,
{
    reveal(driven);
}

/// A camera whose permission was denied is not opened, and is not wanted any more.
pub proof fn a_denied_camera_stays_closed(t: Told, now: u64, status: PermissionStatus)
    requires
        t.now.state.state is Idle,
        t.now.state.wanted,
        t.now.state.permission == Some(status),
        !(status is Granted),
    ensures
        driven(t, now).now.state.state is Idle,
        !driven(t, now).now.state.wanted,
{
    reveal(driven);
}

/// An open camera is known: what is open has an input, whatever happens to it.
pub proof fn an_open_camera_is_known(t: Told, now: u64)
    requires
        is_open(t.now.state) ==> t.now.state.input is Some,
    ensures
        is_open(driven(t, now).now.state) ==> driven(t, now).now.state.input is Some,
        is_open(watched(t, now).now.state) ==> watched(t, now).now.state.input is Some,
        is_open(stopped(t).now.state) ==> stopped(t).now.state.input is Some,
{
    reveal(watched);
    reveal(driven);
}

/// A camera that opens is listed with its heap, each time that it opens: it is among
/// those that are stopped with the heap, whether or not the heap was let go of before.
pub proof fn an_opened_camera_is_listed(t: Told, now: u64)
    requires
        t.now.state.state is Idle,
        is_open(driven(t, now).now.state),
    ensures
        driven(t, now).calls.len() >= 2,
        driven(t, now).calls.last() is Register,
        driven(t, now).calls[driven(t, now).calls.len() - 2] is Open,
{
    reveal(driven);
}

/// Closing a camera ends its recording first.
pub proof fn closing_ends_the_recording(t: Told, input: u64)
    requires
        is_open(t.now.state),
        t.now.state.input == Some(input),
        t.now.recording is Some,
    ensures
        halted(t).now.recording is None,
        halted(t).calls == t.calls.push(CameraCallView::StopVideo { input }).push(
            CameraCallView::Close,
        ),
{
}

proof fn side_is_found(cameras: Seq<ChoiceView>, front: bool, from: int)
    requires
        0 <= from <= cameras.len(),
    ensures
        match on_side(cameras, front, from) {
            Some(i) => from <= i < cameras.len() && cameras[i].front == front,
            None => forall|i: int|
                from <= i < cameras.len() ==> (#[trigger] cameras[i]).front != front,
        },
    decreases cameras.len() - from,
{
    if from < cameras.len() && cameras[from].front != front {
        side_is_found(cameras, front, from + 1);
    }
}

/// Whether a camera can be opened: it is wanted, allowed, and listed with a format.
pub open spec fn is_ready(v: PreviewView) -> bool {
    &&& v.state.state is Idle && v.state.wanted
    &&& v.state.permission == Some(PermissionStatus::Granted)
    &&& v.cameras.len() > 0
    &&& forall|i: int|
        0 <= i < v.cameras.len() ==> spec_format_for(
            (#[trigger] v.cameras[i]).formats,
            v.state.aspect,
        ) is Some
}

/// A camera that is wanted and allowed opens: one on the side that is asked for where there
/// is one, in the format that serves its preview best.
pub proof fn the_side_asked_for_is_opened(t: Told, now: u64)
    requires
        is_ready(t.now),
    ensures
        ({
            let after = driven(t, now);
            let s = after.now.state;
            &&& s.state is Starting && s.open_aspect == t.now.state.aspect
            &&& exists|i: int|
                0 <= i < t.now.cameras.len() && s.input == Some(
                    (#[trigger] t.now.cameras[i]).input_id,
                ) && s.open_front == t.now.cameras[i].front && after.calls == t.calls.push(
                    CameraCallView::Open {
                        input: t.now.cameras[i].input_id,
                        format: spec_format_for(
                            t.now.cameras[i].formats,
                            t.now.state.aspect,
                        )->0.format_id,
                    },
                ).push(CameraCallView::Register)
            &&& (exists|i: int|
                0 <= i < t.now.cameras.len() && (#[trigger] t.now.cameras[i]).front
                    == t.now.state.want_front) ==> s.open_front == t.now.state.want_front
        }),
{
    reveal(driven);
    side_is_found(t.now.cameras, t.now.state.want_front, 0);
    let i = chosen(t.now.cameras, t.now.state.want_front)->0;
    assert(spec_format_for(t.now.cameras[i].formats, t.now.state.aspect) is Some);
}

/// An app that asks for the camera gets it, or is told why not.
pub proof fn a_camera_that_is_asked_for_opens(t: Told, now: u64)
    requires
        is_ready(
            PreviewView { state: PreviewState { wanted: true, ..t.now.state }, ..t.now },
        ),
    ensures
        is_open(started(t, true, now).now.state),
        started(t, true, now).now.state.timer,
        !is_open(started(t, false, now).now.state),
        started(t, false, now).calls == t.calls.push(CameraCallView::Fail),
{
    let s0 = PreviewState { wanted: true, ..t.now.state };
    let t0 = Told { now: PreviewView { state: s0, ..t.now }, ..t };
    let t3 = then_if(
        t0,
        !s0.timer,
        CameraCallView::StartTimer,
        PreviewState { timer: true, ..s0 },
    );
    let ready = Told {
        now: PreviewView { state: PreviewState { drawn: true, ..t3.now.state }, ..t3.now },
        ..t3
    };
    assert(is_ready(ready.now)) by {
        assert forall|i: int| 0 <= i < ready.now.cameras.len() implies spec_format_for(
            (#[trigger] ready.now.cameras[i]).formats,
            ready.now.state.aspect,
        ) is Some by {
            assert(t0.now.cameras[i] == ready.now.cameras[i]);
            assert(spec_format_for(t0.now.cameras[i].formats, t0.now.state.aspect) is Some);
        }
    }
    the_side_asked_for_is_opened(ready, now);
    assert(started(t, true, now) == driven(ready, now));
    reveal(driven);
}

/// Turning to the other side closes the camera that runs, where the other side has one, and
/// once it is closed the other one opens. Turning to the same side changes nothing.
pub proof fn turning_round_changes_the_camera(t: Told, front: bool, now: u64, later: u64)
    requires
        t.now.state.state is Running,
        !is_reshaped(t.now.state),
        exists|i: int| 0 <= i < t.now.cameras.len() && (#[trigger] t.now.cameras[i]).front == front,
        t.now.recording is None,
    ensures
        t.now.state.open_front != front ==> ({
            let closing = faced(t, front, now);
            let closed = evented(closing, CameraEvent::Released, later);
            &&& closing.now.state.state is Stopping
            &&& closing.calls == t.calls.push(CameraCallView::Close)
            &&& closing.now.state.want_front == front
            &&& closed.now.state.state is Idle
            &&& is_ready(closed.now) ==> driven(closed, later).now.state.open_front == front
        }),
        t.now.state.open_front == front ==> faced(t, front, now).now.state.state is Running
            && faced(t, front, now).calls == t.calls,
{
    reveal(driven);
    side_is_found(t.now.cameras, front, 0);
    let closing = faced(t, front, now);
    let closed = evented(closing, CameraEvent::Released, later);
    if t.now.state.open_front != front && is_ready(closed.now) {
        assert(closed.now.cameras == t.now.cameras);
        the_side_asked_for_is_opened(closed, later);
    }
}

/// A preview that is reshaped by more than a twentieth is opened anew, and one by less is
/// not.
pub proof fn a_reshaped_preview_opens_anew(s: PreviewState)
    ensures
        is_reshaped(s) <==> 20 * s.aspect > 20 * s.open_aspect + 0x1_0000_0000 || 20 * s.open_aspect
            > 20 * s.aspect + 0x1_0000_0000,
        s.aspect == s.open_aspect ==> !is_reshaped(s),
{
}

/// Pictures and recordings are taken by the camera that runs, and only while it runs; there
/// is one recording at a time, and it keeps its name until it is stopped.
pub proof fn what_is_captured_is_kept(
    t: Told,
    place: CapturePlace,
    other: CapturePlace,
    audio: bool,
    library: bool,
)
    ensures
        ({
            let shot = pictured(t, Some(place), library);
            let recording = recorded(t, Some(place), audio, library);
            &&& t.now.state.state is Running ==> (t.now.state.input matches Some(input)
                ==> shot.calls.last() == (CameraCallView::Photo {
                input,
                path: place.file@,
                library,
            }) && shot.calls.len() == t.calls.len() + 1 && shot.now.last == place.relative@)
            &&& !(t.now.state.state is Running) ==> shot.calls == t.calls.push(CameraCallView::Fail)
                && recording.calls == t.calls.push(CameraCallView::Fail)
            &&& t.now.state.state is Running && t.now.recording is None ==> (
            t.now.state.input matches Some(input) ==> {
                &&& recording.now.recording == Some(place.relative@)
                &&& recording.calls.last() == (CameraCallView::StartVideo {
                    input,
                    path: place.file@,
                    audio,
                    library,
                })
                &&& recorded(recording, Some(other), audio, library) == recording
            })
        }),
{
}

/// What was recorded is the last thing captured, under the name that it was begun with.
pub proof fn a_recording_keeps_its_name(t: Told, name: Seq<char>, path: String)
    requires
        t.now.recording == Some(name),
    ensures
        captured(t, CameraCaptureResult::VideoStopped { path }).now.last == name,
        captured(t, CameraCaptureResult::VideoStopped { path }).now.recording is None,
        captured(t, CameraCaptureResult::VideoStopped { path }).calls == t.calls.push(
            CameraCallView::Captured,
        ),
{
    reveal(captured);
}

/// A camera that is wanted waits two seconds for an answer on its permission, and then
/// opens as if it had been given.
pub proof fn silence_is_taken_for_consent(t: Told, now: u64)
    requires
        t.now.state.state is Idle && t.now.state.wanted && t.now.state.permission is None,
    ensures
        now < t.now.state.asked_at + 2000 ==> driven(t, now) == t,
        now >= t.now.state.asked_at + 2000 ==> driven(t, now).now.state.permission == Some(
            PermissionStatus::Granted,
        ),
{
    reveal(driven);
}

/// A camera runs once it is prepared, and is idle once it is released; what another camera
/// captures is not this preview's.
pub proof fn a_preview_goes_from_state_to_state(
    t: Told,
    now: u64,
    input: u64,
    result: CameraCaptureResult,
)
    ensures
        t.now.state.state is Starting ==> evented(t, CameraEvent::Prepared, now).now.state.state
            is Running,
        t.now.state.state is Stopping ==> evented(t, CameraEvent::Released, now).now.state.state
            is Idle,
        !(t.now.state.state is Starting) ==> evented(t, CameraEvent::Prepared, now) == t,
        !(t.now.state.state is Stopping) ==> evented(t, CameraEvent::Released, now) == t,
        t.now.state.input != Some(input) ==> evented(t, CameraEvent::Capture { input, result }, now)
            == t,
{
}

/// A script is answered by what is so: by the side that is asked for, by whether the camera
/// runs and records, and by whether a capture was begun.
pub proof fn a_script_is_answered_by_what_is_so(
    t: Told,
    now: u64,
    place: CapturePlace,
    library: bool,
    aspect: u64,
)
    ensures
        ({
            let turned = called(t, ScriptCall::Switch, now).now;
            let shot = called(t, ScriptCall::Capture { place: Some(place), library }, now);
            &&& turned.state.want_front == !t.now.state.want_front
            &&& answered(turned, ScriptCall::Facing) == ScriptAnswerView::Text(
                if t.now.state.want_front {
                    "back"@
                } else {
                    "front"@
                },
            )
            &&& answered(t.now, ScriptCall::IsRunning) == ScriptAnswerView::Flag(
                t.now.state.state is Running,
            )
            &&& answered(t.now, ScriptCall::IsRecording) == ScriptAnswerView::Flag(
                t.now.recording is Some,
            )
            &&& answered(t.now, ScriptCall::Capture { place: Some(place), library })
                == ScriptAnswerView::Flag(true) ==> answered(shot.now, ScriptCall::Last)
                == ScriptAnswerView::Text(place.relative@)
            &&& answered(t.now, ScriptCall::Capture { place: Some(place), library })
                == ScriptAnswerView::Flag(false) ==> shot.calls == t.calls.push(
                CameraCallView::Fail,
            )
            &&& answered(t.now, ScriptCall::Capture { place: None, library })
                == ScriptAnswerView::Flag(false)
        }),
        ({
            let thin = 5 * aspect <= 0x1_0000_0000 || aspect >= 5 * 0x1_0000_0000;
            thin ==> called(t, ScriptCall::SetAspect(Some(aspect)), now) == t
        }),
        ({
            let wide = 5 * aspect > 0x1_0000_0000 && aspect < 5 * 0x1_0000_0000;
            wide ==> called(t, ScriptCall::SetAspect(Some(aspect)), now).now.state.aspect == aspect
        }),
{
    reveal(driven);
}

} // verus!
