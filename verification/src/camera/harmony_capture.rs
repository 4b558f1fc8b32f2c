//! Stills and recordings on an OpenHarmony session: what a request leads to,
//! and how the camera service's answers are reported.
use crate::camera::capture::{
    failed, is_failure, without_path, CameraCaptureRequest, CameraCaptureResult, CaptureKind,
    PhotoShared,
};
use crate::camera::frame::FrameShared;
use crate::camera::harmony::{cam_error, labelled_code, spec_cam_error};
use crate::camera::session::{
    stop_video, stop_video_calls, Held, RecordRelease, Release, SessionBuild,
};
use crate::number::spec_signed_decimal;
use vstd::prelude::*;

verus! {

/// What the running session can do.
#[derive(Clone, Copy, PartialEq, Eq, Structural, Debug)]
pub struct SessionState {
    /// Stills can be asked for.
    pub has_stills: bool,
    pub has_photo_output: bool,
    pub recording: bool,
    pub can_pause: bool,
    pub can_resume: bool,
}

/// What a request leads to.
pub enum CaptureStep {
    /// There is no camera service to ask.
    Nothing,
    /// Report this.
    Report(CameraCaptureResult),
    TakePhoto { path: String, library: bool },
    StartVideo { path: String, audio: bool },
    StopVideo,
    PauseVideo,
    ResumeVideo,
}

/// The request that a running session turns down, and the reason.
pub open spec fn refusal(session: Option<SessionState>, request: CameraCaptureRequest) -> Option<
    (CaptureKind, Seq<char>),
> {
    match session {
        None => Some((CaptureKind::Capture, "no camera session is running"@)),
        Some(s) => match request {
            CameraCaptureRequest::Photo { .. } => if !s.has_stills {
                Some((CaptureKind::Photo, "this camera session has no still output"@))
            } else if !s.has_photo_output {
                Some((CaptureKind::Photo, "no photo output"@))
            } else {
                None
            },
            CameraCaptureRequest::PauseVideo => if s.recording && s.can_pause {
                None
            } else {
                Some((CaptureKind::Video, "not recording"@))
            },
            CameraCaptureRequest::ResumeVideo => if s.recording && s.can_resume {
                None
            } else {
                Some((CaptureKind::Video, "not recording"@))
            },
            _ => None,
        },
    }
}

/// What a capture request leads to on the running session, if one runs; nothing at all
/// without a camera service.
pub fn capture_step(
    has_api: bool,
    session: Option<SessionState>,
    request: CameraCaptureRequest,
) -> (r: CaptureStep)
    ensures
        !has_api ==> r is Nothing,
        has_api ==> match refusal(session, request) {
            Some((what, error)) => r matches CaptureStep::Report(result) && is_failure(
                result,
                what,
                error,
            ),
            None => r == match request {
                CameraCaptureRequest::Photo { path, library } => CaptureStep::TakePhoto {
                    path,
                    library,
                },
                CameraCaptureRequest::StartVideo { path, audio, .. } => CaptureStep::StartVideo {
                    path,
                    audio,
                },
                CameraCaptureRequest::StopVideo => CaptureStep::StopVideo,
                CameraCaptureRequest::PauseVideo => CaptureStep::PauseVideo,
                CameraCaptureRequest::ResumeVideo => CaptureStep::ResumeVideo,
            },
        },
{
    if !has_api {
        return CaptureStep::Nothing;
    }
    let s = match session {
        Some(s) => s,
        None => return CaptureStep::Report(
            failed(CaptureKind::Capture, "no camera session is running"),
        ),
    };
    match request {
        CameraCaptureRequest::Photo { path, library } => if !s.has_stills {
            CaptureStep::Report(
                failed(CaptureKind::Photo, "this camera session has no still output"),
            )
        } else if !s.has_photo_output {
            CaptureStep::Report(failed(CaptureKind::Photo, "no photo output"))
        } else {
            CaptureStep::TakePhoto { path, library }
        },
        CameraCaptureRequest::StartVideo { path, audio, .. } => CaptureStep::StartVideo {
            path,
            audio,
        },
        CameraCaptureRequest::StopVideo => CaptureStep::StopVideo,
        CameraCaptureRequest::PauseVideo => if s.recording && s.can_pause {
            CaptureStep::PauseVideo
        } else {
            CaptureStep::Report(failed(CaptureKind::Video, "not recording"))
        },
        CameraCaptureRequest::ResumeVideo => if s.recording && s.can_resume {
            CaptureStep::ResumeVideo
        } else {
            CaptureStep::Report(failed(CaptureKind::Video, "not recording"))
        },
    }
}

/// How a still is asked for.
#[derive(Clone, Copy, PartialEq, Eq, Structural, Debug)]
pub struct PhotoSetting {
    pub quality: i32,
    pub rotation: i32,
    /// A front camera's picture is mirrored.
    pub mirror: bool,
}

/// How a still is asked for: turned as the output reports, a quarter turn where
/// it reports nothing.
pub fn photo_setting(reported_rotation: Option<i32>, front: bool) -> (r: PhotoSetting)
    ensures
        r == (PhotoSetting {
            quality: 0,
            rotation: match reported_rotation {
                Some(d) => d,
                None => 90,
            },
            mirror: front,
        }),
{
    let rotation: i32 = match reported_rotation {
        Some(d) => d,
        None => 90,
    };
    PhotoSetting { quality: 0, rotation, mirror: front }
}

/// The camera answered a request for a still: where it refused, the still is no
/// longer waited for and the failure is reported.
pub fn photo_answered(shared: &mut PhotoShared, path: &String, rc: i32) -> (r: Option<
    CameraCaptureResult,
>)
    ensures
        if rc == 0 {
            &&& r is None
            &&& *final(shared) == *old(shared)
        } else {
            &&& r matches Some(result)
            &&& is_failure(result, CaptureKind::Photo, spec_cam_error(rc))
            &&& final(shared).pending@ == without_path(old(shared).pending@, path@)
            &&& final(shared).receiver == old(shared).receiver
            &&& final(shared).input_id == old(shared).input_id
        },
{
    if rc == 0 {
        return None;
    }
    shared.refused(path);
    let error = cam_error(rc);
    Some(failed(CaptureKind::Photo, error.as_str()))
}

/// A still could not be read from its receiver.
pub fn still_unread(rc: i32) -> (r: CameraCaptureResult)
    ensures
        is_failure(r, CaptureKind::Photo, "read still: "@ + spec_signed_decimal(rc as int)),
{
    let error = labelled_code("read still: ", rc);
    failed(CaptureKind::Photo, error.as_str())
}

/// A still was read and written, or not.
pub fn still_result(path: String, written: Result<(u32, u32), String>) -> (r: CameraCaptureResult)
    ensures
        r == match written {
            Ok((width, height)) => CameraCaptureResult::Photo { path, width, height },
            Err(error) => CameraCaptureResult::Failed { what: CaptureKind::Photo, error },
        },
{
    match written {
        Ok((width, height)) => CameraCaptureResult::Photo { path, width, height },
        Err(error) => CameraCaptureResult::Failed { what: CaptureKind::Photo, error },
    }
}

/// A recording was started, or not.
pub fn video_started(path: String, outcome: Result<(), String>) -> (r: CameraCaptureResult)
    ensures
        r == match outcome {
            Ok(()) => CameraCaptureResult::VideoStarted { path },
            Err(error) => CameraCaptureResult::Failed { what: CaptureKind::Video, error },
        },
{
    match outcome {
        Ok(()) => CameraCaptureResult::VideoStarted { path },
        Err(error) => CameraCaptureResult::Failed { what: CaptureKind::Video, error },
    }
}

/// A recording was stopped, or not.
pub fn video_stopped(outcome: Result<String, String>) -> (r: CameraCaptureResult)
    ensures
        r == match outcome {
            Ok(path) => CameraCaptureResult::VideoStopped { path },
            Err(error) => CameraCaptureResult::Failed { what: CaptureKind::Video, error },
        },
{
    match outcome {
        Ok(path) => CameraCaptureResult::VideoStopped { path },
        Err(error) => CameraCaptureResult::Failed { what: CaptureKind::Video, error },
    }
}

/// The recorder answered a pause or a resume.
pub fn pause_answered(resume: bool, rc: i32) -> (r: CameraCaptureResult)
    ensures
        rc == 0 ==> r == if resume {
            CameraCaptureResult::VideoResumed
        } else {
            CameraCaptureResult::VideoPaused
        },
        rc != 0 ==> is_failure(
            r,
            CaptureKind::Video,
            (if resume {
                "recorder resume: "@
            } else {
                "recorder pause: "@
            }) + spec_signed_decimal(rc as int),
        ),
{
    if rc == 0 {
        if resume {
            CameraCaptureResult::VideoResumed
        } else {
            CameraCaptureResult::VideoPaused
        }
    } else {
        let error = labelled_code(
            if resume {
                "recorder resume: "
            } else {
                "recorder pause: "
            },
            rc,
        );
        failed(CaptureKind::Video, error.as_str())
    }
}

/// A step towards the bytes of a still.
#[derive(Clone, Copy, PartialEq, Eq, Structural, Debug)]
pub enum StillStep {
    Components,
    ComponentTypes,
    ByteBuffer,
    Mapping,
}

impl StillStep {
    /// What is reported where the step fails.
    pub fn message(&self) -> (r: &'static str)
        ensures
            r@ == match *self {
                StillStep::Components => "still has no components"@,
                StillStep::ComponentTypes => "still component types"@,
                StillStep::ByteBuffer => "still byte buffer"@,
                StillStep::Mapping => "still buffer map"@,
            },
    {
        match self {
            StillStep::Components => "still has no components",
            StillStep::ComponentTypes => "still component types",
            StillStep::ByteBuffer => "still byte buffer",
            StillStep::Mapping => "still buffer map",
        }
    }
}

// ---------------------------------------------------------------------------
// The end of a session
// ---------------------------------------------------------------------------

/// What the end of a session leads to, in this order.
pub struct SessionEnd {
    /// The calls that end the recording, where one runs.
    pub recording: Vec<RecordRelease>,
    /// The finished recording.
    pub report: Option<CameraCaptureResult>,
    /// The calls that stop the session and give back what it holds.
    pub release: Vec<Release>,
}

/// Ends a session: a recording that runs on it ends first, and its file is reported;
/// then the receivers are parked, so that a callback in flight reads nothing, and the
/// session stops and gives back what it holds. `recording` is the file of the recording.
/// Without a camera service nothing is called and nothing reported.
pub fn stop_session(
    has_api: bool,
    session: &mut SessionBuild,
    shared: &mut FrameShared,
    photo: &mut Option<PhotoShared>,
    recording: Option<String>,
    can_remove: bool,
) -> (r: SessionEnd)
    ensures
        *final(session) == (SessionBuild { held: Held::spec_nothing(), ..*old(session) }),
        *final(shared) == (FrameShared { receiver: 0, ..*old(shared) }),
        *final(photo) == match *old(photo) {
            Some(p) => Some(PhotoShared { receiver: 0, ..p }),
            None => None,
        },
        r.recording@ == if has_api && recording is Some {
            stop_video_calls(can_remove)
        } else {
            seq![]
        },
        r.report == match recording {
            Some(path) if has_api => Some(CameraCaptureResult::VideoStopped { path }),
            _ => None,
        },
        r.release@ == if has_api {
            old(session).stop_calls()
        } else {
            seq![]
        },
{
    let mut calls: Vec<RecordRelease> = Vec::new();
    let mut report: Option<CameraCaptureResult> = None;
    assert(calls@ =~= seq![]);
    if let Some(path) = recording {
        if let Ok(ending) = stop_video(has_api, true, true, can_remove) {
            calls = ending;
            report = Some(CameraCaptureResult::VideoStopped { path });
        }
    }
    shared.park();
    if let Some(mut p) = photo.take() {
        p.park();
        *photo = Some(p);
    }
    let stopping = session.stop();
    let release = if has_api {
        stopping
    } else {
        Vec::new()
    };
    assert(!has_api ==> release@ =~= seq![]);
    SessionEnd { recording: calls, report, release }
}

/// A request is refused where the session lacks what it needs, and nowhere else: a picture
/// needs stills and their output, and pausing a recording that runs.
pub proof fn only_what_cannot_be_done_is_refused(s: SessionState, path: String, library: bool)
    ensures
        refusal(Some(s), CameraCaptureRequest::Photo { path, library }) is None <==> s.has_stills
            && s.has_photo_output,
        refusal(Some(s), CameraCaptureRequest::PauseVideo) is None <==> s.recording && s.can_pause,
        refusal(Some(s), CameraCaptureRequest::ResumeVideo) is None <==> s.recording
            && s.can_resume,
        refusal(Some(s), CameraCaptureRequest::StopVideo) is None,
        refusal(None, CameraCaptureRequest::StopVideo) is Some,
        refusal(None, CameraCaptureRequest::Photo { path, library }) is Some,
        refusal(Some(s), CameraCaptureRequest::Photo { path, library }) matches Some((what, _))
            ==> what is Photo,
        refusal(Some(s), CameraCaptureRequest::PauseVideo) matches Some((what, _)) ==> what is Video,
        refusal(None, CameraCaptureRequest::PauseVideo) matches Some((what, _)) ==> what is Capture,
{
}

} // verus!
