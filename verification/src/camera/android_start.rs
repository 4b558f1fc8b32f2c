//! How an Android camera session comes up, who gets its frames, and how it is
//! controlled.
use crate::camera::android::{
    flash_codes, focus_codes, reader_plan, spec_flash_codes, spec_reader_plan, spec_still_plan,
    still_plan, AndroidCaptureSession, CropRegion, FrameRoute, MeteringRegion, ReaderPlan,
    StreamDispatch, VideoFormat,
};
use crate::camera::capture::CameraFlashMode;
use vstd::prelude::*;

verus! {

// ---------------------------------------------------------------------------
// Coming up
// ---------------------------------------------------------------------------

/// What a start waits for.
#[derive(Clone, Copy, PartialEq, Eq, Structural, Debug)]
pub enum StartStep {
    /// The device to open.
    Open,
    /// The reader of frames.
    Reader,
    ImageTarget,
    ImageOutput,
    /// The reader of stills.
    StillReader,
    StillTarget,
    StillOutput,
    PreviewTarget,
    PreviewOutput,
    Running,
    Failed,
}

/// A call that brings a session up, or takes down what there is of it.
#[derive(Clone, Copy, PartialEq, Eq, Structural, Debug)]
pub enum StartCall {
    CreateRequest,
    NewReader(ReaderPlan),
    ListenImages,
    AcquireImageWindow,
    CreateImageTarget,
    AddImageTarget,
    JpegQuality(u8),
    CreateImageOutput,
    NewStillReader(ReaderPlan),
    MakeStillContext,
    ListenStills,
    AcquireStillWindow,
    CreateStillTarget,
    CreateStillOutput,
    CreateOutputs,
    AddStillOutput,
    AddImageOutput,
    AcquirePreviewWindow,
    CreatePreviewTarget,
    AddPreviewTarget,
    CreatePreviewOutput,
    AddPreviewOutput,
    CreateSession,
    Repeat,
    FreeOutputs,
    FreeRequest,
    CloseDevice,
    FreeContext,
}

/// The size of stills.
#[derive(Clone, Copy, PartialEq, Eq, Structural, Debug)]
pub struct StillSize {
    pub width: i32,
    pub height: i32,
}

/// A session that is coming up.
#[derive(Clone, Copy, PartialEq, Eq, Structural, Debug)]
pub struct AndroidStart {
    pub step: StartStep,
    pub needs_image_reader: bool,
    /// How frames are read; none where they come in a layout that cannot be.
    pub plan: Option<ReaderPlan>,
    pub still: Option<StillSize>,
    /// A window shows the camera.
    pub preview: bool,
    pub parts: AndroidCaptureSession,
}

/// A start, and the calls that it has led to.
pub struct Begun {
    pub now: AndroidStart,
    pub calls: Seq<StartCall>,
}

/// A start that goes on with a call and waits for its answer.
pub open spec fn waits(b: Begun, step: StartStep, call: StartCall) -> Begun {
    Begun { now: AndroidStart { step, ..b.now }, calls: b.calls.push(call) }
}

/// A start with one more call.
pub open spec fn with_call(b: Begun, call: StartCall) -> Begun {
    Begun { calls: b.calls.push(call), ..b }
}

/// A start with one more call, where it is due.
pub open spec fn when(b: Begun, due: bool, call: StartCall) -> Begun {
    if due {
        with_call(b, call)
    } else {
        b
    }
}

/// A start that has failed with the device open.
#[verifier::opaque]
pub open spec fn given_up(b: Begun) -> Begun {
    Begun {
        now: AndroidStart { step: StartStep::Failed, ..b.now },
        calls: b.calls.push(StartCall::CloseDevice).push(StartCall::FreeContext),
    }
}

/// A session whose frames go somewhere runs; another is given up.
#[verifier::opaque]
pub open spec fn ended(b: Begun) -> Begun {
    if b.now.parts.image_output || b.now.parts.preview_output {
        let made = with_call(b, StartCall::CreateSession);
        waits(made, StartStep::Running, StartCall::Repeat)
    } else {
        given_up(with_call(with_call(b, StartCall::FreeOutputs), StartCall::FreeRequest))
    }
}

/// The outputs are gathered, stills first, and the preview is made.
#[verifier::opaque]
pub open spec fn gathers(b: Begun) -> Begun {
    let b1 = with_call(b, StartCall::CreateOutputs);
    let b2 = when(b1, b.now.parts.still_output, StartCall::AddStillOutput);
    let b3 = when(b2, b.now.parts.image_output, StartCall::AddImageOutput);
    if b.now.preview {
        let acquired = Begun {
            now: AndroidStart {
                parts: AndroidCaptureSession { preview_window: true, ..b3.now.parts },
                ..b3.now
            },
            ..with_call(b3, StartCall::AcquirePreviewWindow)
        };
        waits(acquired, StartStep::PreviewTarget, StartCall::CreatePreviewTarget)
    } else {
        ended(b3)
    }
}

/// Stills need a stream of their own, declared before the session is made.
#[verifier::opaque]
pub open spec fn stills(b: Begun) -> Begun {
    match b.now.still {
        Some(s) => waits(
            b,
            StartStep::StillReader,
            StartCall::NewStillReader(spec_still_plan(s.width, s.height)),
        ),
        None => gathers(b),
    }
}

/// A start with other parts.
pub open spec fn with_parts(b: Begun, parts: AndroidCaptureSession) -> Begun {
    Begun { now: AndroidStart { parts, ..b.now }, ..b }
}

/// A start after an answer: whether what it waits for is there.
#[verifier::opaque]
pub open spec fn answer(b: Begun, got: bool) -> Begun {
    let p = b.now.parts;
    match b.now.step {
        StartStep::Open => if !got {
            Begun {
                now: AndroidStart { step: StartStep::Failed, ..b.now },
                calls: b.calls.push(StartCall::FreeContext),
            }
        } else {
            let opened = with_call(b, StartCall::CreateRequest);
            if !b.now.needs_image_reader {
                stills(opened)
            } else {
                match b.now.plan {
                    Some(plan) => waits(opened, StartStep::Reader, StartCall::NewReader(plan)),
                    None => given_up(opened),
                }
            }
        },
        StartStep::Reader => if !got {
            given_up(b)
        } else {
            let read = with_parts(
                with_call(
                    with_call(b, StartCall::ListenImages),
                    StartCall::AcquireImageWindow,
                ),
                AndroidCaptureSession { image_reader: true, image_window: true, ..p },
            );
            waits(read, StartStep::ImageTarget, StartCall::CreateImageTarget)
        },
        StartStep::ImageTarget => {
            let aimed = when(
                with_parts(b, AndroidCaptureSession { image_target: got, ..p }),
                got,
                StartCall::AddImageTarget,
            );
            let quality = match b.now.plan {
                Some(plan) => plan.jpeg_quality,
                None => None,
            };
            let graded = match quality {
                Some(q) => with_call(aimed, StartCall::JpegQuality(q)),
                None => aimed,
            };
            waits(graded, StartStep::ImageOutput, StartCall::CreateImageOutput)
        },
        StartStep::ImageOutput => stills(
            with_parts(b, AndroidCaptureSession { image_output: got, ..p }),
        ),
        StartStep::StillReader => if !got {
            gathers(b)
        } else {
            let read = with_call(
                with_call(
                    with_call(b, StartCall::MakeStillContext),
                    StartCall::ListenStills,
                ),
                StartCall::AcquireStillWindow,
            );
            waits(
                with_parts(
                    read,
                    AndroidCaptureSession {
                        still_reader: true,
                        still_context: true,
                        still_window: true,
                        ..p
                    },
                ),
                StartStep::StillTarget,
                StartCall::CreateStillTarget,
            )
        },
        StartStep::StillTarget => waits(
            with_parts(b, AndroidCaptureSession { still_target: got, ..p }),
            StartStep::StillOutput,
            StartCall::CreateStillOutput,
        ),
        StartStep::StillOutput => gathers(
            with_parts(b, AndroidCaptureSession { still_output: got, ..p }),
        ),
        StartStep::PreviewTarget => waits(
            when(
                with_parts(b, AndroidCaptureSession { preview_target: got, ..p }),
                got,
                StartCall::AddPreviewTarget,
            ),
            StartStep::PreviewOutput,
            StartCall::CreatePreviewOutput,
        ),
        StartStep::PreviewOutput => ended(
            when(
                with_parts(b, AndroidCaptureSession { preview_output: got, ..p }),
                got,
                StartCall::AddPreviewOutput,
            ),
        ),
        StartStep::Running | StartStep::Failed => b,
    }
}

/// No part of a session.
pub open spec fn no_parts() -> AndroidCaptureSession {
    AndroidCaptureSession {
        image_reader: false,
        image_output: false,
        image_target: false,
        image_window: false,
        preview_output: false,
        preview_target: false,
        preview_window: false,
        still_reader: false,
        still_output: false,
        still_target: false,
        still_window: false,
        still_context: false,
    }
}

pub open spec fn begun(s: &AndroidStart, calls: Seq<StartCall>) -> Begun {
    Begun { now: *s, calls }
}

impl AndroidStart {
    /// A session for a stream: the device is to be opened first.
    pub fn new(
        dispatch: &StreamDispatch,
        format: &VideoFormat,
        preview: bool,
        needs_image_reader: bool,
        still: Option<StillSize>,
    ) -> (r: AndroidStart)
        ensures
            r.step is Open,
            r.needs_image_reader == needs_image_reader,
            r.still == still,
            r.preview == preview,
            r.parts == no_parts(),
            r.plan == spec_reader_plan(dispatch.spec_reader_mode(), *format),
    {
        AndroidStart {
            step: StartStep::Open,
            needs_image_reader,
            plan: reader_plan(dispatch.reader_mode(), format),
            still,
            preview,
            parts: AndroidCaptureSession {
                image_reader: false,
                image_output: false,
                image_target: false,
                image_window: false,
                preview_output: false,
                preview_target: false,
                preview_window: false,
                still_reader: false,
                still_output: false,
                still_target: false,
                still_window: false,
                still_context: false,
            },
        }
    }

    fn give_up(self, out: &mut Vec<StartCall>) -> (r: AndroidStart)
        ensures
            begun(&r, final(out)@) == given_up(begun(&self, old(out)@)),
    {
        reveal(given_up);
        out.push(StartCall::CloseDevice);
        out.push(StartCall::FreeContext);
        AndroidStart { step: StartStep::Failed, ..self }
    }

    fn end(self, out: &mut Vec<StartCall>) -> (r: AndroidStart)
        ensures
            begun(&r, final(out)@) == ended(begun(&self, old(out)@)),
    {
        reveal(ended);
        if self.parts.image_output || self.parts.preview_output {
            out.push(StartCall::CreateSession);
            out.push(StartCall::Repeat);
            AndroidStart { step: StartStep::Running, ..self }
        } else {
            out.push(StartCall::FreeOutputs);
            out.push(StartCall::FreeRequest);
            self.give_up(out)
        }
    }

    fn gather(self, out: &mut Vec<StartCall>) -> (r: AndroidStart)
        ensures
            begun(&r, final(out)@) == gathers(begun(&self, old(out)@)),
    {
        reveal(gathers);
        out.push(StartCall::CreateOutputs);
        if self.parts.still_output {
            out.push(StartCall::AddStillOutput);
        }
        if self.parts.image_output {
            out.push(StartCall::AddImageOutput);
        }
        if self.preview {
            out.push(StartCall::AcquirePreviewWindow);
            out.push(StartCall::CreatePreviewTarget);
            AndroidStart {
                step: StartStep::PreviewTarget,
                parts: AndroidCaptureSession { preview_window: true, ..self.parts },
                ..self
            }
        } else {
            self.end(out)
        }
    }

    fn make_stills(self, out: &mut Vec<StartCall>) -> (r: AndroidStart)
        ensures
            begun(&r, final(out)@) == stills(begun(&self, old(out)@)),
    {
        reveal(stills);
        match self.still {
            Some(s) => {
                out.push(StartCall::NewStillReader(still_plan(s.width, s.height)));
                AndroidStart { step: StartStep::StillReader, ..self }
            },
            None => self.gather(out),
        }
    }

    fn with_parts(self, parts: AndroidCaptureSession) -> (r: AndroidStart)
        ensures
            r == (AndroidStart { parts, ..self }),
    {
        AndroidStart { parts, ..self }
    }

    fn at(self, step: StartStep) -> (r: AndroidStart)
        ensures
            r == (AndroidStart { step, ..self }),
    {
        AndroidStart { step, ..self }
    }

    fn opened(self, got: bool, out: &mut Vec<StartCall>) -> (r: AndroidStart)
        requires
            self.step is Open,
        ensures
            begun(&r, final(out)@) == answer(begun(&self, old(out)@), got),
    {
        reveal(answer);
        if !got {
            out.push(StartCall::FreeContext);
            return self.at(StartStep::Failed);
        }
        out.push(StartCall::CreateRequest);
        if !self.needs_image_reader {
            return self.make_stills(out);
        }
        match self.plan {
            Some(plan) => {
                out.push(StartCall::NewReader(plan));
                self.at(StartStep::Reader)
            },
            None => self.give_up(out),
        }
    }

    fn reader(self, got: bool, out: &mut Vec<StartCall>) -> (r: AndroidStart)
        requires
            self.step is Reader,
        ensures
            begun(&r, final(out)@) == answer(begun(&self, old(out)@), got),
    {
        reveal(answer);
        if !got {
            return self.give_up(out);
        }
        out.push(StartCall::ListenImages);
        out.push(StartCall::AcquireImageWindow);
        out.push(StartCall::CreateImageTarget);
        self.with_parts(
            AndroidCaptureSession { image_reader: true, image_window: true, ..self.parts },
        ).at(StartStep::ImageTarget)
    }

    fn image_target(self, got: bool, out: &mut Vec<StartCall>) -> (r: AndroidStart)
        requires
            self.step is ImageTarget,
        ensures
            begun(&r, final(out)@) == answer(begun(&self, old(out)@), got),
    {
        reveal(answer);
        if got {
            out.push(StartCall::AddImageTarget);
        }
        let quality = match self.plan {
            Some(plan) => plan.jpeg_quality,
            None => None,
        };
        if let Some(q) = quality {
            out.push(StartCall::JpegQuality(q));
        }
        out.push(StartCall::CreateImageOutput);
        self.with_parts(AndroidCaptureSession { image_target: got, ..self.parts }).at(
            StartStep::ImageOutput,
        )
    }

    fn image_output(self, got: bool, out: &mut Vec<StartCall>) -> (r: AndroidStart)
        requires
            self.step is ImageOutput,
        ensures
            begun(&r, final(out)@) == answer(begun(&self, old(out)@), got),
    {
        reveal(answer);
        self.with_parts(AndroidCaptureSession { image_output: got, ..self.parts }).make_stills(out)
    }

    fn still_reader(self, got: bool, out: &mut Vec<StartCall>) -> (r: AndroidStart)
        requires
            self.step is StillReader,
        ensures
            begun(&r, final(out)@) == answer(begun(&self, old(out)@), got),
    {
        reveal(answer);
        if !got {
            return self.gather(out);
        }
        out.push(StartCall::MakeStillContext);
        out.push(StartCall::ListenStills);
        out.push(StartCall::AcquireStillWindow);
        out.push(StartCall::CreateStillTarget);
        self.with_parts(
            AndroidCaptureSession {
                still_reader: true,
                still_context: true,
                still_window: true,
                ..self.parts
            },
        ).at(StartStep::StillTarget)
    }

    fn still_target(self, got: bool, out: &mut Vec<StartCall>) -> (r: AndroidStart)
        requires
            self.step is StillTarget,
        ensures
            begun(&r, final(out)@) == answer(begun(&self, old(out)@), got),
    {
        reveal(answer);
        out.push(StartCall::CreateStillOutput);
        self.with_parts(AndroidCaptureSession { still_target: got, ..self.parts }).at(
            StartStep::StillOutput,
        )
    }

    fn still_output(self, got: bool, out: &mut Vec<StartCall>) -> (r: AndroidStart)
        requires
            self.step is StillOutput,
        ensures
            begun(&r, final(out)@) == answer(begun(&self, old(out)@), got),
    {
        reveal(answer);
        self.with_parts(AndroidCaptureSession { still_output: got, ..self.parts }).gather(out)
    }

    fn preview_target(self, got: bool, out: &mut Vec<StartCall>) -> (r: AndroidStart)
        requires
            self.step is PreviewTarget,
        ensures
            begun(&r, final(out)@) == answer(begun(&self, old(out)@), got),
    {
        reveal(answer);
        if got {
            out.push(StartCall::AddPreviewTarget);
        }
        out.push(StartCall::CreatePreviewOutput);
        self.with_parts(AndroidCaptureSession { preview_target: got, ..self.parts }).at(
            StartStep::PreviewOutput,
        )
    }

    fn preview_output(self, got: bool, out: &mut Vec<StartCall>) -> (r: AndroidStart)
        requires
            self.step is PreviewOutput,
        ensures
            begun(&r, final(out)@) == answer(begun(&self, old(out)@), got),
    {
        reveal(answer);
        if got {
            out.push(StartCall::AddPreviewOutput);
        }
        self.with_parts(AndroidCaptureSession { preview_output: got, ..self.parts }).end(out)
    }

    /// What the start waits for is there, or not: the calls that follow. It waits
    /// for the answer to the last of them until it runs or has failed.
    pub fn answered(&mut self, got: bool) -> (r: Vec<StartCall>)
        ensures
            begun(final(self), r@) == answer(begun(old(self), seq![]), got),
    {
        let mut out: Vec<StartCall> = Vec::new();
        assert(out@ =~= seq![]);
        let now = *self;
        let next = match now.step {
            StartStep::Open => now.opened(got, &mut out),
            StartStep::Reader => now.reader(got, &mut out),
            StartStep::ImageTarget => now.image_target(got, &mut out),
            StartStep::ImageOutput => now.image_output(got, &mut out),
            StartStep::StillReader => now.still_reader(got, &mut out),
            StartStep::StillTarget => now.still_target(got, &mut out),
            StartStep::StillOutput => now.still_output(got, &mut out),
            StartStep::PreviewTarget => now.preview_target(got, &mut out),
            StartStep::PreviewOutput => now.preview_output(got, &mut out),
            StartStep::Running | StartStep::Failed => {
                reveal(answer);
                now
            },
        };
        *self = next;
        out
    }
}

/// How far a start has come.
pub open spec fn progress(step: StartStep) -> int {
    match step {
        StartStep::Open => 0,
        StartStep::Reader => 1,
        StartStep::ImageTarget => 2,
        StartStep::ImageOutput => 3,
        StartStep::StillReader => 4,
        StartStep::StillTarget => 5,
        StartStep::StillOutput => 6,
        StartStep::PreviewTarget => 7,
        StartStep::PreviewOutput => 8,
        StartStep::Running | StartStep::Failed => 9,
    }
}

/// What holds of a start that goes on from some step on: it comes further than that,
/// it runs only with an output, and where it fails it closes the device.
spec fn goes_on(b: Begun, after: Begun, from: int) -> bool {
    let n = after.calls.len();
    &&& progress(after.now.step) > from
    &&& after.now.step is Running ==> after.now.parts.image_output
        || after.now.parts.preview_output
    &&& after.now.step is Failed ==> n >= b.calls.len() + 2 && after.calls[n - 1]
        == StartCall::FreeContext && after.calls[n - 2] == StartCall::CloseDevice
}

proof fn ended_goes_on(b: Begun)
    ensures
        goes_on(b, ended(b), 8),
{
    reveal(ended);
    reveal(given_up);
}

proof fn gathers_goes_on(b: Begun)
    ensures
        goes_on(b, gathers(b), 6),
{
    reveal(gathers);
    let b1 = with_call(b, StartCall::CreateOutputs);
    let b2 = when(b1, b.now.parts.still_output, StartCall::AddStillOutput);
    let b3 = when(b2, b.now.parts.image_output, StartCall::AddImageOutput);
    ended_goes_on(b3);
}

proof fn stills_goes_on(b: Begun)
    ensures
        goes_on(b, stills(b), 3),
{
    reveal(stills);
    gathers_goes_on(b);
}

proof fn answer_goes_on(b: Begun, got: bool)
    requires
        progress(b.now.step) < 9,
        !(b.now.step is Open && !got),
    ensures
        goes_on(b, answer(b, got), progress(b.now.step)),
{
    reveal(answer);
    reveal(given_up);
    let p = b.now.parts;
    match b.now.step {
        StartStep::Open => {
            stills_goes_on(with_call(b, StartCall::CreateRequest));
        },
        StartStep::ImageOutput => {
            stills_goes_on(with_parts(b, AndroidCaptureSession { image_output: got, ..p }));
        },
        StartStep::StillReader => {
            gathers_goes_on(b);
        },
        StartStep::StillOutput => {
            gathers_goes_on(with_parts(b, AndroidCaptureSession { still_output: got, ..p }));
        },
        StartStep::PreviewOutput => {
            ended_goes_on(
                when(
                    with_parts(b, AndroidCaptureSession { preview_output: got, ..p }),
                    got,
                    StartCall::AddPreviewOutput,
                ),
            );
        },
        _ => {},
    }
}

/// Every answer brings a start further: it runs or fails after a few.
pub proof fn a_start_comes_to_an_end(b: Begun, got: bool)
    ensures
        progress(b.now.step) < 9 ==> progress(answer(b, got).now.step) > progress(b.now.step),
        progress(b.now.step) == 9 ==> answer(b, got) == b,
{
    if progress(b.now.step) < 9 && !(b.now.step is Open && !got) {
        answer_goes_on(b, got);
    } else {
        reveal(answer);
    }
}

/// A session that comes to run has frames that go somewhere.
pub proof fn a_running_session_has_an_output(b: Begun, got: bool)
    requires
        progress(b.now.step) < 9,
        answer(b, got).now.step is Running,
    ensures
        answer(b, got).now.parts.image_output || answer(b, got).now.parts.preview_output,
{
    if !(b.now.step is Open && !got) {
        answer_goes_on(b, got);
    } else {
        reveal(answer);
    }
}

/// A start that fails frees what its callbacks were given, and closes the device
/// before where it was opened.
pub proof fn a_failed_start_closes_the_device(b: Begun, got: bool)
    requires
        progress(b.now.step) < 9,
        answer(b, got).now.step is Failed,
    ensures
        answer(b, got).calls.len() > b.calls.len(),
        answer(b, got).calls.last() == StartCall::FreeContext,
        !(b.now.step is Open && !got) ==> answer(b, got).calls.len() >= 2 && answer(b, got).calls[answer(
            b,
            got,
        ).calls.len() - 2] == StartCall::CloseDevice,
{
    if !(b.now.step is Open && !got) {
        answer_goes_on(b, got);
    } else {
        reveal(answer);
    }
}

// ---------------------------------------------------------------------------
// Frames
// ---------------------------------------------------------------------------

/// Who gets a frame, each by its place among those of its kind.
#[derive(Clone, Copy, PartialEq, Eq, Structural, Debug)]
pub enum Consumer {
    FrameInput(usize),
    PreviewFrame(usize),
    Encoder(usize),
    VideoInput(usize),
    HardwareBuffer(usize),
}

pub open spec fn frame_inputs(n: int) -> Seq<Consumer> {
    Seq::new(n as nat, |i: int| Consumer::FrameInput(i as usize))
}

pub open spec fn preview_frames(n: int) -> Seq<Consumer> {
    Seq::new(n as nat, |i: int| Consumer::PreviewFrame(i as usize))
}

pub open spec fn encoders(n: int) -> Seq<Consumer> {
    Seq::new(n as nat, |i: int| Consumer::Encoder(i as usize))
}

pub open spec fn video_inputs(n: int) -> Seq<Consumer> {
    Seq::new(n as nat, |i: int| Consumer::VideoInput(i as usize))
}

pub open spec fn hardware_buffers(n: int) -> Seq<Consumer> {
    Seq::new(n as nat, |i: int| Consumer::HardwareBuffer(i as usize))
}

/// Who gets a frame, in order: frames that stay in hardware buffers go to the
/// previews that take those and to nobody else; others go to the inputs of frames,
/// the previews, the encoders and the inputs of video.
pub open spec fn spec_deliveries(route: FrameRoute, d: StreamDispatch) -> Seq<Consumer> {
    match route {
        FrameRoute::Drop => seq![],
        FrameRoute::HardwareBuffer => hardware_buffers(d.preview_hardware_buffer_inputs as int),
        FrameRoute::Compressed | FrameRoute::Planes => frame_inputs(d.frame_inputs as int)
            + preview_frames(d.preview_frame_inputs as int) + encoders(d.encoders as int)
            + video_inputs(d.video_inputs as int),
    }
}

/// Who gets a frame, in order.
pub fn deliveries(route: FrameRoute, d: &StreamDispatch) -> (r: Vec<Consumer>)
    ensures
        r@ == spec_deliveries(route, *d),
{
    let mut out: Vec<Consumer> = Vec::new();
    match route {
        FrameRoute::Drop => {
            assert(out@ =~= seq![]);
        },
        FrameRoute::HardwareBuffer => {
            let mut i: usize = 0;
            assert(out@ =~= hardware_buffers(0));
            while i < d.preview_hardware_buffer_inputs
                invariant
                    i <= d.preview_hardware_buffer_inputs,
                    out@ == hardware_buffers(i as int),
                decreases d.preview_hardware_buffer_inputs - i,
            {
                out.push(Consumer::HardwareBuffer(i));
                i = i + 1;
                assert(out@ =~= hardware_buffers(i as int));
            }
        },
        FrameRoute::Compressed | FrameRoute::Planes => {
            let mut i: usize = 0;
            assert(out@ =~= frame_inputs(0));
            while i < d.frame_inputs
                invariant
                    i <= d.frame_inputs,
                    out@ == frame_inputs(i as int),
                decreases d.frame_inputs - i,
            {
                out.push(Consumer::FrameInput(i));
                i = i + 1;
                assert(out@ =~= frame_inputs(i as int));
            }
            let ghost first = out@;
            i = 0;
            assert(out@ =~= first + preview_frames(0));
            while i < d.preview_frame_inputs
                invariant
                    i <= d.preview_frame_inputs,
                    out@ == first + preview_frames(i as int),
                decreases d.preview_frame_inputs - i,
            {
                out.push(Consumer::PreviewFrame(i));
                i = i + 1;
                assert(out@ =~= first + preview_frames(i as int));
            }
            let ghost second = out@;
            i = 0;
            assert(out@ =~= second + encoders(0));
            while i < d.encoders
                invariant
                    i <= d.encoders,
                    out@ == second + encoders(i as int),
                decreases d.encoders - i,
            {
                out.push(Consumer::Encoder(i));
                i = i + 1;
                assert(out@ =~= second + encoders(i as int));
            }
            let ghost third = out@;
            i = 0;
            assert(out@ =~= third + video_inputs(0));
            while i < d.video_inputs
                invariant
                    i <= d.video_inputs,
                    out@ == third + video_inputs(i as int),
                decreases d.video_inputs - i,
            {
                out.push(Consumer::VideoInput(i));
                i = i + 1;
                assert(out@ =~= third + video_inputs(i as int));
            }
        },
    }
    out
}

// ---------------------------------------------------------------------------
// Controls
// ---------------------------------------------------------------------------

/// Where a person tapped, as the bits of floating point numbers.
#[derive(Clone, Copy, PartialEq, Eq, Structural, Debug)]
pub struct FocusPoint {
    pub x: u64,
    pub y: u64,
}

/// The controls of a camera; numbers are the bits of floating point ones.
#[derive(Clone, Copy, PartialEq, Eq, Structural, Debug)]
pub struct CameraControlState {
    pub zoom: u32,
    pub exposure_bias: u32,
    pub flash: CameraFlashMode,
    pub focus: Option<FocusPoint>,
}

/// The bits of one, as a floating point number.
pub const ONE: u32 = 0x3f80_0000;

/// What a person sets.
#[derive(Clone, Copy, PartialEq, Eq, Structural, Debug)]
pub enum AndroidControl {
    FocusPoint(FocusPoint),
    ContinuousFocus,
    /// A zoom of at least one.
    ZoomRatio(u32),
    ExposureBias(u32),
    Flash(CameraFlashMode),
}

/// No zoom, no bias, no flash, and the focus found all the time.
pub open spec fn fresh_controls() -> CameraControlState {
    CameraControlState { zoom: ONE, exposure_bias: 0, flash: CameraFlashMode::Off, focus: None }
}

/// Controls of which one was set; the others stay.
pub open spec fn controlled(c: CameraControlState, control: AndroidControl) -> CameraControlState {
    match control {
        AndroidControl::FocusPoint(p) => CameraControlState { focus: Some(p), ..c },
        AndroidControl::ContinuousFocus => CameraControlState { focus: None, ..c },
        AndroidControl::ZoomRatio(zoom) => CameraControlState { zoom, ..c },
        AndroidControl::ExposureBias(ev) => CameraControlState { exposure_bias: ev, ..c },
        AndroidControl::Flash(flash) => CameraControlState { flash, ..c },
    }
}

impl CameraControlState {
    /// No zoom, no bias, no flash, and the focus found all the time.
    pub fn new() -> (r: CameraControlState)
        ensures
            r == fresh_controls(),
    {
        CameraControlState { zoom: ONE, exposure_bias: 0, flash: CameraFlashMode::Off, focus: None }
    }

    /// A control is set; the others stay.
    pub fn control(&mut self, control: AndroidControl)
        ensures
            *final(self) == controlled(*old(self), control),
    {
        match control {
            AndroidControl::FocusPoint(p) => {
                self.focus = Some(p);
            },
            AndroidControl::ContinuousFocus => {
                self.focus = None;
            },
            AndroidControl::ZoomRatio(zoom) => {
                self.zoom = zoom;
            },
            AndroidControl::ExposureBias(ev) => {
                self.exposure_bias = ev;
            },
            AndroidControl::Flash(flash) => {
                self.flash = flash;
            },
        }
    }
}

/// An entry of a capture request.
#[derive(Clone, Copy, PartialEq, Eq, Structural, Debug)]
pub enum RequestEntry {
    CropRegion(CropRegion),
    /// The zoom, by the bits of a floating point number.
    ZoomRatio(u32),
    /// The exposure's bias, in the device's steps.
    ExposureCompensation(i32),
    AeMode(u8),
    FlashMode(u8),
    AfRegion(MeteringRegion),
    AeRegion(MeteringRegion),
    AfMode(u8),
    AfTrigger(u8),
    JpegQuality(u8),
    JpegOrientation(i32),
}

/// The entries by which a running camera is controlled. `focus` is the region of
/// the point that was tapped.
pub open spec fn spec_control_entries(
    crop: CropRegion,
    zoom: u32,
    steps: i32,
    flash: CameraFlashMode,
    focus: Option<MeteringRegion>,
) -> Seq<RequestEntry> {
    let codes = spec_flash_codes(flash);
    let first = seq![
        RequestEntry::CropRegion(crop),
        RequestEntry::ZoomRatio(zoom),
        RequestEntry::ExposureCompensation(steps),
        RequestEntry::AeMode(codes.0),
        RequestEntry::FlashMode(codes.1),
    ];
    match focus {
        Some(region) => first.push(RequestEntry::AfRegion(region)).push(
            RequestEntry::AeRegion(region),
        ).push(RequestEntry::AfMode(1)).push(RequestEntry::AfTrigger(1)),
        None => first.push(RequestEntry::AfMode(4)).push(RequestEntry::AfTrigger(0)),
    }
}

/// The entries by which a running camera is controlled, in order.
pub fn control_entries(
    crop: CropRegion,
    zoom: u32,
    steps: i32,
    flash: CameraFlashMode,
    focus: Option<MeteringRegion>,
) -> (r: Vec<RequestEntry>)
    ensures
        r@ == spec_control_entries(crop, zoom, steps, flash, focus),
{
    let (ae_mode, flash_mode) = flash_codes(flash);
    let (af_mode, trigger) = focus_codes(focus.is_some());
    let mut out: Vec<RequestEntry> = Vec::new();
    out.push(RequestEntry::CropRegion(crop));
    out.push(RequestEntry::ZoomRatio(zoom));
    out.push(RequestEntry::ExposureCompensation(steps));
    out.push(RequestEntry::AeMode(ae_mode));
    out.push(RequestEntry::FlashMode(flash_mode));
    if let Some(region) = focus {
        out.push(RequestEntry::AfRegion(region));
        out.push(RequestEntry::AeRegion(region));
    }
    out.push(RequestEntry::AfMode(af_mode));
    out.push(RequestEntry::AfTrigger(trigger));
    assert(out@ =~= spec_control_entries(crop, zoom, steps, flash, focus));
    out
}

/// The entries of a still: its quality, which way up it is, and the live controls
/// that a picture shows.
pub fn still_entries(orientation: i32, crop: CropRegion, flash: CameraFlashMode) -> (r: Vec<
    RequestEntry,
>)
    ensures
        r@ == seq![
            RequestEntry::JpegQuality(95),
            RequestEntry::JpegOrientation(orientation),
            RequestEntry::CropRegion(crop),
            RequestEntry::AeMode(spec_flash_codes(flash).0),
            RequestEntry::FlashMode(spec_flash_codes(flash).1),
        ],
{
    let (ae_mode, flash_mode) = flash_codes(flash);
    let mut out: Vec<RequestEntry> = Vec::new();
    out.push(RequestEntry::JpegQuality(95));
    out.push(RequestEntry::JpegOrientation(orientation));
    out.push(RequestEntry::CropRegion(crop));
    out.push(RequestEntry::AeMode(ae_mode));
    out.push(RequestEntry::FlashMode(flash_mode));
    assert(out@ =~= seq![
        RequestEntry::JpegQuality(95),
        RequestEntry::JpegOrientation(orientation),
        RequestEntry::CropRegion(crop),
        RequestEntry::AeMode(spec_flash_codes(flash).0),
        RequestEntry::FlashMode(spec_flash_codes(flash).1),
    ]);
    out
}

// ---------------------------------------------------------------------------
// What a start leads to
// ---------------------------------------------------------------------------

/// A start after some answers, all of which brought what was asked for.
pub open spec fn all_got(b: Begun, n: nat) -> Begun
    decreases n,
{
    if n == 0 {
        b
    } else {
        all_got(answer(b, true), (n - 1) as nat)
    }
}

/// A start that gets everything runs, with a reader where frames are wanted, with stills
/// where the camera takes them and with a preview where one is shown, and with nothing
/// besides. One that nothing wants fails.
pub proof fn a_start_that_gets_everything_runs(b: Begun)
    requires
        b.now.step is Open,
        b.now.parts == no_parts(),
        b.now.needs_image_reader ==> b.now.plan is Some,
    ensures
        ({
            let end = all_got(b, 9).now;
            let (image, still, preview) = (
                b.now.needs_image_reader,
                b.now.still is Some,
                b.now.preview,
            );
            &&& image || preview ==> end.step is Running
            &&& !image && !preview ==> end.step is Failed
            &&& end.parts.image_reader == image && end.parts.image_window == image
                && end.parts.image_target == image && end.parts.image_output == image
            &&& end.parts.still_reader == still && end.parts.still_window == still
                && end.parts.still_target == still && end.parts.still_output == still
                && end.parts.still_context == still
            &&& end.parts.preview_window == preview && end.parts.preview_target == preview
                && end.parts.preview_output == preview
        }),
{
    reveal_with_fuel(all_got, 2);
    opening_is_answered(b);
    if b.now.needs_image_reader {
        let b1 = answer(b, true);
        let b2 = answer(b1, true);
        let b3 = answer(b2, true);
        reader_is_answered(b1);
        aim_is_answered(b2);
        assert(all_got(b, 9) == all_got(b1, 8));
        assert(all_got(b1, 8) == all_got(b2, 7));
        assert(all_got(b2, 7) == all_got(b3, 6));
        let b4 = image_is_put_out(b3);
        assert(all_got(b3, 6) == all_got(stills(b4), 5));
        stills_lead_on(b4, 5);
    } else {
        let b1 = with_call(b, StartCall::CreateRequest);
        assert(all_got(b, 9) == all_got(stills(b1), 8));
        stills_lead_on(b1, 8);
    }
}

proof fn opening_is_answered(b: Begun)
    requires
        b.now.step is Open,
        b.now.needs_image_reader ==> b.now.plan is Some,
    ensures
        b.now.needs_image_reader ==> answer(b, true).now == (AndroidStart {
            step: StartStep::Reader,
            ..b.now
        }),
        !b.now.needs_image_reader ==> answer(b, true) == stills(
            with_call(b, StartCall::CreateRequest),
        ),
{
    reveal(answer);
}

proof fn reader_is_answered(b: Begun)
    requires
        b.now.step is Reader,
    ensures
        answer(b, true).now == (AndroidStart {
            step: StartStep::ImageTarget,
            parts: AndroidCaptureSession { image_reader: true, image_window: true, ..b.now.parts },
            ..b.now
        }),
{
    reveal(answer);
}

#[verifier::rlimit(60)]
proof fn aim_is_answered(b: Begun)
    requires
        b.now.step is ImageTarget,
    ensures
        answer(b, true).now == (AndroidStart {
            step: StartStep::ImageOutput,
            parts: AndroidCaptureSession { image_target: true, ..b.now.parts },
            ..b.now
        }),
{
    let parts = AndroidCaptureSession { image_target: true, ..b.now.parts };
    let aimed = with_call(with_parts(b, parts), StartCall::AddImageTarget);
    assert(aimed.now == (AndroidStart { parts, ..b.now }));
    let quality = match b.now.plan {
        Some(plan) => plan.jpeg_quality,
        None => None,
    };
    let graded = match quality {
        Some(q) => with_call(aimed, StartCall::JpegQuality(q)),
        None => aimed,
    };
    assert(graded.now == aimed.now);
    assert(answer(b, true) == waits(
        graded,
        StartStep::ImageOutput,
        StartCall::CreateImageOutput,
    )) by {
        reveal(answer);
    }
}

proof fn image_is_put_out(b: Begun) -> (next: Begun)
    requires
        b.now.step is ImageOutput,
    ensures
        answer(b, true) == stills(next),
        next.now == (AndroidStart {
            parts: AndroidCaptureSession { image_output: true, ..b.now.parts },
            ..b.now
        }),
{
    reveal(answer);
    with_parts(b, AndroidCaptureSession { image_output: true, ..b.now.parts })
}

proof fn an_end_stays(b: Begun, n: nat)
    requires
        b.now.step is Running || b.now.step is Failed,
    ensures
        all_got(b, n) == b,
    decreases n,
{
    reveal(answer);
    if n > 0 {
        an_end_stays(b, (n - 1) as nat);
    }
}

/// How far a start comes with the parts that it has.
spec fn comes_to(b: Begun, parts: AndroidCaptureSession) -> bool {
    &&& b.now.parts == parts
    &&& parts.image_output || parts.preview_output ==> b.now.step is Running
    &&& !parts.image_output && !parts.preview_output ==> b.now.step is Failed
}

proof fn gathering_leads_on(b: Begun, n: nat)
    requires
        n >= 2,
        !b.now.parts.preview_output,
    ensures
        comes_to(
            all_got(gathers(b), n),
            if b.now.preview {
                AndroidCaptureSession {
                    preview_window: true,
                    preview_target: true,
                    preview_output: true,
                    ..b.now.parts
                }
            } else {
                b.now.parts
            },
        ),
{
    let g = gathers(b);
    gathered(b);
    if b.now.preview {
        reveal_with_fuel(all_got, 2);
        let g1 = answer(g, true);
        let g2 = answer(g1, true);
        assert(all_got(g, n) == all_got(g1, (n - 1) as nat));
        assert(all_got(g1, (n - 1) as nat) == all_got(g2, (n - 2) as nat));
        preview_is_aimed(g);
        preview_is_put_out(g1);
        an_end_stays(g2, (n - 2) as nat);
    } else {
        an_end_stays(g, n);
    }
}

proof fn gathered(b: Begun)
    ensures
        b.now.preview ==> gathers(b).now == (AndroidStart {
            step: StartStep::PreviewTarget,
            parts: AndroidCaptureSession { preview_window: true, ..b.now.parts },
            ..b.now
        }),
        !b.now.preview ==> comes_to(gathers(b), b.now.parts),
{
    reveal(gathers);
    if !b.now.preview {
        reveal(ended);
        reveal(given_up);
    }
}

proof fn preview_is_aimed(b: Begun)
    requires
        b.now.step is PreviewTarget,
    ensures
        answer(b, true).now == (AndroidStart {
            step: StartStep::PreviewOutput,
            parts: AndroidCaptureSession { preview_target: true, ..b.now.parts },
            ..b.now
        }),
{
    reveal(answer);
}

proof fn preview_is_put_out(b: Begun)
    requires
        b.now.step is PreviewOutput,
    ensures
        comes_to(
            answer(b, true),
            AndroidCaptureSession { preview_output: true, ..b.now.parts },
        ),
{
    reveal(answer);
    reveal(ended);
}

proof fn stills_lead_on(b: Begun, n: nat)
    requires
        n >= 5,
        !b.now.parts.preview_output,
    ensures
        ({
            let with_still = if b.now.still is Some {
                AndroidCaptureSession {
                    still_reader: true,
                    still_context: true,
                    still_window: true,
                    still_target: true,
                    still_output: true,
                    ..b.now.parts
                }
            } else {
                b.now.parts
            };
            comes_to(
                all_got(stills(b), n),
                if b.now.preview {
                    AndroidCaptureSession {
                        preview_window: true,
                        preview_target: true,
                        preview_output: true,
                        ..with_still
                    }
                } else {
                    with_still
                },
            )
        }),
{
    let s = stills(b);
    stills_are_begun(b);
    if b.now.still is Some {
        reveal_with_fuel(all_got, 2);
        let s1 = answer(s, true);
        let s2 = answer(s1, true);
        still_reader_is_answered(s);
        still_aim_is_answered(s1);
        assert(all_got(s, n) == all_got(s1, (n - 1) as nat));
        assert(all_got(s1, (n - 1) as nat) == all_got(s2, (n - 2) as nat));
        let s3 = still_is_put_out(s2);
        assert(all_got(s2, (n - 2) as nat) == all_got(gathers(s3), (n - 3) as nat));
        gathering_leads_on(s3, (n - 3) as nat);
    } else {
        gathering_leads_on(b, n);
    }
}

proof fn stills_are_begun(b: Begun)
    ensures
        b.now.still is Some ==> stills(b).now == (AndroidStart {
            step: StartStep::StillReader,
            ..b.now
        }),
        b.now.still is None ==> stills(b) == gathers(b),
{
    reveal(stills);
}

proof fn still_reader_is_answered(b: Begun)
    requires
        b.now.step is StillReader,
    ensures
        answer(b, true).now == (AndroidStart {
            step: StartStep::StillTarget,
            parts: AndroidCaptureSession {
                still_reader: true,
                still_context: true,
                still_window: true,
                ..b.now.parts
            },
            ..b.now
        }),
{
    reveal(answer);
}

proof fn still_aim_is_answered(b: Begun)
    requires
        b.now.step is StillTarget,
    ensures
        answer(b, true).now == (AndroidStart {
            step: StartStep::StillOutput,
            parts: AndroidCaptureSession { still_target: true, ..b.now.parts },
            ..b.now
        }),
{
    reveal(answer);
}

proof fn still_is_put_out(b: Begun) -> (next: Begun)
    requires
        b.now.step is StillOutput,
    ensures
        answer(b, true) == gathers(next),
        next.now == (AndroidStart {
            parts: AndroidCaptureSession { still_output: true, ..b.now.parts },
            ..b.now
        }),
{
    reveal(answer);
    with_parts(b, AndroidCaptureSession { still_output: true, ..b.now.parts })
}

/// A control that is set stays set, whatever else is set before or after it.
pub proof fn controls_do_not_disturb_each_other(
    c: CameraControlState,
    zoom: u32,
    flash: CameraFlashMode,
    other: AndroidControl,
)
    ensures
        controlled(c, AndroidControl::ZoomRatio(zoom)).zoom == zoom,
        controlled(c, AndroidControl::Flash(flash)).flash == flash,
        controlled(c, AndroidControl::ContinuousFocus).focus is None,
        !(other is ZoomRatio) ==> controlled(c, other).zoom == c.zoom,
        !(other is Flash) ==> controlled(c, other).flash == c.flash,
        !(other is ExposureBias) ==> controlled(c, other).exposure_bias == c.exposure_bias,
        !(other is FocusPoint) && !(other is ContinuousFocus) ==> controlled(c, other).focus
            == c.focus,
        other matches AndroidControl::FocusPoint(p) ==> controlled(c, other).focus == Some(p),
        other matches AndroidControl::ExposureBias(ev) ==> controlled(c, other).exposure_bias == ev,
{
}

/// A request that focuses on a point meters there too, and starts the search; one that
/// does not names no region.
pub proof fn a_point_is_metered_where_it_is_focused(
    crop: CropRegion,
    zoom: u32,
    steps: i32,
    flash: CameraFlashMode,
    region: MeteringRegion,
    k: int,
)
    ensures
        ({
            let entries = spec_control_entries(crop, zoom, steps, flash, Some(region));
            &&& entries.contains(RequestEntry::AfRegion(region))
            &&& entries.contains(RequestEntry::AeRegion(region))
            &&& entries.contains(RequestEntry::AfTrigger(1))
            &&& entries.contains(RequestEntry::CropRegion(crop))
            &&& entries.contains(RequestEntry::ZoomRatio(zoom))
            &&& entries.contains(RequestEntry::ExposureCompensation(steps))
        }),
        0 <= k < spec_control_entries(crop, zoom, steps, flash, None).len() ==> {
            let e = spec_control_entries(crop, zoom, steps, flash, None)[k];
            !(e is AfRegion) && !(e is AeRegion) && e != RequestEntry::AfTrigger(1)
        },
{
    let entries = spec_control_entries(crop, zoom, steps, flash, Some(region));
    assert(entries[0] == RequestEntry::CropRegion(crop));
    assert(entries[1] == RequestEntry::ZoomRatio(zoom));
    assert(entries[2] == RequestEntry::ExposureCompensation(steps));
    assert(entries[5] == RequestEntry::AfRegion(region));
    assert(entries[6] == RequestEntry::AeRegion(region));
    assert(entries[8] == RequestEntry::AfTrigger(1));
}

/// A frame that is read goes to every consumer of its stream, and one on the graphics card
/// to the previews that take it there; a frame that is dropped goes to none.
pub proof fn a_frame_goes_to_every_consumer(d: StreamDispatch, i: usize)
    ensures
        ({
            let read = spec_deliveries(FrameRoute::Planes, d);
            let card = spec_deliveries(FrameRoute::HardwareBuffer, d);
            &&& spec_deliveries(FrameRoute::Compressed, d) == read
            &&& i < d.frame_inputs ==> read.contains(Consumer::FrameInput(i))
            &&& i < d.preview_frame_inputs ==> read.contains(Consumer::PreviewFrame(i))
            &&& i < d.encoders ==> read.contains(Consumer::Encoder(i))
            &&& i < d.video_inputs ==> read.contains(Consumer::VideoInput(i))
            &&& i < d.preview_hardware_buffer_inputs ==> card.contains(Consumer::HardwareBuffer(i))
            &&& read.len() == d.frame_inputs + d.preview_frame_inputs + d.encoders + d.video_inputs
            &&& card.len() == d.preview_hardware_buffer_inputs
            &&& spec_deliveries(FrameRoute::Drop, d).len() == 0
        }),
{
    let read = spec_deliveries(FrameRoute::Planes, d);
    let card = spec_deliveries(FrameRoute::HardwareBuffer, d);
    let n = i as int;
    if i < d.frame_inputs {
        assert(read[n] == Consumer::FrameInput(i));
    }
    if i < d.preview_frame_inputs {
        assert(read[d.frame_inputs + n] == Consumer::PreviewFrame(i));
    }
    if i < d.encoders {
        assert(read[d.frame_inputs + d.preview_frame_inputs + n] == Consumer::Encoder(i));
    }
    if i < d.video_inputs {
        assert(read[d.frame_inputs + d.preview_frame_inputs + d.encoders + n]
            == Consumer::VideoInput(i));
    }
    if i < d.preview_hardware_buffer_inputs {
        assert(card[n] == Consumer::HardwareBuffer(i));
    }
}

} // verus!
