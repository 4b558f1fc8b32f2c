//! Building a camera session and a recording on it step by step, and taking
//! them down again. Each step is one call of the camera service; its answer
//! decides what comes next, and what was made before is released where the
//! build fails.
use crate::camera::harmony::{
    labelled_code, labelled_error, spec_cam_error, CameraProfile, ReceiverPlan, SessionPlan,
    RECORD_ROTATION,
};
use crate::number::spec_signed_decimal;
use vstd::prelude::*;

verus! {

// ---------------------------------------------------------------------------
// The preview session
// ---------------------------------------------------------------------------

/// A call of the camera service on the way to a running preview.
#[derive(Clone, Copy, PartialEq, Eq, Structural, Debug)]
pub enum Step {
    Options,
    Receiver,
    SurfaceId,
    PhotoOptions,
    PhotoReceiver,
    PhotoSurfaceId,
    Input,
    OpenInput,
    Preview,
    Session,
    PhotoOutput,
    BeginConfig,
    AddInput,
    AddPreview,
    AddPhoto,
    Commit,
    Start,
    /// The session runs.
    Running,
}

/// What a session has made of the camera service.
#[derive(Clone, Copy, PartialEq, Eq, Structural, Debug)]
pub struct Held {
    pub receiver: bool,
    pub photo_receiver: bool,
    pub input: bool,
    pub input_open: bool,
    pub preview: bool,
    pub session: bool,
    pub photo_output: bool,
}

/// A call that gives something back.
#[derive(Clone, Copy, PartialEq, Eq, Structural, Debug)]
pub enum Release {
    ReceiverOff,
    PhotoReceiverOff,
    StopSession,
    Session,
    Preview,
    PhotoOutput,
    CloseInput,
    Input,
    Receiver,
    PhotoReceiver,
}

/// Some calls, and one more if it is due.
pub open spec fn then_if(calls: Seq<Release>, due: bool, call: Release) -> Seq<Release> {
    if due {
        calls.push(call)
    } else {
        calls
    }
}

impl Held {
    /// The calls that take the session and its outputs down, in order.
    pub open spec fn outputs_teardown(self, calls: Seq<Release>) -> Seq<Release> {
        let calls = then_if(calls, self.session, Release::Session);
        let calls = then_if(calls, self.preview, Release::Preview);
        then_if(calls, self.photo_output, Release::PhotoOutput)
    }

    /// The calls that then give the input and the receivers back.
    pub open spec fn inputs_teardown(self, calls: Seq<Release>) -> Seq<Release> {
        let calls = then_if(calls, self.input_open, Release::CloseInput);
        let calls = then_if(calls, self.input, Release::Input);
        let calls = then_if(calls, self.receiver, Release::Receiver);
        then_if(calls, self.photo_receiver, Release::PhotoReceiver)
    }

    /// The calls after `calls` that give everything back.
    pub open spec fn teardown_after(self, calls: Seq<Release>) -> Seq<Release> {
        self.inputs_teardown(self.outputs_teardown(calls))
    }

    /// The calls that give everything back, in order.
    pub open spec fn teardown(self) -> Seq<Release> {
        self.teardown_after(Seq::empty())
    }

    pub open spec fn spec_nothing() -> Held {
        Held {
            receiver: false,
            photo_receiver: false,
            input: false,
            input_open: false,
            preview: false,
            session: false,
            photo_output: false,
        }
    }

    fn release_all(&self, r: &mut Vec<Release>)
        ensures
            final(r)@ == self.teardown_after(old(r)@),
    {
        if self.session {
            r.push(Release::Session);
        }
        if self.preview {
            r.push(Release::Preview);
        }
        if self.photo_output {
            r.push(Release::PhotoOutput);
        }
        if self.input_open {
            r.push(Release::CloseInput);
        }
        if self.input {
            r.push(Release::Input);
        }
        if self.receiver {
            r.push(Release::Receiver);
        }
        if self.photo_receiver {
            r.push(Release::PhotoReceiver);
        }
    }
}

/// A step that failed and the code it failed with.
#[derive(Clone, Copy, PartialEq, Eq, Structural, Debug)]
pub struct StepError {
    pub step: Step,
    pub rc: i32,
}

impl StepError {
    /// What is reported.
    pub open spec fn spec_message(self) -> Seq<char> {
        match self.step {
            Step::Options | Step::PhotoOptions => "image receiver options: "@ + spec_signed_decimal(
                self.rc as int,
            ),
            Step::Receiver | Step::PhotoReceiver => "image receiver: "@ + spec_signed_decimal(
                self.rc as int,
            ),
            Step::SurfaceId | Step::PhotoSurfaceId => "receiver surface id: "@
                + spec_signed_decimal(self.rc as int),
            Step::Input => "camera input: "@ + spec_cam_error(self.rc),
            Step::OpenInput => "open camera: "@ + spec_cam_error(self.rc),
            Step::Preview => "preview output: "@ + spec_cam_error(self.rc),
            Step::Session => "session: "@ + spec_cam_error(self.rc),
            Step::PhotoOutput => "photo output: "@ + spec_cam_error(self.rc),
            Step::BeginConfig => "beginConfig: "@ + spec_cam_error(self.rc),
            Step::AddInput => "addInput: "@ + spec_cam_error(self.rc),
            Step::AddPreview => "addPreviewOutput: "@ + spec_cam_error(self.rc),
            Step::AddPhoto => "addPhotoOutput: "@ + spec_cam_error(self.rc),
            Step::Commit => "commitConfig: "@ + spec_cam_error(self.rc),
            Step::Start | Step::Running => "start: "@ + spec_cam_error(self.rc),
        }
    }

    pub fn message(&self) -> (r: String)
        ensures
            r@ == self.spec_message(),
    {
        match self.step {
            Step::Options | Step::PhotoOptions => labelled_code(
                "image receiver options: ",
                self.rc,
            ),
            Step::Receiver | Step::PhotoReceiver => labelled_code("image receiver: ", self.rc),
            Step::SurfaceId | Step::PhotoSurfaceId => labelled_code(
                "receiver surface id: ",
                self.rc,
            ),
            Step::Input => labelled_error("camera input: ", self.rc),
            Step::OpenInput => labelled_error("open camera: ", self.rc),
            Step::Preview => labelled_error("preview output: ", self.rc),
            Step::Session => labelled_error("session: ", self.rc),
            Step::PhotoOutput => labelled_error("photo output: ", self.rc),
            Step::BeginConfig => labelled_error("beginConfig: ", self.rc),
            Step::AddInput => labelled_error("addInput: ", self.rc),
            Step::AddPreview => labelled_error("addPreviewOutput: ", self.rc),
            Step::AddPhoto => labelled_error("addPhotoOutput: ", self.rc),
            Step::Commit => labelled_error("commitConfig: ", self.rc),
            Step::Start | Step::Running => labelled_error("start: ", self.rc),
        }
    }
}

/// A session being built.
#[derive(Clone, Copy, PartialEq, Eq, Structural, Debug)]
pub struct SessionBuild {
    /// The call to make next.
    pub step: Step,
    /// What the session is built from.
    pub plan: SessionPlan,
    pub held: Held,
    /// The first configuring call that failed; the calls after it are still
    /// made.
    pub failed: Option<StepError>,
}

/// What a call is made with, beside what the calls before it made.
#[derive(Clone, Copy, PartialEq, Eq, Structural, Debug)]
pub enum Argument {
    Nothing,
    /// The size and the capacity that the options of a receiver are given.
    Receiver(ReceiverPlan),
    /// The profile that an output is made for.
    Profile(CameraProfile),
    /// The device, by its place in the list.
    Device(usize),
}

/// What the answer to a call leads to.
pub struct Advance {
    /// Calls that give something back, to be made now.
    pub release: Vec<Release>,
    /// Where the build failed, why.
    pub error: Option<StepError>,
}

impl SessionBuild {
    /// Stills are wanted exactly where the plan has them.
    pub fn new(plan: SessionPlan) -> (r: SessionBuild)
        ensures
            r == (SessionBuild {
                step: Step::Options,
                plan,
                held: Held::spec_nothing(),
                failed: None,
            }),
    {
        SessionBuild {
            step: Step::Options,
            plan,
            held: Held {
                receiver: false,
                photo_receiver: false,
                input: false,
                input_open: false,
                preview: false,
                session: false,
                photo_output: false,
            },
            failed: None,
        }
    }

    /// What the next call is made with.
    pub open spec fn spec_argument(self) -> Argument {
        match self.step {
            Step::Options => Argument::Receiver(self.plan.receiver),
            Step::PhotoOptions => match self.plan.photo {
                Some(photo) => Argument::Receiver(photo.receiver),
                None => Argument::Nothing,
            },
            Step::Input => Argument::Device(self.plan.device),
            Step::Preview => Argument::Profile(self.plan.preview),
            Step::PhotoOutput => match self.plan.photo {
                Some(photo) => Argument::Profile(photo.profile),
                None => Argument::Nothing,
            },
            _ => Argument::Nothing,
        }
    }

    /// What the next call is made with.
    pub fn argument(&self) -> (r: Argument)
        ensures
            r == self.spec_argument(),
    {
        match self.step {
            Step::Options => Argument::Receiver(self.plan.receiver),
            Step::PhotoOptions => match self.plan.photo {
                Some(photo) => Argument::Receiver(photo.receiver),
                None => Argument::Nothing,
            },
            Step::Input => Argument::Device(self.plan.device),
            Step::Preview => Argument::Profile(self.plan.preview),
            Step::PhotoOutput => match self.plan.photo {
                Some(photo) => Argument::Profile(photo.profile),
                None => Argument::Nothing,
            },
            _ => Argument::Nothing,
        }
    }

    /// Whether a failure of this step ends the build at once.
    pub open spec fn is_vital(step: Step) -> bool {
        match step {
            Step::Options | Step::Receiver | Step::SurfaceId | Step::Input | Step::OpenInput
            | Step::Preview | Step::Session => true,
            _ => false,
        }
    }

    /// Whether a step is one of the configuring calls, of which all are made
    /// before their answers are looked at.
    pub open spec fn is_configuring(step: Step) -> bool {
        match step {
            Step::BeginConfig | Step::AddInput | Step::AddPreview | Step::Commit
            | Step::Start => true,
            _ => false,
        }
    }

    /// What a step makes, where it succeeds.
    pub open spec fn gains(self) -> Held {
        match self.step {
            Step::Receiver => Held { receiver: true, ..self.held },
            Step::PhotoReceiver => Held { photo_receiver: true, ..self.held },
            Step::Input => Held { input: true, ..self.held },
            Step::OpenInput => Held { input_open: true, ..self.held },
            Step::Preview => Held { preview: true, ..self.held },
            Step::Session => Held { session: true, ..self.held },
            Step::PhotoOutput => Held { photo_output: true, ..self.held },
            _ => self.held,
        }
    }

    /// The step after this one. Steps towards stills are left out where no
    /// still output is wanted, and given up where one of them fails.
    pub open spec fn next_step(self, ok: bool) -> Step {
        match self.step {
            Step::Options => Step::Receiver,
            Step::Receiver => Step::SurfaceId,
            Step::SurfaceId => if self.plan.photo is Some {
                Step::PhotoOptions
            } else {
                Step::Input
            },
            Step::PhotoOptions => if ok {
                Step::PhotoReceiver
            } else {
                Step::Input
            },
            Step::PhotoReceiver => if ok {
                Step::PhotoSurfaceId
            } else {
                Step::Input
            },
            Step::PhotoSurfaceId => Step::Input,
            Step::Input => Step::OpenInput,
            Step::OpenInput => Step::Preview,
            Step::Preview => Step::Session,
            Step::Session => if self.held.photo_receiver {
                Step::PhotoOutput
            } else {
                Step::BeginConfig
            },
            Step::PhotoOutput => Step::BeginConfig,
            Step::BeginConfig => Step::AddInput,
            Step::AddInput => Step::AddPreview,
            Step::AddPreview => if self.held.photo_output {
                Step::AddPhoto
            } else {
                Step::Commit
            },
            Step::AddPhoto => Step::Commit,
            Step::Commit => Step::Start,
            Step::Start | Step::Running => Step::Running,
        }
    }

    /// The first failed configuring call, this answer included.
    pub open spec fn first_failure(self, ok: bool, rc: i32) -> Option<StepError> {
        if self.failed is None && !ok && Self::is_configuring(self.step) {
            Some(StepError { step: self.step, rc })
        } else {
            self.failed
        }
    }

    /// What is held after a step that does not end the build: a still output
    /// that cannot be used is given up, and so is a still receiver that no
    /// still output came of.
    pub open spec fn holds_after(self, ok: bool) -> Held {
        if ok {
            self.gains()
        } else if self.step == Step::PhotoSurfaceId {
            Held { photo_receiver: false, ..self.held }
        } else if self.step == Step::AddPhoto {
            Held { photo_output: false, ..self.held }
        } else {
            self.held
        }
    }

    /// Whether this answer ends the build without a session.
    pub open spec fn ends(self, ok: bool, rc: i32) -> Option<StepError> {
        if !ok && Self::is_vital(self.step) {
            Some(StepError { step: self.step, rc })
        } else if self.step == Step::Start {
            self.first_failure(ok, rc)
        } else {
            None
        }
    }

    /// Whether the session runs but its still receiver is of no use.
    pub open spec fn drops_photo_receiver(self) -> bool {
        self.step == Step::Start && self.held.photo_receiver && !self.held.photo_output
    }

    /// The answer to the call that was due: its code, and whether it handed out
    /// what it makes. A step has succeeded if the code is zero and it did.
    pub fn answered(&mut self, rc: i32, got: bool) -> (r: Advance)
        ensures
            ({
                let ok = rc == 0 && got;
                match old(self).ends(ok, rc) {
                    Some(e) => {
                        &&& r.error == Some(e)
                        &&& r.release@ == old(self).held.teardown()
                        &&& final(self).held == Held::spec_nothing()
                        &&& final(self).step == old(self).step
                        &&& final(self).failed == old(self).first_failure(ok, rc)
                    },
                    None => {
                        &&& r.error is None
                        &&& final(self).step == old(self).next_step(ok)
                        &&& final(self).failed == old(self).first_failure(ok, rc)
                        &&& if old(self).drops_photo_receiver() {
                            &&& r.release@ == seq![Release::PhotoReceiver]
                            &&& final(self).held == (Held {
                                photo_receiver: false,
                                ..old(self).held
                            })
                        } else {
                            &&& r.release@ == then_if(
                                Seq::empty(),
                                old(self).step == Step::AddPhoto && !ok,
                                Release::PhotoOutput,
                            )
                            &&& final(self).held == old(self).holds_after(ok)
                        }
                    },
                }
            }),
            final(self).plan == old(self).plan,
    {
        let ok = rc == 0 && got;
        let step = self.step;
        let vital = match step {
            Step::Options | Step::Receiver | Step::SurfaceId | Step::Input | Step::OpenInput
            | Step::Preview | Step::Session => true,
            _ => false,
        };
        let configuring = match step {
            Step::BeginConfig | Step::AddInput | Step::AddPreview | Step::Commit
            | Step::Start => true,
            _ => false,
        };
        if !ok && vital {
            return self.fail(StepError { step, rc });
        }
        if !ok && configuring && self.failed.is_none() {
            self.failed = Some(StepError { step, rc });
        }
        if step == Step::Start {
            if let Some(e) = self.failed {
                return self.fail(e);
            }
        }
        let mut release: Vec<Release> = Vec::new();
        match step {
            Step::Options => {
                self.step = Step::Receiver;
            },
            Step::Receiver => {
                self.held.receiver = true;
                self.step = Step::SurfaceId;
            },
            Step::SurfaceId => {
                self.step = if self.plan.photo.is_some() {
                    Step::PhotoOptions
                } else {
                    Step::Input
                };
            },
            Step::PhotoOptions => {
                self.step = if ok {
                    Step::PhotoReceiver
                } else {
                    Step::Input
                };
            },
            Step::PhotoReceiver => {
                if ok {
                    self.held.photo_receiver = true;
                    self.step = Step::PhotoSurfaceId;
                } else {
                    self.step = Step::Input;
                }
            },
            Step::PhotoSurfaceId => {
                if !ok {
                    self.held.photo_receiver = false;
                }
                self.step = Step::Input;
            },
            Step::Input => {
                self.held.input = true;
                self.step = Step::OpenInput;
            },
            Step::OpenInput => {
                self.held.input_open = true;
                self.step = Step::Preview;
            },
            Step::Preview => {
                self.held.preview = true;
                self.step = Step::Session;
            },
            Step::Session => {
                self.held.session = true;
                self.step = if self.held.photo_receiver {
                    Step::PhotoOutput
                } else {
                    Step::BeginConfig
                };
            },
            Step::PhotoOutput => {
                if ok {
                    self.held.photo_output = true;
                }
                self.step = Step::BeginConfig;
            },
            Step::BeginConfig => {
                self.step = Step::AddInput;
            },
            Step::AddInput => {
                self.step = Step::AddPreview;
            },
            Step::AddPreview => {
                self.step = if self.held.photo_output {
                    Step::AddPhoto
                } else {
                    Step::Commit
                };
            },
            Step::AddPhoto => {
                if !ok {
                    self.held.photo_output = false;
                    release.push(Release::PhotoOutput);
                }
                self.step = Step::Commit;
            },
            Step::Commit => {
                self.step = Step::Start;
            },
            Step::Start => {
                if self.held.photo_receiver && !self.held.photo_output {
                    self.held.photo_receiver = false;
                    release.push(Release::PhotoReceiver);
                }
                self.step = Step::Running;
            },
            Step::Running => {},
        }
        proof {
            if old(self).drops_photo_receiver() {
                assert(release@ =~= seq![Release::PhotoReceiver]);
            } else {
                assert(release@ =~= then_if(
                    Seq::empty(),
                    old(self).step == Step::AddPhoto && !ok,
                    Release::PhotoOutput,
                ));
            }
        }
        Advance { release, error: None }
    }

    fn fail(&mut self, e: StepError) -> (r: Advance)
        ensures
            r.error == Some(e),
            r.release@ == old(self).held.teardown(),
            final(self).held == Held::spec_nothing(),
            final(self).step == old(self).step,
            final(self).failed == old(self).failed,
            final(self).plan == old(self).plan,
    {
        let mut release: Vec<Release> = Vec::new();
        self.held.release_all(&mut release);
        self.held = Held {
            receiver: false,
            photo_receiver: false,
            input: false,
            input_open: false,
            preview: false,
            session: false,
            photo_output: false,
        };
        Advance { release, error: Some(e) }
    }

    /// The calls that stop a running session, in order: the receivers stop
    /// calling back before anything is given back.
    pub open spec fn stop_calls(self) -> Seq<Release> {
        self.held.teardown_after(
            then_if(
                seq![Release::ReceiverOff],
                self.held.photo_receiver,
                Release::PhotoReceiverOff,
            ).push(Release::StopSession),
        )
    }

    /// Stops a running session.
    pub fn stop(&mut self) -> (r: Vec<Release>)
        ensures
            r@ == old(self).stop_calls(),
            *final(self) == (SessionBuild { held: Held::spec_nothing(), ..*old(self) }),
    {
        let mut r: Vec<Release> = Vec::new();
        r.push(Release::ReceiverOff);
        if self.held.photo_receiver {
            r.push(Release::PhotoReceiverOff);
        }
        r.push(Release::StopSession);
        assert(r@ =~= then_if(
            seq![Release::ReceiverOff],
            self.held.photo_receiver,
            Release::PhotoReceiverOff,
        ).push(Release::StopSession));
        self.held.release_all(&mut r);
        self.held = Held {
            receiver: false,
            photo_receiver: false,
            input: false,
            input_open: false,
            preview: false,
            session: false,
            photo_output: false,
        };
        r
    }
}

/// Whether something is held that a call gives back.
pub open spec fn gives_back(held: Held, call: Release) -> bool {
    match call {
        Release::Session => held.session,
        Release::Preview => held.preview,
        Release::PhotoOutput => held.photo_output,
        Release::CloseInput => held.input_open,
        Release::Input => held.input,
        Release::Receiver => held.receiver,
        Release::PhotoReceiver => held.photo_receiver,
        _ => false,
    }
}

proof fn lemma_then_if(calls: Seq<Release>, due: bool, call: Release)
    requires
        calls.no_duplicates(),
        !calls.contains(call),
    ensures
        then_if(calls, due, call).no_duplicates(),
        forall|c: Release| #[trigger]
            then_if(calls, due, call).contains(c) <==> calls.contains(c) || (due && c == call),
{
    let t = then_if(calls, due, call);
    assert forall|c: Release| #[trigger]
        t.contains(c) <==> calls.contains(c) || (due && c == call) by {
        if calls.contains(c) {
            let i = choose|i: int| 0 <= i < calls.len() && calls[i] == c;
            assert(t[i] == c);
        }
        if due {
            assert(t[calls.len() as int] == call);
            if t.contains(c) && c != call {
                let i = choose|i: int| 0 <= i < t.len() && t[i] == c;
                assert(calls[i] == c);
            }
        }
    }
    assert forall|i: int, j: int| 0 <= i < t.len() && 0 <= j < t.len() && i != j implies t[i]
        != t[j] by {
        if i < calls.len() {
            assert(calls.contains(calls[i]));
        }
        if j < calls.len() {
            assert(calls.contains(calls[j]));
        }
    }
}

/// A failed build and a stopped session give back exactly what they hold, each
/// thing once.
pub proof fn teardown_gives_back_what_is_held(held: Held)
    ensures
        forall|call: Release| #[trigger]
            held.teardown().contains(call) <==> gives_back(held, call),
        held.teardown().no_duplicates(),
{
    let n = Seq::<Release>::empty();
    lemma_then_if(n, held.session, Release::Session);
    let a = then_if(n, held.session, Release::Session);
    lemma_then_if(a, held.preview, Release::Preview);
    let b = then_if(a, held.preview, Release::Preview);
    lemma_then_if(b, held.photo_output, Release::PhotoOutput);
    let c = then_if(b, held.photo_output, Release::PhotoOutput);
    lemma_then_if(c, held.input_open, Release::CloseInput);
    let d = then_if(c, held.input_open, Release::CloseInput);
    lemma_then_if(d, held.input, Release::Input);
    let e = then_if(d, held.input, Release::Input);
    lemma_then_if(e, held.receiver, Release::Receiver);
    let f = then_if(e, held.receiver, Release::Receiver);
    lemma_then_if(f, held.photo_receiver, Release::PhotoReceiver);
    assert(held.teardown() == then_if(f, held.photo_receiver, Release::PhotoReceiver));
    assert forall|call: Release| #[trigger]
        held.teardown().contains(call) <==> gives_back(held, call) by {
        assert(f.contains(call) <==> e.contains(call) || (held.receiver && call
            == Release::Receiver));
        assert(e.contains(call) <==> d.contains(call) || (held.input && call == Release::Input));
        assert(d.contains(call) <==> c.contains(call) || (held.input_open && call
            == Release::CloseInput));
        assert(c.contains(call) <==> b.contains(call) || (held.photo_output && call
            == Release::PhotoOutput));
        assert(b.contains(call) <==> a.contains(call) || (held.preview && call
            == Release::Preview));
        assert(a.contains(call) <==> n.contains(call) || (held.session && call
            == Release::Session));
    }
}

// ---------------------------------------------------------------------------
// A recording on the session
// ---------------------------------------------------------------------------

/// A call on the way to a running recording.
#[derive(Clone, Copy, PartialEq, Eq, Structural, Debug)]
pub enum RecordStep {
    Create,
    Prepare,
    /// The recorder's surface and its id.
    Surface,
    Output,
    BeginConfig,
    AddOutput,
    Commit,
    StartSession,
    StartOutput,
    StartRecorder,
    Recording,
}

/// A call that takes part of a recording back.
#[derive(Clone, Copy, PartialEq, Eq, Structural, Debug)]
pub enum RecordRelease {
    StopRecorder,
    StopOutput,
    BeginConfig,
    RemoveOutput,
    Commit,
    StartSession,
    Output,
    Recorder,
}

#[derive(Clone, Copy, PartialEq, Eq, Structural, Debug)]
pub struct RecordError {
    pub step: RecordStep,
    pub rc: i32,
}

impl RecordError {
    pub open spec fn spec_message(self) -> Seq<char> {
        match self.step {
            RecordStep::Create => "recorder create"@,
            RecordStep::Prepare => "recorder prepare: "@ + spec_signed_decimal(self.rc as int),
            RecordStep::Surface => "recorder surface: "@ + spec_signed_decimal(self.rc as int),
            RecordStep::Output => "video output: "@ + spec_cam_error(self.rc),
            RecordStep::BeginConfig => "beginConfig: "@ + spec_cam_error(self.rc),
            RecordStep::AddOutput => "addVideoOutput: "@ + spec_cam_error(self.rc),
            RecordStep::Commit => "commitConfig: "@ + spec_cam_error(self.rc),
            RecordStep::StartSession => "start: "@ + spec_cam_error(self.rc),
            RecordStep::StartOutput => "video output start: "@ + spec_cam_error(self.rc),
            RecordStep::StartRecorder | RecordStep::Recording => "recorder start: "@
                + spec_signed_decimal(self.rc as int),
        }
    }

    pub fn message(&self) -> (r: String)
        ensures
            r@ == self.spec_message(),
    {
        match self.step {
            RecordStep::Create => "recorder create".to_owned(),
            RecordStep::Prepare => labelled_code("recorder prepare: ", self.rc),
            RecordStep::Surface => labelled_code("recorder surface: ", self.rc),
            RecordStep::Output => labelled_error("video output: ", self.rc),
            RecordStep::BeginConfig => labelled_error("beginConfig: ", self.rc),
            RecordStep::AddOutput => labelled_error("addVideoOutput: ", self.rc),
            RecordStep::Commit => labelled_error("commitConfig: ", self.rc),
            RecordStep::StartSession => labelled_error("start: ", self.rc),
            RecordStep::StartOutput => labelled_error("video output start: ", self.rc),
            RecordStep::StartRecorder | RecordStep::Recording => labelled_code(
                "recorder start: ",
                self.rc,
            ),
        }
    }
}

/// A recording being set up.
#[derive(Clone, Copy, PartialEq, Eq, Structural, Debug)]
pub struct RecordBuild {
    pub step: RecordStep,
    /// Whether a video output can be taken out of a session again.
    pub can_remove: bool,
    pub failed: Option<RecordError>,
}

/// What the answer to a call leads to.
pub struct RecordAdvance {
    pub release: Vec<RecordRelease>,
    pub error: Option<RecordError>,
    /// The recorder is turned by so many degrees now, where the service can turn it;
    /// how that goes does not matter.
    pub rotate: Option<i32>,
}

impl RecordBuild {
    pub fn new(can_remove: bool) -> (r: RecordBuild)
        ensures
            r == (RecordBuild { step: RecordStep::Create, can_remove, failed: None }),
    {
        RecordBuild { step: RecordStep::Create, can_remove, failed: None }
    }

    pub open spec fn is_configuring(step: RecordStep) -> bool {
        match step {
            RecordStep::BeginConfig | RecordStep::AddOutput | RecordStep::Commit
            | RecordStep::StartSession => true,
            _ => false,
        }
    }

    pub open spec fn next_step(self) -> RecordStep {
        match self.step {
            RecordStep::Create => RecordStep::Prepare,
            RecordStep::Prepare => RecordStep::Surface,
            RecordStep::Surface => RecordStep::Output,
            RecordStep::Output => RecordStep::BeginConfig,
            RecordStep::BeginConfig => RecordStep::AddOutput,
            RecordStep::AddOutput => RecordStep::Commit,
            RecordStep::Commit => RecordStep::StartSession,
            RecordStep::StartSession => RecordStep::StartOutput,
            RecordStep::StartOutput => RecordStep::StartRecorder,
            RecordStep::StartRecorder | RecordStep::Recording => RecordStep::Recording,
        }
    }

    pub open spec fn first_failure(self, ok: bool, rc: i32) -> Option<RecordError> {
        if self.failed is None && !ok && Self::is_configuring(self.step) {
            Some(RecordError { step: self.step, rc })
        } else {
            self.failed
        }
    }

    /// Whether this answer ends the set-up. The configuring calls are all made
    /// first.
    pub open spec fn ends(self, ok: bool, rc: i32) -> Option<RecordError> {
        if self.step == RecordStep::StartSession {
            self.first_failure(ok, rc)
        } else if !ok && !Self::is_configuring(self.step) && self.step != RecordStep::Recording {
            Some(RecordError { step: self.step, rc })
        } else {
            None
        }
    }

    /// What is given back where the set-up ends at a step.
    pub open spec fn cleanup(self) -> Seq<RecordRelease> {
        match self.step {
            RecordStep::Create => Seq::empty(),
            RecordStep::Prepare | RecordStep::Surface | RecordStep::Output => seq![
                RecordRelease::Recorder,
            ],
            RecordStep::StartOutput => seq![RecordRelease::Output, RecordRelease::Recorder],
            RecordStep::StartRecorder => seq![
                RecordRelease::StopOutput,
                RecordRelease::Output,
                RecordRelease::Recorder,
            ],
            _ => (if self.can_remove {
                seq![
                    RecordRelease::BeginConfig,
                    RecordRelease::RemoveOutput,
                    RecordRelease::Commit,
                ]
            } else {
                Seq::empty()
            }) + seq![RecordRelease::Output, RecordRelease::Recorder],
        }
    }

    /// The answer to the call that was due.
    pub fn answered(&mut self, rc: i32, got: bool) -> (r: RecordAdvance)
        ensures
            ({
                let ok = rc == 0 && got;
                match old(self).ends(ok, rc) {
                    Some(e) => {
                        &&& r.error == Some(e)
                        &&& r.release@ == old(self).cleanup()
                        &&& r.rotate is None
                        &&& final(self).step == old(self).step
                        &&& final(self).failed == old(self).first_failure(ok, rc)
                    },
                    None => {
                        &&& r.error is None
                        &&& r.release@.len() == 0
                        &&& r.rotate == if old(self).step == RecordStep::Prepare {
                            Some(RECORD_ROTATION)
                        } else {
                            None
                        }
                        &&& final(self).step == old(self).next_step()
                        &&& final(self).failed == old(self).first_failure(ok, rc)
                    },
                }
            }),
            final(self).can_remove == old(self).can_remove,
    {
        let ok = rc == 0 && got;
        let step = self.step;
        let configuring = match step {
            RecordStep::BeginConfig | RecordStep::AddOutput | RecordStep::Commit
            | RecordStep::StartSession => true,
            _ => false,
        };
        if !ok && configuring && self.failed.is_none() {
            self.failed = Some(RecordError { step, rc });
        }
        let mut error: Option<RecordError> = None;
        if step == RecordStep::StartSession {
            error = self.failed;
        } else if !ok && !configuring && step != RecordStep::Recording {
            error = Some(RecordError { step, rc });
        }
        let mut release: Vec<RecordRelease> = Vec::new();
        if error.is_some() {
            match step {
                RecordStep::Create => {},
                RecordStep::Prepare | RecordStep::Surface | RecordStep::Output => {
                    release.push(RecordRelease::Recorder);
                },
                RecordStep::StartOutput => {
                    release.push(RecordRelease::Output);
                    release.push(RecordRelease::Recorder);
                },
                RecordStep::StartRecorder => {
                    release.push(RecordRelease::StopOutput);
                    release.push(RecordRelease::Output);
                    release.push(RecordRelease::Recorder);
                },
                _ => {
                    if self.can_remove {
                        release.push(RecordRelease::BeginConfig);
                        release.push(RecordRelease::RemoveOutput);
                        release.push(RecordRelease::Commit);
                    }
                    release.push(RecordRelease::Output);
                    release.push(RecordRelease::Recorder);
                },
            }
            assert(release@ =~= old(self).cleanup());
            return RecordAdvance { release, error, rotate: None };
        }
        self.step = match step {
            RecordStep::Create => RecordStep::Prepare,
            RecordStep::Prepare => RecordStep::Surface,
            RecordStep::Surface => RecordStep::Output,
            RecordStep::Output => RecordStep::BeginConfig,
            RecordStep::BeginConfig => RecordStep::AddOutput,
            RecordStep::AddOutput => RecordStep::Commit,
            RecordStep::Commit => RecordStep::StartSession,
            RecordStep::StartSession => RecordStep::StartOutput,
            RecordStep::StartOutput => RecordStep::StartRecorder,
            RecordStep::StartRecorder | RecordStep::Recording => RecordStep::Recording,
        };
        let rotate = if step == RecordStep::Prepare {
            Some(RECORD_ROTATION)
        } else {
            None
        };
        RecordAdvance { release, error: None, rotate }
    }
}

/// Wherever a set-up ends after the recorder was made, the recorder is given
/// back last; and the output before it, once there is one.
pub proof fn failed_recording_releases_the_recorder(b: RecordBuild)
    requires
        b.step != RecordStep::Create,
    ensures
        b.cleanup().len() > 0,
        b.cleanup().last() == RecordRelease::Recorder,
        b.step != RecordStep::Prepare && b.step != RecordStep::Surface && b.step
            != RecordStep::Output ==> b.cleanup().contains(RecordRelease::Output),
{
    let c = b.cleanup();
    if b.step != RecordStep::Prepare && b.step != RecordStep::Surface && b.step
        != RecordStep::Output {
        assert(c[c.len() - 2] == RecordRelease::Output);
    }
}

/// Why a recording cannot be started or stopped.
#[derive(Clone, Copy, PartialEq, Eq, Structural, Debug)]
pub enum RecordRefusal {
    NoCameraNdk,
    NoSession,
    AlreadyRecording,
    NotRecording,
    NoRecorderNdk,
    UnknownInput,
}

impl RecordRefusal {
    pub fn message(&self) -> (r: &'static str)
        ensures
            r@ == match *self {
                RecordRefusal::NoCameraNdk => "camera NDK not available"@,
                RecordRefusal::NoSession => "no camera session is running"@,
                RecordRefusal::AlreadyRecording => "already recording"@,
                RecordRefusal::NotRecording => "not recording"@,
                RecordRefusal::NoRecorderNdk =>
                    "the AV recorder NDK is not available on this device"@,
                RecordRefusal::UnknownInput => "unknown input"@,
            },
    {
        match self {
            RecordRefusal::NoCameraNdk => "camera NDK not available",
            RecordRefusal::NoSession => "no camera session is running",
            RecordRefusal::AlreadyRecording => "already recording",
            RecordRefusal::NotRecording => "not recording",
            RecordRefusal::NoRecorderNdk => "the AV recorder NDK is not available on this device",
            RecordRefusal::UnknownInput => "unknown input",
        }
    }
}

/// Whether a recording may be started: a session runs without one, the recorder
/// is there, and the session's device is known.
pub fn may_start_video(
    has_api: bool,
    session: bool,
    recording: bool,
    has_recorder: bool,
    known_device: bool,
) -> (r: Result<(), RecordRefusal>)
    ensures
        r == if !has_api {
            Err(RecordRefusal::NoCameraNdk)
        } else if !session {
            Err(RecordRefusal::NoSession)
        } else if recording {
            Err(RecordRefusal::AlreadyRecording)
        } else if !has_recorder {
            Err(RecordRefusal::NoRecorderNdk)
        } else if !known_device {
            Err(RecordRefusal::UnknownInput)
        } else {
            Ok::<(), RecordRefusal>(())
        },
{
    if !has_api {
        Err(RecordRefusal::NoCameraNdk)
    } else if !session {
        Err(RecordRefusal::NoSession)
    } else if recording {
        Err(RecordRefusal::AlreadyRecording)
    } else if !has_recorder {
        Err(RecordRefusal::NoRecorderNdk)
    } else if !known_device {
        Err(RecordRefusal::UnknownInput)
    } else {
        Ok(())
    }
}

/// The calls that stop a recording: it stops, its output leaves the session,
/// which goes on, and both are given back.
pub open spec fn stop_video_calls(can_remove: bool) -> Seq<RecordRelease> {
    seq![RecordRelease::StopRecorder, RecordRelease::StopOutput] + (if can_remove {
        seq![
            RecordRelease::BeginConfig,
            RecordRelease::RemoveOutput,
            RecordRelease::Commit,
            RecordRelease::StartSession,
        ]
    } else {
        Seq::empty()
    }) + seq![RecordRelease::Output, RecordRelease::Recorder]
}

/// Stops a recording, if there is a session with one.
pub fn stop_video(has_api: bool, session: bool, recording: bool, can_remove: bool) -> (r: Result<
    Vec<RecordRelease>,
    RecordRefusal,
>)
    ensures
        match r {
            Ok(calls) => has_api && session && recording && calls@ == stop_video_calls(can_remove),
            Err(e) => e == if !has_api {
                RecordRefusal::NoCameraNdk
            } else if !session {
                RecordRefusal::NoSession
            } else {
                RecordRefusal::NotRecording
            } && !(has_api && session && recording),
        },
{
    if !has_api {
        return Err(RecordRefusal::NoCameraNdk);
    }
    if !session {
        return Err(RecordRefusal::NoSession);
    }
    if !recording {
        return Err(RecordRefusal::NotRecording);
    }
    let mut calls: Vec<RecordRelease> = Vec::new();
    calls.push(RecordRelease::StopRecorder);
    calls.push(RecordRelease::StopOutput);
    if can_remove {
        calls.push(RecordRelease::BeginConfig);
        calls.push(RecordRelease::RemoveOutput);
        calls.push(RecordRelease::Commit);
        calls.push(RecordRelease::StartSession);
    }
    calls.push(RecordRelease::Output);
    calls.push(RecordRelease::Recorder);
    assert(calls@ =~= stop_video_calls(can_remove));
    Ok(calls)
}

// ---------------------------------------------------------------------------
// What a session comes to
// ---------------------------------------------------------------------------

/// A session after some steps, all of which went well.
pub open spec fn after_steps(b: SessionBuild, n: nat) -> SessionBuild
    decreases n,
{
    if n == 0 {
        b
    } else {
        after_steps(
            SessionBuild { step: b.next_step(true), held: b.holds_after(true), ..b },
            (n - 1) as nat,
        )
    }
}

/// A session whose steps all go well runs, and holds all that it needs: its receiver, its
/// open input, its preview and itself, and for stills a receiver and an output where they
/// are planned.
pub proof fn a_session_that_goes_well_runs(b: SessionBuild)
    requires
        b.step is Options,
        b.held == Held::spec_nothing(),
    ensures
        ({
            let n: nat = if b.plan.photo is Some {
                17
            } else {
                12
            };
            let end = after_steps(b, n);
            &&& end.step is Running
            &&& end.held.receiver && end.held.input && end.held.input_open && end.held.preview
                && end.held.session
            &&& end.held.photo_receiver <==> b.plan.photo is Some
            &&& end.held.photo_output <==> b.plan.photo is Some
        }),
{
    reveal_with_fuel(after_steps, 18);
}

/// A recording whose steps all go well runs, after as many steps as there are.
pub proof fn a_recording_that_goes_well_runs(b: RecordBuild, n: nat)
    requires
        n >= 10,
        b.step is Create,
    ensures
        recording_after(b, n).step is Recording,
        !(recording_after(b, 9).step is Recording),
{
    reveal_with_fuel(recording_after, 11);
    let b10 = recording_after(b, 10);
    recordings_go_on(b10, (n - 10) as nat);
    steps_add_up(b, 10, (n - 10) as nat);
}

/// A recording after some steps, all of which went well.
pub open spec fn recording_after(b: RecordBuild, n: nat) -> RecordBuild
    decreases n,
{
    if n == 0 {
        b
    } else {
        recording_after(RecordBuild { step: b.next_step(), ..b }, (n - 1) as nat)
    }
}

proof fn recordings_go_on(b: RecordBuild, n: nat)
    requires
        b.step is Recording,
    ensures
        recording_after(b, n).step is Recording,
    decreases n,
{
    if n > 0 {
        recordings_go_on(RecordBuild { step: b.next_step(), ..b }, (n - 1) as nat);
    }
}

proof fn steps_add_up(b: RecordBuild, m: nat, n: nat)
    ensures
        recording_after(recording_after(b, m), n) == recording_after(b, m + n),
    decreases m,
{
    if m > 0 {
        steps_add_up(RecordBuild { step: b.next_step(), ..b }, (m - 1) as nat, n);
    }
}

/// When a thing that a session holds is let go, among the others.
pub open spec fn turn(call: Release) -> int {
    match call {
        Release::ReceiverOff => 0,
        Release::PhotoReceiverOff => 1,
        Release::StopSession => 2,
        Release::Session => 3,
        Release::Preview => 4,
        Release::PhotoOutput => 5,
        Release::CloseInput => 6,
        Release::Input => 7,
        Release::Receiver => 8,
        Release::PhotoReceiver => 9,
    }
}

spec fn in_turn(calls: Seq<Release>, below: int) -> bool {
    &&& forall|i: int, j: int|
        0 <= i < j < calls.len() ==> turn(#[trigger] calls[i]) < turn(#[trigger] calls[j])
    &&& forall|i: int| 0 <= i < calls.len() ==> turn(#[trigger] calls[i]) < below
}

proof fn one_more_in_turn(calls: Seq<Release>, due: bool, call: Release)
    requires
        in_turn(calls, turn(call)),
    ensures
        in_turn(then_if(calls, due, call), turn(call) + 1),
        in_turn(calls.push(call), turn(call) + 1),
{
}

/// A session is stopped in turn: its receivers fall silent first, then it stops, then its
/// outputs go, then its input, closed before it is let go, and its receivers last.
pub proof fn a_session_is_stopped_in_turn(b: SessionBuild)
    ensures
        ({
            let calls = b.stop_calls();
            &&& forall|i: int, j: int|
                0 <= i < j < calls.len() ==> turn(#[trigger] calls[i]) < turn(#[trigger] calls[j])
            &&& calls.contains(Release::StopSession) && calls.contains(Release::ReceiverOff)
            &&& b.held.photo_receiver ==> calls.contains(Release::PhotoReceiverOff)
        }),
        ({
            let calls = b.held.teardown();
            forall|i: int, j: int|
                0 <= i < j < calls.len() ==> turn(#[trigger] calls[i]) < turn(#[trigger] calls[j])
        }),
{
    let h = b.held;
    let off = seq![Release::ReceiverOff];
    assert(in_turn(off, 1));
    one_more_in_turn(off, h.photo_receiver, Release::PhotoReceiverOff);
    let silent = then_if(off, h.photo_receiver, Release::PhotoReceiverOff);
    one_more_in_turn(silent, true, Release::StopSession);
    let halted = silent.push(Release::StopSession);
    torn_down_in_turn(h, halted);
    torn_down_in_turn(h, Seq::empty());
    let calls = b.stop_calls();
    teardown_keeps(h, halted);
    assert(calls[silent.len() as int] == halted[silent.len() as int]);
    assert(calls[0] == halted[0]);
    assert(halted[0] == Release::ReceiverOff);
    if h.photo_receiver {
        assert(halted[1] == Release::PhotoReceiverOff);
        assert(calls[1] == halted[1]);
    }
}

proof fn torn_down_in_turn(h: Held, calls: Seq<Release>)
    requires
        in_turn(calls, 3),
    ensures
        in_turn(h.teardown_after(calls), 10),
{
    let c1 = then_if(calls, h.session, Release::Session);
    one_more_in_turn(calls, h.session, Release::Session);
    let c2 = then_if(c1, h.preview, Release::Preview);
    one_more_in_turn(c1, h.preview, Release::Preview);
    let c3 = then_if(c2, h.photo_output, Release::PhotoOutput);
    one_more_in_turn(c2, h.photo_output, Release::PhotoOutput);
    let c4 = then_if(c3, h.input_open, Release::CloseInput);
    one_more_in_turn(c3, h.input_open, Release::CloseInput);
    let c5 = then_if(c4, h.input, Release::Input);
    one_more_in_turn(c4, h.input, Release::Input);
    let c6 = then_if(c5, h.receiver, Release::Receiver);
    one_more_in_turn(c5, h.receiver, Release::Receiver);
    one_more_in_turn(c6, h.photo_receiver, Release::PhotoReceiver);
}

proof fn teardown_keeps(h: Held, calls: Seq<Release>)
    ensures
        h.teardown_after(calls).len() >= calls.len(),
        forall|i: int|
            0 <= i < calls.len() ==> #[trigger] h.teardown_after(calls)[i] == calls[i],
{
}

/// A step that the preview cannot do without ends the session when it fails; one for stills
/// alone does not.
pub proof fn stills_do_not_keep_a_session_from_running(b: SessionBuild, rc: i32)
    requires
        b.failed is None,
    ensures
        b.step is PhotoOptions || b.step is PhotoReceiver || b.step is PhotoSurfaceId || b.step
            is PhotoOutput || b.step is AddPhoto ==> b.ends(false, rc) is None && b.first_failure(
            false,
            rc,
        ) is None,
        b.step is Input || b.step is OpenInput || b.step is Preview || b.step is Session || b.step
            is Receiver ==> b.ends(false, rc) == Some(StepError { step: b.step, rc }),
        b.step is BeginConfig || b.step is AddInput || b.step is AddPreview || b.step is Commit
            || b.step is Start ==> b.first_failure(false, rc) == Some(
            StepError { step: b.step, rc },
        ),
        b.ends(true, rc) is None,
{
}

} // verus!
