//! Stills and recordings: what they are asked for, what came of them, and the
//! queue through which results reach the thread that draws.
use vstd::prelude::*;

verus! {

/// The camera's flash.
#[derive(Clone, Copy, PartialEq, Eq, Structural, Debug)]
pub enum CameraFlashMode {
    Off,
    On,
    Auto,
    Torch,
}

/// What a capture is asked to do.
pub enum CameraCaptureRequest {
    Photo { path: String, library: bool },
    StartVideo { path: String, audio: bool, library: bool },
    PauseVideo,
    ResumeVideo,
    StopVideo,
}

/// What failed.
#[derive(Clone, Copy, PartialEq, Eq, Structural, Debug)]
pub enum CaptureKind {
    Capture,
    Photo,
    Video,
}

impl CaptureKind {
    /// The name that a failure is reported under.
    pub fn name(&self) -> (r: &'static str)
        ensures
            r@ == match *self {
                CaptureKind::Capture => "capture"@,
                CaptureKind::Photo => "photo"@,
                CaptureKind::Video => "video"@,
            },
    {
        match self {
            CaptureKind::Capture => "capture",
            CaptureKind::Photo => "photo",
            CaptureKind::Video => "video",
        }
    }
}

/// What came of a capture.
pub enum CameraCaptureResult {
    Photo { path: String, width: u32, height: u32 },
    VideoStarted { path: String },
    VideoStopped { path: String },
    VideoPaused,
    VideoResumed,
    Failed { what: CaptureKind, error: String },
    /// The gallery's answer: where it keeps the picture, if it took it.
    SavedToLibrary { path: String, uri: Option<String> },
}

/// Whether a result is a failure of this kind with this message.
pub open spec fn is_failure(r: CameraCaptureResult, what: CaptureKind, error: Seq<char>) -> bool {
    r matches CameraCaptureResult::Failed { what: w, error: e } && w == what && e@ == error
}

/// A failure with a message.
pub fn failed(what: CaptureKind, error: &str) -> (r: CameraCaptureResult)
    ensures
        is_failure(r, what, error@),
{
    CameraCaptureResult::Failed { what, error: error.to_owned() }
}

/// The gallery answered for a picture.
pub fn saved_to_library(path: String, ok: bool, uri: String) -> (r: CameraCaptureResult)
    ensures
        r == (CameraCaptureResult::SavedToLibrary {
            path,
            uri: if ok {
                Some(uri)
            } else {
                None
            },
        }),
{
    CameraCaptureResult::SavedToLibrary {
        path,
        uri: if ok {
            Some(uri)
        } else {
            None
        },
    }
}

/// Captures that finished on a camera thread, each with its input.
pub struct CaptureResults {
    queue: Vec<(u64, CameraCaptureResult)>,
}

impl View for CaptureResults {
    type V = Seq<(u64, CameraCaptureResult)>;

    closed spec fn view(&self) -> Seq<(u64, CameraCaptureResult)> {
        self.queue@
    }
}

impl CaptureResults {
    pub fn new() -> (r: CaptureResults)
        ensures
            r@ == Seq::<(u64, CameraCaptureResult)>::empty(),
    {
        CaptureResults { queue: Vec::new() }
    }
}

/// Adds a result.
pub fn push_capture_result(results: &mut CaptureResults, input_id: u64, result: CameraCaptureResult)
    ensures
        final(results)@ == old(results)@.push((input_id, result)),
{
    results.queue.push((input_id, result));
}

/// Takes all results, oldest first, and leaves none.
pub fn take_capture_results(results: &mut CaptureResults) -> (r: Vec<(u64, CameraCaptureResult)>)
    ensures
        r@ == old(results)@,
        final(results)@ == Seq::<(u64, CameraCaptureResult)>::empty(),
{
    let mut taken: Vec<(u64, CameraCaptureResult)> = Vec::new();
    core::mem::swap(&mut results.queue, &mut taken);
    taken
}

/// Stills that were asked for and have not come yet, oldest first.
pub struct PhotoShared {
    /// The receiver that stills are read from; zero once the session stops.
    pub receiver: u64,
    pub input_id: u64,
    /// The path of each, and whether it is for the photo library.
    pub pending: Vec<(String, bool)>,
}

/// What comes of a still that arrives, and who still waits: the one that was asked for
/// first gets it, where it comes from the receiver of the session.
pub open spec fn served(pending: Seq<(String, bool)>, is_own: bool) -> (
    Option<(String, bool)>,
    Seq<(String, bool)>,
) {
    if is_own && pending.len() > 0 {
        (Some(pending[0]), pending.drop_first())
    } else {
        (None, pending)
    }
}

/// Whether a still is for another path.
pub open spec fn for_another(path: Seq<char>) -> spec_fn((String, bool)) -> bool {
    |p: (String, bool)| p.0@ != path
}

/// The stills that are left once those for a path are taken out.
pub open spec fn without_path(pending: Seq<(String, bool)>, path: Seq<char>) -> Seq<(String, bool)> {
    pending.filter(for_another(path))
}

impl PhotoShared {
    pub fn new(receiver: u64, input_id: u64) -> (r: PhotoShared)
        ensures
            r.receiver == receiver,
            r.input_id == input_id,
            r.pending@.len() == 0,
    {
        PhotoShared { receiver, input_id, pending: Vec::new() }
    }

    /// A still was asked for.
    pub fn ask(&mut self, path: String, library: bool)
        ensures
            final(self).pending@ == old(self).pending@.push((path, library)),
            final(self).receiver == old(self).receiver,
            final(self).input_id == old(self).input_id,
    {
        self.pending.push((path, library));
    }

    /// The camera refused a still.
    pub fn refused(&mut self, path: &String)
        ensures
            final(self).pending@ == without_path(old(self).pending@, path@),
            final(self).receiver == old(self).receiver,
            final(self).input_id == old(self).input_id,
    {
        let mut kept: Vec<(String, bool)> = Vec::new();
        let ghost all = self.pending@;
        let ghost keep = for_another(path@);
        assert(all.take(0).filter(keep) =~= Seq::<(String, bool)>::empty()) by {
            reveal(Seq::filter);
        }
        let mut i: usize = 0;
        while i < self.pending.len()
            invariant
                i <= self.pending.len(),
                self.pending@ == all,
                self.receiver == old(self).receiver,
                self.input_id == old(self).input_id,
                keep == for_another(path@),
                kept@ == all.take(i as int).filter(keep),
            decreases self.pending.len() - i,
        {
            proof {
                assert(all.take(i + 1).drop_last() =~= all.take(i as int));
                assert(all.take(i + 1).last() == all[i as int]);
                reveal(Seq::filter);
            }
            if !self.pending[i].0.eq(path) {
                kept.push((self.pending[i].0.clone(), self.pending[i].1));
            }
            i = i + 1;
        }
        assert(all.take(i as int) =~= all);
        self.pending = kept;
    }

    /// A still came from a receiver: the one that was asked for first, if this
    /// receiver is the session's and one was asked for.
    pub fn arrived(&mut self, receiver: u64) -> (r: Option<(String, bool)>)
        ensures
            if old(self).receiver == receiver && old(self).pending@.len() > 0 {
                &&& r == Some(old(self).pending@[0])
                &&& final(self).pending@ == old(self).pending@.drop_first()
            } else {
                &&& r is None
                &&& final(self).pending@ == old(self).pending@
            },
            final(self).receiver == old(self).receiver,
            final(self).input_id == old(self).input_id,
            (r, final(self).pending@) == served(old(self).pending@, old(self).receiver == receiver),
    {
        if self.receiver != receiver || self.pending.len() == 0 {
            return None;
        }
        let first = self.pending.remove(0);
        assert(self.pending@ =~= old(self).pending@.drop_first());
        Some(first)
    }

    /// The session stops: a callback in flight reads nothing.
    pub fn park(&mut self)
        ensures
            *final(self) == (PhotoShared { receiver: 0, ..*old(self) }),
    {
        self.receiver = 0;
    }
}

/// A refused still is no longer waited for, and those for other paths are.
pub proof fn refusing_forgets_only_that_path(pending: Seq<(String, bool)>, path: Seq<char>)
    ensures
        forall|p: (String, bool)| #[trigger]
            without_path(pending, path).contains(p) <==> pending.contains(p) && p.0@ != path,
{
    let keep = for_another(path);
    assert forall|p: (String, bool)| #[trigger]
        without_path(pending, path).contains(p) <==> pending.contains(p) && p.0@ != path by {
        let left = without_path(pending, path);
        if left.contains(p) {
            pending.lemma_filter_contains_rev(keep, p);
            let i = choose|i: int| 0 <= i < left.len() && left[i] == p;
            pending.lemma_filter_pred(keep, i);
        }
        if pending.contains(p) && keep(p) {
            let i = choose|i: int| 0 <= i < pending.len() && pending[i] == p;
            pending.lemma_filter_contains(keep, i);
        }
    }
}

/// Stills are handed out in the order in which they were asked for, each once, and none
/// that comes from another receiver.
pub proof fn stills_are_served_in_order(
    first: (String, bool),
    rest: Seq<(String, bool)>,
    last: (String, bool),
)
    ensures
        served(seq![first] + rest, true) == (Some(first), rest),
        served(seq![first] + rest, false) == (None::<(String, bool)>, seq![first] + rest),
        served((seq![first] + rest).push(last), true).1 == rest.push(last),
        served(Seq::empty(), true).0 is None,
{
    let all = seq![first] + rest;
    assert(all.drop_first() =~= rest);
    assert(all.push(last).drop_first() =~= rest.push(last));
}

} // verus!
