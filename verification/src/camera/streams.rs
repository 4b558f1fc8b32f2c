//! The streams that slots and previews share. A stream is there while somebody
//! needs it; its session is restarted where what is needed of it changes.
use crate::camera::android::{
    find_device, format_for_key, key_for, pictures_stand_upright, preview_rotation, spec_device,
    spec_format, spec_key_for, spec_rotation, ActiveArray, AndroidCameraDevice, CameraStreamKey,
    StreamDispatch, VideoFormat,
};
use crate::camera::android_start::{
    controlled, fresh_controls, AndroidControl, CameraControlState, StillSize,
};
use vstd::prelude::*;

verus! {

/// A slot of the video input, with the consumers that it has.
#[derive(Clone, Copy, PartialEq, Eq, Structural, Debug)]
pub struct Slot {
    pub stream: Option<CameraStreamKey>,
    pub has_video_input: bool,
    pub has_frame_input: bool,
    pub has_encoder: bool,
}

/// A preview that shows a stream.
#[derive(Clone, Copy, PartialEq, Eq, Structural, Debug)]
pub struct PreviewSubscription {
    pub video_id: u64,
    pub stream: CameraStreamKey,
    pub has_frame_input: bool,
    pub has_hardware_buffer_input: bool,
    /// The native window that it draws into; zero if none.
    pub window: u64,
}

/// A stream with its session, if one runs.
#[derive(Clone, Copy, PartialEq, Eq, Structural, Debug)]
pub struct CameraStreamNode {
    pub key: CameraStreamKey,
    pub format: VideoFormat,
    /// What a person has set; it outlasts a session.
    pub controls: CameraControlState,
    pub dispatch: StreamDispatch,
    pub session: Option<u64>,
    pub preview_window: u64,
    pub needs_image_reader: bool,
}

/// How a session is started.
#[derive(Clone, Copy, PartialEq, Eq, Structural, Debug)]
pub struct StartPlan {
    pub format: VideoFormat,
    pub dispatch: StreamDispatch,
    pub preview_window: Option<u64>,
    pub needs_image_reader: bool,
    /// The size of the stills that the stream's device takes, where it takes any.
    pub still: Option<StillSize>,
}

/// What a session is controlled with: what a person has set, the part of the sensor that
/// sees, and the quarter turns that its preview is shown with.
#[derive(Clone, Copy, PartialEq, Eq, Structural, Debug)]
pub struct Applied {
    pub controls: CameraControlState,
    pub active_array: ActiveArray,
    pub rotation: i32,
}

/// What a reconciliation leads to.
pub struct Reconciled {
    /// The sessions to stop of streams that nobody needs any more.
    pub stopped: Vec<u64>,
    /// What each stream that is left needs.
    pub restarts: Vec<Restart>,
}

/// What a stream's session needs: one to stop, then one to start.
#[derive(Clone, Copy, PartialEq, Eq, Structural, Debug)]
pub struct Restart {
    pub key: CameraStreamKey,
    pub stop: Option<u64>,
    pub start: Option<StartPlan>,
}

pub open spec fn no_consumers() -> StreamDispatch {
    StreamDispatch {
        video_inputs: 0,
        frame_inputs: 0,
        preview_frame_inputs: 0,
        preview_hardware_buffer_inputs: 0,
        encoders: 0,
    }
}

/// A stream that nothing has been started for.
pub open spec fn fresh(key: CameraStreamKey, format: VideoFormat) -> CameraStreamNode {
    CameraStreamNode {
        key,
        format,
        controls: fresh_controls(),
        dispatch: no_consumers(),
        session: None,
        preview_window: 0,
        needs_image_reader: false,
    }
}

pub open spec fn has_stream(streams: Seq<CameraStreamNode>, key: CameraStreamKey) -> bool {
    exists|i: int| 0 <= i < streams.len() && #[trigger] streams[i].key == key
}

/// Whether a slot or a preview needs a stream.
pub open spec fn is_required(
    slots: Seq<Slot>,
    subscriptions: Seq<PreviewSubscription>,
    key: CameraStreamKey,
) -> bool {
    ||| exists|i: int| 0 <= i < slots.len() && #[trigger] slots[i].stream == Some(key)
    ||| exists|i: int| 0 <= i < subscriptions.len() && #[trigger] subscriptions[i].stream == key
}

/// No stream is listed twice.
pub open spec fn distinct_keys(streams: Seq<CameraStreamNode>) -> bool {
    forall|i: int, j: int|
        0 <= i < j < streams.len() ==> #[trigger] streams[i].key != #[trigger] streams[j].key
}

/// No preview is subscribed twice.
pub open spec fn distinct_previews(s: Seq<PreviewSubscription>) -> bool {
    forall|i: int, j: int|
        0 <= i < j < s.len() ==> #[trigger] s[i].video_id != #[trigger] s[j].video_id
}

/// The sessions of the streams that nobody needs, in order.
pub open spec fn unneeded_sessions(
    streams: Seq<CameraStreamNode>,
    slots: Seq<Slot>,
    subscriptions: Seq<PreviewSubscription>,
) -> Seq<u64>
    decreases streams.len(),
{
    if streams.len() == 0 {
        Seq::empty()
    } else {
        let rest = unneeded_sessions(streams.drop_last(), slots, subscriptions);
        let n = streams.last();
        if !is_required(slots, subscriptions, n.key) && n.session is Some {
            rest.push(n.session->0)
        } else {
            rest
        }
    }
}

/// The consumers of a stream among the slots.
pub open spec fn slot_consumers(slots: Seq<Slot>, key: CameraStreamKey) -> StreamDispatch
    decreases slots.len(),
{
    if slots.len() == 0 {
        no_consumers()
    } else {
        let d = slot_consumers(slots.drop_last(), key);
        let s = slots.last();
        if s.stream != Some(key) {
            d
        } else {
            StreamDispatch {
                video_inputs: plus_one_if(d.video_inputs, s.has_video_input),
                frame_inputs: plus_one_if(d.frame_inputs, s.has_frame_input),
                encoders: plus_one_if(d.encoders, s.has_encoder),
                ..d
            }
        }
    }
}

pub open spec fn plus_one_if(n: usize, more: bool) -> usize {
    if more {
        (n + 1) as usize
    } else {
        n
    }
}

/// The consumers of a stream among the slots and the previews.
pub open spec fn consumers(
    slots: Seq<Slot>,
    subscriptions: Seq<PreviewSubscription>,
    key: CameraStreamKey,
) -> StreamDispatch
    decreases subscriptions.len(),
{
    if subscriptions.len() == 0 {
        slot_consumers(slots, key)
    } else {
        let d = consumers(slots, subscriptions.drop_last(), key);
        let s = subscriptions.last();
        if s.stream != key {
            d
        } else {
            StreamDispatch {
                preview_frame_inputs: plus_one_if(d.preview_frame_inputs, s.has_frame_input),
                preview_hardware_buffer_inputs: plus_one_if(
                    d.preview_hardware_buffer_inputs,
                    s.has_hardware_buffer_input,
                ),
                ..d
            }
        }
    }
}

/// The window that a stream draws into: that of the first of its previews that
/// has one.
pub open spec fn preview_window(
    subscriptions: Seq<PreviewSubscription>,
    key: CameraStreamKey,
    from: int,
) -> u64
    decreases subscriptions.len() - from,
{
    if from < 0 || from >= subscriptions.len() {
        0
    } else if subscriptions[from].stream == key && subscriptions[from].window != 0 {
        subscriptions[from].window
    } else {
        preview_window(subscriptions, key, from + 1)
    }
}

pub open spec fn node_index(streams: Seq<CameraStreamNode>, key: CameraStreamKey, from: int) -> Option<int>
    decreases streams.len() - from,
{
    if from < 0 || from >= streams.len() {
        None
    } else if streams[from].key == key {
        Some(from)
    } else {
        node_index(streams, key, from + 1)
    }
}

/// The first stream, `from` or later, of an input.
pub open spec fn input_index(streams: Seq<CameraStreamNode>, input_id: u64, from: int) -> Option<int>
    decreases streams.len() - from,
{
    if from < 0 || from >= streams.len() {
        None
    } else if streams[from].key.input_id == input_id {
        Some(from)
    } else {
        input_index(streams, input_id, from + 1)
    }
}

pub open spec fn preview_index(s: Seq<PreviewSubscription>, video_id: u64, from: int) -> Option<int>
    decreases s.len() - from,
{
    if from < 0 || from >= s.len() {
        None
    } else if s[from].video_id == video_id {
        Some(from)
    } else {
        preview_index(s, video_id, from + 1)
    }
}

proof fn preview_index_finds(s: Seq<PreviewSubscription>, video_id: u64, from: int)
    requires
        0 <= from <= s.len(),
    ensures
        match preview_index(s, video_id, from) {
            Some(i) => from <= i < s.len() && s[i].video_id == video_id,
            None => forall|i: int| from <= i < s.len() ==> #[trigger] s[i].video_id != video_id,
        },
    decreases s.len() - from,
{
    if from < s.len() && s[from].video_id != video_id {
        preview_index_finds(s, video_id, from + 1);
    }
}

/// Whether a stream has to be started anew: it has no session, or draws into
/// another window, or starts or stops to need its frames read.
pub open spec fn is_outdated(
    slots: Seq<Slot>,
    subscriptions: Seq<PreviewSubscription>,
    n: CameraStreamNode,
) -> bool {
    ||| n.session is None
    ||| n.preview_window != preview_window(subscriptions, n.key, 0)
    ||| n.needs_image_reader != consumers(slots, subscriptions, n.key).wants_frames()
}

/// A stream that was started anew where that was needed. Its consumers are taken note of
/// in any case.
pub open spec fn restarted(
    slots: Seq<Slot>,
    subscriptions: Seq<PreviewSubscription>,
    n: CameraStreamNode,
) -> CameraStreamNode {
    let dispatch = consumers(slots, subscriptions, n.key);
    if is_outdated(slots, subscriptions, n) {
        CameraStreamNode {
            dispatch,
            session: None,
            preview_window: preview_window(subscriptions, n.key, 0),
            needs_image_reader: dispatch.wants_frames(),
            ..n
        }
    } else {
        CameraStreamNode { dispatch, ..n }
    }
}

/// The stills that the device of an input takes.
pub open spec fn still_of(devices: Seq<AndroidCameraDevice>, input_id: u64) -> Option<StillSize> {
    match spec_device(devices, input_id) {
        Some(d) => match d.still_size {
            Some((width, height)) => Some(StillSize { width, height }),
            None => None,
        },
        None => None,
    }
}

/// What a stream needs: where it is outdated, its session stops, and one is started that
/// draws or reads as the stream is needed now. A stream that draws nowhere and whose
/// frames nobody reads is only stopped.
pub open spec fn restart_of(
    slots: Seq<Slot>,
    subscriptions: Seq<PreviewSubscription>,
    devices: Seq<AndroidCameraDevice>,
    n: CameraStreamNode,
) -> Restart {
    let dispatch = consumers(slots, subscriptions, n.key);
    let window = preview_window(subscriptions, n.key, 0);
    if !is_outdated(slots, subscriptions, n) {
        Restart { key: n.key, stop: None, start: None }
    } else if !dispatch.wants_frames() && window == 0 {
        Restart { key: n.key, stop: n.session, start: None }
    } else {
        Restart {
            key: n.key,
            stop: n.session,
            start: Some(
                StartPlan {
                    format: n.format,
                    dispatch,
                    preview_window: if window == 0 {
                        None
                    } else {
                        Some(window)
                    },
                    needs_image_reader: dispatch.wants_frames(),
                    still: still_of(devices, n.key.input_id),
                },
            ),
        }
    }
}

/// What a session of an input is controlled with.
pub open spec fn applied(
    devices: Seq<AndroidCameraDevice>,
    input_id: u64,
    controls: CameraControlState,
) -> Applied {
    match spec_device(devices, input_id) {
        Some(d) => Applied {
            controls,
            active_array: d.active_array,
            rotation: spec_rotation(d.sensor_orientation_degrees) as i32,
        },
        None => Applied {
            controls,
            active_array: ActiveArray { left: 0, top: 0, right: 0, bottom: 0 },
            rotation: 0,
        },
    }
}

fn to_apply(devices: &Vec<AndroidCameraDevice>, input_id: u64, controls: CameraControlState) -> (r:
    Applied)
    ensures
        r == applied(devices@, input_id, controls),
{
    match find_device(devices, input_id) {
        Some(d) => Applied {
            controls,
            active_array: d.active_array,
            rotation: preview_rotation(d),
        },
        None => Applied {
            controls,
            active_array: ActiveArray { left: 0, top: 0, right: 0, bottom: 0 },
            rotation: 0,
        },
    }
}

/// Whether streams are in line with what is needed: those that were there and are
/// needed are as they were, and those that are needed and whose device and format are
/// known are there.
pub open spec fn in_line(
    before: &CameraStreams,
    devices: Seq<AndroidCameraDevice>,
    now: Seq<CameraStreamNode>,
) -> bool {
    &&& distinct_keys(now)
    &&& forall|key: CameraStreamKey| #[trigger]
        has_stream(now, key) <==> before.requires_stream(key) && (has_stream(
            before.streams@,
            key,
        ) || spec_format(devices, key) is Some)
    &&& forall|i: int|
        0 <= i < now.len() ==> {
            let n = #[trigger] now[i];
            if has_stream(before.streams@, n.key) {
                before.streams@.contains(n)
            } else {
                spec_format(devices, n.key) == Some(n.format) && n == fresh(n.key, n.format)
            }
        }
}

/// What each of some streams needs.
pub open spec fn restarts_of(
    slots: Seq<Slot>,
    subscriptions: Seq<PreviewSubscription>,
    devices: Seq<AndroidCameraDevice>,
    streams: Seq<CameraStreamNode>,
) -> Seq<Restart> {
    streams.map_values(|n: CameraStreamNode| restart_of(slots, subscriptions, devices, n))
}

/// Some streams, each started anew where that was needed.
pub open spec fn all_restarted(
    slots: Seq<Slot>,
    subscriptions: Seq<PreviewSubscription>,
    streams: Seq<CameraStreamNode>,
) -> Seq<CameraStreamNode> {
    streams.map_values(|n: CameraStreamNode| restarted(slots, subscriptions, n))
}

proof fn node_index_is(streams: Seq<CameraStreamNode>, i: int, from: int)
    requires
        distinct_keys(streams),
        0 <= from <= i < streams.len(),
    ensures
        node_index(streams, streams[i].key, from) == Some(i),
    decreases i - from,
{
    if from < i {
        assert(streams[from].key != streams[i].key);
        node_index_is(streams, i, from + 1);
    }
}

/// The streams of the cameras, the slots and the previews.
pub struct CameraStreams {
    pub streams: Vec<CameraStreamNode>,
    pub slots: Vec<Slot>,
    pub subscriptions: Vec<PreviewSubscription>,
}

impl CameraStreams {
    pub open spec fn wf(&self) -> bool {
        distinct_keys(self.streams@) && distinct_previews(self.subscriptions@)
    }

    /// No streams, no previews, and `count` slots that nothing uses.
    pub fn new(count: usize) -> (r: CameraStreams)
        ensures
            r.wf(),
            r.streams@.len() == 0,
            r.subscriptions@.len() == 0,
            r.slots@.len() == count,
            forall|i: int|
                0 <= i < count ==> #[trigger] r.slots@[i] == (Slot {
                    stream: None,
                    has_video_input: false,
                    has_frame_input: false,
                    has_encoder: false,
                }),
    {
        let empty = Slot {
            stream: None,
            has_video_input: false,
            has_frame_input: false,
            has_encoder: false,
        };
        let mut slots: Vec<Slot> = Vec::new();
        let mut i: usize = 0;
        while i < count
            invariant
                i <= count,
                slots@.len() == i,
                forall|j: int| 0 <= j < i ==> #[trigger] slots@[j] == empty,
            decreases count - i,
        {
            slots.push(empty);
            i = i + 1;
        }
        CameraStreams { streams: Vec::new(), slots, subscriptions: Vec::new() }
    }

    pub open spec fn requires_stream(&self, key: CameraStreamKey) -> bool {
        is_required(self.slots@, self.subscriptions@, key)
    }

    fn needs(&self, key: CameraStreamKey) -> (r: bool)
        ensures
            r == self.requires_stream(key),
    {
        let mut i: usize = 0;
        while i < self.slots.len()
            invariant
                i <= self.slots.len(),
                forall|j: int| 0 <= j < i ==> #[trigger] self.slots@[j].stream != Some(key),
            decreases self.slots.len() - i,
        {
            if let Some(k) = self.slots[i].stream {
                if k == key {
                    assert(self.slots@[i as int].stream == Some(key));
                    return true;
                }
            }
            i = i + 1;
        }
        let mut k: usize = 0;
        while k < self.subscriptions.len()
            invariant
                k <= self.subscriptions.len(),
                forall|j: int|
                    0 <= j < self.slots@.len() ==> #[trigger] self.slots@[j].stream != Some(key),
                forall|j: int| 0 <= j < k ==> #[trigger] self.subscriptions@[j].stream != key,
            decreases self.subscriptions.len() - k,
        {
            if self.subscriptions[k].stream == key {
                return true;
            }
            k = k + 1;
        }
        false
    }

    /// Brings the streams in line with what is needed: those that nobody needs
    /// go, and their sessions are to be stopped; those that are needed and whose
    /// device and format are known are there afterwards. Then each stream is started
    /// anew where that is needed.
    pub fn reconcile_streams(&mut self, devices: &Vec<AndroidCameraDevice>) -> (r: Reconciled)
        requires
            old(self).wf(),
        ensures
            final(self).wf(),
            final(self).slots@ == old(self).slots@,
            final(self).subscriptions@ == old(self).subscriptions@,
            r.stopped@ == unneeded_sessions(
                old(self).streams@,
                old(self).slots@,
                old(self).subscriptions@,
            ),
            exists|needed: Seq<CameraStreamNode>| #[trigger]
                in_line(old(self), devices@, needed) && r.restarts@ == restarts_of(
                    old(self).slots@,
                    old(self).subscriptions@,
                    devices@,
                    needed,
                ) && final(self).streams@ == all_restarted(
                    old(self).slots@,
                    old(self).subscriptions@,
                    needed,
                ),
    {
        let stopped = self.bring_in_line(devices);
        let ghost needed = self.streams@;
        let ghost slots = self.slots@;
        let ghost subs = self.subscriptions@;
        let mut restarts: Vec<Restart> = Vec::new();
        let mut i: usize = 0;
        while i < self.streams.len()
            invariant
                i <= self.streams.len(),
                self.streams@.len() == needed.len(),
                self.slots@ == slots,
                self.subscriptions@ == subs,
                distinct_keys(self.streams@),
                distinct_previews(subs),
                forall|j: int|
                    0 <= j < i ==> #[trigger] self.streams@[j] == restarted(slots, subs, needed[j]),
                forall|j: int| i <= j < needed.len() ==> #[trigger] self.streams@[j] == needed[j],
                restarts@ == restarts_of(slots, subs, devices@, needed).take(i as int),
            decreases self.streams.len() - i,
        {
            let ghost before = self.streams@;
            let key = self.streams[i].key;
            proof {
                node_index_is(before, i as int, 0);
                assert(before[i as int] == needed[i as int]);
            }
            let restart = self.restart_stream_if_needed(devices, key);
            restarts.push(restart);
            proof {
                let after = self.streams@;
                assert(after == before.update(i as int, restarted(slots, subs, needed[i as int])));
                assert forall|a: int, b: int| 0 <= a < b < after.len() implies #[trigger] after[a].key
                    != #[trigger] after[b].key by {
                    assert(after[a].key == before[a].key && after[b].key == before[b].key);
                }
                assert(restarts@ =~= restarts_of(slots, subs, devices@, needed).take(i + 1));
            }
            i = i + 1;
        }
        proof {
            assert(restarts@ =~= restarts_of(slots, subs, devices@, needed));
            assert(self.streams@ =~= all_restarted(slots, subs, needed));
            assert(in_line(old(self), devices@, needed));
        }
        Reconciled { stopped, restarts }
    }

    fn bring_in_line(&mut self, devices: &Vec<AndroidCameraDevice>) -> (r: Vec<u64>)
        requires
            old(self).wf(),
        ensures
            final(self).wf(),
            final(self).slots@ == old(self).slots@,
            final(self).subscriptions@ == old(self).subscriptions@,
            r@ == unneeded_sessions(old(self).streams@, old(self).slots@, old(self).subscriptions@),
            in_line(old(self), devices@, final(self).streams@),
    {
        let stopped = self.drop_unneeded();
        let ghost kept = self.streams@;
        let ghost slots = self.slots@;
        let ghost subs = self.subscriptions@;
        let mut i: usize = 0;
        while i < self.slots.len()
            invariant
                i <= self.slots.len(),
                self.slots@ == slots,
                self.subscriptions@ == subs,
                distinct_keys(self.streams@),
                grown(kept, self.streams@, slots, subs, devices@),
                forall|j: int, key: CameraStreamKey|
                    0 <= j < i && #[trigger] slots[j].stream == Some(key) && (
                    #[trigger] spec_format(devices@, key)) is Some ==> has_stream(
                        self.streams@,
                        key,
                    ),
            decreases self.slots.len() - i,
        {
            if let Some(key) = self.slots[i].stream {
                let ghost before = self.streams@;
                assert(slots[i as int].stream == Some(key));
                self.add_stream(devices, key);
                proof {
                    grown_more(kept, before, self.streams@, slots, subs, devices@, key);
                }
            }
            i = i + 1;
        }
        let mut k: usize = 0;
        while k < self.subscriptions.len()
            invariant
                k <= self.subscriptions.len(),
                self.slots@ == slots,
                self.subscriptions@ == subs,
                distinct_keys(self.streams@),
                grown(kept, self.streams@, slots, subs, devices@),
                forall|j: int, key: CameraStreamKey|
                    0 <= j < slots.len() && #[trigger] slots[j].stream == Some(key) && (
                    #[trigger] spec_format(devices@, key)) is Some ==> has_stream(
                        self.streams@,
                        key,
                    ),
                forall|j: int|
                    0 <= j < k && spec_format(devices@, (#[trigger] subs[j]).stream) is Some
                        ==> has_stream(self.streams@, subs[j].stream),
            decreases self.subscriptions.len() - k,
        {
            let key = self.subscriptions[k].stream;
            let ghost before = self.streams@;
            assert(subs[k as int].stream == key);
            self.add_stream(devices, key);
            proof {
                grown_more(kept, before, self.streams@, slots, subs, devices@, key);
            }
            k = k + 1;
        }
        proof {
            let now = self.streams@;
            assert forall|key: CameraStreamKey| #[trigger]
                has_stream(now, key) <==> old(self).requires_stream(key) && (has_stream(
                    old(self).streams@,
                    key,
                ) || spec_format(devices@, key) is Some) by {
                if has_stream(now, key) {
                    let i = choose|i: int| 0 <= i < now.len() && #[trigger] now[i].key == key;
                    assert(now[i].key == key);
                    if has_stream(kept, key) {
                    } else {
                        assert(spec_format(devices@, now[i].key) is Some);
                    }
                }
                if old(self).requires_stream(key) && has_stream(old(self).streams@, key) {
                    assert(has_stream(kept, key));
                }
            }
            assert forall|i: int| 0 <= i < now.len() implies {
                let n = #[trigger] now[i];
                if has_stream(old(self).streams@, n.key) {
                    old(self).streams@.contains(n)
                } else {
                    spec_format(devices@, n.key) == Some(n.format) && n == fresh(n.key, n.format)
                }
            } by {
                let n = now[i];
                assert(has_stream(now, n.key));
                if has_stream(old(self).streams@, n.key) {
                    assert(has_stream(kept, n.key));
                    assert(kept.contains(n));
                    let j = choose|j: int| 0 <= j < kept.len() && kept[j] == n;
                    assert(old(self).streams@.contains(kept[j]));
                } else {
                    assert(!has_stream(kept, n.key)) by {
                        if has_stream(kept, n.key) {
                            let j = choose|j: int|
                                0 <= j < kept.len() && #[trigger] kept[j].key == n.key;
                            assert(old(self).streams@.contains(kept[j]));
                            let m = choose|m: int|
                                0 <= m < old(self).streams@.len() && old(self).streams@[m]
                                    == kept[j];
                            assert(old(self).streams@[m].key == n.key);
                        }
                    }
                }
            }
        }
        stopped
    }

    fn drop_unneeded(&mut self) -> (r: Vec<u64>)
        requires
            old(self).wf(),
        ensures
            final(self).wf(),
            final(self).slots@ == old(self).slots@,
            final(self).subscriptions@ == old(self).subscriptions@,
            r@ == unneeded_sessions(old(self).streams@, old(self).slots@, old(self).subscriptions@),
            forall|i: int|
                0 <= i < final(self).streams@.len() ==> old(self).streams@.contains(
                    #[trigger] final(self).streams@[i],
                ) && old(self).requires_stream(final(self).streams@[i].key),
            forall|key: CameraStreamKey|
                old(self).requires_stream(key) && has_stream(old(self).streams@, key)
                    ==> #[trigger] has_stream(final(self).streams@, key),
    {
        let mut stopped: Vec<u64> = Vec::new();
        let mut kept: Vec<CameraStreamNode> = Vec::new();
        let ghost all = self.streams@;
        let mut i: usize = 0;
        while i < self.streams.len()
            invariant
                i <= self.streams.len(),
                self.streams@ == all,
                self.slots@ == old(self).slots@,
                self.subscriptions@ == old(self).subscriptions@,
                distinct_keys(all),
                distinct_keys(kept@),
                stopped@ == unneeded_sessions(
                    all.take(i as int),
                    self.slots@,
                    self.subscriptions@,
                ),
                forall|j: int|
                    0 <= j < kept@.len() ==> all.take(i as int).contains(#[trigger] kept@[j])
                        && self.requires_stream(kept@[j].key),
                forall|j: int|
                    0 <= j < i && self.requires_stream((#[trigger] all[j]).key) ==> has_stream(
                        kept@,
                        all[j].key,
                    ),
            decreases self.streams.len() - i,
        {
            let n = self.streams[i];
            let ghost before = kept@;
            assert(all.take(i + 1).drop_last() =~= all.take(i as int));
            assert(all.take(i + 1).last() == n);
            if self.needs(n.key) {
                kept.push(n);
                proof {
                    assert(kept@[before.len() as int].key == n.key);
                    assert forall|j: int| 0 <= j < before.len() implies #[trigger] before[j].key
                        != n.key by {
                        assert(all.take(i as int).contains(before[j]));
                        let m = choose|m: int|
                            0 <= m < i && all.take(i as int)[m] == before[j];
                        assert(all[m].key != all[i as int].key);
                    }
                    assert(distinct_keys(kept@)) by {
                        assert forall|a: int, b: int|
                            0 <= a < b < kept@.len() implies #[trigger] kept@[a].key
                            != #[trigger] kept@[b].key by {
                            assert(before[a].key == kept@[a].key);
                        }
                    }
                }
            } else if let Some(s) = n.session {
                stopped.push(s);
            }
            proof {
                assert forall|j: int| 0 <= j < kept@.len() implies all.take(i + 1).contains(
                    #[trigger] kept@[j],
                ) && self.requires_stream(kept@[j].key) by {
                    if j < before.len() {
                        assert(kept@[j] == before[j]);
                        let m = choose|m: int|
                            0 <= m < i && all.take(i as int)[m] == before[j];
                        assert(all.take(i + 1)[m] == before[j]);
                    } else {
                        assert(all.take(i + 1)[i as int] == n);
                    }
                }
                assert forall|j: int|
                    0 <= j < i + 1 && self.requires_stream((#[trigger] all[j]).key) implies has_stream(
                    kept@,
                    all[j].key,
                ) by {
                    if j < i {
                        let m = choose|m: int|
                            0 <= m < before.len() && #[trigger] before[m].key == all[j].key;
                        assert(has_stream(before, all[j].key));
                        assert(kept@[m].key == all[j].key);
                    }
                }
            }
            i = i + 1;
        }
        assert(all.take(i as int) =~= all);
        proof {
            assert forall|key: CameraStreamKey|
                old(self).requires_stream(key) && has_stream(all, key) implies #[trigger] has_stream(
                kept@,
                key,
            ) by {
                let j = choose|j: int| 0 <= j < all.len() && #[trigger] all[j].key == key;
                assert(all[j].key == key);
            }
        }
        self.streams = kept;
        stopped
    }

    fn add_stream(&mut self, devices: &Vec<AndroidCameraDevice>, key: CameraStreamKey)
        requires
            distinct_keys(old(self).streams@),
        ensures
            final(self).slots@ == old(self).slots@,
            final(self).subscriptions@ == old(self).subscriptions@,
            distinct_keys(final(self).streams@),
            final(self).streams@ == match spec_format(devices@, key) {
                Some(format) if !has_stream(old(self).streams@, key) => old(self).streams@.push(
                    fresh(key, format),
                ),
                _ => old(self).streams@,
            },
    {
        if self.node(key).is_some() {
            return;
        }
        if let Some(format) = format_for_key(devices, key) {
            let ghost before = self.streams@;
            self.streams.push(
                CameraStreamNode {
                    key,
                    format,
                    controls: CameraControlState::new(),
                    dispatch: StreamDispatch {
                        video_inputs: 0,
                        frame_inputs: 0,
                        preview_frame_inputs: 0,
                        preview_hardware_buffer_inputs: 0,
                        encoders: 0,
                    },
                    session: None,
                    preview_window: 0,
                    needs_image_reader: false,
                },
            );
            assert(distinct_keys(self.streams@)) by {
                assert forall|a: int, b: int|
                    0 <= a < b < self.streams@.len() implies #[trigger] self.streams@[a].key
                    != #[trigger] self.streams@[b].key by {
                    assert(before[a].key == self.streams@[a].key);
                }
            }
        }
    }

    fn node(&self, key: CameraStreamKey) -> (r: Option<usize>)
        ensures
            match r {
                Some(i) => i < self.streams.len() && self.streams@[i as int].key == key
                    && node_index(self.streams@, key, 0) == Some(i as int) && has_stream(
                    self.streams@,
                    key,
                ),
                None => !has_stream(self.streams@, key) && node_index(self.streams@, key, 0)
                    is None,
            },
    {
        let mut i: usize = 0;
        while i < self.streams.len()
            invariant
                i <= self.streams.len(),
                node_index(self.streams@, key, 0) == node_index(self.streams@, key, i as int),
                forall|j: int| 0 <= j < i ==> #[trigger] self.streams@[j].key != key,
            decreases self.streams.len() - i,
        {
            if self.streams[i].key == key {
                return Some(i);
            }
            i = i + 1;
        }
        None
    }

    /// The consumers of a stream, and the window that it draws into.
    pub fn build_dispatch_for_key(&self, key: CameraStreamKey) -> (r: (StreamDispatch, u64))
        ensures
            r.0 == consumers(self.slots@, self.subscriptions@, key),
            r.1 == preview_window(self.subscriptions@, key, 0),
    {
        let mut d = StreamDispatch {
            video_inputs: 0,
            frame_inputs: 0,
            preview_frame_inputs: 0,
            preview_hardware_buffer_inputs: 0,
            encoders: 0,
        };
        let mut i: usize = 0;
        while i < self.slots.len()
            invariant
                i <= self.slots.len(),
                d == slot_consumers(self.slots@.take(i as int), key),
                d.video_inputs <= i && d.frame_inputs <= i && d.encoders <= i,
                d.preview_frame_inputs == 0 && d.preview_hardware_buffer_inputs == 0,
            decreases self.slots.len() - i,
        {
            assert(self.slots@.take(i + 1).drop_last() =~= self.slots@.take(i as int));
            let s = self.slots[i];
            let mine = match s.stream {
                Some(k) => k == key,
                None => false,
            };
            if mine {
                if s.has_video_input {
                    d.video_inputs = d.video_inputs + 1;
                }
                if s.has_frame_input {
                    d.frame_inputs = d.frame_inputs + 1;
                }
                if s.has_encoder {
                    d.encoders = d.encoders + 1;
                }
            }
            i = i + 1;
        }
        assert(self.slots@.take(i as int) =~= self.slots@);
        let mut window: u64 = 0;
        let mut k: usize = 0;
        assert(self.subscriptions@.take(0).len() == 0);
        while k < self.subscriptions.len()
            invariant
                k <= self.subscriptions.len(),
                d == consumers(self.slots@, self.subscriptions@.take(k as int), key),
                d.preview_frame_inputs <= k && d.preview_hardware_buffer_inputs <= k,
                if window == 0 {
                    preview_window(self.subscriptions@, key, 0) == preview_window(
                        self.subscriptions@,
                        key,
                        k as int,
                    )
                } else {
                    preview_window(self.subscriptions@, key, 0) == window
                },
            decreases self.subscriptions.len() - k,
        {
            assert(self.subscriptions@.take(k + 1).drop_last() =~= self.subscriptions@.take(
                k as int,
            ));
            let s = self.subscriptions[k];
            if s.stream == key {
                if s.has_frame_input {
                    d.preview_frame_inputs = d.preview_frame_inputs + 1;
                }
                if s.has_hardware_buffer_input {
                    d.preview_hardware_buffer_inputs = d.preview_hardware_buffer_inputs + 1;
                }
                if window == 0 && s.window != 0 {
                    window = s.window;
                }
            }
            k = k + 1;
        }
        assert(self.subscriptions@.take(k as int) =~= self.subscriptions@);
        (d, window)
    }

    /// Starts a stream anew where that is needed. Its consumers are taken note
    /// of in any case. A stream that draws nowhere and whose frames nobody reads
    /// is only stopped.
    pub fn restart_stream_if_needed(
        &mut self,
        devices: &Vec<AndroidCameraDevice>,
        key: CameraStreamKey,
    ) -> (r: Restart)
        ensures
            final(self).slots@ == old(self).slots@,
            final(self).subscriptions@ == old(self).subscriptions@,
            match node_index(old(self).streams@, key, 0) {
                None => {
                    &&& r == (Restart { key, stop: None, start: None })
                    &&& final(self).streams@ == old(self).streams@
                },
                Some(i) => {
                    let n = old(self).streams@[i];
                    &&& r == restart_of(old(self).slots@, old(self).subscriptions@, devices@, n)
                    &&& final(self).streams@ == old(self).streams@.update(
                        i,
                        restarted(old(self).slots@, old(self).subscriptions@, n),
                    )
                },
            },
    {
        let (dispatch, window) = self.build_dispatch_for_key(key);
        let i: usize = match self.node(key) {
            Some(i) => i,
            None => return Restart { key, stop: None, start: None },
        };
        let needs = dispatch.needs_image_reader();
        let mut n = self.streams[i];
        n.dispatch = dispatch;
        if n.session.is_some() && n.preview_window == window && n.needs_image_reader == needs {
            self.streams.set(i, n);
            return Restart { key, stop: None, start: None };
        }
        let stop = n.session;
        n.session = None;
        n.preview_window = window;
        n.needs_image_reader = needs;
        self.streams.set(i, n);
        if !needs && window == 0 {
            return Restart { key, stop, start: None };
        }
        let start = StartPlan {
            format: n.format,
            dispatch,
            preview_window: if window == 0 {
                None
            } else {
                Some(window)
            },
            needs_image_reader: needs,
            still: match find_device(devices, key.input_id) {
                Some(d) => match d.still_size {
                    Some((width, height)) => Some(StillSize { width, height }),
                    None => None,
                },
                None => None,
            },
        };
        Restart { key, stop, start: Some(start) }
    }

    /// A session was started for a stream, or could not be: what it is controlled
    /// with, as a person set it before.
    pub fn session_started(
        &mut self,
        devices: &Vec<AndroidCameraDevice>,
        key: CameraStreamKey,
        session: Option<u64>,
    ) -> (r: Option<Applied>)
        ensures
            final(self).slots@ == old(self).slots@,
            final(self).subscriptions@ == old(self).subscriptions@,
            match node_index(old(self).streams@, key, 0) {
                Some(i) => {
                    let n = old(self).streams@[i];
                    &&& final(self).streams@ == old(self).streams@.update(
                        i,
                        CameraStreamNode { session, ..n },
                    )
                    &&& r == if session is Some {
                        Some(applied(devices@, key.input_id, n.controls))
                    } else {
                        None
                    }
                },
                None => final(self).streams@ == old(self).streams@ && r is None,
            },
    {
        match self.node(key) {
            Some(i) => {
                let mut n = self.streams[i];
                n.session = session;
                self.streams.set(i, n);
                if session.is_some() {
                    Some(to_apply(devices, key.input_id, n.controls))
                } else {
                    None
                }
            },
            None => None,
        }
    }

    /// A person sets a control of an input: it is kept with the input's stream, and the
    /// session that runs is controlled with it. An input without a stream, or without a
    /// device, is passed over.
    pub fn control(
        &mut self,
        devices: &Vec<AndroidCameraDevice>,
        input_id: u64,
        control: AndroidControl,
    ) -> (r: Option<(u64, Applied)>)
        ensures
            final(self).slots@ == old(self).slots@,
            final(self).subscriptions@ == old(self).subscriptions@,
            match input_index(old(self).streams@, input_id, 0) {
                Some(i) if spec_device(devices@, input_id) is Some => {
                    let n = old(self).streams@[i];
                    let controls = controlled(n.controls, control);
                    &&& final(self).streams@ == old(self).streams@.update(
                        i,
                        CameraStreamNode { controls, ..n },
                    )
                    &&& r == match n.session {
                        Some(session) => Some((session, applied(devices@, input_id, controls))),
                        None => None,
                    }
                },
                _ => final(self).streams@ == old(self).streams@ && r is None,
            },
    {
        let i = match self.of_input(input_id) {
            Some(i) => i,
            None => return None,
        };
        if find_device(devices, input_id).is_none() {
            return None;
        }
        let mut n = self.streams[i];
        let mut controls = n.controls;
        controls.control(control);
        n.controls = controls;
        self.streams.set(i, n);
        match n.session {
            Some(session) => Some((session, to_apply(devices, input_id, controls))),
            None => None,
        }
    }

    fn of_input(&self, input_id: u64) -> (r: Option<usize>)
        ensures
            match r {
                Some(i) => i < self.streams.len() && input_index(self.streams@, input_id, 0)
                    == Some(i as int),
                None => input_index(self.streams@, input_id, 0) is None,
            },
    {
        let mut i: usize = 0;
        while i < self.streams.len()
            invariant
                i <= self.streams.len(),
                input_index(self.streams@, input_id, 0) == input_index(
                    self.streams@,
                    input_id,
                    i as int,
                ),
            decreases self.streams.len() - i,
        {
            if self.streams[i].key.input_id == input_id {
                return Some(i);
            }
            i = i + 1;
        }
        None
    }

    /// The stream that serves an input: the first one of it.
    pub fn stream_of_input(&self, input_id: u64) -> (r: Option<CameraStreamKey>)
        ensures
            r == match input_index(self.streams@, input_id, 0) {
                Some(i) => Some(self.streams@[i].key),
                None => None,
            },
    {
        match self.of_input(input_id) {
            Some(i) => Some(self.streams[i].key),
            None => None,
        }
    }

    /// Gives the slots their streams: as many of the inputs as there are slots,
    /// each where its device and format are known; the other slots get none.
    pub fn use_video_input(&mut self, devices: &Vec<AndroidCameraDevice>, inputs: &Vec<(u64, u64)>)
        ensures
            final(self).streams@ == old(self).streams@,
            final(self).subscriptions@ == old(self).subscriptions@,
            final(self).slots@.len() == old(self).slots@.len(),
            forall|i: int|
                0 <= i < final(self).slots@.len() ==> #[trigger] final(self).slots@[i] == (Slot {
                    stream: if i < inputs@.len() {
                        spec_key_for(devices@, inputs@[i].0, inputs@[i].1)
                    } else {
                        None
                    },
                    ..old(self).slots@[i]
                }),
    {
        let ghost before = self.slots@;
        let mut i: usize = 0;
        while i < self.slots.len()
            invariant
                i <= self.slots.len(),
                self.slots@.len() == before.len(),
                self.streams@ == old(self).streams@,
                self.subscriptions@ == old(self).subscriptions@,
                forall|j: int|
                    0 <= j < i ==> #[trigger] self.slots@[j] == (Slot {
                        stream: if j < inputs@.len() {
                            spec_key_for(devices@, inputs@[j].0, inputs@[j].1)
                        } else {
                            None
                        },
                        ..before[j]
                    }),
                forall|j: int| i <= j < before.len() ==> #[trigger] self.slots@[j] == before[j],
            decreases self.slots.len() - i,
        {
            let mut s = self.slots[i];
            s.stream = if i < inputs.len() {
                key_for(devices, inputs[i].0, inputs[i].1)
            } else {
                None
            };
            self.slots.set(i, s);
            i = i + 1;
        }
    }

    fn preview(&self, video_id: u64) -> (r: Option<usize>)
        ensures
            match r {
                Some(i) => i < self.subscriptions.len() && preview_index(
                    self.subscriptions@,
                    video_id,
                    0,
                ) == Some(i as int) && self.subscriptions@[i as int].video_id == video_id,
                None => preview_index(self.subscriptions@, video_id, 0) is None && forall|i: int|
                    0 <= i < self.subscriptions@.len()
                        ==> #[trigger] self.subscriptions@[i].video_id != video_id,
            },
    {
        proof {
            preview_index_finds(self.subscriptions@, video_id, 0);
        }
        let mut i: usize = 0;
        while i < self.subscriptions.len()
            invariant
                i <= self.subscriptions.len(),
                preview_index(self.subscriptions@, video_id, 0) == preview_index(
                    self.subscriptions@,
                    video_id,
                    i as int,
                ),
            decreases self.subscriptions.len() - i,
        {
            if self.subscriptions[i].video_id == video_id {
                return Some(i);
            }
            i = i + 1;
        }
        None
    }

    /// The previews without one of them.
    pub open spec fn previews_without(s: Seq<PreviewSubscription>, video_id: u64) -> Seq<
        PreviewSubscription,
    > {
        match preview_index(s, video_id, 0) {
            Some(i) => s.remove(i),
            None => s,
        }
    }

    /// The window of a preview, where it has one.
    pub open spec fn window_of(s: Seq<PreviewSubscription>, video_id: u64) -> Option<u64> {
        match preview_index(s, video_id, 0) {
            Some(i) => if s[i].window != 0 {
                Some(s[i].window)
            } else {
                None
            },
            None => None,
        }
    }

    /// Takes a preview out: the window to release, if it had one.
    pub fn unregister_preview(&mut self, video_id: u64) -> (r: Option<u64>)
        requires
            old(self).wf(),
        ensures
            final(self).wf(),
            final(self).streams@ == old(self).streams@,
            final(self).slots@ == old(self).slots@,
            final(self).subscriptions@ == Self::previews_without(
                old(self).subscriptions@,
                video_id,
            ),
            r == Self::window_of(old(self).subscriptions@, video_id),
            forall|i: int|
                0 <= i < final(self).subscriptions@.len()
                    ==> #[trigger] final(self).subscriptions@[i].video_id != video_id,
    {
        match self.preview(video_id) {
            Some(i) => {
                let ghost all = self.subscriptions@;
                let old_sub = self.subscriptions.remove(i);
                proof {
                    let now = self.subscriptions@;
                    assert forall|a: int| 0 <= a < now.len() implies #[trigger] now[a].video_id
                        != video_id by {
                        if a < i {
                            assert(now[a] == all[a]);
                            assert(all[a].video_id != all[i as int].video_id);
                        } else {
                            assert(now[a] == all[a + 1]);
                            assert(all[i as int].video_id != all[a + 1].video_id);
                        }
                    }
                    assert forall|a: int, b: int| 0 <= a < b < now.len() implies #[trigger] now[a].video_id
                        != #[trigger] now[b].video_id by {
                        let x = if a < i {
                            a
                        } else {
                            a + 1
                        };
                        let y = if b < i {
                            b
                        } else {
                            b + 1
                        };
                        assert(now[a] == all[x] && now[b] == all[y]);
                        assert(all[x].video_id != all[y].video_id);
                    }
                }
                if old_sub.window != 0 {
                    Some(old_sub.window)
                } else {
                    None
                }
            },
            None => None,
        }
    }

    /// Subscribes a preview to a stream, in place of an earlier subscription of
    /// it: the window to release, if that had one. Without a stream for the
    /// input and the format nothing changes and the preview stays empty.
    pub fn register_preview(
        &mut self,
        devices: &Vec<AndroidCameraDevice>,
        video_id: u64,
        input_id: u64,
        format_id: u64,
        has_frame_input: bool,
        has_hardware_buffer_input: bool,
        window: Option<u64>,
    ) -> (r: Option<u64>)
        requires
            old(self).wf(),
        ensures
            final(self).wf(),
            final(self).streams@ == old(self).streams@,
            final(self).slots@ == old(self).slots@,
            match spec_key_for(devices@, input_id, format_id) {
                Some(stream) => {
                    &&& r == Self::window_of(old(self).subscriptions@, video_id)
                    &&& final(self).subscriptions@ == Self::previews_without(
                        old(self).subscriptions@,
                        video_id,
                    ).push(
                        PreviewSubscription {
                            video_id,
                            stream,
                            has_frame_input,
                            has_hardware_buffer_input,
                            window: match window {
                                Some(w) => w,
                                None => 0,
                            },
                        },
                    )
                },
                None => r is None && final(self).subscriptions@ == old(self).subscriptions@,
            },
    {
        let stream = match key_for(devices, input_id, format_id) {
            Some(key) => key,
            None => return None,
        };
        let released = self.unregister_preview(video_id);
        let ghost before = self.subscriptions@;
        let w: u64 = match window {
            Some(w) => w,
            None => 0,
        };
        self.subscriptions.push(
            PreviewSubscription {
                video_id,
                stream,
                has_frame_input,
                has_hardware_buffer_input,
                window: w,
            },
        );
        assert(distinct_previews(self.subscriptions@)) by {
            assert forall|a: int, b: int|
                0 <= a < b < self.subscriptions@.len() implies #[trigger] self.subscriptions@[a].video_id
                != #[trigger] self.subscriptions@[b].video_id by {
                assert(self.subscriptions@[a] == before[a]);
                if b < before.len() {
                    assert(self.subscriptions@[b] == before[b]);
                }
            }
        }
        released
    }

    /// Gives a preview another window: the one to release, if it had one, and
    /// whether anything changed.
    pub fn update_preview_window(&mut self, video_id: u64, window: Option<u64>) -> (r: (
        Option<u64>,
        bool,
    ))
        ensures
            final(self).streams@ == old(self).streams@,
            final(self).slots@ == old(self).slots@,
            ({
                let next: u64 = match window {
                    Some(w) => w,
                    None => 0,
                };
                match preview_index(old(self).subscriptions@, video_id, 0) {
                    Some(i) if old(self).subscriptions@[i].window != next => {
                        &&& r.1
                        &&& r.0 == Self::window_of(old(self).subscriptions@, video_id)
                        &&& final(self).subscriptions@ == old(self).subscriptions@.update(
                            i,
                            PreviewSubscription { window: next, ..old(self).subscriptions@[i] },
                        )
                    },
                    _ => !r.1 && r.0 is None && final(self).subscriptions@ == old(
                        self,
                    ).subscriptions@,
                }
            }),
    {
        let next: u64 = match window {
            Some(w) => w,
            None => 0,
        };
        match self.preview(video_id) {
            Some(i) => {
                let mut s = self.subscriptions[i];
                if s.window == next {
                    return (None, false);
                }
                let released = if s.window != 0 {
                    Some(s.window)
                } else {
                    None
                };
                s.window = next;
                self.subscriptions.set(i, s);
                (released, true)
            },
            None => (None, false),
        }
    }
}

/// A list of streams that has grown by needed ones only.
spec fn grown(
    kept: Seq<CameraStreamNode>,
    now: Seq<CameraStreamNode>,
    slots: Seq<Slot>,
    subs: Seq<PreviewSubscription>,
    devices: Seq<AndroidCameraDevice>,
) -> bool {
    &&& forall|key: CameraStreamKey|
        has_stream(kept, key) ==> #[trigger] has_stream(now, key)
    &&& forall|i: int|
        0 <= i < now.len() ==> {
            let n = #[trigger] now[i];
            &&& is_required(slots, subs, n.key)
            &&& if has_stream(kept, n.key) {
                kept.contains(n)
            } else {
                spec_format(devices, n.key) == Some(n.format) && n == fresh(n.key, n.format)
            }
        }
}

proof fn grown_more(
    kept: Seq<CameraStreamNode>,
    before: Seq<CameraStreamNode>,
    now: Seq<CameraStreamNode>,
    slots: Seq<Slot>,
    subs: Seq<PreviewSubscription>,
    devices: Seq<AndroidCameraDevice>,
    key: CameraStreamKey,
)
    requires
        grown(kept, before, slots, subs, devices),
        is_required(slots, subs, key),
        now == match spec_format(devices, key) {
            Some(format) if !has_stream(before, key) => before.push(fresh(key, format)),
            _ => before,
        },
    ensures
        grown(kept, now, slots, subs, devices),
        forall|k: CameraStreamKey| has_stream(before, k) ==> #[trigger] has_stream(now, k),
        spec_format(devices, key) is Some ==> has_stream(now, key),
{
    assert forall|k: CameraStreamKey| has_stream(before, k) implies #[trigger] has_stream(now, k) by {
        let i = choose|i: int| 0 <= i < before.len() && #[trigger] before[i].key == k;
        assert(now[i].key == k);
    }
    if now != before {
        assert(now[before.len() as int].key == key);
    }
    assert forall|i: int| 0 <= i < now.len() implies {
        let n = #[trigger] now[i];
        &&& is_required(slots, subs, n.key)
        &&& if has_stream(kept, n.key) {
            kept.contains(n)
        } else {
            spec_format(devices, n.key) == Some(n.format) && n == fresh(n.key, n.format)
        }
    } by {
        if i < before.len() {
            assert(now[i] == before[i]);
        } else {
            assert(!has_stream(kept, key)) by {
                if has_stream(kept, key) {
                    assert(has_stream(before, key));
                }
            }
        }
    }
}

/// Nobody needs a stream of which no slot and no preview is left.
pub proof fn stream_without_consumers_is_not_required(
    slots: Seq<Slot>,
    subs: Seq<PreviewSubscription>,
    key: CameraStreamKey,
)
    requires
        forall|i: int| 0 <= i < slots.len() ==> #[trigger] slots[i].stream != Some(key),
        forall|i: int| 0 <= i < subs.len() ==> #[trigger] subs[i].stream != key,
    ensures
        !is_required(slots, subs, key),
        consumers(slots, subs, key) == no_consumers(),
        preview_window(subs, key, 0) == 0,
{
    no_slot_consumers(slots, key);
    no_preview_consumers(slots, subs, key);
    no_preview_window(subs, key, 0);
}

proof fn no_slot_consumers(slots: Seq<Slot>, key: CameraStreamKey)
    requires
        forall|i: int| 0 <= i < slots.len() ==> #[trigger] slots[i].stream != Some(key),
    ensures
        slot_consumers(slots, key) == no_consumers(),
    decreases slots.len(),
{
    if slots.len() > 0 {
        let rest = slots.drop_last();
        assert forall|i: int| 0 <= i < rest.len() implies #[trigger] rest[i].stream != Some(key) by {
            assert(rest[i] == slots[i]);
        }
        no_slot_consumers(rest, key);
        assert(slots[slots.len() - 1].stream != Some(key));
    }
}

proof fn no_preview_consumers(slots: Seq<Slot>, subs: Seq<PreviewSubscription>, key: CameraStreamKey)
    requires
        slot_consumers(slots, key) == no_consumers(),
        forall|i: int| 0 <= i < subs.len() ==> #[trigger] subs[i].stream != key,
    ensures
        consumers(slots, subs, key) == no_consumers(),
    decreases subs.len(),
{
    if subs.len() > 0 {
        let rest = subs.drop_last();
        assert forall|i: int| 0 <= i < rest.len() implies #[trigger] rest[i].stream != key by {
            assert(rest[i] == subs[i]);
        }
        no_preview_consumers(slots, rest, key);
        assert(subs[subs.len() - 1].stream != key);
    }
}

proof fn no_preview_window(subs: Seq<PreviewSubscription>, key: CameraStreamKey, from: int)
    requires
        0 <= from <= subs.len(),
        forall|i: int| 0 <= i < subs.len() ==> #[trigger] subs[i].stream != key,
    ensures
        preview_window(subs, key, from) == 0,
    decreases subs.len() - from,
{
    if from < subs.len() {
        no_preview_window(subs, key, from + 1);
    }
}

/// What a person set is kept when a stream is started anew, and the new session is
/// controlled with it.
pub proof fn controls_outlast_a_restart(
    slots: Seq<Slot>,
    subs: Seq<PreviewSubscription>,
    devices: Seq<AndroidCameraDevice>,
    n: CameraStreamNode,
)
    ensures
        restarted(slots, subs, n).controls == n.controls,
        applied(devices, n.key.input_id, restarted(slots, subs, n).controls).controls
            == n.controls,
{
}

/// A stream that runs as it is needed is left alone: reconciling a second time, once its
/// session has started, stops and starts nothing.
pub proof fn a_stream_in_line_is_left_alone(
    slots: Seq<Slot>,
    subs: Seq<PreviewSubscription>,
    devices: Seq<AndroidCameraDevice>,
    n: CameraStreamNode,
    session: u64,
)
    ensures
        ({
            let running = CameraStreamNode { session: Some(session), ..restarted(slots, subs, n) };
            restart_of(slots, subs, devices, running) == (Restart {
                key: n.key,
                stop: None,
                start: None,
            })
        }),
{
}

/// Every consumer of a stream counts once, and those of other streams do not.
pub proof fn consumers_are_counted(
    slots: Seq<Slot>,
    slot: Slot,
    subs: Seq<PreviewSubscription>,
    sub: PreviewSubscription,
    key: CameraStreamKey,
)
    requires
        slots.len() < usize::MAX,
        subs.len() < usize::MAX,
    ensures
        ({
            let before = slot_consumers(slots, key);
            let after = slot_consumers(slots.push(slot), key);
            &&& slot.stream != Some(key) ==> after == before
            &&& slot.stream == Some(key) ==> {
                &&& after.video_inputs - before.video_inputs == if slot.has_video_input {
                    1int
                } else {
                    0
                }
                &&& after.frame_inputs - before.frame_inputs == if slot.has_frame_input {
                    1int
                } else {
                    0
                }
                &&& after.encoders - before.encoders == if slot.has_encoder {
                    1int
                } else {
                    0
                }
            }
        }),
        ({
            let before = consumers(slots, subs, key);
            let after = consumers(slots, subs.push(sub), key);
            &&& sub.stream != key ==> after == before
            &&& sub.stream == key ==> {
                &&& after.video_inputs == before.video_inputs && after.encoders == before.encoders
                    && after.frame_inputs == before.frame_inputs
                &&& after.preview_frame_inputs - before.preview_frame_inputs
                    == if sub.has_frame_input {
                    1int
                } else {
                    0
                }
                &&& after.preview_hardware_buffer_inputs - before.preview_hardware_buffer_inputs
                    == if sub.has_hardware_buffer_input {
                    1int
                } else {
                    0
                }
            }
        }),
        consumers(slots, Seq::empty(), key) == slot_consumers(slots, key),
{
    assert(slots.push(slot).drop_last() =~= slots);
    assert(subs.push(sub).drop_last() =~= subs);
    slot_counts_fit(slots, key);
    preview_counts_fit(slots, subs, key);
}

proof fn slot_counts_fit(slots: Seq<Slot>, key: CameraStreamKey)
    requires
        slots.len() <= usize::MAX,
    ensures
        slot_consumers(slots, key).video_inputs <= slots.len(),
        slot_consumers(slots, key).frame_inputs <= slots.len(),
        slot_consumers(slots, key).encoders <= slots.len(),
        slot_consumers(slots, key).preview_frame_inputs == 0,
        slot_consumers(slots, key).preview_hardware_buffer_inputs == 0,
    decreases slots.len(),
{
    if slots.len() > 0 {
        slot_counts_fit(slots.drop_last(), key);
    }
}

proof fn preview_counts_fit(slots: Seq<Slot>, subs: Seq<PreviewSubscription>, key: CameraStreamKey)
    requires
        slots.len() <= usize::MAX,
        subs.len() <= usize::MAX,
    ensures
        consumers(slots, subs, key).preview_frame_inputs <= subs.len(),
        consumers(slots, subs, key).preview_hardware_buffer_inputs <= subs.len(),
    decreases subs.len(),
{
    if subs.len() > 0 {
        preview_counts_fit(slots, subs.drop_last(), key);
    } else {
        slot_counts_fit(slots, key);
    }
}

/// A stream is shown in a window of one of its own previews, where one has a window.
pub proof fn a_stream_shows_in_its_own_window(
    subs: Seq<PreviewSubscription>,
    key: CameraStreamKey,
    from: int,
)
    requires
        0 <= from <= subs.len(),
    ensures
        ({
            let w = preview_window(subs, key, from);
            &&& w != 0 ==> exists|i: int|
                from <= i < subs.len() && (#[trigger] subs[i]).stream == key && subs[i].window == w
            &&& w == 0 ==> forall|i: int|
                from <= i < subs.len() && (#[trigger] subs[i]).stream == key ==> subs[i].window == 0
        }),
    decreases subs.len() - from,
{
    if from < subs.len() {
        if subs[from].stream == key && subs[from].window != 0 {
            assert(subs[from].window == preview_window(subs, key, from));
        } else {
            a_stream_shows_in_its_own_window(subs, key, from + 1);
            let w = preview_window(subs, key, from);
            if w != 0 {
                let i = choose|i: int|
                    from + 1 <= i < subs.len() && (#[trigger] subs[i]).stream == key
                        && subs[i].window == w;
                assert(subs[i].stream == key);
            }
        }
    }
}

/// A stream is started anew where what it shows or hands out changed; the old session ends
/// first, and a new one begins only where something wants the stream, in its own format.
pub proof fn a_changed_stream_is_started_anew(
    slots: Seq<Slot>,
    subs: Seq<PreviewSubscription>,
    devices: Seq<AndroidCameraDevice>,
    n: CameraStreamNode,
)
    ensures
        ({
            let r = restart_of(slots, subs, devices, n);
            let wanted = consumers(slots, subs, n.key).wants_frames();
            let window = preview_window(subs, n.key, 0);
            &&& r.key == n.key
            &&& r.stop is Some ==> r.stop == n.session
            &&& r.start is Some ==> wanted || window != 0
            &&& n.session is None && (wanted || window != 0) ==> r.start is Some
            &&& r.start matches Some(p) ==> {
                &&& p.format == n.format
                &&& p.needs_image_reader == wanted
                &&& p.dispatch == consumers(slots, subs, n.key)
                &&& (p.preview_window matches Some(w) ==> w == window && w != 0)
                &&& (p.preview_window is None ==> window == 0)
            }
            &&& n.session is Some && n.preview_window != window ==> r.stop == n.session
            &&& n.session is Some && n.needs_image_reader != wanted ==> r.stop == n.session
            &&& n.session is Some && n.preview_window == window && n.needs_image_reader == wanted
                ==> r.stop is None && r.start is None
        }),
{
}

/// A session ends where nothing needs its stream any more, and only there.
pub proof fn unneeded_sessions_end(
    streams: Seq<CameraStreamNode>,
    n: CameraStreamNode,
    slots: Seq<Slot>,
    subs: Seq<PreviewSubscription>,
)
    ensures
        ({
            let before = unneeded_sessions(streams, slots, subs);
            let after = unneeded_sessions(streams.push(n), slots, subs);
            &&& is_required(slots, subs, n.key) ==> after == before
            &&& !is_required(slots, subs, n.key) ==> match n.session {
                Some(s) => after == before.push(s),
                None => after == before,
            }
        }),
        unneeded_sessions(Seq::empty(), slots, subs).len() == 0,
{
    assert(streams.push(n).drop_last() =~= streams);
}

/// A slot or a preview that asks for a stream makes it needed.
pub proof fn what_is_asked_for_is_needed(
    slots: Seq<Slot>,
    subs: Seq<PreviewSubscription>,
    slot: Slot,
    sub: PreviewSubscription,
    key: CameraStreamKey,
)
    ensures
        slot.stream == Some(key) ==> is_required(slots.push(slot), subs, key),
        sub.stream == key ==> is_required(slots, subs.push(sub), key),
        is_required(slots, subs, key) ==> is_required(slots.push(slot), subs.push(sub), key),
{
    let (a, b) = (slots.push(slot), subs.push(sub));
    assert(a[slots.len() as int] == slot);
    assert(b[subs.len() as int] == sub);
    if is_required(slots, subs, key) {
        if exists|i: int| 0 <= i < slots.len() && #[trigger] slots[i].stream == Some(key) {
            let i = choose|i: int| 0 <= i < slots.len() && #[trigger] slots[i].stream == Some(key);
            assert(a[i].stream == Some(key));
        } else {
            let i = choose|i: int| 0 <= i < subs.len() && #[trigger] subs[i].stream == key;
            assert(b[i].stream == key);
        }
    }
}

/// A session is controlled in the measures of its own camera: its pixels and the way it is
/// built in.
pub proof fn a_camera_is_controlled_in_its_own_measures(
    devices: Seq<AndroidCameraDevice>,
    input_id: u64,
    controls: CameraControlState,
    d: AndroidCameraDevice,
)
    requires
        spec_device(devices, input_id) == Some(d),
    ensures
        ({
            let a = applied(devices, input_id, controls);
            &&& a.controls == controls
            &&& a.active_array == d.active_array
            &&& 0 <= a.rotation < 4
            &&& d.sensor_orientation_degrees as int % 90 == 0 ==> (90 * a.rotation
                + d.sensor_orientation_degrees) % 360 == 0
        }),
        still_of(devices, input_id) matches Some(s) ==> d.still_size == Some((s.width, s.height)),
        still_of(devices, input_id) is None <==> d.still_size is None,
{
    pictures_stand_upright(d.sensor_orientation_degrees);
}

} // verus!
