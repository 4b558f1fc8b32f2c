//! The OpenHarmony camera: its devices and profiles, and what is asked of a
//! running session.
use crate::camera::capture::CameraFlashMode;
use crate::number::{decimal, signed_decimal, spec_decimal, spec_signed_decimal};
use crate::text::{push_all, push_text, to_text};
use vstd::prelude::*;

verus! {

// ---------------------------------------------------------------------------
// Errors
// ---------------------------------------------------------------------------

/// What a code of the camera service means.
pub open spec fn spec_cam_error(rc: i32) -> Seq<char> {
    if rc == 7_400_101 {
        "invalid argument"@
    } else if rc == 7_400_102 {
        "operation not allowed in this session state"@
    } else if rc == 7_400_103 {
        "session not configured"@
    } else if rc == 7_400_201 {
        "camera unavailable (in use by another app, or ohos.permission.CAMERA not granted)"@
    } else if rc == 7_400_202 {
        "camera disabled by device policy"@
    } else if rc == 7_400_203 {
        "camera already in use here"@
    } else if rc == 201 {
        "permission denied (ohos.permission.CAMERA)"@
    } else {
        "camera error "@ + spec_signed_decimal(rc as int)
    }
}

/// What a code of the camera service means. A missing grant is reported as an
/// unavailable camera too.
pub fn cam_error(rc: i32) -> (r: String)
    ensures
        r@ == spec_cam_error(rc),
{
    if rc == 7_400_101 {
        "invalid argument".to_owned()
    } else if rc == 7_400_102 {
        "operation not allowed in this session state".to_owned()
    } else if rc == 7_400_103 {
        "session not configured".to_owned()
    } else if rc == 7_400_201 {
        "camera unavailable (in use by another app, or ohos.permission.CAMERA not granted)".to_owned()
    } else if rc == 7_400_202 {
        "camera disabled by device policy".to_owned()
    } else if rc == 7_400_203 {
        "camera already in use here".to_owned()
    } else if rc == 201 {
        "permission denied (ohos.permission.CAMERA)".to_owned()
    } else {
        labelled_code("camera error ", rc)
    }
}

/// A label followed by a code.
pub fn labelled_code(label: &str, rc: i32) -> (r: String)
    ensures
        r@ == label@ + spec_signed_decimal(rc as int),
{
    let mut out: Vec<char> = Vec::new();
    push_text(&mut out, label);
    let digits = signed_decimal(rc as i64);
    push_all(&mut out, digits.as_slice());
    assert(out@ =~= label@ + spec_signed_decimal(rc as int));
    to_text(out.as_slice())
}

/// A label followed by what a code means.
pub fn labelled_error(label: &str, rc: i32) -> (r: String)
    ensures
        r@ == label@ + spec_cam_error(rc),
{
    let mut out: Vec<char> = Vec::new();
    push_text(&mut out, label);
    let error = cam_error(rc);
    push_text(&mut out, error.as_str());
    assert(out@ =~= label@ + spec_cam_error(rc));
    to_text(out.as_slice())
}

// ---------------------------------------------------------------------------
// Devices and profiles
// ---------------------------------------------------------------------------

#[derive(Clone, Copy, PartialEq, Eq, Structural, Debug)]
pub struct CameraSize {
    pub width: u32,
    pub height: u32,
}

#[derive(Clone, Copy, PartialEq, Eq, Structural, Debug)]
pub struct CameraProfile {
    pub format: i32,
    pub size: CameraSize,
}

/// A video profile with its range of frame rates.
#[derive(Clone, Copy, PartialEq, Eq, Structural, Debug)]
pub struct CameraVideoProfile {
    pub format: i32,
    pub size: CameraSize,
    pub min: u32,
    pub max: u32,
}

pub const CAMERA_FORMAT_YUV_420_SP: i32 = 1003;

pub const CAMERA_FORMAT_JPEG: i32 = 2000;

pub const CAMERA_POSITION_FRONT: i32 = 2;

/// The name that a camera without one goes by.
pub fn unnamed_camera(index: u64) -> (r: String)
    ensures
        r@ == "camera"@ + spec_decimal(index as nat),
{
    let mut out: Vec<char> = Vec::new();
    push_text(&mut out, "camera");
    let digits = decimal(index);
    push_all(&mut out, digits.as_slice());
    assert(out@ =~= "camera"@ + spec_decimal(index as nat));
    to_text(out.as_slice())
}

/// How a camera is presented: which way it faces, and its id.
pub open spec fn spec_camera_name(front: bool, id: Seq<char>) -> Seq<char> {
    (if front {
        "Front"@
    } else {
        "Back"@
    }) + " camera ("@ + id + ")"@
}

/// How a camera is presented.
pub fn camera_name(front: bool, id: &str) -> (r: String)
    ensures
        r@ == spec_camera_name(front, id@),
{
    let mut out: Vec<char> = Vec::new();
    push_text(
        &mut out,
        if front {
            "Front"
        } else {
            "Back"
        },
    );
    push_text(&mut out, " camera (");
    push_text(&mut out, id);
    push_text(&mut out, ")");
    assert(out@ =~= spec_camera_name(front, id@));
    to_text(out.as_slice())
}

/// The text that a preview format's id is made from.
pub open spec fn spec_format_key(id: Seq<char>, size: CameraSize) -> Seq<char> {
    id + ":"@ + spec_decimal(size.width as nat) + "x"@ + spec_decimal(size.height as nat)
        + ":nv12"@
}

/// The text that a preview format's id is made from.
pub fn format_key(id: &str, size: CameraSize) -> (r: String)
    ensures
        r@ == spec_format_key(id@, size),
{
    let mut out: Vec<char> = Vec::new();
    push_text(&mut out, id);
    push_text(&mut out, ":");
    let w = decimal(size.width as u64);
    push_all(&mut out, w.as_slice());
    push_text(&mut out, "x");
    let h = decimal(size.height as u64);
    push_all(&mut out, h.as_slice());
    push_text(&mut out, ":nv12");
    assert(out@ =~= spec_format_key(id@, size));
    to_text(out.as_slice())
}

/// The profiles of one pixel format, in order.
pub open spec fn of_format(list: Seq<CameraProfile>, format: i32) -> Seq<CameraProfile>
    decreases list.len(),
{
    if list.len() == 0 {
        Seq::empty()
    } else {
        let rest = of_format(list.drop_last(), format);
        if list.last().format == format {
            rest.push(list.last())
        } else {
            rest
        }
    }
}

/// The still profiles that a camera's own list offers.
pub fn photo_profiles(list: &Vec<CameraProfile>) -> (r: Vec<CameraProfile>)
    ensures
        r@ == of_format(list@, CAMERA_FORMAT_JPEG),
{
    let mut r: Vec<CameraProfile> = Vec::new();
    let mut i: usize = 0;
    while i < list.len()
        invariant
            i <= list.len(),
            r@ == of_format(list@.take(i as int), CAMERA_FORMAT_JPEG),
        decreases list.len() - i,
    {
        assert(list@.take(i + 1).drop_last() =~= list@.take(i as int));
        if list[i].format == CAMERA_FORMAT_JPEG {
            r.push(list[i]);
        }
        i = i + 1;
    }
    assert(list@.take(i as int) =~= list@);
    r
}

/// The video profiles that a recording can use, in order.
pub open spec fn recordable(list: Seq<CameraVideoProfile>) -> Seq<CameraVideoProfile>
    decreases list.len(),
{
    if list.len() == 0 {
        Seq::empty()
    } else {
        let rest = recordable(list.drop_last());
        if list.last().format == CAMERA_FORMAT_YUV_420_SP {
            rest.push(list.last())
        } else {
            rest
        }
    }
}

/// The video profiles that a recording can use.
pub fn video_profiles(list: &Vec<CameraVideoProfile>) -> (r: Vec<CameraVideoProfile>)
    ensures
        r@ == recordable(list@),
{
    let mut r: Vec<CameraVideoProfile> = Vec::new();
    let mut i: usize = 0;
    while i < list.len()
        invariant
            i <= list.len(),
            r@ == recordable(list@.take(i as int)),
        decreases list.len() - i,
    {
        assert(list@.take(i + 1).drop_last() =~= list@.take(i as int));
        if list[i].format == CAMERA_FORMAT_YUV_420_SP {
            r.push(list[i]);
        }
        i = i + 1;
    }
    assert(list@.take(i as int) =~= list@);
    r
}

/// Whether a size is among some profiles.
pub open spec fn has_size(list: Seq<CameraProfile>, size: CameraSize) -> bool {
    exists|i: int| 0 <= i < list.len() && #[trigger] list[i].size == size
}

/// The preview profiles with a usable pixel format, each size once, at its
/// first place.
pub open spec fn previewable(list: Seq<CameraProfile>) -> Seq<CameraProfile>
    decreases list.len(),
{
    if list.len() == 0 {
        Seq::empty()
    } else {
        let rest = previewable(list.drop_last());
        let p = list.last();
        if p.format == CAMERA_FORMAT_YUV_420_SP && !has_size(rest, p.size) {
            rest.push(p)
        } else {
            rest
        }
    }
}

fn contains_size(list: &Vec<CameraProfile>, size: CameraSize) -> (r: bool)
    ensures
        r == has_size(list@, size),
{
    let mut i: usize = 0;
    while i < list.len()
        invariant
            i <= list.len(),
            forall|j: int| 0 <= j < i ==> #[trigger] list@[j].size != size,
        decreases list.len() - i,
    {
        if list[i].size == size {
            return true;
        }
        i = i + 1;
    }
    false
}

/// The preview profiles that are published.
pub fn preview_profiles(list: &Vec<CameraProfile>) -> (r: Vec<CameraProfile>)
    ensures
        r@ == previewable(list@),
{
    let mut r: Vec<CameraProfile> = Vec::new();
    let mut i: usize = 0;
    while i < list.len()
        invariant
            i <= list.len(),
            r@ == previewable(list@.take(i as int)),
        decreases list.len() - i,
    {
        assert(list@.take(i + 1).drop_last() =~= list@.take(i as int));
        let p = list[i];
        if p.format == CAMERA_FORMAT_YUV_420_SP && !contains_size(&r, p.size) {
            r.push(p);
        }
        i = i + 1;
    }
    assert(list@.take(i as int) =~= list@);
    r
}

/// No size is published twice, and every usable size is.
pub proof fn preview_sizes_are_published_once(list: Seq<CameraProfile>)
    ensures
        forall|i: int, j: int|
            0 <= i < j < previewable(list).len() ==> #[trigger] previewable(list)[i].size
                != #[trigger] previewable(list)[j].size,
        forall|i: int|
            0 <= i < list.len() && #[trigger] list[i].format == CAMERA_FORMAT_YUV_420_SP
                ==> has_size(previewable(list), list[i].size),
    decreases list.len(),
{
    if list.len() > 0 {
        let start = list.drop_last();
        let rest = previewable(start);
        let all = previewable(list);
        let p = list.last();
        preview_sizes_are_published_once(start);
        assert forall|i: int|
            0 <= i < list.len() && #[trigger] list[i].format
                == CAMERA_FORMAT_YUV_420_SP implies has_size(all, list[i].size) by {
            if i < start.len() {
                assert(start[i] == list[i]);
                assert(has_size(rest, list[i].size));
                let k = choose|k: int|
                    0 <= k < rest.len() && #[trigger] rest[k].size == list[i].size;
                assert(all[k].size == list[i].size);
            } else if !has_size(rest, p.size) {
                assert(all[rest.len() as int].size == p.size);
            }
        }
        assert forall|i: int, j: int| 0 <= i < j < all.len() implies #[trigger] all[i].size
            != #[trigger] all[j].size by {
            assert(all[i] == rest[i]);
            if j < rest.len() {
                assert(all[j] == rest[j]);
            }
        }
    }
}

/// A preview profile with the id it was published under.
#[derive(Clone, Copy, PartialEq, Eq, Structural, Debug)]
pub struct OhFormat {
    pub format_id: u64,
    pub profile: CameraProfile,
}

/// A camera.
pub struct OhDevice {
    pub input_id: u64,
    pub name: String,
    pub front: bool,
    pub formats: Vec<OhFormat>,
    pub photo_profiles: Vec<CameraProfile>,
    pub video_profiles: Vec<CameraVideoProfile>,
}

/// The index of the first device with this id.
pub open spec fn device_index(devices: Seq<OhDevice>, input_id: u64, from: int) -> Option<int>
    decreases devices.len() - from,
{
    if from < 0 || from >= devices.len() {
        None
    } else if devices[from].input_id == input_id {
        Some(from)
    } else {
        device_index(devices, input_id, from + 1)
    }
}

/// The index of the first format with this id.
pub open spec fn format_index(formats: Seq<OhFormat>, format_id: u64, from: int) -> Option<int>
    decreases formats.len() - from,
{
    if from < 0 || from >= formats.len() {
        None
    } else if formats[from].format_id == format_id {
        Some(from)
    } else {
        format_index(formats, format_id, from + 1)
    }
}

pub fn find_device(devices: &Vec<OhDevice>, input_id: u64) -> (r: Option<usize>)
    ensures
        match r {
            Some(i) => device_index(devices@, input_id, 0) == Some(i as int) && i < devices.len(),
            None => device_index(devices@, input_id, 0) is None,
        },
{
    let mut i: usize = 0;
    while i < devices.len()
        invariant
            i <= devices.len(),
            device_index(devices@, input_id, 0) == device_index(devices@, input_id, i as int),
        decreases devices.len() - i,
    {
        if devices[i].input_id == input_id {
            return Some(i);
        }
        i = i + 1;
    }
    None
}

fn find_format(formats: &Vec<OhFormat>, format_id: u64) -> (r: Option<usize>)
    ensures
        match r {
            Some(i) => format_index(formats@, format_id, 0) == Some(i as int) && i < formats.len(),
            None => format_index(formats@, format_id, 0) is None,
        },
{
    let mut i: usize = 0;
    while i < formats.len()
        invariant
            i <= formats.len(),
            format_index(formats@, format_id, 0) == format_index(formats@, format_id, i as int),
        decreases formats.len() - i,
    {
        if formats[i].format_id == format_id {
            return Some(i);
        }
        i = i + 1;
    }
    None
}

/// The size of a published format.
pub fn format_size(devices: &Vec<OhDevice>, input_id: u64, format_id: u64) -> (r: Option<CameraSize>)
    ensures
        r == match device_index(devices@, input_id, 0) {
            Some(d) => match format_index(devices@[d].formats@, format_id, 0) {
                Some(f) => Some(devices@[d].formats@[f].profile.size),
                None => None,
            },
            None => None,
        },
{
    match find_device(devices, input_id) {
        Some(d) => match find_format(&devices[d].formats, format_id) {
            Some(f) => Some(devices[d].formats[f].profile.size),
            None => None,
        },
        None => None,
    }
}

/// Whether an input is a front camera.
pub fn is_front(devices: &Vec<OhDevice>, input_id: u64) -> (r: bool)
    ensures
        r == exists|i: int|
            0 <= i < devices.len() && #[trigger] devices@[i].input_id == input_id
                && devices@[i].front,
{
    let mut i: usize = 0;
    while i < devices.len()
        invariant
            i <= devices.len(),
            forall|j: int|
                0 <= j < i ==> !(#[trigger] devices@[j].input_id == input_id && devices@[j].front),
        decreases devices.len() - i,
    {
        if devices[i].input_id == input_id && devices[i].front {
            return true;
        }
        i = i + 1;
    }
    false
}

/// Why no stream can be started.
#[derive(Clone, Copy, PartialEq, Eq, Structural, Debug)]
pub enum StreamError {
    NoCameraNdk,
    NoManager,
    UnknownInput,
    NoPreviewProfile,
}

impl StreamError {
    pub fn message(&self) -> (r: &'static str)
        ensures
            r@ == match *self {
                StreamError::NoCameraNdk => "camera NDK not available"@,
                StreamError::NoManager => "no camera manager"@,
                StreamError::UnknownInput => "unknown video input"@,
                StreamError::NoPreviewProfile => "camera offers no YUV preview profile"@,
            },
    {
        match self {
            StreamError::NoCameraNdk => "camera NDK not available",
            StreamError::NoManager => "no camera manager",
            StreamError::UnknownInput => "unknown video input",
            StreamError::NoPreviewProfile => "camera offers no YUV preview profile",
        }
    }
}

/// Which device and which of its formats to stream: the format that was asked
/// for, else the device's first.
pub open spec fn spec_choose_stream(
    has_manager: bool,
    devices: Seq<OhDevice>,
    input_id: u64,
    format_id: u64,
) -> Result<(int, int), StreamError> {
    if !has_manager {
        Err(StreamError::NoManager)
    } else {
        match device_index(devices, input_id, 0) {
            None => Err(StreamError::UnknownInput),
            Some(d) => match format_index(devices[d].formats@, format_id, 0) {
                Some(f) => Ok((d, f)),
                None => if devices[d].formats@.len() > 0 {
                    Ok((d, 0))
                } else {
                    Err(StreamError::NoPreviewProfile)
                },
            },
        }
    }
}

/// Which device and which of its formats to stream.
pub fn choose_stream(has_manager: bool, devices: &Vec<OhDevice>, input_id: u64, format_id: u64) -> (r:
    Result<(usize, usize), StreamError>)
    ensures
        match r {
            Ok((d, f)) => {
                &&& spec_choose_stream(has_manager, devices@, input_id, format_id) == Ok::<
                    (int, int),
                    StreamError,
                >((d as int, f as int))
                &&& d < devices.len()
                &&& f < devices@[d as int].formats@.len()
            },
            Err(e) => spec_choose_stream(has_manager, devices@, input_id, format_id) == Err::<
                (int, int),
                StreamError,
            >(e),
        },
{
    if !has_manager {
        return Err(StreamError::NoManager);
    }
    match find_device(devices, input_id) {
        None => Err(StreamError::UnknownInput),
        Some(d) => match find_format(&devices[d].formats, format_id) {
            Some(f) => Ok((d, f)),
            None => if devices[d].formats.len() > 0 {
                Ok((d, 0))
            } else {
                Err(StreamError::NoPreviewProfile)
            },
        },
    }
}

/// Whether two sizes have the same shape: the quotients of width by height
/// differ by less than three hundredths.
pub open spec fn same_shape(a: CameraSize, b: CameraSize) -> bool {
    let d = a.width * b.height - b.width * a.height;
    a.height > 0 && b.height > 0 && -3 * (a.height * b.height) < 100 * d < 3 * (a.height * b.height)
}

fn has_same_shape(a: CameraSize, b: CameraSize) -> (r: bool)
    ensures
        r == same_shape(a, b),
{
    if a.height == 0 || b.height == 0 {
        return false;
    }
    proof {
        assert(0 <= a.width * b.height <= 0xffff_ffff * 0xffff_ffff) by (nonlinear_arith)
            requires
                0 <= a.width <= 0xffff_ffff,
                0 <= b.height <= 0xffff_ffff,
        ;
        assert(0 <= b.width * a.height <= 0xffff_ffff * 0xffff_ffff) by (nonlinear_arith)
            requires
                0 <= b.width <= 0xffff_ffff,
                0 <= a.height <= 0xffff_ffff,
        ;
        assert(0 <= a.height * b.height <= 0xffff_ffff * 0xffff_ffff) by (nonlinear_arith)
            requires
                0 <= a.height <= 0xffff_ffff,
                0 <= b.height <= 0xffff_ffff,
        ;
    }
    let d: i128 = (a.width as i128) * (b.height as i128) - (b.width as i128) * (a.height as i128);
    let h: i128 = (a.height as i128) * (b.height as i128);
    assert(h == a.height * b.height);
    assert(0 <= h <= 0xffff_fffe_0000_0001);
    0 - 3 * h < 100 * d && 100 * d < 3 * h
}

pub open spec fn area(s: CameraSize) -> int {
    s.width * s.height
}

fn area_of(s: CameraSize) -> (r: u64)
    ensures
        r == area(s),
{
    assert(0 <= s.width * s.height <= 0xffff_ffff * 0xffff_ffff) by (nonlinear_arith)
        requires
            0 <= s.width <= 0xffff_ffff,
            0 <= s.height <= 0xffff_ffff,
    ;
    (s.width as u64) * (s.height as u64)
}

/// The largest still profile of the preview's shape; of equals the last.
pub open spec fn best_photo(list: Seq<CameraProfile>, preview: CameraSize) -> Option<CameraProfile>
    decreases list.len(),
{
    if list.len() == 0 {
        None
    } else {
        let best = best_photo(list.drop_last(), preview);
        let p = list.last();
        if same_shape(p.size, preview) && (best matches Some(b) ==> area(p.size) >= area(b.size)) {
            Some(p)
        } else {
            best
        }
    }
}

/// The still profile that goes with a preview.
pub fn photo_profile(list: &Vec<CameraProfile>, preview: CameraSize) -> (r: Option<CameraProfile>)
    ensures
        r == best_photo(list@, preview),
{
    let mut best: Option<CameraProfile> = None;
    let mut i: usize = 0;
    while i < list.len()
        invariant
            i <= list.len(),
            best == best_photo(list@.take(i as int), preview),
        decreases list.len() - i,
    {
        assert(list@.take(i + 1).drop_last() =~= list@.take(i as int));
        let p = list[i];
        if has_same_shape(p.size, preview) {
            let better = match best {
                Some(b) => area_of(p.size) >= area_of(b.size),
                None => true,
            };
            if better {
                best = Some(p);
            }
        }
        i = i + 1;
    }
    assert(list@.take(i as int) =~= list@);
    best
}

/// The chosen still profile has the preview's shape, and no profile of that
/// shape is larger; there is none only where no profile has that shape.
pub proof fn photo_is_the_largest_of_its_shape(list: Seq<CameraProfile>, preview: CameraSize)
    ensures
        match best_photo(list, preview) {
            Some(b) => same_shape(b.size, preview) && list.contains(b) && forall|i: int|
                0 <= i < list.len() && same_shape(#[trigger] list[i].size, preview) ==> area(
                    list[i].size,
                ) <= area(b.size),
            None => forall|i: int|
                0 <= i < list.len() ==> !same_shape(#[trigger] list[i].size, preview),
        },
    decreases list.len(),
{
    if list.len() > 0 {
        let start = list.drop_last();
        photo_is_the_largest_of_its_shape(start, preview);
        let best = best_photo(list, preview);
        assert forall|i: int| 0 <= i < list.len() && same_shape(#[trigger] list[i].size, preview) implies
            best is Some && area(list[i].size) <= area(best->0.size) by {
            if i < start.len() {
                assert(start[i] == list[i]);
                assert(same_shape(start[i].size, preview));
            }
        }
        if best is Some && best == best_photo(start, preview) {
            let k = choose|k: int| 0 <= k < start.len() && start[k] == best->0;
            if start.contains(best->0) {
                assert(list[k] == best->0);
            }
        }
        if best is Some && list.last() == best->0 {
            assert(list[list.len() - 1] == best->0);
        }
    }
}

// ---------------------------------------------------------------------------
// What a session is built from
// ---------------------------------------------------------------------------

/// How many frames the receiver of a preview holds.
pub const PREVIEW_CAPACITY: i32 = 4;

/// How many pictures the receiver of stills holds.
pub const PHOTO_CAPACITY: i32 = 2;

/// How an image receiver is made.
#[derive(Clone, Copy, PartialEq, Eq, Structural, Debug)]
pub struct ReceiverPlan {
    pub size: CameraSize,
    pub capacity: i32,
}

/// How the output of stills is made, and its receiver.
#[derive(Clone, Copy, PartialEq, Eq, Structural, Debug)]
pub struct PhotoPlan {
    pub profile: CameraProfile,
    pub receiver: ReceiverPlan,
}

/// What a session is built from.
#[derive(Clone, Copy, PartialEq, Eq, Structural, Debug)]
pub struct SessionPlan {
    /// The device, by its place in the list.
    pub device: usize,
    /// The profile of the preview's output.
    pub preview: CameraProfile,
    /// The receiver that the preview streams into.
    pub receiver: ReceiverPlan,
    /// None where the device has no still profile that goes with the preview, or the
    /// camera service has no stills.
    pub photo: Option<PhotoPlan>,
}

/// What the session of a device's format is built from: receivers of the sizes of their
/// profiles, and stills where the device has them in the preview's shape.
pub open spec fn spec_session_plan(
    devices: Seq<OhDevice>,
    d: int,
    f: int,
    can_photo: bool,
) -> SessionPlan {
    let preview = devices[d].formats@[f].profile;
    SessionPlan {
        device: d as usize,
        preview,
        receiver: ReceiverPlan { size: preview.size, capacity: PREVIEW_CAPACITY },
        photo: match best_photo(devices[d].photo_profiles@, preview.size) {
            Some(profile) if can_photo => Some(
                PhotoPlan {
                    profile,
                    receiver: ReceiverPlan { size: profile.size, capacity: PHOTO_CAPACITY },
                },
            ),
            _ => None,
        },
    }
}

/// What the session of a camera is built from; `can_photo` is whether the camera
/// service has stills.
pub fn session_plan(
    has_api: bool,
    has_manager: bool,
    devices: &Vec<OhDevice>,
    input_id: u64,
    format_id: u64,
    can_photo: bool,
) -> (r: Result<SessionPlan, StreamError>)
    ensures
        !has_api ==> r == Err::<SessionPlan, StreamError>(StreamError::NoCameraNdk),
        has_api ==> match spec_choose_stream(has_manager, devices@, input_id, format_id) {
            Ok((d, f)) => r == Ok::<SessionPlan, StreamError>(
                spec_session_plan(devices@, d, f, can_photo),
            ),
            Err(e) => r == Err::<SessionPlan, StreamError>(e),
        },
{
    if !has_api {
        return Err(StreamError::NoCameraNdk);
    }
    match choose_stream(has_manager, devices, input_id, format_id) {
        Ok((d, f)) => {
            let preview = devices[d].formats[f].profile;
            let photo = match photo_profile(&devices[d].photo_profiles, preview.size) {
                Some(profile) => if can_photo {
                    Some(
                        PhotoPlan {
                            profile,
                            receiver: ReceiverPlan { size: profile.size, capacity: PHOTO_CAPACITY },
                        },
                    )
                } else {
                    None
                },
                None => None,
            };
            Ok(
                SessionPlan {
                    device: d,
                    preview,
                    receiver: ReceiverPlan { size: preview.size, capacity: PREVIEW_CAPACITY },
                    photo,
                },
            )
        },
        Err(e) => Err(e),
    }
}

/// The frame rate that recordings aim for.
pub const RECORD_FPS: u32 = 30;

/// The profile of a size that reaches the wanted frame rate and allows the
/// highest; of equals the last.
pub open spec fn best_video(list: Seq<CameraVideoProfile>, size: CameraSize) -> Option<CameraVideoProfile>
    decreases list.len(),
{
    if list.len() == 0 {
        None
    } else {
        let best = best_video(list.drop_last(), size);
        let p = list.last();
        if p.size == size && p.min <= RECORD_FPS <= p.max && (best matches Some(b) ==> p.max >= b.max) {
            Some(p)
        } else {
            best
        }
    }
}

/// The first profile of a size.
pub open spec fn first_video(list: Seq<CameraVideoProfile>, size: CameraSize, from: int) -> Option<
    CameraVideoProfile,
>
    decreases list.len() - from,
{
    if from < 0 || from >= list.len() {
        None
    } else if list[from].size == size {
        Some(list[from])
    } else {
        first_video(list, size, from + 1)
    }
}

/// The profile to record with.
pub open spec fn spec_video_profile(list: Seq<CameraVideoProfile>, size: CameraSize) -> Option<
    CameraVideoProfile,
> {
    match best_video(list, size) {
        Some(p) => Some(p),
        None => first_video(list, size, 0),
    }
}

/// The profile to record with: of the preview's size, at the wanted frame rate
/// if one reaches it.
pub fn video_profile(list: &Vec<CameraVideoProfile>, size: CameraSize) -> (r: Option<CameraVideoProfile>)
    ensures
        r == spec_video_profile(list@, size),
{
    let mut best: Option<CameraVideoProfile> = None;
    let mut i: usize = 0;
    while i < list.len()
        invariant
            i <= list.len(),
            best == best_video(list@.take(i as int), size),
        decreases list.len() - i,
    {
        assert(list@.take(i + 1).drop_last() =~= list@.take(i as int));
        let p = list[i];
        if p.size == size && p.min <= RECORD_FPS && RECORD_FPS <= p.max {
            let better = match best {
                Some(b) => p.max >= b.max,
                None => true,
            };
            if better {
                best = Some(p);
            }
        }
        i = i + 1;
    }
    assert(list@.take(i as int) =~= list@);
    if best.is_some() {
        return best;
    }
    let mut k: usize = 0;
    while k < list.len()
        invariant
            k <= list.len(),
            best_video(list@, size) is None,
            first_video(list@, size, 0) == first_video(list@, size, k as int),
        decreases list.len() - k,
    {
        if list[k].size == size {
            return Some(list[k]);
        }
        k = k + 1;
    }
    None
}

/// The message for a size that no video profile has.
pub fn no_video_profile(size: CameraSize) -> (r: String)
    ensures
        r@ == "no video profile at "@ + spec_decimal(size.width as nat) + "x"@ + spec_decimal(
            size.height as nat,
        ),
{
    let mut out: Vec<char> = Vec::new();
    push_text(&mut out, "no video profile at ");
    let w = decimal(size.width as u64);
    push_all(&mut out, w.as_slice());
    push_text(&mut out, "x");
    let h = decimal(size.height as u64);
    push_all(&mut out, h.as_slice());
    assert(out@ =~= "no video profile at "@ + spec_decimal(size.width as nat) + "x"@
        + spec_decimal(size.height as nat));
    to_text(out.as_slice())
}

/// The frame rate to record at: the wanted one, held inside the profile's
/// range.
pub fn record_fps(profile: &CameraVideoProfile) -> (r: i32)
    requires
        (profile.min as i32) <= (profile.max as i32),
    ensures
        r == spec_record_fps(*profile),
{
    let lo: i32 = #[verifier::truncate] (profile.min as i32);
    let hi: i32 = #[verifier::truncate] (profile.max as i32);
    let wanted: i32 = RECORD_FPS as i32;
    if wanted < lo {
        lo
    } else if wanted > hi {
        hi
    } else {
        wanted
    }
}

/// What the recorder is set up with.
#[derive(Clone, Copy, PartialEq, Eq, Structural, Debug)]
pub struct RecorderConfig {
    pub audio_source_type: i32,
    pub video_source_type: i32,
    pub audio_bitrate: i32,
    pub audio_channels: i32,
    pub audio_codec: i32,
    pub audio_sample_rate: i32,
    pub file_format: i32,
    pub video_bitrate: i32,
    pub video_codec: i32,
    pub video_frame_width: i32,
    pub video_frame_height: i32,
    pub video_frame_rate: i32,
    pub is_hdr: bool,
    pub enable_temporal_scale: bool,
    /// The application makes the file.
    pub file_generation_mode: i32,
    /// Seconds.
    pub max_duration: i32,
}

pub const AVRECORDER_MIC: i32 = 1;

pub const AVRECORDER_SURFACE_YUV: i32 = 0;

pub const AVRECORDER_VIDEO_AVC: i32 = 2;

pub const AVRECORDER_AUDIO_AAC: i32 = 3;

pub const AVRECORDER_CFT_MPEG_4: i32 = 2;

/// The recorder's set-up: AVC in MP4 for at most an hour, with stereo AAC from
/// the microphone where audio is wanted and no audio track where it is not.
pub open spec fn spec_recorder_config(audio: bool, size: CameraSize, fps: i32) -> RecorderConfig {
    let silent = RecorderConfig {
        audio_source_type: -1i32,
        video_source_type: AVRECORDER_SURFACE_YUV,
        audio_bitrate: 0,
        audio_channels: 0,
        audio_codec: 0,
        audio_sample_rate: 0,
        file_format: AVRECORDER_CFT_MPEG_4,
        video_bitrate: 12_000_000,
        video_codec: AVRECORDER_VIDEO_AVC,
        video_frame_width: size.width as i32,
        video_frame_height: size.height as i32,
        video_frame_rate: fps,
        is_hdr: false,
        enable_temporal_scale: false,
        file_generation_mode: 0,
        max_duration: 3600,
    };
    if audio {
        RecorderConfig {
            audio_source_type: AVRECORDER_MIC,
            audio_bitrate: 96_000,
            audio_channels: 2,
            audio_codec: AVRECORDER_AUDIO_AAC,
            audio_sample_rate: 48_000,
            ..silent
        }
    } else {
        silent
    }
}

/// The recorder's set-up.
pub fn recorder_config(audio: bool, size: CameraSize, fps: i32) -> (r: RecorderConfig)
    ensures
        r == spec_recorder_config(audio, size, fps),
{
    RecorderConfig {
        audio_source_type: if audio {
            AVRECORDER_MIC
        } else {
            -1
        },
        video_source_type: AVRECORDER_SURFACE_YUV,
        audio_bitrate: if audio {
            96_000
        } else {
            0
        },
        audio_channels: if audio {
            2
        } else {
            0
        },
        audio_codec: if audio {
            AVRECORDER_AUDIO_AAC
        } else {
            0
        },
        audio_sample_rate: if audio {
            48_000
        } else {
            0
        },
        file_format: AVRECORDER_CFT_MPEG_4,
        video_bitrate: 12_000_000,
        video_codec: AVRECORDER_VIDEO_AVC,
        video_frame_width: #[verifier::truncate] (size.width as i32),
        video_frame_height: #[verifier::truncate] (size.height as i32),
        video_frame_rate: fps,
        is_hdr: false,
        enable_temporal_scale: false,
        file_generation_mode: 0,
        max_duration: 3600,
    }
}

/// How far a recording is turned, in degrees.
pub const RECORD_ROTATION: i32 = 90;

/// What a recorder is prepared with. Its texts are all there, also the empty ones: the
/// recorder reads every one of them.
pub struct RecordPlan {
    pub config: RecorderConfig,
    /// The profile of the video's output.
    pub profile: CameraVideoProfile,
    /// The open file that is recorded to.
    pub url: String,
    pub video_orientation: &'static str,
    pub genre: &'static str,
    pub custom_key: &'static str,
    pub custom_value: &'static str,
}

/// The frame rate to record at: the wanted one, held inside the profile's
/// range.
pub open spec fn spec_record_fps(profile: CameraVideoProfile) -> i32 {
    if RECORD_FPS < profile.min as i32 {
        profile.min as i32
    } else if RECORD_FPS > profile.max as i32 {
        profile.max as i32
    } else {
        RECORD_FPS as i32
    }
}

/// What a recorder is prepared with, to record a profile in the size of the preview to
/// the file of a descriptor.
pub fn record_plan(profile: CameraVideoProfile, size: CameraSize, audio: bool, fd: i32) -> (r:
    RecordPlan)
    requires
        (profile.min as i32) <= (profile.max as i32),
    ensures
        r.config == spec_recorder_config(audio, size, spec_record_fps(profile)),
        r.profile == profile,
        r.url@ == "fd://"@ + spec_signed_decimal(fd as int),
        r.video_orientation@ == "90"@,
        r.genre@ == ""@,
        r.custom_key@ == ""@,
        r.custom_value@ == ""@,
{
    RecordPlan {
        config: recorder_config(audio, size, record_fps(&profile)),
        profile,
        url: labelled_code("fd://", fd),
        video_orientation: "90",
        genre: "",
        custom_key: "",
        custom_value: "",
    }
}

/// The quarter turns that a preview is shown with: the camera counts degrees
/// one way, the shader quarter turns the other. Without a reported rotation a
/// front camera takes one and a back camera three.
pub open spec fn spec_rotation_steps(front: bool, rotation: Option<i32>) -> int {
    match rotation {
        Some(r) => (4 - (r as int % 360) / 90) % 4,
        None => if front {
            1
        } else {
            3
        },
    }
}

/// The quarter turns that a preview is shown with.
pub fn rotation_steps(front: bool, rotation: Option<i32>) -> (r: i32)
    ensures
        r == spec_rotation_steps(front, rotation),
        0 <= r < 4,
{
    match rotation {
        Some(d) => {
            let degrees: i64 = turned(d);
            ((4 - degrees / 90) % 4) as i32
        },
        None => if front {
            1
        } else {
            3
        },
    }
}

/// An angle in degrees, from zero up to a full turn.
pub fn turned(d: i32) -> (r: i64)
    ensures
        r == d as int % 360,
        0 <= r < 360,
{
    let wide: i64 = d as i64 + 360 * 6_000_000;
    proof {
        vstd::arithmetic::div_mod::lemma_mod_multiples_vanish(6_000_000, d as int, 360);
        assert(360 * 6_000_000 + d == wide);
    }
    wide % 360
}

// ---------------------------------------------------------------------------
// Controls
// ---------------------------------------------------------------------------

/// A coordinate of the displayed preview, from zero to one, or what is left of
/// it to one.
#[derive(Clone, Copy, PartialEq, Eq, Structural, Debug)]
pub enum Coordinate {
    X,
    Y,
    FarX,
    FarY,
}

/// Where a point of the preview, which is shown with some quarter turns, is on
/// the sensor.
pub open spec fn spec_sensor_point(steps: int) -> (Coordinate, Coordinate) {
    let turns = steps % 4;
    if turns == 1 {
        (Coordinate::Y, Coordinate::FarX)
    } else if turns == 2 {
        (Coordinate::FarX, Coordinate::FarY)
    } else if turns == 3 {
        (Coordinate::FarY, Coordinate::X)
    } else {
        (Coordinate::X, Coordinate::Y)
    }
}

/// Where a point of the turned preview is on the sensor.
pub fn sensor_point(steps: i32) -> (r: (Coordinate, Coordinate))
    ensures
        r == spec_sensor_point(steps as int),
{
    let wide: i64 = steps as i64 + 4 * 600_000_000;
    proof {
        vstd::arithmetic::div_mod::lemma_mod_multiples_vanish(600_000_000, steps as int, 4);
        assert(4 * 600_000_000 + steps == wide);
    }
    let turns: i64 = wide % 4;
    if turns == 1 {
        (Coordinate::Y, Coordinate::FarX)
    } else if turns == 2 {
        (Coordinate::FarX, Coordinate::FarY)
    } else if turns == 3 {
        (Coordinate::FarY, Coordinate::X)
    } else {
        (Coordinate::X, Coordinate::Y)
    }
}

/// The value of a coordinate on a grid of `full` steps.
pub open spec fn coordinate_value(c: Coordinate, x: int, y: int, full: int) -> int {
    match c {
        Coordinate::X => x,
        Coordinate::Y => y,
        Coordinate::FarX => full - x,
        Coordinate::FarY => full - y,
    }
}

/// Showing a point with some quarter turns and then with the rest of a full
/// turn gives the point back.
pub proof fn quarter_turns_undo_each_other(steps: int, x: int, y: int, full: int)
    ensures
        ({
            let (a, b) = spec_sensor_point(steps);
            let (sx, sy) = (coordinate_value(a, x, y, full), coordinate_value(b, x, y, full));
            let (c, d) = spec_sensor_point(4 - steps % 4);
            coordinate_value(c, sx, sy, full) == x && coordinate_value(d, sx, sy, full) == y
        }),
{
}

/// A runtime control.
#[derive(Clone, Copy, PartialEq, Eq, Structural, Debug)]
pub enum Control {
    FocusPoint,
    ContinuousFocus,
    ZoomRatio,
    ExposureBias,
    Flash(CameraFlashMode),
}

/// A call that a control makes on the session.
#[derive(Clone, Copy, PartialEq, Eq, Structural, Debug)]
pub enum ControlCall {
    FocusMode(i32),
    FocusPoint(Coordinate, Coordinate),
    ExposureMode(i32),
    MeteringPoint(Coordinate, Coordinate),
    /// The ratio, held inside the range that the session reports.
    Zoom,
    /// The bias, held inside the range that the session reports.
    ExposureBias,
    FlashMode(i32),
}

pub open spec fn spec_flash_code(mode: CameraFlashMode) -> i32 {
    match mode {
        CameraFlashMode::Off => 0,
        CameraFlashMode::On => 1,
        CameraFlashMode::Auto => 2,
        CameraFlashMode::Torch => 3,
    }
}

/// The calls that a control makes, in order. A focus point focuses and meters
/// once at that point; without one both run continuously.
pub open spec fn spec_control_calls(control: Control, steps: int) -> Seq<ControlCall> {
    match control {
        Control::FocusPoint => {
            let (x, y) = spec_sensor_point(steps);
            seq![
                ControlCall::FocusMode(2),
                ControlCall::FocusPoint(x, y),
                ControlCall::ExposureMode(1),
                ControlCall::MeteringPoint(x, y),
            ]
        },
        Control::ContinuousFocus => seq![ControlCall::FocusMode(1), ControlCall::ExposureMode(2)],
        Control::ZoomRatio => seq![ControlCall::Zoom],
        Control::ExposureBias => seq![ControlCall::ExposureBias],
        Control::Flash(mode) => seq![ControlCall::FlashMode(spec_flash_code(mode))],
    }
}

/// Whether an input is among the active ones.
pub open spec fn is_active(active: Seq<(u64, u64)>, input_id: u64) -> bool {
    exists|i: int| 0 <= i < active.len() && (#[trigger] active[i]).0 == input_id
}

/// The calls that a control makes on the running session: none without a
/// session, or for an input that is not active.
pub fn control_calls(
    session: Option<i32>,
    active: &Vec<(u64, u64)>,
    input_id: u64,
    control: Control,
) -> (r: Vec<ControlCall>)
    ensures
        r@ == match session {
            Some(steps) if is_active(active@, input_id) => spec_control_calls(
                control,
                steps as int,
            ),
            _ => Seq::empty(),
        },
{
    let mut r: Vec<ControlCall> = Vec::new();
    let steps: i32 = match session {
        Some(steps) => steps,
        None => return r,
    };
    let mut found = false;
    let mut i: usize = 0;
    while i < active.len() && !found
        invariant
            i <= active.len(),
            found == exists|j: int| 0 <= j < i && (#[trigger] active@[j]).0 == input_id,
        decreases active.len() - i,
    {
        if active[i].0 == input_id {
            found = true;
        }
        i = i + 1;
    }
    if !found {
        return r;
    }
    match control {
        Control::FocusPoint => {
            let (x, y) = sensor_point(steps);
            r.push(ControlCall::FocusMode(2));
            r.push(ControlCall::FocusPoint(x, y));
            r.push(ControlCall::ExposureMode(1));
            r.push(ControlCall::MeteringPoint(x, y));
        },
        Control::ContinuousFocus => {
            r.push(ControlCall::FocusMode(1));
            r.push(ControlCall::ExposureMode(2));
        },
        Control::ZoomRatio => {
            r.push(ControlCall::Zoom);
        },
        Control::ExposureBias => {
            r.push(ControlCall::ExposureBias);
        },
        Control::Flash(mode) => {
            let code: i32 = match mode {
                CameraFlashMode::Off => 0,
                CameraFlashMode::On => 1,
                CameraFlashMode::Auto => 2,
                CameraFlashMode::Torch => 3,
            };
            r.push(ControlCall::FlashMode(code));
        },
    }
    assert(r@ =~= spec_control_calls(control, steps as int));
    r
}

/// What a request for inputs leads to.
#[derive(Clone, Copy, PartialEq, Eq, Debug)]
pub enum UseInput {
    /// These inputs are in use already.
    Keep,
    /// Stop what runs; start the first input, if there is one.
    Restart(Option<(u64, u64)>),
}

/// The inputs that are in use; one stream at a time.
pub struct ActiveInputs {
    pub inputs: Vec<(u64, u64)>,
}

fn same_inputs(a: &Vec<(u64, u64)>, b: &Vec<(u64, u64)>) -> (r: bool)
    ensures
        r == (a@ == b@),
{
    if a.len() != b.len() {
        return false;
    }
    let mut i: usize = 0;
    while i < a.len()
        invariant
            a.len() == b.len(),
            i <= a.len(),
            forall|j: int| 0 <= j < i ==> a@[j] == b@[j],
        decreases a.len() - i,
    {
        if a[i].0 != b[i].0 || a[i].1 != b[i].1 {
            return false;
        }
        i = i + 1;
    }
    assert(a@ =~= b@);
    true
}

impl ActiveInputs {
    /// Asks for the preview of some inputs, or for none. Nothing happens where
    /// the same inputs are in use and, if there are any, their session runs.
    pub fn use_video_input(&mut self, inputs: Vec<(u64, u64)>, running: bool) -> (r: UseInput)
        ensures
            final(self).inputs@ == inputs@,
            r == if old(self).inputs@ == inputs@ && (inputs@.len() == 0 || running) {
                UseInput::Keep
            } else if inputs@.len() > 0 {
                UseInput::Restart(Some(inputs@[0]))
            } else {
                UseInput::Restart(None)
            },
    {
        if same_inputs(&self.inputs, &inputs) && (inputs.len() == 0 || running) {
            return UseInput::Keep;
        }
        let first = if inputs.len() > 0 {
            Some(inputs[0])
        } else {
            None
        };
        self.inputs = inputs;
        UseInput::Restart(first)
    }
}

/// The quarter turns of a preview undo the rotation that its output reports: with both, it
/// is upright.
pub proof fn the_preview_is_upright(front: bool, rotation: i32)
    requires
        rotation as int % 90 == 0,
    ensures
        (90 * spec_rotation_steps(front, Some(rotation)) + rotation) % 360 == 0,
        0 <= spec_rotation_steps(front, Some(rotation)) < 4,
{
    let (r, q) = (rotation as int % 360, rotation as int / 360);
    assert(rotation == 360 * q + r);
    assert(r == 0 || r == 90 || r == 180 || r == 270);
    let n = 90 * spec_rotation_steps(front, Some(rotation)) + r;
    assert(n == 0 || n == 360);
    vstd::arithmetic::div_mod::lemma_mod_multiples_vanish(q, n, 360);
    assert(360 * q + n == 90 * spec_rotation_steps(front, Some(rotation)) + rotation);
}

/// A camera that reports nothing is shown as one of its side commonly is: a back camera as
/// one that reports a quarter turn, and a front camera the other way up.
pub proof fn silent_cameras_are_shown_as_common_ones()
    ensures
        spec_rotation_steps(false, None) == spec_rotation_steps(false, Some(90)),
        (spec_rotation_steps(true, None) + spec_rotation_steps(false, None)) % 4 == 0,
        spec_rotation_steps(true, None) == spec_rotation_steps(true, Some(270)),
{
}

/// Each further quarter turn of a preview turns what a tap means on the sensor by one more
/// quarter, always the same way round; an upright preview shows the sensor as it is.
pub proof fn each_turn_moves_a_corner_on(steps: int, x: int, y: int, full: int)
    ensures
        ({
            let (a, b) = spec_sensor_point(steps);
            let (c, d) = spec_sensor_point(steps + 1);
            let (sx, sy) = (coordinate_value(a, x, y, full), coordinate_value(b, x, y, full));
            &&& coordinate_value(c, x, y, full) == sy
            &&& coordinate_value(d, x, y, full) == full - sx
        }),
        spec_sensor_point(0) == (Coordinate::X, Coordinate::Y),
{
}

/// A tap focuses and meters at the point of the sensor that the tapped point of the preview
/// shows, and at no other.
pub proof fn a_tap_meters_where_it_focuses(steps: int)
    ensures
        ({
            let calls = spec_control_calls(Control::FocusPoint, steps);
            let (x, y) = spec_sensor_point(steps);
            &&& calls.contains(ControlCall::FocusPoint(x, y))
            &&& calls.contains(ControlCall::MeteringPoint(x, y))
            &&& forall|i: int|
                0 <= i < calls.len() ==> (#[trigger] calls[i] matches ControlCall::FocusPoint(a, b)
                    ==> a == x && b == y)
        }),
{
    let calls = spec_control_calls(Control::FocusPoint, steps);
    let (x, y) = spec_sensor_point(steps);
    assert(calls[1] == ControlCall::FocusPoint(x, y));
    assert(calls[3] == ControlCall::MeteringPoint(x, y));
}

proof fn device_is_first(devices: Seq<OhDevice>, input_id: u64, from: int)
    requires
        0 <= from <= devices.len(),
    ensures
        match device_index(devices, input_id, from) {
            Some(i) => from <= i < devices.len() && devices[i].input_id == input_id,
            None => forall|i: int|
                from <= i < devices.len() ==> (#[trigger] devices[i]).input_id != input_id,
        },
    decreases devices.len() - from,
{
    if from < devices.len() && devices[from].input_id != input_id {
        device_is_first(devices, input_id, from + 1);
    }
}

proof fn format_is_first(formats: Seq<OhFormat>, format_id: u64, from: int)
    requires
        0 <= from <= formats.len(),
    ensures
        match format_index(formats, format_id, from) {
            Some(i) => from <= i < formats.len() && formats[i].format_id == format_id,
            None => forall|i: int|
                from <= i < formats.len() ==> (#[trigger] formats[i]).format_id != format_id,
        },
    decreases formats.len() - from,
{
    if from < formats.len() && formats[from].format_id != format_id {
        format_is_first(formats, format_id, from + 1);
    }
}

/// The stream that is chosen is of the camera that was asked for, and of the format that
/// was asked for where the camera has it; else of the camera's first format.
pub proof fn the_stream_asked_for_is_chosen(
    devices: Seq<OhDevice>,
    input_id: u64,
    format_id: u64,
)
    ensures
        match spec_choose_stream(true, devices, input_id, format_id) {
            Ok((d, f)) => {
                &&& 0 <= d < devices.len() && 0 <= f < devices[d].formats@.len()
                &&& devices[d].input_id == input_id
                &&& devices[d].formats@[f].format_id == format_id || f == 0 && forall|i: int|
                    0 <= i < devices[d].formats@.len() ==> (
                    #[trigger] devices[d].formats@[i]).format_id != format_id
            },
            Err(StreamError::UnknownInput) => forall|i: int|
                0 <= i < devices.len() ==> (#[trigger] devices[i]).input_id != input_id,
            Err(StreamError::NoPreviewProfile) => exists|i: int|
                0 <= i < devices.len() && (#[trigger] devices[i]).input_id == input_id
                    && devices[i].formats@.len() == 0,
            Err(_) => false,
        },
        spec_choose_stream(false, devices, input_id, format_id) is Err,
{
    device_is_first(devices, input_id, 0);
    if let Some(d) = device_index(devices, input_id, 0) {
        format_is_first(devices[d].formats@, format_id, 0);
        if spec_choose_stream(true, devices, input_id, format_id) is Err {
            assert(devices[d].input_id == input_id && devices[d].formats@.len() == 0);
        }
    }
}

/// Sizes have one shape or not whichever is named first; a picture and a larger one of the
/// same proportions do, and pictures of four to three and of sixteen to nine do not.
pub proof fn shapes_go_by_proportion(a: CameraSize, b: CameraSize)
    requires
        0 < a.width && 0 < a.height && 0 < b.width && 0 < b.height,
    ensures
        same_shape(a, b) <==> same_shape(b, a),
        a.width * b.height == b.width * a.height ==> same_shape(a, b),
        3 * a.width == 4 * a.height && 9 * b.width == 16 * b.height ==> !same_shape(a, b),
{
    let (aw, ah, bw, bh) = (a.width as int, a.height as int, b.width as int, b.height as int);
    assert(ah * bh == bh * ah) by (nonlinear_arith);
    assert(ah * bh > 0) by (nonlinear_arith)
        requires
            ah > 0,
            bh > 0,
    ;
    if 3 * aw == 4 * ah && 9 * bw == 16 * bh {
        let d = aw * bh - bw * ah;
        assert(3 * (aw * bh) == 4 * (ah * bh)) by (nonlinear_arith)
            requires
                3 * aw == 4 * ah,
        ;
        assert(9 * (bw * ah) == 16 * (ah * bh)) by (nonlinear_arith)
            requires
                9 * bw == 16 * bh,
        ;
        assert(9 * d == -4 * (ah * bh));
    }
}

proof fn best_video_is_best(list: Seq<CameraVideoProfile>, size: CameraSize)
    ensures
        match best_video(list, size) {
            Some(b) => list.contains(b) && b.size == size && b.min <= 30 <= b.max && forall|i: int|
                0 <= i < list.len() && (#[trigger] list[i]).size == size && list[i].min <= 30
                    <= list[i].max ==> list[i].max <= b.max,
            None => forall|i: int|
                0 <= i < list.len() && (#[trigger] list[i]).size == size ==> !(list[i].min <= 30
                    <= list[i].max),
        },
    decreases list.len(),
{
    if list.len() > 0 {
        let init = list.drop_last();
        best_video_is_best(init, size);
        assert forall|i: int| 0 <= i < list.len() implies #[trigger] list[i] == (if i
            < init.len() {
            init[i]
        } else {
            list.last()
        }) by {}
        if let Some(b) = best_video(init, size) {
            let i = init.index_of(b);
            assert(list[i] == b);
            assert(list.contains(b));
        }
        assert(list[list.len() - 1] == list.last());
        assert(list.contains(list.last()));
    }
}

proof fn first_video_is_first(list: Seq<CameraVideoProfile>, size: CameraSize, from: int)
    requires
        0 <= from <= list.len(),
    ensures
        match first_video(list, size, from) {
            Some(p) => list.contains(p) && p.size == size,
            None => forall|i: int| from <= i < list.len() ==> (#[trigger] list[i]).size != size,
        },
    decreases list.len() - from,
{
    if from < list.len() && list[from].size != size {
        first_video_is_first(list, size, from + 1);
    }
}

/// A recording is made at the size that is asked for or not at all, and at thirty frames a
/// second where the camera can at that size.
pub proof fn recordings_have_the_size_asked_for(list: Seq<CameraVideoProfile>, size: CameraSize)
    ensures
        match spec_video_profile(list, size) {
            Some(p) => {
                &&& list.contains(p)
                &&& p.size == size
                &&& p.min <= 30 <= p.max || forall|i: int|
                    0 <= i < list.len() && (#[trigger] list[i]).size == size ==> !(list[i].min <= 30
                        <= list[i].max)
                &&& p.min <= 30 <= p.max ==> forall|i: int|
                    0 <= i < list.len() && (#[trigger] list[i]).size == size && list[i].min <= 30
                        <= list[i].max ==> list[i].max <= p.max
            },
            None => forall|i: int| 0 <= i < list.len() ==> (#[trigger] list[i]).size != size,
        },
{
    best_video_is_best(list, size);
    first_video_is_first(list, size, 0);
}

/// A recording has a rate that its profile has, and of those the one nearest to thirty
/// frames a second.
pub proof fn recordings_have_a_rate_of_their_profile(profile: CameraVideoProfile, other: int)
    requires
        profile.min <= profile.max <= i32::MAX,
        profile.min <= other <= profile.max,
    ensures
        profile.min <= spec_record_fps(profile) <= profile.max,
        spec_record_fps(profile) >= 30 ==> spec_record_fps(profile) - 30 <= if other >= 30 {
            other - 30
        } else {
            30 - other
        },
        spec_record_fps(profile) <= 30 ==> 30 - spec_record_fps(profile) <= if other >= 30 {
            other - 30
        } else {
            30 - other
        },
{
}

/// Of a list the profiles of one format are those of its parts, in their order.
pub proof fn profiles_are_kept_in_order(
    before: Seq<CameraProfile>,
    p: CameraProfile,
    format: i32,
)
    ensures
        of_format(before.push(p), format) == if p.format == format {
            of_format(before, format).push(p)
        } else {
            of_format(before, format)
        },
        of_format(before, format).len() <= before.len(),
        of_format(Seq::empty(), format).len() == 0,
    decreases before.len(),
{
    assert(before.push(p).drop_last() =~= before);
    if before.len() > 0 {
        assert(before.drop_last().push(before.last()) =~= before);
        profiles_are_kept_in_order(before.drop_last(), before.last(), format);
    }
}

/// A session shows the stream that was chosen, and takes stills of its shape, as large as
/// the camera offers, where it can take any.
pub proof fn a_session_is_of_one_shape(devices: Seq<OhDevice>, d: int, f: int)
    requires
        0 <= d < devices.len() <= usize::MAX,
        0 <= f < devices[d].formats@.len(),
    ensures
        ({
            let plan = spec_session_plan(devices, d, f, true);
            &&& plan.device == d
            &&& plan.preview == devices[d].formats@[f].profile
            &&& plan.receiver.size == plan.preview.size
            &&& plan.receiver.capacity > 1
            &&& plan.photo matches Some(p) ==> {
                &&& p.receiver.size == p.profile.size
                &&& p.receiver.capacity > 0
                &&& same_shape(p.profile.size, plan.preview.size)
                &&& devices[d].photo_profiles@.contains(p.profile)
                &&& forall|i: int|
                    0 <= i < devices[d].photo_profiles@.len() && same_shape(
                        #[trigger] devices[d].photo_profiles@[i].size,
                        plan.preview.size,
                    ) ==> area(devices[d].photo_profiles@[i].size) <= area(p.profile.size)
            }
            &&& plan.photo is None ==> forall|i: int|
                0 <= i < devices[d].photo_profiles@.len() ==> !same_shape(
                    #[trigger] devices[d].photo_profiles@[i].size,
                    plan.preview.size,
                )
        }),
        spec_session_plan(devices, d, f, false).photo is None,
{
    photo_is_the_largest_of_its_shape(
        devices[d].photo_profiles@,
        devices[d].formats@[f].profile.size,
    );
}

/// What is recorded has the size and the rate that it is to have, and sound only where it
/// is asked for.
pub proof fn recordings_are_as_asked(audio: bool, size: CameraSize, fps: i32)
    requires
        size.width <= i32::MAX,
        size.height <= i32::MAX,
    ensures
        ({
            let c = spec_recorder_config(audio, size, fps);
            let silent = spec_recorder_config(false, size, fps);
            &&& c.video_frame_width == size.width && c.video_frame_height == size.height
            &&& c.video_frame_rate == fps
            &&& c.video_source_type == silent.video_source_type && c.video_codec
                == silent.video_codec && c.video_bitrate == silent.video_bitrate && c.file_format
                == silent.file_format
            &&& audio <==> c.audio_source_type == AVRECORDER_MIC
            &&& audio <==> c.audio_channels > 0
            &&& audio <==> c.audio_sample_rate > 0
            &&& audio <==> c.audio_bitrate > 0
        }),
{
}

} // verus!
