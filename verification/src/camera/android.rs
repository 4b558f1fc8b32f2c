//! The Android camera: devices from their stream configurations, sessions and
//! what they need, controls in the sensor's coordinates, and the streams that
//! slots and previews share.
use crate::camera::capture::{
    failed, is_failure, CameraCaptureRequest, CameraCaptureResult, CameraFlashMode, CaptureKind,
};
use crate::camera::harmony::turned;
use crate::number::{decimal, spec_decimal, spec_signed_decimal, signed_decimal};
use crate::text::{push_all, push_text, to_text};
use vstd::prelude::*;

verus! {

// ---------------------------------------------------------------------------
// Formats and devices
// ---------------------------------------------------------------------------

#[derive(Clone, Copy, PartialEq, Eq, Structural, Debug)]
pub enum VideoPixelFormat {
    YUV420,
    MJPEG,
    /// A layout that the camera does not deliver.
    Other,
}

#[derive(Clone, Copy, PartialEq, Eq, Structural, Debug)]
pub struct VideoFormat {
    pub format_id: u64,
    pub width: usize,
    pub height: usize,
    /// Frames a second, where the camera says so.
    pub frame_rate: Option<u32>,
    pub pixel_format: VideoPixelFormat,
}

/// `AIMAGE_FORMAT_YUV_420_888`.
pub const AIMAGE_FORMAT_YUV_420_888: u32 = 0x23;

/// `AIMAGE_FORMAT_JPEG`.
pub const AIMAGE_FORMAT_JPEG: u32 = 0x100;

/// One entry of a camera's stream configurations.
#[derive(Clone, Copy, PartialEq, Eq, Structural, Debug)]
pub struct StreamConfiguration {
    pub format: u32,
    pub width: i32,
    pub height: i32,
    /// A stream into the camera rather than out of it.
    pub input: bool,
}

/// Whether a configuration is one that frames can be had in.
pub open spec fn is_stream(c: StreamConfiguration) -> bool {
    !c.input && (c.format == AIMAGE_FORMAT_YUV_420_888 || c.format == AIMAGE_FORMAT_JPEG)
}

/// The configurations that frames can be had in, in order.
pub open spec fn streamable(list: Seq<StreamConfiguration>) -> Seq<StreamConfiguration>
    decreases list.len(),
{
    if list.len() == 0 {
        Seq::empty()
    } else {
        let rest = streamable(list.drop_last());
        if is_stream(list.last()) {
            rest.push(list.last())
        } else {
            rest
        }
    }
}

pub open spec fn pixels(width: i32, height: i32) -> int {
    width * height
}

/// The first of the largest JPEG sizes.
pub open spec fn largest_jpeg(list: Seq<StreamConfiguration>) -> Option<(i32, i32)>
    decreases list.len(),
{
    if list.len() == 0 {
        None
    } else {
        let best = largest_jpeg(list.drop_last());
        let c = list.last();
        if !c.input && c.format == AIMAGE_FORMAT_JPEG && (best matches Some(b) ==> pixels(
            c.width,
            c.height,
        ) > pixels(b.0, b.1)) {
            Some((c.width, c.height))
        } else {
            best
        }
    }
}

fn pixels_of(width: i32, height: i32) -> (r: i64)
    ensures
        r == pixels(width, height),
{
    assert(-0x4000_0000_0000_0000 <= width * height <= 0x4000_0000_0000_0000) by (nonlinear_arith)
        requires
            -0x8000_0000 <= width <= 0x7fff_ffff,
            -0x8000_0000 <= height <= 0x7fff_ffff,
    ;
    (width as i64) * (height as i64)
}

/// What a camera's stream configurations offer: the streams, and the size for
/// stills.
pub struct Offered {
    pub streams: Vec<StreamConfiguration>,
    pub still_size: Option<(i32, i32)>,
}

/// What a camera's stream configurations offer.
pub fn offered(list: &Vec<StreamConfiguration>) -> (r: Offered)
    ensures
        r.streams@ == streamable(list@),
        r.still_size == largest_jpeg(list@),
{
    let mut streams: Vec<StreamConfiguration> = Vec::new();
    let mut still_size: Option<(i32, i32)> = None;
    let mut i: usize = 0;
    while i < list.len()
        invariant
            i <= list.len(),
            streams@ == streamable(list@.take(i as int)),
            still_size == largest_jpeg(list@.take(i as int)),
        decreases list.len() - i,
    {
        assert(list@.take(i + 1).drop_last() =~= list@.take(i as int));
        let c = list[i];
        if !c.input {
            if c.format == AIMAGE_FORMAT_JPEG {
                let larger = match still_size {
                    Some((w, h)) => pixels_of(c.width, c.height) > pixels_of(w, h),
                    None => true,
                };
                if larger {
                    still_size = Some((c.width, c.height));
                }
            }
            if c.format == AIMAGE_FORMAT_YUV_420_888 || c.format == AIMAGE_FORMAT_JPEG {
                streams.push(c);
            }
        }
        i = i + 1;
    }
    assert(list@.take(i as int) =~= list@);
    Offered { streams, still_size }
}

/// No JPEG that a camera offers is larger than its still size.
pub proof fn still_size_is_the_largest(list: Seq<StreamConfiguration>)
    ensures
        forall|i: int|
            0 <= i < list.len() && !list[i].input && (#[trigger] list[i]).format
                == AIMAGE_FORMAT_JPEG ==> (largest_jpeg(list) matches Some(b) && pixels(
                list[i].width,
                list[i].height,
            ) <= pixels(b.0, b.1)),
    decreases list.len(),
{
    if list.len() > 0 {
        let start = list.drop_last();
        still_size_is_the_largest(start);
        assert forall|i: int|
            0 <= i < list.len() && !list[i].input && (#[trigger] list[i]).format
                == AIMAGE_FORMAT_JPEG implies (largest_jpeg(list) matches Some(b) && pixels(
            list[i].width,
            list[i].height,
        ) <= pixels(b.0, b.1)) by {
            if i < start.len() {
                assert(start[i] == list[i]);
            }
        }
    }
}

/// The pixel layout that frames of a configuration come in.
pub fn pixel_format(format: u32) -> (r: VideoPixelFormat)
    ensures
        r == if format == AIMAGE_FORMAT_YUV_420_888 {
            VideoPixelFormat::YUV420
        } else {
            VideoPixelFormat::MJPEG
        },
{
    if format == AIMAGE_FORMAT_YUV_420_888 {
        VideoPixelFormat::YUV420
    } else {
        VideoPixelFormat::MJPEG
    }
}

/// The text that a format's id is made from.
pub fn format_key(c: &StreamConfiguration) -> (r: String)
    ensures
        r@ == spec_signed_decimal(c.width as int) + " "@ + spec_signed_decimal(c.height as int)
            + " "@ + spec_decimal(c.format as nat),
{
    let mut out: Vec<char> = Vec::new();
    let w = signed_decimal(c.width as i64);
    push_all(&mut out, w.as_slice());
    push_text(&mut out, " ");
    let h = signed_decimal(c.height as i64);
    push_all(&mut out, h.as_slice());
    push_text(&mut out, " ");
    let f = decimal(c.format as u64);
    push_all(&mut out, f.as_slice());
    assert(out@ =~= spec_signed_decimal(c.width as int) + " "@ + spec_signed_decimal(
        c.height as int,
    ) + " "@ + spec_decimal(c.format as nat));
    to_text(out.as_slice())
}

/// The way a camera faces.
#[derive(Clone, Copy, PartialEq, Eq, Structural, Debug)]
pub enum LensFacing {
    Front,
    Back,
    External,
}

/// The way a camera faces, from its code; other codes are no cameras to list.
pub fn lens_facing(code: u8) -> (r: Option<LensFacing>)
    ensures
        r == if code == 0 {
            Some(LensFacing::Front)
        } else if code == 1 {
            Some(LensFacing::Back)
        } else if code == 2 {
            Some(LensFacing::External)
        } else {
            None
        },
{
    if code == 0 {
        Some(LensFacing::Front)
    } else if code == 1 {
        Some(LensFacing::Back)
    } else if code == 2 {
        Some(LensFacing::External)
    } else {
        None
    }
}

impl LensFacing {
    pub fn name(&self) -> (r: &'static str)
        ensures
            r@ == match *self {
                LensFacing::Front => "Front Camera"@,
                LensFacing::Back => "Back Camera"@,
                LensFacing::External => "External Camera"@,
            },
    {
        match self {
            LensFacing::Front => "Front Camera",
            LensFacing::Back => "Back Camera",
            LensFacing::External => "External Camera",
        }
    }
}

/// The sensor's active pixels.
#[derive(Clone, Copy, PartialEq, Eq, Structural, Debug)]
pub struct ActiveArray {
    pub left: i32,
    pub top: i32,
    pub right: i32,
    pub bottom: i32,
}

/// A camera with its published formats.
pub struct AndroidCameraDevice {
    pub input_id: u64,
    pub formats: Vec<VideoFormat>,
    pub sensor_orientation_degrees: i32,
    pub front_facing: bool,
    pub active_array: ActiveArray,
    pub still_size: Option<(i32, i32)>,
}

/// What a camera says of itself.
pub struct CameraCharacteristics {
    /// The code of the way that it faces.
    pub lens: Option<u8>,
    pub orientation: Option<i32>,
    pub active_array: Option<ActiveArray>,
    pub streams: Vec<StreamConfiguration>,
}

/// A format as it is published.
pub open spec fn published(c: StreamConfiguration, id: u64) -> VideoFormat {
    VideoFormat {
        format_id: id,
        width: c.width as usize,
        height: c.height as usize,
        frame_rate: None,
        pixel_format: if c.format == AIMAGE_FORMAT_YUV_420_888 {
            VideoPixelFormat::YUV420
        } else {
            VideoPixelFormat::MJPEG
        },
    }
}

/// Whether a camera is listed: it faces a way that is known, and delivers frames
/// that can be read.
pub open spec fn is_listed(c: CameraCharacteristics) -> bool {
    (c.lens matches Some(code) && code <= 2) && streamable(c.streams@).len() > 0
}

/// The camera as it is listed, with the way that it faces; `ids` are the ids of its
/// formats. None where it is not listed.
pub fn listed_camera(c: &CameraCharacteristics, input_id: u64, ids: &Vec<u64>) -> (r: Option<
    (LensFacing, AndroidCameraDevice),
>)
    requires
        ids.len() == streamable(c.streams@).len(),
    ensures
        r is Some == is_listed(*c),
        r matches Some((facing, d)) ==> {
            &&& c.lens == Some(
                match facing {
                    LensFacing::Front => 0u8,
                    LensFacing::Back => 1u8,
                    LensFacing::External => 2u8,
                },
            )
            &&& d.input_id == input_id
            &&& d.front_facing == (facing is Front)
            &&& d.sensor_orientation_degrees == (match c.orientation {
                Some(o) => o,
                None => 0,
            })
            &&& d.active_array == (match c.active_array {
                Some(a) => a,
                None => ActiveArray { left: 0, top: 0, right: 0, bottom: 0 },
            })
            &&& d.still_size == largest_jpeg(c.streams@)
            &&& d.formats@ == Seq::new(
                ids@.len(),
                |i: int| published(streamable(c.streams@)[i], ids@[i]),
            )
        },
{
    let facing = match c.lens {
        Some(code) => match lens_facing(code) {
            Some(f) => f,
            None => {
                return None;
            },
        },
        None => {
            return None;
        },
    };
    let offer = offered(&c.streams);
    if offer.streams.len() == 0 {
        return None;
    }
    let mut formats: Vec<VideoFormat> = Vec::new();
    let mut i: usize = 0;
    let ghost all = Seq::new(
        ids@.len(),
        |i: int| published(streamable(c.streams@)[i], ids@[i]),
    );
    assert(formats@ =~= all.take(0));
    while i < offer.streams.len()
        invariant
            i <= offer.streams.len(),
            offer.streams@ == streamable(c.streams@),
            ids.len() == offer.streams.len(),
            all == Seq::new(
                ids@.len(),
                |i: int| published(streamable(c.streams@)[i], ids@[i]),
            ),
            formats@ == all.take(i as int),
        decreases offer.streams.len() - i,
    {
        let s = offer.streams[i];
        formats.push(
            VideoFormat {
                format_id: ids[i],
                width: #[verifier::truncate] (s.width as usize),
                height: #[verifier::truncate] (s.height as usize),
                frame_rate: None,
                pixel_format: pixel_format(s.format),
            },
        );
        assert(formats@ =~= all.take(i + 1));
        i = i + 1;
    }
    assert(all.take(i as int) =~= all);
    let active_array = match c.active_array {
        Some(a) => a,
        None => ActiveArray { left: 0, top: 0, right: 0, bottom: 0 },
    };
    let degrees: i32 = match c.orientation {
        Some(o) => o,
        None => 0,
    };
    Some(
        (
            facing,
            AndroidCameraDevice {
                input_id,
                formats,
                sensor_orientation_degrees: degrees,
                front_facing: facing == LensFacing::Front,
                active_array,
                still_size: offer.still_size,
            },
        ),
    )
}

pub open spec fn device_index(devices: Seq<AndroidCameraDevice>, input_id: u64, from: int) -> Option<int>
    decreases devices.len() - from,
{
    if from < 0 || from >= devices.len() {
        None
    } else if devices[from].input_id == input_id {
        Some(from)
    } else {
        device_index(devices, input_id, from + 1)
    }
}

pub open spec fn format_index(formats: Seq<VideoFormat>, format_id: u64, from: int) -> Option<int>
    decreases formats.len() - from,
{
    if from < 0 || from >= formats.len() {
        None
    } else if formats[from].format_id == format_id {
        Some(from)
    } else {
        format_index(formats, format_id, from + 1)
    }
}

/// The device of an input: the first with its id.
pub open spec fn spec_device(devices: Seq<AndroidCameraDevice>, input_id: u64) -> Option<AndroidCameraDevice> {
    match device_index(devices, input_id, 0) {
        Some(i) => Some(devices[i]),
        None => None,
    }
}

pub fn find_device(devices: &Vec<AndroidCameraDevice>, input_id: u64) -> (r: Option<&AndroidCameraDevice>)
    ensures
        match r {
            Some(d) => spec_device(devices@, input_id) == Some(*d),
            None => spec_device(devices@, input_id) is None,
        },
{
    let mut i: usize = 0;
    while i < devices.len()
        invariant
            i <= devices.len(),
            device_index(devices@, input_id, 0) == device_index(devices@, input_id, i as int),
        decreases devices.len() - i,
    {
        if devices[i].input_id == input_id {
            return Some(&devices[i]);
        }
        i = i + 1;
    }
    None
}

/// The format of a stream, where its device and the device's format are known.
pub open spec fn spec_format(devices: Seq<AndroidCameraDevice>, key: CameraStreamKey) -> Option<VideoFormat> {
    match spec_device(devices, key.input_id) {
        Some(d) => match format_index(d.formats@, key.format_id, 0) {
            Some(i) => Some(d.formats@[i]),
            None => None,
        },
        None => None,
    }
}

/// A stream: an input in one of its formats.
#[derive(Clone, Copy, PartialEq, Eq, Structural, Debug)]
pub struct CameraStreamKey {
    pub input_id: u64,
    pub format_id: u64,
}

/// The format of a stream.
pub fn format_for_key(devices: &Vec<AndroidCameraDevice>, key: CameraStreamKey) -> (r: Option<VideoFormat>)
    ensures
        r == spec_format(devices@, key),
{
    match find_device(devices, key.input_id) {
        Some(d) => {
            let mut i: usize = 0;
            while i < d.formats.len()
                invariant
                    i <= d.formats.len(),
                    format_index(d.formats@, key.format_id, 0) == format_index(
                        d.formats@,
                        key.format_id,
                        i as int,
                    ),
                    spec_device(devices@, key.input_id) == Some(*d),
                decreases d.formats.len() - i,
            {
                if d.formats[i].format_id == key.format_id {
                    return Some(d.formats[i]);
                }
                i = i + 1;
            }
            None
        },
        None => None,
    }
}

/// The stream of an input and a format, if there is one.
pub open spec fn spec_key_for(devices: Seq<AndroidCameraDevice>, input_id: u64, format_id: u64) -> Option<
    CameraStreamKey,
> {
    let key = CameraStreamKey { input_id, format_id };
    if spec_format(devices, key) is Some {
        Some(key)
    } else {
        None
    }
}

/// The stream of an input and a format, if there is one.
pub fn key_for(devices: &Vec<AndroidCameraDevice>, input_id: u64, format_id: u64) -> (r: Option<
    CameraStreamKey,
>)
    ensures
        r == spec_key_for(devices@, input_id, format_id),
{
    let key = CameraStreamKey { input_id, format_id };
    if format_for_key(devices, key).is_some() {
        Some(key)
    } else {
        None
    }
}

/// The size of a published format.
pub fn format_size(devices: &Vec<AndroidCameraDevice>, input_id: u64, format_id: u64) -> (r: Option<
    (usize, usize),
>)
    ensures
        r == match spec_format(devices@, (CameraStreamKey { input_id, format_id })) {
            Some(f) => Some((f.width, f.height)),
            None => None,
        },
{
    match format_for_key(devices, CameraStreamKey { input_id, format_id }) {
        Some(f) => Some((f.width, f.height)),
        None => None,
    }
}

/// The degrees to turn a frame by so that it is upright: the complement of the
/// sensor's angle, since the shader turns the other way.
pub open spec fn spec_upright(degrees: i32) -> int {
    (360 - degrees) % 360
}

/// The degrees to turn a frame of an input by so that it is upright.
pub fn sensor_orientation_for_input(devices: &Vec<AndroidCameraDevice>, input_id: u64) -> (r: i32)
    ensures
        r == match spec_device(devices@, input_id) {
            Some(d) => spec_upright(d.sensor_orientation_degrees),
            None => 0,
        },
        0 <= r < 360,
{
    match find_device(devices, input_id) {
        Some(d) => upright(d.sensor_orientation_degrees),
        None => 0,
    }
}

fn upright(degrees: i32) -> (r: i32)
    ensures
        r == spec_upright(degrees),
        0 <= r < 360,
{
    let t: i64 = turned(degrees);
    if t == 0 {
        proof {
            vstd::arithmetic::div_mod::lemma_fundamental_div_mod(degrees as int, 360);
            vstd::arithmetic::div_mod::lemma_fundamental_div_mod_converse(
                360 - degrees,
                360,
                1 - degrees as int / 360,
                0,
            );
        }
        0
    } else {
        proof {
            vstd::arithmetic::div_mod::lemma_fundamental_div_mod(degrees as int, 360);
            vstd::arithmetic::div_mod::lemma_fundamental_div_mod_converse(
                360 - degrees,
                360,
                0 - degrees as int / 360,
                360 - t,
            );
        }
        (360 - t) as i32
    }
}

/// The quarter turns that an input's preview is shown with.
pub open spec fn spec_rotation(degrees: i32) -> int {
    (spec_upright(degrees) / 90) % 4
}

/// The quarter turns that a device's preview is shown with.
pub fn preview_rotation(device: &AndroidCameraDevice) -> (r: i32)
    ensures
        r == spec_rotation(device.sensor_orientation_degrees),
        0 <= r < 4,
{
    (upright(device.sensor_orientation_degrees) / 90) % 4
}

/// Whether an input is the selfie camera, whose frames read as a mirror.
pub fn is_front_facing(devices: &Vec<AndroidCameraDevice>, input_id: u64) -> (r: bool)
    ensures
        r == (spec_device(devices@, input_id) matches Some(d) && d.front_facing),
{
    match find_device(devices, input_id) {
        Some(d) => d.front_facing,
        None => false,
    }
}

/// The angle that a still's orientation tag carries: the sensor's own.
pub fn jpeg_orientation(device: &AndroidCameraDevice) -> (r: i32)
    ensures
        r == device.sensor_orientation_degrees as int % 360,
        0 <= r < 360,
{
    turned(device.sensor_orientation_degrees) as i32
}

// ---------------------------------------------------------------------------
// Controls in sensor coordinates
// ---------------------------------------------------------------------------

/// A side of the active pixels, at least one.
pub open spec fn side(from: i32, to: i32) -> int {
    if to - from > 1 {
        to - from
    } else {
        1
    }
}

/// A rectangle as left, top, width and height.
#[derive(Clone, Copy, PartialEq, Eq, Structural, Debug)]
pub struct CropRegion {
    pub left: i32,
    pub top: i32,
    pub width: i32,
    pub height: i32,
}

/// The active pixels have sides that fit the sensor's own numbers.
pub open spec fn measurable(a: ActiveArray) -> bool {
    a.right - a.left <= i32::MAX && a.bottom - a.top <= i32::MAX && i32::MIN <= a.right - a.left
        && i32::MIN <= a.bottom - a.top
}

/// The sides of the active pixels.
pub fn active_size(a: ActiveArray) -> (r: (i32, i32))
    requires
        measurable(a),
    ensures
        r.0 == side(a.left, a.right),
        r.1 == side(a.top, a.bottom),
{
    let w: i32 = a.right - a.left;
    let h: i32 = a.bottom - a.top;
    (
        if w > 1 {
            w
        } else {
            1
        },
        if h > 1 {
            h
        } else {
            1
        },
    )
}

/// Half of what a crop leaves over on one axis.
pub open spec fn margin(full: int, crop: int) -> int {
    (full - crop) / 2
}

/// The pixels in the middle that a zoomed picture is cut from.
pub open spec fn spec_crop_region(a: ActiveArray, crop_w: i32, crop_h: i32) -> CropRegion {
    CropRegion {
        left: (a.left + margin(side(a.left, a.right), crop_w as int)) as i32,
        top: (a.top + margin(side(a.top, a.bottom), crop_h as int)) as i32,
        width: spec_max(crop_w as int, 1) as i32,
        height: spec_max(crop_h as int, 1) as i32,
    }
}

/// The crop for a zoom, once the zoomed sides are known: around the middle of
/// the active pixels, with sides of at least one.
pub fn crop_region(a: ActiveArray, crop_w: i32, crop_h: i32) -> (r: CropRegion)
    requires
        measurable(a),
        0 <= crop_w <= side(a.left, a.right),
        0 <= crop_h <= side(a.top, a.bottom),
        a.left + margin(side(a.left, a.right), crop_w as int) <= i32::MAX,
        a.top + margin(side(a.top, a.bottom), crop_h as int) <= i32::MAX,
    ensures
        r == spec_crop_region(a, crop_w, crop_h),
        r.left == a.left + margin(side(a.left, a.right), crop_w as int),
        r.top == a.top + margin(side(a.top, a.bottom), crop_h as int),
        r.width == if crop_w > 1 {
            crop_w as int
        } else {
            1
        },
        r.height == if crop_h > 1 {
            crop_h as int
        } else {
            1
        },
{
    let (full_w, full_h) = active_size(a);
    CropRegion {
        left: a.left + (full_w - crop_w) / 2,
        top: a.top + (full_h - crop_h) / 2,
        width: if crop_w > 1 {
            crop_w
        } else {
            1
        },
        height: if crop_h > 1 {
            crop_h
        } else {
            1
        },
    }
}

/// A crop of the whole size is the active pixels themselves.
pub proof fn unzoomed_crop_is_everything(a: ActiveArray)
    ensures
        a.left + margin(side(a.left, a.right), side(a.left, a.right)) == a.left,
        a.top + margin(side(a.top, a.bottom), side(a.top, a.bottom)) == a.top,
{
}

/// A metering rectangle as corners, with its weight.
#[derive(Clone, Copy, PartialEq, Eq, Structural, Debug)]
pub struct MeteringRegion {
    pub left: i32,
    pub top: i32,
    pub right: i32,
    pub bottom: i32,
    pub weight: i32,
}

/// A tenth of a side, at least one.
pub open spec fn tenth(full: int) -> int {
    if full / 10 > 1 {
        full / 10
    } else {
        1
    }
}

pub open spec fn spec_max(a: int, b: int) -> int {
    if a >= b {
        a
    } else {
        b
    }
}

pub open spec fn spec_min(a: int, b: int) -> int {
    if a <= b {
        a
    } else {
        b
    }
}

/// The pixels around a point, a tenth of the picture to each side.
pub open spec fn spec_metering_region(a: ActiveArray, dx: i32, dy: i32) -> MeteringRegion {
    let (cx, cy) = (a.left + dx, a.top + dy);
    let (hw, hh) = (tenth(side(a.left, a.right)), tenth(side(a.top, a.bottom)));
    MeteringRegion {
        left: spec_max(cx - hw, a.left as int) as i32,
        top: spec_max(cy - hh, a.top as int) as i32,
        right: spec_min(cx + hw, a.right as int) as i32,
        bottom: spec_min(cy + hh, a.bottom as int) as i32,
        weight: 1000,
    }
}

/// The region around a point of the sensor, given by its offsets from the
/// corner of the active pixels: a tenth of each side to all sides, inside the
/// active pixels.
pub fn metering_region(a: ActiveArray, dx: i32, dy: i32) -> (r: MeteringRegion)
    requires
        measurable(a),
        0 <= dx <= side(a.left, a.right),
        0 <= dy <= side(a.top, a.bottom),
    ensures
        ({
            let (cx, cy) = (a.left + dx, a.top + dy);
            let (hw, hh) = (tenth(side(a.left, a.right)), tenth(side(a.top, a.bottom)));
            &&& r.left == spec_max(cx - hw, a.left as int)
            &&& r.top == spec_max(cy - hh, a.top as int)
            &&& r.right == spec_min(cx + hw, a.right as int)
            &&& r.bottom == spec_min(cy + hh, a.bottom as int)
            &&& r.weight == 1000
        }),
        r == spec_metering_region(a, dx, dy),
{
    let (full_w, full_h) = active_size(a);
    let cx: i64 = a.left as i64 + dx as i64;
    let cy: i64 = a.top as i64 + dy as i64;
    let hw: i64 = if full_w / 10 > 1 {
        (full_w / 10) as i64
    } else {
        1
    };
    let hh: i64 = if full_h / 10 > 1 {
        (full_h / 10) as i64
    } else {
        1
    };
    let left: i64 = if cx - hw >= a.left as i64 {
        cx - hw
    } else {
        a.left as i64
    };
    let top: i64 = if cy - hh >= a.top as i64 {
        cy - hh
    } else {
        a.top as i64
    };
    let right: i64 = if cx + hw <= a.right as i64 {
        cx + hw
    } else {
        a.right as i64
    };
    let bottom: i64 = if cy + hh <= a.bottom as i64 {
        cy + hh
    } else {
        a.bottom as i64
    };
    MeteringRegion {
        left: left as i32,
        top: top as i32,
        right: right as i32,
        bottom: bottom as i32,
        weight: 1000,
    }
}

/// The codes of the exposure mode and of the flash: a torch stays on, on and
/// auto are decided for each capture.
pub open spec fn spec_flash_codes(mode: CameraFlashMode) -> (u8, u8) {
    match mode {
        CameraFlashMode::Off => (1, 0),
        CameraFlashMode::On => (3, 0),
        CameraFlashMode::Auto => (2, 0),
        CameraFlashMode::Torch => (1, 2),
    }
}

pub fn flash_codes(mode: CameraFlashMode) -> (r: (u8, u8))
    ensures
        r == spec_flash_codes(mode),
{
    match mode {
        CameraFlashMode::Off => (1, 0),
        CameraFlashMode::On => (3, 0),
        CameraFlashMode::Auto => (2, 0),
        CameraFlashMode::Torch => (1, 2),
    }
}

/// The codes of the focus mode and of its trigger: once at a point, or
/// continuously.
pub fn focus_codes(at_point: bool) -> (r: (u8, u8))
    ensures
        r == if at_point {
            (1u8, 1u8)
        } else {
            (4u8, 0u8)
        },
{
    if at_point {
        (1, 1)
    } else {
        (4, 0)
    }
}

// ---------------------------------------------------------------------------
// Sessions
// ---------------------------------------------------------------------------

/// How many consumers of each kind a stream has.
#[derive(Clone, Copy, PartialEq, Eq, Structural, Debug)]
pub struct StreamDispatch {
    pub video_inputs: usize,
    pub frame_inputs: usize,
    pub preview_frame_inputs: usize,
    pub preview_hardware_buffer_inputs: usize,
    pub encoders: usize,
}

/// How frames are read.
#[derive(Clone, Copy, PartialEq, Eq, Structural, Debug)]
pub enum AndroidImageReaderMode {
    CpuReadable,
    HardwareBufferYuv,
}

impl StreamDispatch {
    pub open spec fn wants_frames(self) -> bool {
        self.video_inputs > 0 || self.frame_inputs > 0 || self.preview_frame_inputs > 0
            || self.preview_hardware_buffer_inputs > 0 || self.encoders > 0
    }

    /// Whether any consumer needs frames to be read.
    pub fn needs_image_reader(&self) -> (r: bool)
        ensures
            r == self.wants_frames(),
    {
        self.video_inputs > 0 || self.frame_inputs > 0 || self.preview_frame_inputs > 0
            || self.preview_hardware_buffer_inputs > 0 || self.encoders > 0
    }

    /// Frames stay in hardware buffers exactly where only consumers of those
    /// are there.
    pub open spec fn spec_reader_mode(self) -> AndroidImageReaderMode {
        if self.preview_hardware_buffer_inputs > 0 && self.video_inputs == 0 && self.frame_inputs
            == 0 && self.preview_frame_inputs == 0 && self.encoders == 0 {
            AndroidImageReaderMode::HardwareBufferYuv
        } else {
            AndroidImageReaderMode::CpuReadable
        }
    }

    /// How the frames of these consumers are read.
    pub fn reader_mode(&self) -> (r: AndroidImageReaderMode)
        ensures
            r == self.spec_reader_mode(),
    {
        if self.preview_hardware_buffer_inputs > 0 && self.video_inputs == 0 && self.frame_inputs
            == 0 && self.preview_frame_inputs == 0 && self.encoders == 0 {
            AndroidImageReaderMode::HardwareBufferYuv
        } else {
            AndroidImageReaderMode::CpuReadable
        }
    }
}

/// How an image reader is made.
#[derive(Clone, Copy, PartialEq, Eq, Structural, Debug)]
pub struct ReaderPlan {
    pub width: i32,
    pub height: i32,
    pub format: u32,
    pub max_images: i32,
    /// For sampling by the graphics processor.
    pub gpu_sampled: bool,
    /// The quality of frames that come as JPEG.
    pub jpeg_quality: Option<u8>,
}

/// How the reader of a stream is made: for frames of the stream's size, in its layout,
/// or for the graphics processor; none for a layout that cameras do not deliver.
pub open spec fn spec_reader_plan(mode: AndroidImageReaderMode, format: VideoFormat) -> Option<
    ReaderPlan,
> {
    let plan = ReaderPlan {
        width: format.width as i32,
        height: format.height as i32,
        format: AIMAGE_FORMAT_YUV_420_888,
        max_images: 2,
        gpu_sampled: false,
        jpeg_quality: None,
    };
    match mode {
        AndroidImageReaderMode::HardwareBufferYuv => Some(
            ReaderPlan { max_images: 3, gpu_sampled: true, ..plan },
        ),
        AndroidImageReaderMode::CpuReadable => match format.pixel_format {
            VideoPixelFormat::YUV420 => Some(plan),
            VideoPixelFormat::MJPEG => Some(
                ReaderPlan { format: AIMAGE_FORMAT_JPEG, jpeg_quality: Some(60), ..plan },
            ),
            VideoPixelFormat::Other => None,
        },
    }
}

/// How the reader of a stream is made; none for a layout that cameras do not
/// deliver.
pub fn reader_plan(mode: AndroidImageReaderMode, format: &VideoFormat) -> (r: Option<ReaderPlan>)
    ensures
        r == spec_reader_plan(mode, *format),
{
    let plan = ReaderPlan {
        width: #[verifier::truncate] (format.width as i32),
        height: #[verifier::truncate] (format.height as i32),
        format: AIMAGE_FORMAT_YUV_420_888,
        max_images: 2,
        gpu_sampled: false,
        jpeg_quality: None,
    };
    match mode {
        AndroidImageReaderMode::HardwareBufferYuv => Some(
            ReaderPlan { max_images: 3, gpu_sampled: true, ..plan },
        ),
        AndroidImageReaderMode::CpuReadable => match format.pixel_format {
            VideoPixelFormat::YUV420 => Some(plan),
            VideoPixelFormat::MJPEG => Some(
                ReaderPlan { format: AIMAGE_FORMAT_JPEG, jpeg_quality: Some(60), ..plan },
            ),
            VideoPixelFormat::Other => None,
        },
    }
}

/// How the reader of stills is made: for pictures of their own size, as JPEG.
pub open spec fn spec_still_plan(width: i32, height: i32) -> ReaderPlan {
    ReaderPlan {
        width,
        height,
        format: AIMAGE_FORMAT_JPEG,
        max_images: 2,
        gpu_sampled: false,
        jpeg_quality: None,
    }
}

/// How the reader of stills is made.
pub fn still_plan(width: i32, height: i32) -> (r: ReaderPlan)
    ensures
        r == spec_still_plan(width, height),
{
    ReaderPlan {
        width,
        height,
        format: AIMAGE_FORMAT_JPEG,
        max_images: 2,
        gpu_sampled: false,
        jpeg_quality: None,
    }
}

/// A frame that stays in a hardware buffer, given by its handle.
#[derive(Clone, Copy, PartialEq, Eq, Structural, Debug)]
pub struct AndroidCameraHardwareBufferFrame {
    pub buffer: u64,
    pub timestamp_ns: u64,
    pub width: u32,
    pub height: u32,
}

/// What the frames of a session are read with.
#[derive(Clone, Copy, PartialEq, Eq, Structural, Debug)]
pub struct AndroidCaptureContext {
    pub dispatch: StreamDispatch,
    pub format: VideoFormat,
    pub alive: bool,
    pub reader_mode: AndroidImageReaderMode,
    pub logged_first_hardware_buffer_frame: bool,
}

/// What is done with a frame.
#[derive(Clone, Copy, PartialEq, Eq, Structural, Debug)]
pub enum FrameRoute {
    /// The session is over, or the layout is not one that is read.
    Drop,
    /// Hand the hardware buffer to the previews that take one.
    HardwareBuffer,
    /// Hand the compressed bytes to the consumers of frames.
    Compressed,
    /// Hand the three planes to the consumers of frames, packed to the video
    /// inputs.
    Planes,
}

impl AndroidCaptureContext {
    /// What the frames of a session that starts are read with.
    pub fn new(dispatch: StreamDispatch, format: VideoFormat) -> (r: AndroidCaptureContext)
        ensures
            r == (AndroidCaptureContext {
                dispatch,
                format,
                alive: true,
                reader_mode: dispatch.spec_reader_mode(),
                logged_first_hardware_buffer_frame: false,
            }),
    {
        AndroidCaptureContext {
            dispatch,
            format,
            alive: true,
            reader_mode: dispatch.reader_mode(),
            logged_first_hardware_buffer_frame: false,
        }
    }

    /// What is done with the next frame.
    pub open spec fn route(self) -> FrameRoute {
        if !self.alive {
            FrameRoute::Drop
        } else if self.reader_mode == AndroidImageReaderMode::HardwareBufferYuv {
            FrameRoute::HardwareBuffer
        } else {
            match self.format.pixel_format {
                VideoPixelFormat::MJPEG => FrameRoute::Compressed,
                VideoPixelFormat::YUV420 => FrameRoute::Planes,
                VideoPixelFormat::Other => FrameRoute::Drop,
            }
        }
    }

    /// What is done with the next frame.
    pub fn frame_route(&self) -> (r: FrameRoute)
        ensures
            r == self.route(),
    {
        if !self.alive {
            return FrameRoute::Drop;
        }
        if self.reader_mode == AndroidImageReaderMode::HardwareBufferYuv {
            return FrameRoute::HardwareBuffer;
        }
        match self.format.pixel_format {
            VideoPixelFormat::MJPEG => FrameRoute::Compressed,
            VideoPixelFormat::YUV420 => FrameRoute::Planes,
            VideoPixelFormat::Other => FrameRoute::Drop,
        }
    }

    /// The frame that a hardware buffer is handed out as.
    pub fn hardware_frame(&mut self, buffer: u64, timestamp_ns: i64) -> (r:
        AndroidCameraHardwareBufferFrame)
        ensures
            r == (AndroidCameraHardwareBufferFrame {
                buffer,
                timestamp_ns: spec_not_negative(timestamp_ns as int) as u64,
                width: old(self).format.width as u32,
                height: old(self).format.height as u32,
            }),
            *final(self) == (AndroidCaptureContext {
                logged_first_hardware_buffer_frame: true,
                ..*old(self)
            }),
    {
        self.logged_first_hardware_buffer_frame = true;
        AndroidCameraHardwareBufferFrame {
            buffer,
            timestamp_ns: timestamp(timestamp_ns),
            width: #[verifier::truncate] (self.format.width as u32),
            height: #[verifier::truncate] (self.format.height as u32),
        }
    }
}

/// A number, or zero in place of a negative one.
pub open spec fn spec_not_negative(n: int) -> int {
    if n > 0 {
        n
    } else {
        0
    }
}

/// A frame's timestamp, zero where the camera gives a negative one.
pub fn timestamp(ns: i64) -> (r: u64)
    ensures
        r == spec_not_negative(ns as int),
{
    if ns > 0 {
        ns as u64
    } else {
        0
    }
}

/// A length or a stride as the camera reports it, zero in place of a negative
/// one.
pub fn measure(n: i32) -> (r: usize)
    ensures
        r == spec_not_negative(n as int),
{
    if n > 0 {
        n as usize
    } else {
        0
    }
}

/// A pixel stride as the camera reports it, at least one.
pub fn pixel_stride(n: i32) -> (r: usize)
    ensures
        r == if n > 1 {
            n as int
        } else {
            1
        },
{
    if n > 1 {
        n as usize
    } else {
        1
    }
}

/// What a still needs once its picture arrives.
pub struct AndroidStillContext {
    pub input_id: u64,
    pub pending: Option<String>,
    pub alive: bool,
}

impl AndroidStillContext {
    pub fn new(input_id: u64) -> (r: AndroidStillContext)
        ensures
            r == (AndroidStillContext { input_id, pending: None, alive: true }),
    {
        AndroidStillContext { input_id, pending: None, alive: true }
    }

    /// A still is wanted; it replaces one that has not come yet.
    pub fn ask(&mut self, path: String)
        ensures
            *final(self) == (AndroidStillContext { pending: Some(path), ..*old(self) }),
    {
        self.pending = Some(path);
    }

    /// The camera refused the still.
    pub fn refused(&mut self)
        ensures
            *final(self) == (AndroidStillContext { pending: None, ..*old(self) }),
    {
        self.pending = None;
    }

    /// A picture arrived: the path to write it to, if the session is alive and
    /// one was asked for. Either way none is waited for any more.
    pub fn arrived(&mut self) -> (r: Option<String>)
        ensures
            r == if old(self).alive {
                old(self).pending
            } else {
                None
            },
            *final(self) == (AndroidStillContext { pending: None, ..*old(self) }),
    {
        let path = self.pending.take();
        if self.alive {
            path
        } else {
            None
        }
    }
}

/// A picture was written, or not.
pub fn still_result(path: String, written: bool, width: i32, height: i32) -> (r: CameraCaptureResult)
    ensures
        written ==> r == (CameraCaptureResult::Photo {
            path,
            width: spec_not_negative(width as int) as u32,
            height: spec_not_negative(height as int) as u32,
        }),
        !written ==> is_failure(r, CaptureKind::Photo, "the still could not be written"@),
{
    if written {
        let w: u32 = if width > 0 {
            width as u32
        } else {
            0
        };
        let h: u32 = if height > 0 {
            height as u32
        } else {
            0
        };
        CameraCaptureResult::Photo { path, width: w, height: h }
    } else {
        failed(CaptureKind::Photo, "the still could not be written")
    }
}

/// An output of a session.
#[derive(Clone, Copy, PartialEq, Eq, Structural, Debug)]
pub enum SessionOutput {
    Still,
    Image,
    Preview,
}

/// The parts that a session is made of; each is there or not.
#[derive(Clone, Copy, PartialEq, Eq, Structural, Debug)]
pub struct AndroidCaptureSession {
    pub image_reader: bool,
    pub image_output: bool,
    pub image_target: bool,
    pub image_window: bool,
    pub preview_output: bool,
    pub preview_target: bool,
    pub preview_window: bool,
    pub still_reader: bool,
    pub still_output: bool,
    pub still_target: bool,
    pub still_window: bool,
    pub still_context: bool,
}

/// A call that takes a session down.
#[derive(Clone, Copy, PartialEq, Eq, Structural, Debug)]
pub enum SessionRelease {
    MuteStillReader,
    DeleteStillReader,
    FreeStillTarget,
    FreeStillOutput,
    ReleaseStillWindow,
    FreeStillContext,
    MuteImageReader,
    StopRepeating,
    CloseSession,
    FreeOutputs,
    FreeImageOutput,
    FreePreviewOutput,
    FreeImageTarget,
    FreePreviewTarget,
    FreeRequest,
    ReleaseImageWindow,
    ReleasePreviewWindow,
    DeleteImageReader,
    CloseDevice,
    FreeCaptureContext,
}

pub open spec fn then_if(calls: Seq<SessionRelease>, due: bool, call: SessionRelease) -> Seq<
    SessionRelease,
> {
    if due {
        calls.push(call)
    } else {
        calls
    }
}

impl AndroidCaptureSession {
    /// Whether a session can be made of these parts: frames go somewhere. The
    /// outputs that it has then, in the order they are added.
    pub fn outputs(&self) -> (r: Option<Vec<SessionOutput>>)
        ensures
            r is Some <==> self.image_output || self.preview_output,
            r matches Some(o) ==> o@ == (if self.still_output {
                seq![SessionOutput::Still]
            } else {
                Seq::empty()
            }) + (if self.image_output {
                seq![SessionOutput::Image]
            } else {
                Seq::empty()
            }) + (if self.preview_output {
                seq![SessionOutput::Preview]
            } else {
                Seq::empty()
            }),
    {
        if !self.image_output && !self.preview_output {
            return None;
        }
        let mut r: Vec<SessionOutput> = Vec::new();
        if self.still_output {
            r.push(SessionOutput::Still);
        }
        if self.image_output {
            r.push(SessionOutput::Image);
        }
        if self.preview_output {
            r.push(SessionOutput::Preview);
        }
        assert(r@ =~= (if self.still_output {
            seq![SessionOutput::Still]
        } else {
            Seq::empty()
        }) + (if self.image_output {
            seq![SessionOutput::Image]
        } else {
            Seq::empty()
        }) + (if self.preview_output {
            seq![SessionOutput::Preview]
        } else {
            Seq::empty()
        }));
        Some(r)
    }

    /// Whether a still can be taken.
    pub fn can_take_still(&self) -> (r: bool)
        ensures
            r == (self.still_target && self.still_context),
    {
        self.still_target && self.still_context
    }

    /// The calls that take the still parts down.
    pub open spec fn still_teardown(self) -> Seq<SessionRelease> {
        let c = then_if(Seq::empty(), self.still_reader, SessionRelease::MuteStillReader);
        let c = then_if(c, self.still_reader, SessionRelease::DeleteStillReader);
        let c = then_if(c, self.still_target, SessionRelease::FreeStillTarget);
        let c = then_if(c, self.still_output, SessionRelease::FreeStillOutput);
        let c = then_if(c, self.still_window, SessionRelease::ReleaseStillWindow);
        then_if(c, self.still_context, SessionRelease::FreeStillContext)
    }

    /// The calls that then stop the camera.
    pub open spec fn stream_teardown(self, calls: Seq<SessionRelease>) -> Seq<SessionRelease> {
        let c = then_if(calls, self.image_reader, SessionRelease::MuteImageReader);
        let c = c.push(SessionRelease::StopRepeating).push(SessionRelease::CloseSession).push(
            SessionRelease::FreeOutputs,
        );
        let c = then_if(c, self.image_output, SessionRelease::FreeImageOutput);
        then_if(c, self.preview_output, SessionRelease::FreePreviewOutput)
    }

    /// The calls that then free the rest.
    pub open spec fn device_teardown(self, calls: Seq<SessionRelease>) -> Seq<SessionRelease> {
        let c = then_if(calls, self.image_target, SessionRelease::FreeImageTarget);
        let c = then_if(c, self.preview_target, SessionRelease::FreePreviewTarget);
        let c = c.push(SessionRelease::FreeRequest);
        let c = then_if(c, self.image_window, SessionRelease::ReleaseImageWindow);
        let c = then_if(c, self.preview_window, SessionRelease::ReleasePreviewWindow);
        let c = then_if(c, self.image_reader, SessionRelease::DeleteImageReader);
        c.push(SessionRelease::CloseDevice).push(SessionRelease::FreeCaptureContext)
    }

    /// The calls that take the session down, in order: the readers stop calling
    /// back before the camera stops, and what they call back with is freed
    /// last.
    pub fn stop(&self) -> (r: Vec<SessionRelease>)
        ensures
            r@ == self.device_teardown(self.stream_teardown(self.still_teardown())),
    {
        let mut r: Vec<SessionRelease> = Vec::new();
        if self.still_reader {
            r.push(SessionRelease::MuteStillReader);
            r.push(SessionRelease::DeleteStillReader);
        }
        if self.still_target {
            r.push(SessionRelease::FreeStillTarget);
        }
        if self.still_output {
            r.push(SessionRelease::FreeStillOutput);
        }
        if self.still_window {
            r.push(SessionRelease::ReleaseStillWindow);
        }
        if self.still_context {
            r.push(SessionRelease::FreeStillContext);
        }
        assert(r@ == self.still_teardown());
        if self.image_reader {
            r.push(SessionRelease::MuteImageReader);
        }
        r.push(SessionRelease::StopRepeating);
        r.push(SessionRelease::CloseSession);
        r.push(SessionRelease::FreeOutputs);
        if self.image_output {
            r.push(SessionRelease::FreeImageOutput);
        }
        if self.preview_output {
            r.push(SessionRelease::FreePreviewOutput);
        }
        assert(r@ == self.stream_teardown(self.still_teardown()));
        if self.image_target {
            r.push(SessionRelease::FreeImageTarget);
        }
        if self.preview_target {
            r.push(SessionRelease::FreePreviewTarget);
        }
        r.push(SessionRelease::FreeRequest);
        if self.image_window {
            r.push(SessionRelease::ReleaseImageWindow);
        }
        if self.preview_window {
            r.push(SessionRelease::ReleasePreviewWindow);
        }
        if self.image_reader {
            r.push(SessionRelease::DeleteImageReader);
        }
        r.push(SessionRelease::CloseDevice);
        r.push(SessionRelease::FreeCaptureContext);
        r
    }
}

// ---------------------------------------------------------------------------
// Requests
// ---------------------------------------------------------------------------

/// What a capture request leads to.
pub enum AndroidCapture {
    Report(CameraCaptureResult),
    /// Take a still into this file.
    Still { path: String },
    /// The input's device is not known any more.
    Nothing,
}

/// What a capture request leads to: stills need an open camera with a running
/// session; recording is not there.
pub fn capture_step(
    open: bool,
    known_device: bool,
    session: bool,
    request: CameraCaptureRequest,
) -> (r: AndroidCapture)
    ensures
        if !open {
            r matches AndroidCapture::Report(f) && is_failure(
                f,
                CaptureKind::Capture,
                "this camera is not open"@,
            )
        } else if !known_device {
            r is Nothing
        } else if !session {
            r matches AndroidCapture::Report(f) && is_failure(
                f,
                CaptureKind::Capture,
                "this camera has no running session"@,
            )
        } else {
            match request {
                CameraCaptureRequest::Photo { path, .. } => r == (AndroidCapture::Still { path }),
                _ => r matches AndroidCapture::Report(f) && is_failure(
                    f,
                    CaptureKind::Video,
                    "recording is not implemented on Android yet"@,
                ),
            }
        },
{
    if !open {
        return AndroidCapture::Report(failed(CaptureKind::Capture, "this camera is not open"));
    }
    if !known_device {
        return AndroidCapture::Nothing;
    }
    if !session {
        return AndroidCapture::Report(
            failed(CaptureKind::Capture, "this camera has no running session"),
        );
    }
    match request {
        CameraCaptureRequest::Photo { path, .. } => AndroidCapture::Still { path },
        _ => AndroidCapture::Report(
            failed(CaptureKind::Video, "recording is not implemented on Android yet"),
        ),
    }
}

/// Why a still was not taken.
#[derive(Clone, Copy, PartialEq, Eq, Structural, Debug)]
pub enum StillRefusal {
    NoStream,
    NoRequest(i32),
    Refused(i32),
}

impl StillRefusal {
    pub open spec fn spec_message(self) -> Seq<char> {
        match self {
            StillRefusal::NoStream => "this camera has no still stream"@,
            StillRefusal::NoRequest(status) => "the still request could not be built ("@
                + spec_signed_decimal(status as int) + ")"@,
            StillRefusal::Refused(status) => "the camera refused the still ("@
                + spec_signed_decimal(status as int) + ")"@,
        }
    }

    pub fn message(&self) -> (r: String)
        ensures
            r@ == self.spec_message(),
    {
        match self {
            StillRefusal::NoStream => "this camera has no still stream".to_owned(),
            StillRefusal::NoRequest(status) => Self::with_status(
                "the still request could not be built (",
                *status,
            ),
            StillRefusal::Refused(status) => Self::with_status(
                "the camera refused the still (",
                *status,
            ),
        }
    }

    fn with_status(label: &str, status: i32) -> (r: String)
        ensures
            r@ == label@ + spec_signed_decimal(status as int) + ")"@,
    {
        let mut out: Vec<char> = Vec::new();
        push_text(&mut out, label);
        let digits = signed_decimal(status as i64);
        push_all(&mut out, digits.as_slice());
        push_text(&mut out, ")");
        assert(out@ =~= label@ + spec_signed_decimal(status as int) + ")"@);
        to_text(out.as_slice())
    }
}

/// What an encoder's texture is like.
#[derive(Clone, Copy, PartialEq, Eq, Structural, Debug)]
pub struct TextureState {
    pub width: usize,
    pub height: usize,
    /// Four bytes a pixel, blue first.
    pub is_bgra: bool,
    /// Whether the graphics side has it.
    pub is_uploaded: bool,
}

#[derive(Clone, Copy, PartialEq, Eq, Structural, Debug)]
pub enum VideoEncodeError {
    EncoderNotStarted,
    UnsupportedSource,
    InvalidTexture,
    InvalidTextureSize,
    UnsupportedTextureFormat,
    CodecUnavailable,
}

/// Where an encoder's frames come from.
#[derive(Clone, Copy, PartialEq, Eq, Structural, Debug)]
pub enum VideoEncodeSource {
    Camera,
    Texture,
    Frames,
}

/// Whether a texture's frame can be encoded, and its size where it can.
pub open spec fn spec_texture_check(
    source: Option<VideoEncodeSource>,
    encoder: bool,
    texture: Option<TextureState>,
) -> Result<(usize, usize), VideoEncodeError> {
    match source {
        None => Err(VideoEncodeError::EncoderNotStarted),
        Some(s) => if s != VideoEncodeSource::Texture {
            Err(VideoEncodeError::UnsupportedSource)
        } else if !encoder {
            Err(VideoEncodeError::EncoderNotStarted)
        } else {
            match texture {
                None => Err(VideoEncodeError::InvalidTexture),
                Some(t) => if t.width == 0 || t.height == 0 {
                    Err(VideoEncodeError::InvalidTextureSize)
                } else if !t.is_bgra {
                    Err(VideoEncodeError::UnsupportedTextureFormat)
                } else if !t.is_uploaded {
                    Err(VideoEncodeError::InvalidTexture)
                } else {
                    Ok::<(usize, usize), VideoEncodeError>((t.width, t.height))
                },
            }
        },
    }
}

/// Whether a texture's frame can be encoded: the slot encodes a texture, its
/// encoder runs, and the texture is there, has a size and a readable layout.
pub fn texture_frame_check(
    source: Option<VideoEncodeSource>,
    encoder: bool,
    texture: Option<TextureState>,
) -> (r: Result<(usize, usize), VideoEncodeError>)
    ensures
        r == spec_texture_check(source, encoder, texture),
{
    let s = match source {
        None => return Err(VideoEncodeError::EncoderNotStarted),
        Some(s) => s,
    };
    if s != VideoEncodeSource::Texture {
        return Err(VideoEncodeError::UnsupportedSource);
    }
    if !encoder {
        return Err(VideoEncodeError::EncoderNotStarted);
    }
    match texture {
        None => Err(VideoEncodeError::InvalidTexture),
        Some(t) => if t.width == 0 || t.height == 0 {
            Err(VideoEncodeError::InvalidTextureSize)
        } else if !t.is_bgra {
            Err(VideoEncodeError::UnsupportedTextureFormat)
        } else if !t.is_uploaded {
            Err(VideoEncodeError::InvalidTexture)
        } else {
            Ok((t.width, t.height))
        },
    }
}

/// What came of reading a texture back and turning it into a frame: a texture that
/// cannot be read is none, and one that cannot be turned has no layout that is encoded.
pub fn texture_frame_read(is_read: bool, is_turned: bool) -> (r: Result<(), VideoEncodeError>)
    ensures
        r == if !is_read {
            Err(VideoEncodeError::InvalidTexture)
        } else if !is_turned {
            Err(VideoEncodeError::UnsupportedTextureFormat)
        } else {
            Ok::<(), VideoEncodeError>(())
        },
{
    if !is_read {
        return Err(VideoEncodeError::InvalidTexture);
    }
    if !is_turned {
        return Err(VideoEncodeError::UnsupportedTextureFormat);
    }
    Ok(())
}

/// What becomes of a slot's encoder.
#[derive(Clone, Copy, PartialEq, Eq, Structural, Debug)]
pub enum EncoderStep {
    /// The encoder stays as it is.
    Keep,
    Stop,
    /// Start one for frames of this size and rate.
    Start { width: u32, height: u32, fps: Option<u32> },
}

/// What becomes of a slot's encoder.
pub open spec fn spec_encoder_step(
    source: Option<VideoEncodeSource>,
    stream: Option<CameraStreamKey>,
    format: Option<VideoFormat>,
    has_output: bool,
) -> EncoderStep {
    match source {
        None => EncoderStep::Stop,
        Some(s) => if s != VideoEncodeSource::Camera {
            EncoderStep::Keep
        } else {
            match format {
                Some(f) if stream is Some && has_output => EncoderStep::Start {
                    width: f.width as u32,
                    height: f.height as u32,
                    fps: match f.frame_rate {
                        Some(n) => Some(
                            if n > 1 {
                                n
                            } else {
                                1
                            },
                        ),
                        None => None,
                    },
                },
                _ => EncoderStep::Stop,
            }
        },
    }
}

/// What becomes of a slot's encoder when its stream may have changed. Without a
/// configuration it stops; one that does not encode the camera is left alone;
/// else it needs a stream, the stream's format and a consumer.
pub fn refresh_slot_encoder(
    source: Option<VideoEncodeSource>,
    stream: Option<CameraStreamKey>,
    format: Option<VideoFormat>,
    has_output: bool,
) -> (r: EncoderStep)
    ensures
        r == spec_encoder_step(source, stream, format, has_output),
{
    let s = match source {
        None => return EncoderStep::Stop,
        Some(s) => s,
    };
    if s != VideoEncodeSource::Camera {
        return EncoderStep::Keep;
    }
    if stream.is_none() || !has_output {
        return EncoderStep::Stop;
    }
    match format {
        Some(f) => {
            let fps = match f.frame_rate {
                Some(n) => Some(
                    if n > 1 {
                        n
                    } else {
                        1
                    },
                ),
                None => None,
            };
            EncoderStep::Start {
                width: #[verifier::truncate] (f.width as u32),
                height: #[verifier::truncate] (f.height as u32),
                fps,
            }
        },
        None => EncoderStep::Stop,
    }
}

/// What a new configuration of an encoder leads to.
#[derive(Clone, Copy, PartialEq, Eq, Structural, Debug)]
pub enum ConfigureStep {
    /// The encoder goes with the stream of its slot, and the streams are reconciled.
    FollowCamera,
    /// An encoder of its own is to be started.
    Start,
}

/// What a new configuration of an encoder leads to.
pub fn configure_video_encoder(source: VideoEncodeSource) -> (r: ConfigureStep)
    ensures
        r == if source is Camera {
            ConfigureStep::FollowCamera
        } else {
            ConfigureStep::Start
        },
{
    match source {
        VideoEncodeSource::Camera => ConfigureStep::FollowCamera,
        _ => ConfigureStep::Start,
    }
}

/// Whether an encoder that was to be started is there.
pub fn encoder_started(started: bool) -> (r: Result<(), VideoEncodeError>)
    ensures
        r == if started {
            Ok(())
        } else {
            Err(VideoEncodeError::CodecUnavailable)
        },
{
    if started {
        Ok(())
    } else {
        Err(VideoEncodeError::CodecUnavailable)
    }
}

// ---------------------------------------------------------------------------
// Laws
// ---------------------------------------------------------------------------

/// What a camera offers is what it offers part by part, in its order: each configuration
/// that puts out frames of a known format is a stream, and no other is.
pub proof fn streams_are_kept_in_order(
    before: Seq<StreamConfiguration>,
    c: StreamConfiguration,
    after: Seq<StreamConfiguration>,
)
    ensures
        streamable(before + after) == streamable(before) + streamable(after),
        !c.input && (c.format == 0x23 || c.format == 0x100) ==> streamable(
            before + seq![c] + after,
        ) == streamable(before) + seq![c] + streamable(after),
        c.input || (c.format != 0x23 && c.format != 0x100) ==> streamable(before + seq![c] + after)
            == streamable(before + after),
        streamable(before).len() <= before.len(),
    decreases after.len() + before.len(),
{
    let one = seq![c];
    assert(one.drop_last() =~= Seq::empty());
    assert(streamable(Seq::<StreamConfiguration>::empty()) =~= Seq::empty());
    assert(streamable(one) =~= if is_stream(c) {
        one
    } else {
        Seq::empty()
    });
    streams_of_parts(before, after);
    streams_of_parts(before, one);
    streams_of_parts(before + one, after);
    assert(streamable(before) + Seq::<StreamConfiguration>::empty() =~= streamable(before));
    if before.len() > 0 {
        streams_are_kept_in_order(before.drop_last(), c, Seq::empty());
    }
}

proof fn streams_of_parts(a: Seq<StreamConfiguration>, b: Seq<StreamConfiguration>)
    ensures
        streamable(a + b) == streamable(a) + streamable(b),
    decreases b.len(),
{
    if b.len() == 0 {
        assert(a + b =~= a);
        assert(streamable(a) + streamable(b) =~= streamable(a));
    } else {
        assert((a + b).drop_last() =~= a + b.drop_last());
        streams_of_parts(a, b.drop_last());
        assert(streamable(a) + streamable(b.drop_last()).push(b.last()) =~= (streamable(a)
            + streamable(b.drop_last())).push(b.last()));
    }
}

/// Stills are taken at a size that the camera offers for them.
pub proof fn the_still_size_is_offered(list: Seq<StreamConfiguration>)
    ensures
        largest_jpeg(list) matches Some((w, h)) ==> exists|i: int|
            0 <= i < list.len() && (#[trigger] list[i]).width == w && list[i].height == h
                && list[i].format == 0x100 && !list[i].input,
    decreases list.len(),
{
    if list.len() > 0 {
        let init = list.drop_last();
        the_still_size_is_offered(init);
        if let Some((w, h)) = largest_jpeg(list) {
            if largest_jpeg(init) == Some((w, h)) {
                let i = choose|i: int|
                    0 <= i < init.len() && (#[trigger] init[i]).width == w && init[i].height == h
                        && init[i].format == 0x100 && !init[i].input;
                assert(list[i] == init[i]);
            } else {
                assert(list[list.len() - 1] == list.last());
            }
        }
    }
}

proof fn device_is_first(devices: Seq<AndroidCameraDevice>, input_id: u64, from: int)
    requires
        0 <= from <= devices.len(),
    ensures
        match device_index(devices, input_id, from) {
            Some(i) => from <= i < devices.len() && devices[i].input_id == input_id,
            None => forall|i: int|
                from <= i < devices.len() ==> (#[trigger] devices[i]).input_id != input_id,
        },
    decreases devices.len() - from,
{
    if from < devices.len() && devices[from].input_id != input_id {
        device_is_first(devices, input_id, from + 1);
    }
}

proof fn format_is_first(formats: Seq<VideoFormat>, format_id: u64, from: int)
    requires
        0 <= from <= formats.len(),
    ensures
        match format_index(formats, format_id, from) {
            Some(i) => from <= i < formats.len() && formats[i].format_id == format_id,
            None => forall|i: int|
                from <= i < formats.len() ==> (#[trigger] formats[i]).format_id != format_id,
        },
    decreases formats.len() - from,
{
    if from < formats.len() && formats[from].format_id != format_id {
        format_is_first(formats, format_id, from + 1);
    }
}

/// A camera and a format are found by their own numbers, wherever they stand.
pub proof fn cameras_are_found_by_their_numbers(
    devices: Seq<AndroidCameraDevice>,
    key: CameraStreamKey,
)
    ensures
        match spec_device(devices, key.input_id) {
            Some(d) => d.input_id == key.input_id && devices.contains(d),
            None => forall|i: int|
                0 <= i < devices.len() ==> (#[trigger] devices[i]).input_id != key.input_id,
        },
        match spec_format(devices, key) {
            Some(f) => f.format_id == key.format_id && (spec_device(devices, key.input_id) matches Some(
                d,
            ) && d.formats@.contains(f)),
            None => spec_device(devices, key.input_id) matches Some(d) ==> forall|i: int|
                0 <= i < d.formats@.len() ==> (#[trigger] d.formats@[i]).format_id != key.format_id,
        },
        spec_key_for(devices, key.input_id, key.format_id) matches Some(k) ==> k == key,
        spec_key_for(devices, key.input_id, key.format_id) is Some <==> spec_format(devices, key)
            is Some,
{
    device_is_first(devices, key.input_id, 0);
    if let Some(d) = spec_device(devices, key.input_id) {
        format_is_first(d.formats@, key.format_id, 0);
    }
}

/// A picture that is turned by what is reported stands upright: the turns of the sensor
/// and of the picture make whole turns.
pub proof fn pictures_stand_upright(degrees: i32)
    ensures
        (spec_upright(degrees) + degrees) % 360 == 0,
        0 <= spec_upright(degrees) < 360,
        degrees as int % 90 == 0 ==> (90 * spec_rotation(degrees) + degrees) % 360 == 0,
        0 <= spec_rotation(degrees) < 4,
{
    let d = degrees as int;
    let u = (360 - d) % 360;
    let k = (360 - d) / 360;
    assert(360 - d == 360 * k + u);
    assert(u + d == 360 * (1 - k));
    assert((360 * (1 - k)) % 360 == 0);
    if d % 90 == 0 {
        let q = u / 90;
        assert(u % 90 == 0);
        assert(u == 90 * q);
        assert(0 <= q < 4);
        assert(q % 4 == q);
    }
}

/// Each flash mode is its own, and only the torch shines on without a picture being taken.
pub proof fn flash_modes_differ(a: CameraFlashMode, b: CameraFlashMode)
    ensures
        a != b ==> spec_flash_codes(a) != spec_flash_codes(b),
        spec_flash_codes(a).1 != 0 <==> a is Torch,
        spec_flash_codes(a).0 == 1 <==> a is Off || a is Torch,
{
}

/// Frames are left to the graphics card only where nothing reads their bytes, and are
/// left there whenever only previews want them.
pub proof fn frames_that_are_read_can_be_read(d: StreamDispatch)
    ensures
        d.video_inputs > 0 || d.frame_inputs > 0 || d.preview_frame_inputs > 0 || d.encoders > 0
            ==> d.spec_reader_mode() is CpuReadable && d.wants_frames(),
        d.spec_reader_mode() is HardwareBufferYuv ==> d.preview_hardware_buffer_inputs > 0
            && d.wants_frames(),
        d.video_inputs == 0 && d.frame_inputs == 0 && d.preview_frame_inputs == 0 && d.encoders == 0
            && d.preview_hardware_buffer_inputs > 0 ==> d.spec_reader_mode() is HardwareBufferYuv,
        d.wants_frames() <==> !(d.video_inputs == 0 && d.frame_inputs == 0 && d.preview_frame_inputs
            == 0 && d.preview_hardware_buffer_inputs == 0 && d.encoders == 0),
{
}

/// A reader has the size of its format and takes it as it comes: compressed as JPEG, and
/// otherwise in planes. What goes to the graphics card is never compressed.
pub proof fn readers_take_what_comes(mode: AndroidImageReaderMode, format: VideoFormat)
    requires
        format.width <= i32::MAX,
        format.height <= i32::MAX,
    ensures
        spec_reader_plan(mode, format) matches Some(p) ==> {
            &&& p.width == format.width && p.height == format.height
            &&& p.gpu_sampled <==> mode is HardwareBufferYuv
            &&& p.jpeg_quality is Some <==> p.format == 0x100
            &&& p.format == 0x100 <==> mode is CpuReadable && format.pixel_format is MJPEG
            &&& p.format == 0x100 || p.format == 0x23
            &&& p.max_images >= 2
        },
        spec_reader_plan(mode, format) is None <==> mode is CpuReadable && format.pixel_format
            is Other,
{
}

/// A live session hands a frame out the way its reader made it.
pub proof fn frames_take_the_way_of_their_reader(dispatch: StreamDispatch, format: VideoFormat)
    ensures
        ({
            let c = AndroidCaptureContext {
                dispatch,
                format,
                alive: true,
                reader_mode: dispatch.spec_reader_mode(),
                logged_first_hardware_buffer_frame: false,
            };
            match spec_reader_plan(dispatch.spec_reader_mode(), format) {
                Some(p) => {
                    &&& c.route() is HardwareBuffer <==> p.gpu_sampled
                    &&& c.route() is Compressed <==> p.format == 0x100
                    &&& c.route() is Planes <==> p.format == 0x23 && !p.gpu_sampled
                },
                None => c.route() is Drop,
            }
        }),
{
}

// ---------------------------------------------------------------------------
// The end of a session
// ---------------------------------------------------------------------------

/// When a step of the end of a session is due, among the others.
pub open spec fn rank(call: SessionRelease) -> int {
    match call {
        SessionRelease::MuteStillReader => 0,
        SessionRelease::DeleteStillReader => 1,
        SessionRelease::FreeStillTarget => 2,
        SessionRelease::FreeStillOutput => 3,
        SessionRelease::ReleaseStillWindow => 4,
        SessionRelease::FreeStillContext => 5,
        SessionRelease::MuteImageReader => 6,
        SessionRelease::StopRepeating => 7,
        SessionRelease::CloseSession => 8,
        SessionRelease::FreeOutputs => 9,
        SessionRelease::FreeImageOutput => 10,
        SessionRelease::FreePreviewOutput => 11,
        SessionRelease::FreeImageTarget => 12,
        SessionRelease::FreePreviewTarget => 13,
        SessionRelease::FreeRequest => 14,
        SessionRelease::ReleaseImageWindow => 15,
        SessionRelease::ReleasePreviewWindow => 16,
        SessionRelease::DeleteImageReader => 17,
        SessionRelease::CloseDevice => 18,
        SessionRelease::FreeCaptureContext => 19,
    }
}

/// Whether a session holds what a step lets go.
pub open spec fn holds_for(s: AndroidCaptureSession, call: SessionRelease) -> bool {
    match call {
        SessionRelease::MuteStillReader | SessionRelease::DeleteStillReader => s.still_reader,
        SessionRelease::FreeStillTarget => s.still_target,
        SessionRelease::FreeStillOutput => s.still_output,
        SessionRelease::ReleaseStillWindow => s.still_window,
        SessionRelease::FreeStillContext => s.still_context,
        SessionRelease::MuteImageReader | SessionRelease::DeleteImageReader => s.image_reader,
        SessionRelease::FreeImageOutput => s.image_output,
        SessionRelease::FreePreviewOutput => s.preview_output,
        SessionRelease::FreeImageTarget => s.image_target,
        SessionRelease::FreePreviewTarget => s.preview_target,
        SessionRelease::ReleaseImageWindow => s.image_window,
        SessionRelease::ReleasePreviewWindow => s.preview_window,
        _ => true,
    }
}

/// Steps that go up in rank, and are those of the ranks below `k` that are due.
spec fn done_below(s: AndroidCaptureSession, calls: Seq<SessionRelease>, k: int) -> bool {
    &&& forall|i: int, j: int|
        0 <= i < j < calls.len() ==> rank(#[trigger] calls[i]) < rank(#[trigger] calls[j])
    &&& forall|c: SessionRelease| #[trigger]
        calls.contains(c) <==> rank(c) < k && holds_for(s, c)
}

proof fn one_more(s: AndroidCaptureSession, calls: Seq<SessionRelease>, call: SessionRelease)
    requires
        done_below(s, calls, rank(call)),
    ensures
        done_below(s, then_if(calls, holds_for(s, call), call), rank(call) + 1),
        holds_for(s, call) ==> done_below(s, calls.push(call), rank(call) + 1),
{
    assert forall|i: int| 0 <= i < calls.len() implies rank(#[trigger] calls[i]) < rank(call) by {
        assert(calls.contains(calls[i]));
    }
    let more = calls.push(call);
    assert forall|c: SessionRelease| rank(c) == rank(call) implies c == call by {}
    assert forall|c: SessionRelease| #[trigger] more.contains(c) <==> calls.contains(c) || c
        == call by {
        if calls.contains(c) {
            let i = calls.index_of(c);
            assert(more[i] == c);
        }
        if c == call {
            assert(more[calls.len() as int] == c);
        }
        if more.contains(c) {
            let i = more.index_of(c);
            if i < calls.len() {
                assert(calls[i] == c);
            }
        }
    }
}

/// A session lets go of all that it holds and of nothing else, each thing once, and in the
/// order of the ranks: readers fall silent before anything else of theirs goes, the session
/// is closed before what it wrote to, and the camera and the context last.
pub proof fn a_session_lets_go_in_order(s: AndroidCaptureSession)
    ensures
        ({
            let calls = s.device_teardown(s.stream_teardown(s.still_teardown()));
            &&& forall|i: int, j: int|
                0 <= i < j < calls.len() ==> rank(#[trigger] calls[i]) < rank(#[trigger] calls[j])
            &&& forall|c: SessionRelease| #[trigger] calls.contains(c) <==> holds_for(s, c)
        }),
{
    let none = Seq::<SessionRelease>::empty();
    assert(done_below(s, none, 0));
    let c0 = then_if(none, s.still_reader, SessionRelease::MuteStillReader);
    one_more(s, none, SessionRelease::MuteStillReader);
    let c1 = then_if(c0, s.still_reader, SessionRelease::DeleteStillReader);
    one_more(s, c0, SessionRelease::DeleteStillReader);
    let c2 = then_if(c1, s.still_target, SessionRelease::FreeStillTarget);
    one_more(s, c1, SessionRelease::FreeStillTarget);
    let c3 = then_if(c2, s.still_output, SessionRelease::FreeStillOutput);
    one_more(s, c2, SessionRelease::FreeStillOutput);
    let c4 = then_if(c3, s.still_window, SessionRelease::ReleaseStillWindow);
    one_more(s, c3, SessionRelease::ReleaseStillWindow);
    let c5 = then_if(c4, s.still_context, SessionRelease::FreeStillContext);
    one_more(s, c4, SessionRelease::FreeStillContext);
    let c6 = then_if(c5, s.image_reader, SessionRelease::MuteImageReader);
    one_more(s, c5, SessionRelease::MuteImageReader);
    let c7 = c6.push(SessionRelease::StopRepeating);
    one_more(s, c6, SessionRelease::StopRepeating);
    let c8 = c7.push(SessionRelease::CloseSession);
    one_more(s, c7, SessionRelease::CloseSession);
    let c9 = c8.push(SessionRelease::FreeOutputs);
    one_more(s, c8, SessionRelease::FreeOutputs);
    let c10 = then_if(c9, s.image_output, SessionRelease::FreeImageOutput);
    one_more(s, c9, SessionRelease::FreeImageOutput);
    let c11 = then_if(c10, s.preview_output, SessionRelease::FreePreviewOutput);
    one_more(s, c10, SessionRelease::FreePreviewOutput);
    let c12 = then_if(c11, s.image_target, SessionRelease::FreeImageTarget);
    one_more(s, c11, SessionRelease::FreeImageTarget);
    let c13 = then_if(c12, s.preview_target, SessionRelease::FreePreviewTarget);
    one_more(s, c12, SessionRelease::FreePreviewTarget);
    let c14 = c13.push(SessionRelease::FreeRequest);
    one_more(s, c13, SessionRelease::FreeRequest);
    let c15 = then_if(c14, s.image_window, SessionRelease::ReleaseImageWindow);
    one_more(s, c14, SessionRelease::ReleaseImageWindow);
    let c16 = then_if(c15, s.preview_window, SessionRelease::ReleasePreviewWindow);
    one_more(s, c15, SessionRelease::ReleasePreviewWindow);
    let c17 = then_if(c16, s.image_reader, SessionRelease::DeleteImageReader);
    one_more(s, c16, SessionRelease::DeleteImageReader);
    let c18 = c17.push(SessionRelease::CloseDevice);
    one_more(s, c17, SessionRelease::CloseDevice);
    let c19 = c18.push(SessionRelease::FreeCaptureContext);
    one_more(s, c18, SessionRelease::FreeCaptureContext);
    assert(c5 == s.still_teardown());
    assert(c11 == s.stream_teardown(c5));
    assert(c19 == s.device_teardown(c11));
}

/// A zoomed picture is cut out of the middle: the margins on two sides of it differ by no
/// more than a pixel, and it lies within the active pixels.
pub proof fn a_crop_lies_in_the_middle(a: ActiveArray, crop_w: i32, crop_h: i32)
    requires
        measurable(a),
        a.left < a.right && a.top < a.bottom,
        1 <= crop_w <= a.right - a.left,
        1 <= crop_h <= a.bottom - a.top,
    ensures
        ({
            let r = spec_crop_region(a, crop_w, crop_h);
            let (left, top) = (r.left - a.left, r.top - a.top);
            let (right, bottom) = (a.right - (r.left + r.width), a.bottom - (r.top + r.height));
            &&& r.width == crop_w && r.height == crop_h
            &&& 0 <= left && 0 <= top && 0 <= right && 0 <= bottom
            &&& 0 <= right - left <= 1
            &&& 0 <= bottom - top <= 1
        }),
{
}

/// A tap is metered around the point it names, no more than a tenth of the picture to
/// each side, and never outside it.
pub proof fn a_tap_is_metered_around_it(a: ActiveArray, dx: i32, dy: i32)
    requires
        measurable(a),
        a.right - a.left >= 10 && a.bottom - a.top >= 10,
        0 <= dx <= a.right - a.left,
        0 <= dy <= a.bottom - a.top,
    ensures
        ({
            let r = spec_metering_region(a, dx, dy);
            let (x, y) = (a.left + dx, a.top + dy);
            let (w, h) = (a.right - a.left, a.bottom - a.top);
            &&& a.left <= r.left <= x <= r.right <= a.right
            &&& a.top <= r.top <= y <= r.bottom <= a.bottom
            &&& r.left == a.left || x - r.left == w / 10
            &&& r.right == a.right || r.right - x == w / 10
            &&& r.top == a.top || y - r.top == h / 10
            &&& r.bottom == a.bottom || r.bottom - y == h / 10
            &&& x - r.left <= w / 10 && r.right - x <= w / 10
            &&& y - r.top <= h / 10 && r.bottom - y <= h / 10
        }),
{
}

/// A texture is encoded where the slot encodes textures, its encoder runs, and the texture
/// is there, has a size, is uploaded and can be read; its frame has its own size.
pub proof fn a_texture_is_encoded_when_all_is_there(
    source: Option<VideoEncodeSource>,
    encoder: bool,
    texture: Option<TextureState>,
)
    ensures
        spec_texture_check(source, encoder, texture) is Ok <==> source == Some(
            VideoEncodeSource::Texture,
        ) && encoder && (texture matches Some(t) && t.width > 0 && t.height > 0 && t.is_bgra
            && t.is_uploaded),
        spec_texture_check(source, encoder, texture) matches Ok((w, h)) ==> (texture matches Some(t)
            && w == t.width && h == t.height),
        source is None ==> spec_texture_check(source, encoder, texture) == Err::<
            (usize, usize),
            VideoEncodeError,
        >(VideoEncodeError::EncoderNotStarted),
        source == Some(VideoEncodeSource::Camera) ==> spec_texture_check(source, encoder, texture)
            == Err::<(usize, usize), VideoEncodeError>(VideoEncodeError::UnsupportedSource),
{
}

/// An encoder of the camera runs where its slot has a stream with a format and a consumer,
/// at the size and the rate of the format; others are left alone, and a slot without a
/// configuration has none.
pub proof fn an_encoder_runs_while_it_has_a_stream(
    stream: Option<CameraStreamKey>,
    format: VideoFormat,
    has_output: bool,
)
    requires
        format.width <= u32::MAX,
        format.height <= u32::MAX,
    ensures
        ({
            let step = spec_encoder_step(
                Some(VideoEncodeSource::Camera),
                stream,
                Some(format),
                has_output,
            );
            &&& stream is Some && has_output ==> (step matches EncoderStep::Start {
                width,
                height,
                fps,
            } && width == format.width && height == format.height && (fps matches Some(n) ==> n >= 1
                && (format.frame_rate == Some(n) || n == 1)) && (fps is Some <==> format.frame_rate
                is Some) && (format.frame_rate matches Some(n) && n >= 1 ==> fps
                == format.frame_rate))
            &&& stream is None || !has_output ==> step is Stop
        }),
        spec_encoder_step(Some(VideoEncodeSource::Camera), stream, None, has_output) is Stop,
        spec_encoder_step(Some(VideoEncodeSource::Texture), stream, Some(format), has_output)
            is Keep,
        spec_encoder_step(None, stream, Some(format), has_output) is Stop,
{
}

/// A format is published as the camera configures it, under its own number.
pub proof fn formats_are_published_as_configured(c: StreamConfiguration, id: u64)
    requires
        c.width >= 0,
        c.height >= 0,
        is_stream(c),
    ensures
        published(c, id).format_id == id,
        published(c, id).width == c.width && published(c, id).height == c.height,
        c.format == 0x23 ==> published(c, id).pixel_format is YUV420,
        c.format == 0x100 ==> published(c, id).pixel_format is MJPEG,
        published(c, id).frame_rate is None,
{
}

} // verus!
