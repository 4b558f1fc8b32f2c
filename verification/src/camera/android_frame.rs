//! A frame of an Android camera: what the reader's image is handed out as.
use crate::camera::android::{
    measure, pixel_stride, spec_not_negative, timestamp, AndroidCameraHardwareBufferFrame,
    AndroidCaptureContext, FrameRoute,
};
use crate::camera::frame::{
    cell_in_plane, chroma_keeps_its_rows_and_columns, chroma_plane, half, luma_plane, pack_i420,
    packed_chroma_stays, packed_luma_stays, Plane,
};
use vstd::prelude::*;

verus! {

/// One plane of an acquired image, with its strides as the camera reports them; a
/// plane may have no bytes.
#[derive(Clone, Copy)]
pub struct ImagePlane<'a> {
    pub bytes: Option<&'a [u8]>,
    pub row_stride: i32,
    pub pixel_stride: i32,
}

/// An image that was acquired from a reader.
#[derive(Clone, Copy)]
pub struct AcquiredImage<'a> {
    pub timestamp_ns: i64,
    /// The handle of its hardware buffer, where it has one.
    pub buffer: Option<u64>,
    /// The first plane: luma, or all the bytes of a compressed image.
    pub first: ImagePlane<'a>,
    pub second: ImagePlane<'a>,
    pub third: ImagePlane<'a>,
}

#[derive(Clone, Copy, PartialEq, Eq, Structural, Debug)]
pub enum CameraFrameLayout {
    Mjpeg,
    I420,
}

#[derive(Clone, Copy, PartialEq, Eq, Structural, Debug)]
pub enum CameraColorMatrix {
    Unknown,
    BT601,
}

/// A frame as its consumers see it.
pub struct CameraFrame<'a> {
    pub timestamp_ns: u64,
    pub width: usize,
    pub height: usize,
    pub layout: CameraFrameLayout,
    pub matrix: CameraColorMatrix,
    pub planes: Vec<Plane<'a>>,
}

/// The bytes that the inputs of video get.
pub enum VideoBytes<'a> {
    /// The compressed image as it is.
    Compressed(&'a [u8]),
    /// The planes, packed into one run.
    Packed(Vec<u8>),
    /// There is no input of video.
    Unused,
}

/// What an image is handed out as.
pub enum Delivered<'a> {
    /// Nobody gets it.
    Nothing,
    HardwareBuffer(AndroidCameraHardwareBufferFrame),
    /// The image was to be handed out in its hardware buffer, and has none.
    BufferMissing,
    Frame { frame: CameraFrame<'a>, video: VideoBytes<'a> },
}

/// Whether a plane is made of these bytes, with these strides.
pub open spec fn is_plane(p: Plane, bytes: Seq<u8>, row_stride: int, pixel_stride: int) -> bool {
    p.bytes@ == bytes && p.row_stride == row_stride && p.pixel_stride == pixel_stride
}

/// A pixel stride, at least one.
pub open spec fn stride_of(n: i32) -> int {
    if n > 1 {
        n as int
    } else {
        1
    }
}

/// Whether a plane is one of an image: no stride is negative, and no pixel stride zero.
pub open spec fn shows_plane(p: Plane, of: ImagePlane) -> bool {
    match of.bytes {
        Some(bytes) => is_plane(
            p,
            bytes@,
            spec_not_negative(of.row_stride as int),
            stride_of(of.pixel_stride),
        ),
        None => false,
    }
}

/// Whether a plane of chroma can be addressed.
pub open spec fn addressable(p: ImagePlane, w: usize, h: usize) -> bool {
    spec_not_negative(p.row_stride as int) * (half(h as int) - 1) + stride_of(p.pixel_stride) * (
    half(w as int) - 1) <= usize::MAX
}

/// Whether the planes of an image can be packed: luma has every row, and chroma can be
/// addressed.
pub open spec fn packable(image: AcquiredImage, w: usize, h: usize) -> bool {
    match (image.first.bytes, image.second.bytes, image.third.bytes) {
        (Some(y), Some(_), Some(_)) => {
            &&& w * h <= usize::MAX
            &&& h > 0 ==> spec_not_negative(image.first.row_stride as int) * (h - 1) + w
                <= y@.len()
            &&& addressable(image.second, w, h)
            &&& addressable(image.third, w, h)
        },
        _ => true,
    }
}

/// The planes of an image in one run: luma, then both planes of chroma.
pub open spec fn packed(image: AcquiredImage, w: int, h: int) -> Seq<u8> {
    let chroma = |p: ImagePlane| match p.bytes {
        Some(bytes) => chroma_plane(
            bytes@,
            spec_not_negative(p.row_stride as int),
            stride_of(p.pixel_stride),
            half(w),
            half(h),
        ),
        None => seq![],
    };
    match image.first.bytes {
        Some(y) => luma_plane(y@, spec_not_negative(image.first.row_stride as int), w, h) + chroma(
            image.second,
        ) + chroma(image.third),
        None => seq![],
    }
}

/// Whether a compressed frame is what an image is handed out as.
pub open spec fn is_compressed(c: AndroidCaptureContext, image: AcquiredImage, d: Delivered) -> bool {
    match image.first.bytes {
        None => d is Nothing,
        Some(bytes) => {
            &&& d matches Delivered::Frame { frame, video }
            &&& is_of(c, image, frame)
            &&& frame.layout is Mjpeg && frame.matrix is Unknown
            &&& frame.planes@.len() == 1
            &&& is_plane(frame.planes@[0], bytes@, bytes@.len() as int, 1)
            &&& if c.dispatch.video_inputs > 0 {
                video matches VideoBytes::Compressed(v) && v@ == bytes@
            } else {
                video is Unused
            }
        },
    }
}

/// Whether a frame has an image's time and the session's size.
pub open spec fn is_of(c: AndroidCaptureContext, image: AcquiredImage, frame: CameraFrame) -> bool {
    &&& frame.timestamp_ns == spec_not_negative(image.timestamp_ns as int)
    &&& frame.width == c.format.width
    &&& frame.height == c.format.height
}

/// Whether a frame of three planes is what an image is handed out as.
pub open spec fn is_planar(c: AndroidCaptureContext, image: AcquiredImage, d: Delivered) -> bool {
    match (image.first.bytes, image.second.bytes, image.third.bytes) {
        (Some(y), Some(_), Some(_)) => {
            &&& d matches Delivered::Frame { frame, video }
            &&& is_of(c, image, frame)
            &&& frame.layout is I420 && frame.matrix is BT601
            &&& frame.planes@.len() == 3
            &&& is_plane(
                frame.planes@[0],
                y@,
                spec_not_negative(image.first.row_stride as int),
                1,
            )
            &&& shows_plane(frame.planes@[1], image.second)
            &&& shows_plane(frame.planes@[2], image.third)
            &&& if c.dispatch.video_inputs > 0 {
                video matches VideoBytes::Packed(v) && v@ == packed(
                    image,
                    c.format.width as int,
                    c.format.height as int,
                )
            } else {
                video is Unused
            }
        },
        _ => d is Nothing,
    }
}

/// What an image is handed out as, by the way that frames of a session take.
pub open spec fn is_delivered(
    route: FrameRoute,
    c: AndroidCaptureContext,
    image: AcquiredImage,
    d: Delivered,
) -> bool {
    match route {
        FrameRoute::Drop => d is Nothing,
        FrameRoute::HardwareBuffer => match image.buffer {
            Some(buffer) => d matches Delivered::HardwareBuffer(f) && f == (
            AndroidCameraHardwareBufferFrame {
                buffer,
                timestamp_ns: spec_not_negative(image.timestamp_ns as int) as u64,
                width: c.format.width as u32,
                height: c.format.height as u32,
            }),
            None => d is BufferMissing,
        },
        FrameRoute::Compressed => is_compressed(c, image, d),
        FrameRoute::Planes => is_planar(c, image, d),
    }
}

fn plane_of<'a>(bytes: &'a [u8], p: ImagePlane<'a>) -> (r: Plane<'a>)
    ensures
        is_plane(
            r,
            bytes@,
            spec_not_negative(p.row_stride as int),
            stride_of(p.pixel_stride),
        ),
{
    Plane {
        bytes,
        row_stride: measure(p.row_stride),
        pixel_stride: pixel_stride(p.pixel_stride),
    }
}

impl AndroidCaptureContext {
    fn compressed<'a>(&self, image: AcquiredImage<'a>) -> (r: Delivered<'a>)
        ensures
            is_compressed(*self, image, r),
    {
        let bytes = match image.first.bytes {
            Some(bytes) => bytes,
            None => {
                return Delivered::Nothing;
            },
        };
        let mut planes: Vec<Plane<'a>> = Vec::new();
        planes.push(Plane { bytes, row_stride: bytes.len(), pixel_stride: 1 });
        let frame = CameraFrame {
            timestamp_ns: timestamp(image.timestamp_ns),
            width: self.format.width,
            height: self.format.height,
            layout: CameraFrameLayout::Mjpeg,
            matrix: CameraColorMatrix::Unknown,
            planes,
        };
        let video = if self.dispatch.video_inputs > 0 {
            VideoBytes::Compressed(bytes)
        } else {
            VideoBytes::Unused
        };
        Delivered::Frame { frame, video }
    }

    fn planar<'a>(&self, image: AcquiredImage<'a>) -> (r: Delivered<'a>)
        requires
            self.dispatch.video_inputs > 0 ==> packable(
                image,
                self.format.width,
                self.format.height,
            ),
        ensures
            is_planar(*self, image, r),
    {
        match (image.first.bytes, image.second.bytes, image.third.bytes) {
            (Some(y), Some(u), Some(v)) => {
                let luma = Plane {
                    bytes: y,
                    row_stride: measure(image.first.row_stride),
                    pixel_stride: 1,
                };
                let second = plane_of(u, image.second);
                let third = plane_of(v, image.third);
                let video = if self.dispatch.video_inputs > 0 {
                    VideoBytes::Packed(
                        pack_i420(&luma, &second, &third, self.format.width, self.format.height),
                    )
                } else {
                    VideoBytes::Unused
                };
                let mut planes: Vec<Plane<'a>> = Vec::new();
                planes.push(luma);
                planes.push(second);
                planes.push(third);
                let frame = CameraFrame {
                    timestamp_ns: timestamp(image.timestamp_ns),
                    width: self.format.width,
                    height: self.format.height,
                    layout: CameraFrameLayout::I420,
                    matrix: CameraColorMatrix::BT601,
                    planes,
                };
                Delivered::Frame { frame, video }
            },
            _ => Delivered::Nothing,
        }
    }

    /// What an image is handed out as. The planes are packed where an input of video
    /// takes them; they must then hold a whole picture.
    pub fn image_available<'a>(&mut self, image: AcquiredImage<'a>) -> (r: Delivered<'a>)
        requires
            old(self).route() is Planes && old(self).dispatch.video_inputs > 0 ==> packable(
                image,
                old(self).format.width,
                old(self).format.height,
            ),
        ensures
            is_delivered(old(self).route(), *old(self), image, r),
            *final(self) == (AndroidCaptureContext {
                logged_first_hardware_buffer_frame: old(self).logged_first_hardware_buffer_frame
                    || r is HardwareBuffer,
                ..*old(self)
            }),
    {
        match self.frame_route() {
            FrameRoute::Drop => Delivered::Nothing,
            FrameRoute::HardwareBuffer => match image.buffer {
                Some(buffer) => Delivered::HardwareBuffer(
                    self.hardware_frame(buffer, image.timestamp_ns),
                ),
                None => Delivered::BufferMissing,
            },
            FrameRoute::Compressed => self.compressed(image),
            FrameRoute::Planes => self.planar(image),
        }
    }
}

/// Once a session is over, nobody gets an image of it.
pub proof fn a_dead_session_delivers_nothing(
    c: AndroidCaptureContext,
    image: AcquiredImage,
    d: Delivered,
)
    requires
        !c.alive,
        is_delivered(c.route(), c, image, d),
    ensures
        d is Nothing,
{
}

/// An image whose planes have no gaps is packed as it is: luma, then the second plane, then
/// the third.
pub proof fn an_image_without_gaps_is_packed_as_it_is(
    image: AcquiredImage,
    y: Seq<u8>,
    u: Seq<u8>,
    v: Seq<u8>,
    w: int,
    h: int,
)
    requires
        0 < w && 0 < h,
        image.first.bytes matches Some(b) && b@ == y,
        image.second.bytes matches Some(b) && b@ == u,
        image.third.bytes matches Some(b) && b@ == v,
        image.first.row_stride == w,
        image.second.row_stride == (w + 1) / 2 && image.second.pixel_stride == 1,
        image.third.row_stride == (w + 1) / 2 && image.third.pixel_stride == 1,
        y.len() == w * h,
        u.len() == ((w + 1) / 2) * ((h + 1) / 2),
        v.len() == u.len(),
    ensures
        packed(image, w, h) == y + u + v,
{
    packed_luma_stays(y, w, h);
    packed_chroma_stays(u, (w + 1) / 2, (h + 1) / 2);
    packed_chroma_stays(v, (w + 1) / 2, (h + 1) / 2);
}

/// In a packed image each pixel is the one of its row and column in the plane it came
/// from, gaps between rows and between pixels left out.
pub proof fn packing_leaves_gaps_out(
    image: AcquiredImage,
    y: Seq<u8>,
    u: Seq<u8>,
    v: Seq<u8>,
    w: int,
    h: int,
    row: int,
    col: int,
)
    requires
        0 <= row < h && 0 <= col < w,
        image.first.bytes matches Some(b) && b@ == y,
        image.second.bytes matches Some(b) && b@ == u,
        image.third.bytes matches Some(b) && b@ == v,
        image.first.row_stride >= 0,
        image.second.row_stride >= 0 && image.second.pixel_stride >= 1,
        image.third.row_stride >= 0 && image.third.pixel_stride >= 1,
    ensures
        ({
            let all = packed(image, w, h);
            let (cw, ch) = ((w + 1) / 2, (h + 1) / 2);
            let i = row * image.second.row_stride + col * image.second.pixel_stride;
            let j = row * image.third.row_stride + col * image.third.pixel_stride;
            &&& all.len() == w * h + 2 * (cw * ch)
            &&& all[row * w + col] == y[image.first.row_stride * row + col]
            &&& row < ch && col < cw && i < u.len() ==> all[w * h + (row * cw + col)] == u[i]
            &&& row < ch && col < cw && j < v.len() ==> all[w * h + cw * ch + (row * cw + col)]
                == v[j]
        }),
{
    let (cw, ch) = ((w + 1) / 2, (h + 1) / 2);
    cell_in_plane(row, col, w, h);
    let l = luma_plane(y, image.first.row_stride as int, w, h);
    assert(l[row * w + col] == y[image.first.row_stride * row + col]);
    let (ur, up) = (image.second.row_stride as int, image.second.pixel_stride as int);
    let (vr, vp) = (image.third.row_stride as int, image.third.pixel_stride as int);
    assert(packed(image, w, h) == l + chroma_plane(u, ur, up, cw, ch) + chroma_plane(
        v,
        vr,
        vp,
        cw,
        ch,
    ));
    assert(l.len() == w * h);
    assert(0 <= cw * ch) by (nonlinear_arith)
        requires
            0 <= cw,
            0 <= ch,
    ;
    if row < ch && col < cw {
        cell_in_plane(row, col, cw, ch);
        chroma_keeps_its_rows_and_columns(u, ur, up, cw, ch, row, col);
        chroma_keeps_its_rows_and_columns(v, vr, vp, cw, ch, row, col);
        assert(ch * cw == cw * ch) by (nonlinear_arith);
    }
}

} // verus!
