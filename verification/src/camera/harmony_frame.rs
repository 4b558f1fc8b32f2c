//! A frame of an OpenHarmony camera, from the mapped buffer to the slot from which it
//! is drawn.
use crate::camera::frame::{
    covers, half, packed_layout, planes_layout, read_frame, shows, spec_packed_layout,
    spec_pitch, spec_planes_layout, FrameShared, NativeBufferPlane, PlaneLayout,
    NATIVEBUFFER_PIXEL_FMT_YCBCR_420_SP, NATIVEBUFFER_PIXEL_FMT_YCRCB_420_SP,
};
use vstd::prelude::*;

verus! {

/// An image whose buffer is mapped.
pub struct MappedImage<'a> {
    pub width: u32,
    pub height: u32,
    /// The format of the buffer; negative where it is not known.
    pub format: i32,
    pub bytes: &'a [u8],
    /// The planes that the driver describes.
    pub planes: Vec<NativeBufferPlane>,
    /// The row stride of the image's component, where it is known.
    pub row_stride: Option<i32>,
}

/// A run of bytes in a mapped buffer.
#[derive(Clone, Copy, PartialEq, Eq, Structural, Debug)]
pub struct Run {
    pub start: usize,
    pub len: usize,
}

/// What those see that take frames as they are: luma, and pairs of chroma.
#[derive(Clone, Copy, PartialEq, Eq, Structural, Debug)]
pub struct RawFrame {
    pub y: Run,
    pub y_stride: usize,
    pub uv: Run,
    pub uv_stride: usize,
    /// Luma and chroma in one run.
    pub whole: Run,
}

/// What came of an image.
#[derive(Clone, Copy, PartialEq, Eq, Structural, Debug)]
pub struct FrameRead {
    /// It is the first of the session, which is noted.
    pub first: bool,
    /// It is in a format that is not expected, which is noted once.
    pub unexpected: bool,
    pub raw: Option<RawFrame>,
}

/// Where the pixels of an image are: as its planes say, where there are at least two,
/// and else packed.
pub open spec fn layout_of(image: MappedImage) -> PlaneLayout {
    if image.planes@.len() >= 2 {
        spec_planes_layout(image.planes@, image.format, image.width, image.height)
    } else {
        spec_packed_layout(image.row_stride, image.format, image.width, image.height)
    }
}

/// Whether an image is in one of the formats that are read.
pub open spec fn expected(format: i32) -> bool {
    format < 0 || format == NATIVEBUFFER_PIXEL_FMT_YCBCR_420_SP || format
        == NATIVEBUFFER_PIXEL_FMT_YCRCB_420_SP
}

/// Whether the mapped bytes hold the picture: where it is taken as it is, all of each
/// row, and else its pixels.
pub open spec fn holds(image: MappedImage, is_taken: bool) -> bool {
    let layout = layout_of(image);
    &&& image.planes@.len() >= 2 ==> image.planes@[0].offset + spec_pitch(
        image.planes@[0],
        image.width,
        image.width,
    ) * image.height <= u64::MAX
    &&& covers(layout, image.width, image.height, image.bytes@.len())
    &&& image.width * image.height <= usize::MAX
    &&& is_taken ==> {
        &&& layout.y_off + layout.y_stride * image.height <= image.bytes@.len()
        &&& layout.uv_off + layout.uv_stride * half(image.height as int) <= image.bytes@.len()
    }
}

/// What those see that take an image as it is.
pub open spec fn raw_of(image: MappedImage) -> RawFrame {
    let layout = layout_of(image);
    let chroma = layout.uv_stride * half(image.height as int);
    RawFrame {
        y: Run {
            start: layout.y_off as usize,
            len: (layout.y_stride * image.height) as usize,
        },
        y_stride: layout.y_stride as usize,
        uv: Run { start: layout.uv_off as usize, len: chroma as usize },
        uv_stride: layout.uv_stride as usize,
        whole: Run {
            start: layout.y_off as usize,
            len: (layout.uv_off - layout.y_off + chroma) as usize,
        },
    }
}

fn layout(image: &MappedImage) -> (r: PlaneLayout)
    requires
        holds(*image, false),
    ensures
        r == layout_of(*image),
        r.uv_off >= r.y_off,
{
    if image.planes.len() >= 2 {
        let r = planes_layout(&image.planes, image.format, image.width, image.height);
        assert(r.y_stride * image.height >= 0) by (nonlinear_arith)
            requires
                r.y_stride >= 0,
                image.height >= 0,
        ;
        r
    } else {
        packed_layout(image.row_stride, image.format, image.width, image.height)
    }
}

fn raw(image: &MappedImage) -> (r: RawFrame)
    requires
        image.height > 0,
        holds(*image, true),
    ensures
        r == raw_of(*image),
{
    let l = layout(image);
    let h: usize = image.height as usize;
    let ch: usize = (h - 1) / 2 + 1;
    assert(half(image.height as int) == ch);
    assert(l.y_stride * h >= 0 && l.uv_stride * ch >= 0) by (nonlinear_arith)
        requires
            l.y_stride >= 0,
            l.uv_stride >= 0,
            h >= 0,
            ch >= 0,
    ;
    assert(l.y_off + l.y_stride * h <= image.bytes@.len());
    assert(l.uv_off + l.uv_stride * ch <= image.bytes@.len());
    assert(image.bytes.len() <= usize::MAX);
    let chroma: usize = l.uv_stride as usize * ch;
    RawFrame {
        y: Run { start: l.y_off as usize, len: l.y_stride as usize * h },
        y_stride: l.y_stride as usize,
        uv: Run { start: l.uv_off as usize, len: chroma },
        uv_stride: l.uv_stride as usize,
        whole: Run {
            start: l.y_off as usize,
            len: l.uv_off as usize - l.y_off as usize + chroma,
        },
    }
}

/// Whether a slot has changed as a frame changes it: the frame that an image shows is
/// the latest, and the spare buffers were used for it.
pub open spec fn is_published(before: FrameShared, after: FrameShared, image: MappedImage) -> bool {
    &&& after.latest matches Some(frame)
    &&& shows(frame, image.bytes@, layout_of(image), image.width, image.height)
    &&& after == (FrameShared { spare: None, logged: true, ..before }).published(frame)
}

impl FrameShared {
    /// An image has arrived: its picture is the latest. An image without a size is
    /// passed over. `is_taken` is whether somebody takes frames as they are.
    pub fn image_arrived(&mut self, image: &MappedImage, is_taken: bool) -> (r: Option<FrameRead>)
        requires
            image.width > 0 && image.height > 0 ==> holds(*image, is_taken),
        ensures
            if image.width == 0 || image.height == 0 {
                r is None && *final(self) == *old(self)
            } else {
                &&& r == Some(
                    FrameRead {
                        first: !old(self).logged,
                        unexpected: !old(self).logged && !expected(image.format),
                        raw: if is_taken {
                            Some(raw_of(*image))
                        } else {
                            None
                        },
                    },
                )
                &&& is_published(*old(self), *final(self), *image)
            },
    {
        if image.width == 0 || image.height == 0 {
            return None;
        }
        let l = layout(image);
        let known = image.format < 0 || image.format == NATIVEBUFFER_PIXEL_FMT_YCBCR_420_SP
            || image.format == NATIVEBUFFER_PIXEL_FMT_YCRCB_420_SP;
        let first = self.log_once();
        let spare = self.take_spare();
        let frame = read_frame(image.bytes, l, image.width, image.height, spare);
        self.publish(frame);
        let raw = if is_taken {
            Some(raw(image))
        } else {
            None
        };
        Some(FrameRead { first, unexpected: first && !known, raw })
    }
}

/// What is taken as it is lies in the mapped bytes.
pub proof fn raw_frames_are_mapped(image: MappedImage)
    requires
        image.height > 0,
        holds(image, true),
    ensures
        ({
            let raw = raw_of(image);
            &&& raw.y.start + raw.y.len <= image.bytes@.len()
            &&& raw.uv.start + raw.uv.len <= image.bytes@.len()
        }),
{
    let l = layout_of(image);
    let ch = half(image.height as int);
    assert(l.y_stride * image.height >= 0 && l.uv_stride * ch >= 0) by (nonlinear_arith)
        requires
            l.y_stride >= 0,
            l.uv_stride >= 0,
            image.height >= 0,
            ch >= 0,
    ;
}

/// What is taken of an image besides the frame is its rows: as many of luma as it is high,
/// half as many of chroma, each a stride long, and one run from the first of luma to the
/// last of chroma.
pub proof fn raw_frames_hold_all_rows(image: MappedImage)
    requires
        image.height > 0,
        holds(image, true),
        image.bytes@.len() <= usize::MAX,
    ensures
        ({
            let raw = raw_of(image);
            &&& raw.y.len == image.height * raw.y_stride
            &&& raw.uv.len == (image.height + 1) / 2 * raw.uv_stride
            &&& raw.uv.start >= raw.y.start + raw.y.len
            &&& raw.whole.start == raw.y.start
            &&& raw.whole.start + raw.whole.len == raw.uv.start + raw.uv.len
        }),
{
    let layout = layout_of(image);
    let h = image.height as int;
    let ch = half(h);
    assert(layout.y_stride * h == h * layout.y_stride) by (nonlinear_arith);
    assert(layout.uv_stride * ch == ch * layout.uv_stride) by (nonlinear_arith);
    assert(0 <= layout.y_stride * h) by (nonlinear_arith)
        requires
            0 <= h,
    ;
    assert(0 <= layout.uv_stride * ch) by (nonlinear_arith)
        requires
            0 <= ch,
    ;
    if image.planes@.len() < 2 {
        let s = layout.y_stride as int;
        assert(s * h <= u64::MAX) by (nonlinear_arith)
            requires
                0 <= s <= u32::MAX,
                0 <= h <= u32::MAX,
        ;
    }
}

/// An image is read as its planes say where it has two or more, and otherwise as one run of
/// rows without gaps or with the stride that is given.
pub proof fn an_image_is_read_as_its_planes_say(image: MappedImage)
    requires
        image.width <= i32::MAX,
    ensures
        image.planes@.len() >= 2 ==> layout_of(image).y_off == image.planes@[0].offset,
        image.planes@.len() < 2 ==> layout_of(image).y_off == 0 && layout_of(image).uv_stride
            == layout_of(image).y_stride,
        image.planes@.len() < 2 && image.row_stride is None ==> layout_of(image).y_stride
            == image.width,
        image.planes@.len() < 2 ==> (image.row_stride matches Some(s) ==> if s >= image.width {
            layout_of(image).y_stride == s
        } else {
            layout_of(image).y_stride == image.width
        }),
        image.planes@.len() < 2 ==> (layout_of(image).swap_uv <==> image.format == 25),
        expected(24) && expected(25) && expected(-1i32) && !expected(0),
{
}

} // verus!
