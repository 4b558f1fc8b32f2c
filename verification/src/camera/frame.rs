//! Frames: reading mapped camera buffers into tightly packed planes.
use vstd::prelude::*;

verus! {

/// Half of a side, rounded up: the size of a chroma plane.
pub open spec fn half(n: int) -> int {
    (n + 1) / 2
}

/// Where a pixel of a packed plane stands.
pub open spec fn cell(row: int, col: int, width: int) -> int {
    row * width + col
}

/// A pixel of a packed plane is inside it.
pub proof fn cell_in_plane(row: int, col: int, width: int, height: int)
    requires
        0 <= row < height,
        0 <= col < width,
    ensures
        0 <= cell(row, col, width) < width * height,
        cell(row, col, width) / width == row,
        cell(row, col, width) % width == col,
{
    assert(row * width + width <= width * height) by (nonlinear_arith)
        requires
            0 <= row < height,
            0 <= width,
    ;
    assert(0 <= row * width) by (nonlinear_arith)
        requires
            0 <= row,
            0 <= width,
    ;
    vstd::arithmetic::div_mod::lemma_fundamental_div_mod_converse(
        row * width + col,
        width,
        row,
        col,
    );
}

/// A frame ready for upload: tightly packed I420.
pub struct I420Frame {
    pub width: u32,
    pub height: u32,
    pub y: Vec<u8>,
    pub u: Vec<u8>,
    pub v: Vec<u8>,
}

impl I420Frame {
    /// An empty frame.
    pub fn empty() -> (r: I420Frame)
        ensures
            r.width == 0,
            r.height == 0,
            r.y@.len() == 0,
            r.u@.len() == 0,
            r.v@.len() == 0,
    {
        I420Frame { width: 0, height: 0, y: Vec::new(), u: Vec::new(), v: Vec::new() }
    }

    /// The planes have the sizes that the frame's size asks for.
    pub open spec fn wf(&self) -> bool {
        &&& self.y@.len() == self.width * self.height
        &&& self.u@.len() == half(self.width as int) * half(self.height as int)
        &&& self.v@.len() == half(self.width as int) * half(self.height as int)
    }
}

/// One plane as a driver describes it.
#[derive(Clone, Copy, PartialEq, Eq, Structural, Debug)]
pub struct NativeBufferPlane {
    pub offset: u64,
    pub row_stride: u32,
    pub column_stride: u32,
}

/// `OH_NativeBuffer_Format` of the semi-planar layout with U first.
pub const NATIVEBUFFER_PIXEL_FMT_YCBCR_420_SP: i32 = 24;

/// `OH_NativeBuffer_Format` of the semi-planar layout with V first.
pub const NATIVEBUFFER_PIXEL_FMT_YCRCB_420_SP: i32 = 25;

/// Where the luma and the interleaved chroma of a mapped buffer are.
#[derive(Clone, Copy, PartialEq, Eq, Structural, Debug)]
pub struct PlaneLayout {
    pub y_off: u64,
    pub y_stride: u32,
    pub uv_off: u64,
    pub uv_stride: u32,
    /// The first byte of a chroma pair is V.
    pub swap_uv: bool,
}

/// The smaller of the two strides that spans a row of `width` bytes; the
/// fallback if neither does.
pub open spec fn spec_pitch(plane: NativeBufferPlane, width: u32, fallback: u32) -> u32 {
    let (r, c) = (plane.row_stride, plane.column_stride);
    if r >= width && c >= width {
        if r <= c {
            r
        } else {
            c
        }
    } else if r >= width {
        r
    } else if c >= width {
        c
    } else {
        fallback
    }
}

fn pitch(plane: &NativeBufferPlane, width: u32, fallback: u32) -> (r: u32)
    ensures
        r == spec_pitch(*plane, width, fallback),
{
    let (r, c): (u32, u32) = (plane.row_stride, plane.column_stride);
    if r >= width && c >= width {
        if r <= c {
            r
        } else {
            c
        }
    } else if r >= width {
        r
    } else if c >= width {
        c
    } else {
        fallback
    }
}

/// The first chroma byte that the planes name: that of the second plane, or of
/// whichever of the second and third comes first.
pub open spec fn named_chroma(planes: Seq<NativeBufferPlane>) -> u64 {
    if planes.len() >= 3 && planes[2].offset < planes[1].offset {
        planes[2].offset
    } else {
        planes[1].offset
    }
}

/// Whether the chroma pairs start with V: two chroma planes one byte apart are
/// the interleaved pair and say so themselves; else the pixel format does.
pub open spec fn chroma_swapped(planes: Seq<NativeBufferPlane>, format: i32) -> bool {
    if planes.len() >= 3 && planes[1].offset == planes[2].offset + 1 {
        true
    } else if planes.len() >= 3 && planes[2].offset == planes[1].offset + 1 {
        false
    } else {
        format == NATIVEBUFFER_PIXEL_FMT_YCRCB_420_SP
    }
}

/// The layout that described planes have. Drivers fill the fields oddly, so a
/// stride counts only if it spans a row, and chroma only if it lies behind the
/// luma.
pub open spec fn spec_planes_layout(
    planes: Seq<NativeBufferPlane>,
    format: i32,
    width: u32,
    height: u32,
) -> PlaneLayout {
    let y_off = planes[0].offset;
    let y_stride = spec_pitch(planes[0], width, width);
    let luma_end = y_off + y_stride * height;
    let named = named_chroma(planes);
    PlaneLayout {
        y_off,
        y_stride,
        uv_off: if named < luma_end || named == 0 {
            luma_end as u64
        } else {
            named
        },
        uv_stride: spec_pitch(planes[1], width, y_stride),
        swap_uv: chroma_swapped(planes, format),
    }
}

/// The layout that a buffer's planes have, where the driver describes at least
/// two.
pub fn planes_layout(planes: &Vec<NativeBufferPlane>, format: i32, width: u32, height: u32) -> (r:
    PlaneLayout)
    requires
        planes.len() >= 2,
        planes@[0].offset + spec_pitch(planes@[0], width, width) * height <= u64::MAX,
    ensures
        r == spec_planes_layout(planes@, format, width, height),
        r.y_stride >= width,
        r.uv_stride >= width,
        r.uv_off >= r.y_off + r.y_stride * height,
{
    let mut swap_uv = format == NATIVEBUFFER_PIXEL_FMT_YCRCB_420_SP;
    let y_off: u64 = planes[0].offset;
    let y_stride: u32 = pitch(&planes[0], width, width);
    let p1 = planes[1];
    let mut uv_off: u64 = p1.offset;
    if planes.len() >= 3 {
        let p2 = planes[2];
        if p2.offset < p1.offset {
            uv_off = p2.offset;
            if p1.offset - p2.offset == 1 {
                swap_uv = true;
            }
        } else if p2.offset - p1.offset == 1 {
            swap_uv = false;
        }
    }
    let uv_stride: u32 = pitch(&p1, width, y_stride);
    assert(0 <= y_stride * height <= 0xffff_ffff * 0xffff_ffff) by (nonlinear_arith)
        requires
            0 <= y_stride <= 0xffff_ffff,
            0 <= height <= 0xffff_ffff,
    ;
    let luma: u64 = (y_stride as u64) * (height as u64);
    let luma_end: u64 = y_off + luma;
    if uv_off == 0 || uv_off < luma_end {
        uv_off = luma_end;
    }
    PlaneLayout { y_off, y_stride, uv_off, uv_stride, swap_uv }
}

/// The layout of a buffer whose driver describes no planes: packed, with the
/// component's row stride where that is known and spans a row.
pub open spec fn spec_packed_layout(stride: Option<i32>, format: i32, width: u32, height: u32) -> PlaneLayout {
    let y_stride = match stride {
        Some(s) if s >= width as i32 => s as u32,
        _ => width,
    };
    PlaneLayout {
        y_off: 0,
        y_stride,
        uv_off: (y_stride * height) as u64,
        uv_stride: y_stride,
        swap_uv: format == NATIVEBUFFER_PIXEL_FMT_YCRCB_420_SP,
    }
}

/// The layout of a buffer whose driver describes no planes.
pub fn packed_layout(stride: Option<i32>, format: i32, width: u32, height: u32) -> (r: PlaneLayout)
    ensures
        r == spec_packed_layout(stride, format, width, height),
        width <= i32::MAX ==> r.y_stride >= width,
{
    let y_stride: u32 = match stride {
        Some(s) => if s < #[verifier::truncate] (width as i32) {
            width
        } else {
            #[verifier::truncate] (s as u32)
        },
        None => width,
    };
    assert(0 <= y_stride * height <= 0xffff_ffff * 0xffff_ffff) by (nonlinear_arith)
        requires
            0 <= y_stride <= 0xffff_ffff,
            0 <= height <= 0xffff_ffff,
    ;
    PlaneLayout {
        y_off: 0,
        y_stride,
        uv_off: (y_stride as u64) * (height as u64),
        uv_stride: y_stride,
        swap_uv: format == NATIVEBUFFER_PIXEL_FMT_YCRCB_420_SP,
    }
}

/// Whether the mapped bytes hold every pixel of a frame.
pub open spec fn covers(layout: PlaneLayout, width: u32, height: u32, len: nat) -> bool {
    let (cw, ch) = (half(width as int), half(height as int));
    &&& layout.y_off + layout.y_stride * (height - 1) + width <= len
    &&& layout.uv_off + layout.uv_stride * (ch - 1) + 2 * cw <= len
}

/// The luma of a pixel.
pub open spec fn luma(bytes: Seq<u8>, layout: PlaneLayout, row: int, col: int) -> u8 {
    bytes[layout.y_off + layout.y_stride * row + col]
}

/// One of the two chroma bytes of a pixel pair: the first or the second.
pub open spec fn chroma(bytes: Seq<u8>, layout: PlaneLayout, row: int, col: int, second: bool) -> u8 {
    bytes[layout.uv_off + layout.uv_stride * row + 2 * col + (if second {
        1int
    } else {
        0int
    })]
}

/// A frame holds exactly the pixels of a mapped buffer.
pub open spec fn shows(frame: I420Frame, bytes: Seq<u8>, layout: PlaneLayout, width: u32, height: u32) -> bool {
    let (cw, ch) = (half(width as int), half(height as int));
    &&& frame.width == width
    &&& frame.height == height
    &&& frame.wf()
    &&& forall|row: int, col: int|
        0 <= row < height && 0 <= col < width ==> #[trigger] frame.y@[cell(row, col, width as int)]
            == luma(bytes, layout, row, col)
    &&& forall|row: int, col: int|
        0 <= row < ch && 0 <= col < cw ==> #[trigger] frame.u@[cell(row, col, cw)] == chroma(
            bytes,
            layout,
            row,
            col,
            layout.swap_uv,
        )
    &&& forall|row: int, col: int|
        0 <= row < ch && 0 <= col < cw ==> #[trigger] frame.v@[cell(row, col, cw)] == chroma(
            bytes,
            layout,
            row,
            col,
            !layout.swap_uv,
        )
}

/// The bytes at `base`, `base + stride`, ..., `count` rows of `len` bytes each
/// taken every `step` bytes, in one run.
fn gather(
    bytes: &[u8],
    base: usize,
    stride: usize,
    step: usize,
    rows: usize,
    cols: usize,
    reuse: Vec<u8>,
) -> (r: Vec<u8>)
    requires
        1 <= step <= 2,
        rows > 0 && cols > 0,
        base + stride * (rows - 1) + step * (cols - 1) < bytes.len(),
        cols * rows <= usize::MAX,
    ensures
        r@.len() == cols * rows,
        forall|row: int, col: int|
            0 <= row < rows && 0 <= col < cols ==> #[trigger] r@[cell(row, col, cols as int)]
                == bytes@[base + stride * row + step * col],
{
    let mut r = reuse;
    r.clear();
    let mut row: usize = 0;
    let mut start: usize = base;
    assert(stride * 0 == 0) by (nonlinear_arith);
    assert(cols * 0 == 0) by (nonlinear_arith);
    while row < rows
        invariant
            1 <= step <= 2,
            rows > 0 && cols > 0,
            base + stride * (rows - 1) + step * (cols - 1) < bytes.len(),
            cols * rows <= usize::MAX,
            row <= rows,
            row < rows ==> start == base + stride * row,
            r@.len() == cols * row,
            forall|i: int, col: int|
                0 <= i < row && 0 <= col < cols ==> #[trigger] r@[cell(i, col, cols as int)]
                    == bytes@[base + stride * i + step * col],
        decreases rows - row,
    {
        let ghost done = r@;
        assert(stride * row <= stride * (rows - 1)) by (nonlinear_arith)
            requires
                row <= rows - 1,
                0 <= stride,
        ;
        let mut col: usize = 0;
        let mut i: usize = start;
        while col < cols
            invariant
                1 <= step <= 2,
                rows > 0 && cols > 0,
                base + stride * (rows - 1) + step * (cols - 1) < bytes.len(),
                stride * row <= stride * (rows - 1),
                start == base + stride * row,
                row < rows,
                col <= cols,
                col < cols ==> i == start + step * col,
                r@.len() == done.len() + col,
                done.len() == cols * row,
                forall|j: int| 0 <= j < done.len() ==> r@[j] == done[j],
                forall|c: int|
                    0 <= c < col ==> #[trigger] r@[done.len() + c] == bytes@[base + stride * row
                        + step * c],
            decreases cols - col,
        {
            assert(step * col <= step * (cols - 1)) by (nonlinear_arith)
                requires
                    col <= cols - 1,
                    1 <= step,
            ;
            r.push(bytes[i]);
            assert(step * (col + 1) == step * col + step) by (nonlinear_arith);
            col = col + 1;
            if col < cols {
                assert(step * col <= step * (cols - 1)) by (nonlinear_arith)
                    requires
                        col <= cols - 1,
                        1 <= step,
                ;
                i = i + step;
            }
        }
        proof {
            assert(cols * (row + 1) == cols * row + cols) by (nonlinear_arith);
            assert forall|k: int, c: int| 0 <= k < row + 1 && 0 <= c < cols implies #[trigger] r@[cell(
                k,
                c,
                cols as int,
            )] == bytes@[base + stride * k + step * c] by {
                if k < row {
                    cell_in_plane(k, c, cols as int, row as int);
                    assert(done[cell(k, c, cols as int)] == bytes@[base + stride * k + step * c]);
                } else {
                    assert(cell(k, c, cols as int) == done.len() + c) by (nonlinear_arith)
                        requires
                            k == row,
                            done.len() == cols * row,
                            cell(k, c, cols as int) == k * cols + c,
                    ;
                }
            }
        }
        row = row + 1;
        if row < rows {
            assert(stride * row == stride * (row - 1) + stride) by (nonlinear_arith);
            assert(stride * row <= stride * (rows - 1)) by (nonlinear_arith)
                requires
                    row <= rows - 1,
                    0 <= stride,
            ;
            start = start + stride;
        }
    }
    r
}

/// Reads a mapped semi-planar buffer into the three planes of a frame, using
/// the buffers of a frame that is no longer needed.
pub fn read_frame(
    bytes: &[u8],
    layout: PlaneLayout,
    width: u32,
    height: u32,
    spare: I420Frame,
) -> (r: I420Frame)
    requires
        width > 0,
        height > 0,
        covers(layout, width, height, bytes@.len()),
        width * height <= usize::MAX,
    ensures
        shows(r, bytes@, layout, width, height),
{
    let (w, h): (usize, usize) = (width as usize, height as usize);
    let cw: usize = (w - 1) / 2 + 1;
    let ch: usize = (h - 1) / 2 + 1;
    proof {
        assert(half(width as int) == cw);
        assert(half(height as int) == ch);
        assert(0 <= layout.y_stride * (height - 1)) by (nonlinear_arith)
            requires
                layout.y_stride >= 0,
                height >= 1,
        ;
        assert(0 <= layout.uv_stride * (ch - 1)) by (nonlinear_arith)
            requires
                layout.uv_stride >= 0,
                ch >= 1,
        ;
        assert(cw * ch <= width * height) by (nonlinear_arith)
            requires
                0 <= cw <= width,
                0 <= ch <= height,
        ;
    }
    let (first, second): (usize, usize) = if layout.swap_uv {
        (1, 0)
    } else {
        (0, 1)
    };
    let uv: usize = layout.uv_off as usize;
    let uv_stride: usize = layout.uv_stride as usize;
    let y = gather(bytes, layout.y_off as usize, layout.y_stride as usize, 1, h, w, spare.y);
    let u = gather(bytes, uv + first, uv_stride, 2, ch, cw, spare.u);
    let v = gather(bytes, uv + second, uv_stride, 2, ch, cw, spare.v);
    let r = I420Frame { width, height, y, u, v };
    proof {
        assert forall|row: int, col: int| 0 <= row < height && 0 <= col < width implies #[trigger] r.y@[cell(
            row,
            col,
            width as int,
        )] == luma(bytes@, layout, row, col) by {}
    }
    r
}

// ---------------------------------------------------------------------------
// The slot between the camera thread and the one that draws
// ---------------------------------------------------------------------------

/// The newest frame, and a frame whose buffers can be used again.
pub struct FrameShared {
    /// The receiver that frames are read from; zero once the session stops.
    pub receiver: u64,
    pub latest: Option<I420Frame>,
    pub spare: Option<I420Frame>,
    /// Frames published, counted modulo the range.
    pub frames: u64,
    /// Whether the first frame has been logged.
    pub logged: bool,
}

impl FrameShared {
    pub fn new(receiver: u64) -> (r: FrameShared)
        ensures
            r.receiver == receiver,
            r.latest is None,
            r.spare is None,
            r.frames == 0,
            !r.logged,
    {
        FrameShared { receiver, latest: None, spare: None, frames: 0, logged: false }
    }

    /// The newest converted frame, leaving nothing behind (latest wins).
    pub fn take_latest(&mut self) -> (r: Option<I420Frame>)
        ensures
            r == old(self).latest,
            *final(self) == (FrameShared { latest: None, ..*old(self) }),
    {
        self.latest.take()
    }

    /// Returns a frame's buffers for reuse; one set of them is kept.
    pub fn recycle(&mut self, frame: I420Frame)
        ensures
            *final(self) == (FrameShared {
                spare: if old(self).spare is None {
                    Some(frame)
                } else {
                    old(self).spare
                },
                ..*old(self)
            }),
    {
        if self.spare.is_none() {
            self.spare = Some(frame);
        }
    }

    /// The buffers to read the next frame into.
    pub fn take_spare(&mut self) -> (r: I420Frame)
        ensures
            *final(self) == (FrameShared { spare: None, ..*old(self) }),
            old(self).spare matches Some(f) ==> r == f,
            old(self).spare is None ==> r.y@.len() == 0 && r.u@.len() == 0 && r.v@.len() == 0,
    {
        match self.spare.take() {
            Some(f) => f,
            None => I420Frame::empty(),
        }
    }

    /// The slot after a frame is published: it is the latest, and one that
    /// nobody took in time goes to reuse.
    pub open spec fn published(self, frame: I420Frame) -> FrameShared {
        FrameShared {
            latest: Some(frame),
            spare: if self.latest is Some && self.spare is None {
                self.latest
            } else {
                self.spare
            },
            frames: if self.frames == u64::MAX {
                0
            } else {
                (self.frames + 1) as u64
            },
            ..self
        }
    }

    /// Publishes a frame as the latest.
    pub fn publish(&mut self, frame: I420Frame)
        ensures
            *final(self) == old(self).published(frame),
    {
        let old_latest = self.latest.take();
        self.latest = Some(frame);
        if let Some(f) = old_latest {
            self.recycle(f);
        }
        self.frames = self.frames.wrapping_add(1);
    }

    /// The first frame is logged once.
    pub fn log_once(&mut self) -> (r: bool)
        ensures
            r == !old(self).logged,
            *final(self) == (FrameShared { logged: true, ..*old(self) }),
    {
        let first = !self.logged;
        self.logged = true;
        first
    }

    /// Whether a callback of this receiver is this session's.
    pub fn is_from(&self, receiver: u64) -> (r: bool)
        ensures
            r == (self.receiver == receiver),
    {
        self.receiver == receiver
    }

    /// The session stops: a callback in flight reads nothing.
    pub fn park(&mut self)
        ensures
            *final(self) == (FrameShared { receiver: 0, ..*old(self) }),
    {
        self.receiver = 0;
    }
}

/// Latest wins: of two frames published without a reader in between, the second
/// is what is taken, and a second take finds nothing.
pub proof fn latest_frame_wins(s: FrameShared, first: I420Frame, second: I420Frame)
    ensures
        s.published(first).published(second).latest == Some(second),
        (FrameShared { latest: None, ..s.published(first).published(second) }).latest is None,
{
}

/// A published frame that nobody took is kept for reuse where there was none.
pub proof fn unread_frame_is_reused(s: FrameShared, first: I420Frame, second: I420Frame)
    requires
        s.spare is None,
        s.latest is None,
    ensures
        s.published(first).published(second).spare == Some(first),
{
}

// ---------------------------------------------------------------------------
// Pictures
// ---------------------------------------------------------------------------

/// Where a JPEG ends in a buffer that may be longer: after the last
/// end-of-image marker, or at the end of the buffer where there is none.
pub open spec fn spec_jpeg_end(bytes: Seq<u8>, upto: int) -> Option<int>
    decreases upto,
{
    if upto < 2 || upto > bytes.len() {
        None
    } else if bytes[upto - 2] == 0xff && bytes[upto - 1] == 0xd9 {
        Some(upto)
    } else {
        spec_jpeg_end(bytes, upto - 1)
    }
}

/// Where a JPEG ends in a buffer of fixed size.
pub fn jpeg_end(bytes: &[u8]) -> (r: usize)
    ensures
        r == match spec_jpeg_end(bytes@, bytes.len() as int) {
            Some(end) => end,
            None => bytes.len() as int,
        },
        r <= bytes.len(),
{
    let mut upto: usize = bytes.len();
    while upto >= 2
        invariant
            upto <= bytes.len(),
            spec_jpeg_end(bytes@, bytes.len() as int) == spec_jpeg_end(bytes@, upto as int),
        decreases upto,
    {
        if bytes[upto - 2] == 0xff && bytes[upto - 1] == 0xd9 {
            return upto;
        }
        upto = upto - 1;
    }
    bytes.len()
}

/// The bytes of a still to read: what its buffer says, or one byte a pixel
/// where it says nothing.
pub fn still_len(buffer_len: usize, width: u32, height: u32) -> (r: usize)
    requires
        width * height <= usize::MAX,
    ensures
        r == if buffer_len == 0 {
            width * height
        } else {
            buffer_len as int
        },
{
    if buffer_len == 0 {
        assert(0 <= width * height) by (nonlinear_arith)
            requires
                width >= 0,
                height >= 0,
        ;
        (width as usize) * (height as usize)
    } else {
        buffer_len
    }
}

/// A picture upside down: row by row, the rows in reverse.
pub open spec fn flipped(pixels: Seq<u8>, stride: int, height: int) -> Seq<u8> {
    Seq::new(
        pixels.len(),
        |i: int| pixels[cell(height - 1 - i / stride, i % stride, stride)],
    )
}

/// Turns a picture upside down: the rows of a frame buffer start at the bottom,
/// those of an image file at the top.
pub fn flip_rows(pixels: &Vec<u8>, stride: usize, height: usize) -> (r: Vec<u8>)
    requires
        pixels.len() == stride * height,
    ensures
        r@ == flipped(pixels@, stride as int, height as int),
{
    let mut r: Vec<u8> = Vec::new();
    if stride == 0 {
        assert(0 * height == 0) by (nonlinear_arith);
        assert(r@ =~= flipped(pixels@, stride as int, height as int));
        return r;
    }
    let mut row: usize = height;
    assert(stride * 0 == 0) by (nonlinear_arith);
    while row > 0
        invariant
            stride > 0,
            pixels.len() == stride * height,
            row <= height,
            r@.len() == stride * (height - row),
            forall|i: int|
                0 <= i < r@.len() ==> #[trigger] r@[i] == flipped(
                    pixels@,
                    stride as int,
                    height as int,
                )[i],
        decreases row,
    {
        let ghost done = r@;
        row = row - 1;
        let ghost k = height - 1 - row;
        assert(stride * row + stride <= stride * height) by (nonlinear_arith)
            requires
                row + 1 <= height,
                0 <= stride,
        ;
        assert(0 <= stride * row) by (nonlinear_arith)
            requires
                0 <= row,
                0 <= stride,
        ;
        assert(stride * (k + 1) == stride * k + stride) by (nonlinear_arith);
        assert(stride * (k + 1) <= stride * height) by (nonlinear_arith)
            requires
                k + 1 <= height,
                0 <= stride,
        ;
        let start: usize = row * stride;
        assert(start == cell(row as int, 0, stride as int));
        let mut col: usize = 0;
        while col < stride
            invariant
                stride > 0,
                row < height,
                k == height - 1 - row,
                pixels.len() == stride * height,
                start == row * stride,
                start + stride <= pixels.len(),
                col <= stride,
                done.len() == stride * k,
                stride * k + stride <= stride * height,
                r@.len() == done.len() + col,
                forall|i: int|
                    0 <= i < r@.len() ==> #[trigger] r@[i] == flipped(
                        pixels@,
                        stride as int,
                        height as int,
                    )[i],
            decreases stride - col,
        {
            r.push(pixels[start + col]);
            proof {
                let i = done.len() + col;
                assert(i == cell(k, col as int, stride as int)) by (nonlinear_arith)
                    requires
                        i == stride * k + col,
                        cell(k, col as int, stride as int) == k * stride + col,
                ;
                cell_in_plane(k, col as int, stride as int, height as int);
                assert(flipped(pixels@, stride as int, height as int)[i] == pixels@[cell(
                    row as int,
                    col as int,
                    stride as int,
                )]);
            }
            col = col + 1;
        }
    }
    assert(r@ =~= flipped(pixels@, stride as int, height as int));
    r
}

/// Turning a picture upside down twice gives it back.
pub proof fn flipping_twice_restores(pixels: Seq<u8>, stride: int, height: int)
    requires
        stride > 0,
        height >= 0,
        pixels.len() == stride * height,
    ensures
        flipped(flipped(pixels, stride, height), stride, height) == pixels,
{
    let once = flipped(pixels, stride, height);
    let twice = flipped(once, stride, height);
    assert forall|i: int| 0 <= i < pixels.len() implies #[trigger] twice[i] == pixels[i] by {
        vstd::arithmetic::div_mod::lemma_fundamental_div_mod(i, stride);
        let (row, col) = (i / stride, i % stride);
        assert(0 <= col < stride);
        assert(row < height) by (nonlinear_arith)
            requires
                i == stride * row + col,
                0 <= col,
                i < stride * height,
                stride > 0,
        ;
        assert(row >= 0) by (nonlinear_arith)
            requires
                i == stride * row + col,
                col < stride,
                i >= 0,
                stride > 0,
        ;
        let mirrored = height - 1 - row;
        cell_in_plane(mirrored, col, stride, height);
        assert(twice[i] == once[cell(mirrored, col, stride)]);
        assert(once[cell(mirrored, col, stride)] == pixels[cell(row, col, stride)]);
        assert(cell(row, col, stride) == i) by (nonlinear_arith)
            requires
                i == stride * row + col,
                cell(row, col, stride) == row * stride + col,
        ;
    }
    assert(twice =~= pixels);
}

// ---------------------------------------------------------------------------
// Planar buffers with a pixel stride
// ---------------------------------------------------------------------------

/// One plane of an image: its bytes, the distance between rows and the distance
/// between the pixels of a row.
pub struct Plane<'a> {
    pub bytes: &'a [u8],
    pub row_stride: usize,
    pub pixel_stride: usize,
}

/// The byte of a plane, and a neutral one outside of it.
pub open spec fn plane_byte(bytes: Seq<u8>, i: int) -> u8 {
    if i < bytes.len() {
        bytes[i]
    } else {
        128
    }
}

/// What a packed plane of chroma holds.
pub open spec fn chroma_plane(
    bytes: Seq<u8>,
    row_stride: int,
    pixel_stride: int,
    cw: int,
    ch: int,
) -> Seq<u8> {
    Seq::new(
        (cw * ch) as nat,
        |i: int| plane_byte(bytes, row_stride * (i / cw) + pixel_stride * (i % cw)),
    )
}

/// What a packed plane of luma holds.
pub open spec fn luma_plane(bytes: Seq<u8>, row_stride: int, w: int, h: int) -> Seq<u8> {
    Seq::new((w * h) as nat, |i: int| bytes[row_stride * (i / w) + i % w])
}

fn pack_chroma(plane: &Plane, cw: usize, ch: usize, out: &mut Vec<u8>)
    requires
        cw > 0 && ch > 0,
        cw * ch <= usize::MAX,
        plane.row_stride * (ch - 1) + plane.pixel_stride * (cw - 1) <= usize::MAX,
    ensures
        final(out)@ == old(out)@ + chroma_plane(
            plane.bytes@,
            plane.row_stride as int,
            plane.pixel_stride as int,
            cw as int,
            ch as int,
        ),
{
    let ghost all = chroma_plane(
        plane.bytes@,
        plane.row_stride as int,
        plane.pixel_stride as int,
        cw as int,
        ch as int,
    );
    let ghost before = out@;
    assert(cw * 0 == 0) by (nonlinear_arith);
    let mut row: usize = 0;
    while row < ch
        invariant
            cw > 0 && ch > 0,
            cw * ch <= usize::MAX,
            plane.row_stride * (ch - 1) + plane.pixel_stride * (cw - 1) <= usize::MAX,
            row <= ch,
            all == chroma_plane(
                plane.bytes@,
                plane.row_stride as int,
                plane.pixel_stride as int,
                cw as int,
                ch as int,
            ),
            all.len() == cw * ch,
            cw * row <= all.len(),
            out@ == before + all.take(cw * row),
        decreases ch - row,
    {
        let rs: usize = plane.row_stride;
        let ps: usize = plane.pixel_stride;
        assert(cw * (row + 1) == cw * row + cw) by (nonlinear_arith);
        assert(cw * (row + 1) <= cw * ch) by (nonlinear_arith)
            requires
                row + 1 <= ch,
                0 <= cw,
        ;
        assert(0 <= cw * row) by (nonlinear_arith)
            requires
                0 <= row,
                0 <= cw,
        ;
        assert(0 <= rs * row <= rs * (ch - 1)) by (nonlinear_arith)
            requires
                0 <= row <= ch - 1,
                0 <= rs,
        ;
        assert(0 <= ps * (cw - 1)) by (nonlinear_arith)
            requires
                0 <= cw - 1,
                0 <= ps,
        ;
        let start: usize = rs * row;
        let mut col: usize = 0;
        while col < cw
            invariant
                cw > 0 && ch > 0,
                row < ch,
                rs == plane.row_stride,
                ps == plane.pixel_stride,
                start == rs * row,
                rs * row <= rs * (ch - 1),
                rs * (ch - 1) + ps * (cw - 1) <= usize::MAX,
                col <= cw,
                all == chroma_plane(
                    plane.bytes@,
                    plane.row_stride as int,
                    plane.pixel_stride as int,
                    cw as int,
                    ch as int,
                ),
                all.len() == cw * ch,
                0 <= cw * row,
                cw * row + cw <= all.len(),
                out@ == before + all.take(cw * row + col),
            decreases cw - col,
        {
            assert(0 <= ps * col <= ps * (cw - 1)) by (nonlinear_arith)
                requires
                    0 <= col <= cw - 1,
                    0 <= ps,
            ;
            let idx: usize = start + ps * col;
            let b: u8 = if idx < plane.bytes.len() {
                plane.bytes[idx]
            } else {
                128
            };
            proof {
                let i = cw * row + col;
                assert(i == cell(row as int, col as int, cw as int)) by (nonlinear_arith)
                    requires
                        i == cw * row + col,
                        cell(row as int, col as int, cw as int) == row * cw + col,
                ;
                cell_in_plane(row as int, col as int, cw as int, ch as int);
                assert(all[i] == b);
                assert(all.take(i + 1) =~= all.take(i).push(b));
                assert((before + all.take(i)).push(b) =~= before + all.take(i + 1));
            }
            out.push(b);
            col = col + 1;
        }
        row = row + 1;
    }
    assert(all.take(cw * row) =~= all);
}

fn pack_luma(plane: &Plane, w: usize, h: usize, out: &mut Vec<u8>)
    requires
        w > 0 && h > 0,
        w * h <= usize::MAX,
        plane.row_stride * (h - 1) + w <= plane.bytes.len(),
    ensures
        final(out)@ == old(out)@ + luma_plane(
            plane.bytes@,
            plane.row_stride as int,
            w as int,
            h as int,
        ),
{
    let ghost all = luma_plane(plane.bytes@, plane.row_stride as int, w as int, h as int);
    let ghost before = out@;
    assert(w * 0 == 0) by (nonlinear_arith);
    let mut row: usize = 0;
    while row < h
        invariant
            w > 0 && h > 0,
            w * h <= usize::MAX,
            plane.row_stride * (h - 1) + w <= plane.bytes.len(),
            row <= h,
            all == luma_plane(plane.bytes@, plane.row_stride as int, w as int, h as int),
            all.len() == w * h,
            w * row <= all.len(),
            out@ == before + all.take(w * row),
        decreases h - row,
    {
        let rs: usize = plane.row_stride;
        assert(w * (row + 1) == w * row + w) by (nonlinear_arith);
        assert(w * (row + 1) <= w * h) by (nonlinear_arith)
            requires
                row + 1 <= h,
                0 <= w,
        ;
        assert(0 <= w * row) by (nonlinear_arith)
            requires
                0 <= row,
                0 <= w,
        ;
        assert(0 <= rs * row <= rs * (h - 1)) by (nonlinear_arith)
            requires
                0 <= row <= h - 1,
                0 <= rs,
        ;
        let start: usize = rs * row;
        let mut col: usize = 0;
        while col < w
            invariant
                w > 0 && h > 0,
                row < h,
                rs == plane.row_stride,
                start == rs * row,
                start + w <= plane.bytes.len(),
                col <= w,
                all == luma_plane(plane.bytes@, plane.row_stride as int, w as int, h as int),
                all.len() == w * h,
                0 <= w * row,
                w * row + w <= all.len(),
                out@ == before + all.take(w * row + col),
            decreases w - col,
        {
            let b: u8 = plane.bytes[start + col];
            proof {
                let i = w * row + col;
                assert(i == cell(row as int, col as int, w as int)) by (nonlinear_arith)
                    requires
                        i == w * row + col,
                        cell(row as int, col as int, w as int) == row * w + col,
                ;
                cell_in_plane(row as int, col as int, w as int, h as int);
                assert(all[i] == b);
                assert(all.take(i + 1) =~= all.take(i).push(b));
                assert((before + all.take(i)).push(b) =~= before + all.take(i + 1));
            }
            out.push(b);
            col = col + 1;
        }
        row = row + 1;
    }
    assert(all.take(w * row) =~= all);
}

/// The three planes of an image in one run: luma, then both chroma planes, a neutral byte
/// where a chroma plane ends early.
pub open spec fn spec_i420(y: Plane, u: Plane, v: Plane, w: int, h: int) -> Seq<u8> {
    let (cw, ch) = (half(w), half(h));
    luma_plane(y.bytes@, y.row_stride as int, w, h) + chroma_plane(
        u.bytes@,
        u.row_stride as int,
        u.pixel_stride as int,
        cw,
        ch,
    ) + chroma_plane(v.bytes@, v.row_stride as int, v.pixel_stride as int, cw, ch)
}

/// Packs the three planes of an image into one run: luma, then both chroma
/// planes, a neutral byte where a chroma plane ends early.
pub fn pack_i420(y: &Plane, u: &Plane, v: &Plane, w: usize, h: usize) -> (r: Vec<u8>)
    requires
        w * h <= usize::MAX,
        h > 0 ==> y.row_stride * (h - 1) + w <= y.bytes.len(),
        u.row_stride * (half(h as int) - 1) + u.pixel_stride * (half(w as int) - 1) <= usize::MAX,
        v.row_stride * (half(h as int) - 1) + v.pixel_stride * (half(w as int) - 1) <= usize::MAX,
    ensures
        ({
            let (cw, ch) = (half(w as int), half(h as int));
            r@ == luma_plane(y.bytes@, y.row_stride as int, w as int, h as int) + chroma_plane(
                u.bytes@,
                u.row_stride as int,
                u.pixel_stride as int,
                cw,
                ch,
            ) + chroma_plane(v.bytes@, v.row_stride as int, v.pixel_stride as int, cw, ch)
        }),
        r@ == spec_i420(*y, *u, *v, w as int, h as int),
        forall|row: int, col: int|
            0 <= row < h && 0 <= col < w ==> #[trigger] r@[cell(row, col, w as int)]
                == y.bytes@[y.row_stride * row + col],
{
    let mut r: Vec<u8> = Vec::new();
    if w == 0 || h == 0 {
        assert(w * h == 0) by (nonlinear_arith)
            requires
                w == 0 || h == 0,
        ;
        let ghost (cw, ch) = (half(w as int), half(h as int));
        assert(cw * ch == 0) by (nonlinear_arith)
            requires
                cw == 0 || ch == 0,
        ;
        assert(r@ =~= luma_plane(y.bytes@, y.row_stride as int, w as int, h as int) + chroma_plane(
            u.bytes@,
            u.row_stride as int,
            u.pixel_stride as int,
            cw,
            ch,
        ) + chroma_plane(v.bytes@, v.row_stride as int, v.pixel_stride as int, cw, ch));
        assert(r@ =~= spec_i420(*y, *u, *v, w as int, h as int));
        return r;
    }
    let cw: usize = (w - 1) / 2 + 1;
    let ch: usize = (h - 1) / 2 + 1;
    assert(half(w as int) == cw);
    assert(half(h as int) == ch);
    assert(0 <= cw * ch <= w * h) by (nonlinear_arith)
        requires
            0 <= cw <= w,
            0 <= ch <= h,
    ;
    pack_luma(y, w, h, &mut r);
    pack_chroma(u, cw, ch, &mut r);
    pack_chroma(v, cw, ch, &mut r);
    assert(Seq::<u8>::empty() + luma_plane(y.bytes@, y.row_stride as int, w as int, h as int)
        =~= luma_plane(y.bytes@, y.row_stride as int, w as int, h as int));
    proof {
        assert forall|row: int, col: int| 0 <= row < h && 0 <= col < w implies #[trigger] r@[cell(
            row,
            col,
            w as int,
        )] == y.bytes@[y.row_stride * row + col] by {
            packed_pixels_stand_in_order(*y, *u, *v, w as int, h as int, row, col);
        }
    }
    r
}

/// A pixel of a packed plane of chroma is the byte that its row and column lead to in the
/// plane, a neutral one outside of it.
pub proof fn chroma_keeps_its_rows_and_columns(
    bytes: Seq<u8>,
    row_stride: int,
    pixel_stride: int,
    cw: int,
    ch: int,
    row: int,
    col: int,
)
    requires
        0 <= row < ch,
        0 <= col < cw,
        row_stride >= 0,
        pixel_stride >= 0,
    ensures
        chroma_plane(bytes, row_stride, pixel_stride, cw, ch).len() == cw * ch,
        ({
            let b = chroma_plane(bytes, row_stride, pixel_stride, cw, ch)[row * cw + col];
            let i = row * row_stride + col * pixel_stride;
            &&& i < bytes.len() ==> b == bytes[i]
            &&& i >= bytes.len() ==> b == 128
        }),
{
    cell_in_plane(row, col, cw, ch);
    assert(row * row_stride == row_stride * row && col * pixel_stride == pixel_stride * col)
        by (nonlinear_arith);
    assert(cw * ch >= 0) by (nonlinear_arith)
        requires
            0 <= cw,
            0 <= ch,
    ;
}

/// A plane of chroma that is packed already stays as it is.
pub proof fn packed_chroma_stays(bytes: Seq<u8>, cw: int, ch: int)
    requires
        cw > 0,
        ch > 0,
        bytes.len() == cw * ch,
    ensures
        chroma_plane(bytes, cw, 1, cw, ch) == bytes,
{
    let p = chroma_plane(bytes, cw, 1, cw, ch);
    assert forall|i: int| 0 <= i < p.len() implies p[i] == bytes[i] by {
        vstd::arithmetic::div_mod::lemma_fundamental_div_mod(i, cw);
    }
    assert(p =~= bytes);
}

/// A plane of luma that is packed already stays as it is.
pub proof fn packed_luma_stays(bytes: Seq<u8>, w: int, h: int)
    requires
        w > 0,
        h > 0,
        bytes.len() == w * h,
    ensures
        luma_plane(bytes, w, w, h) == bytes,
{
    let p = luma_plane(bytes, w, w, h);
    assert forall|i: int| 0 <= i < p.len() implies p[i] == bytes[i] by {
        vstd::arithmetic::div_mod::lemma_fundamental_div_mod(i, w);
    }
    assert(p =~= bytes);
}

/// In a packed image each pixel of luma stands by its row and column, then come the chroma
/// of the second plane and that of the third, each by its row and column.
pub proof fn packed_pixels_stand_in_order(
    y: Plane,
    u: Plane,
    v: Plane,
    w: int,
    h: int,
    row: int,
    col: int,
)
    requires
        0 <= row < h,
        0 <= col < w,
    ensures
        ({
            let all = spec_i420(y, u, v, w, h);
            let (cw, ch) = ((w + 1) / 2, (h + 1) / 2);
            let (i, j) = (
                row * u.row_stride + col * u.pixel_stride,
                row * v.row_stride + col * v.pixel_stride,
            );
            &&& all.len() == w * h + 2 * (cw * ch)
            &&& all[cell(row, col, w)] == y.bytes@[y.row_stride * row + col]
            &&& row < ch && col < cw && i < u.bytes@.len() ==> all[w * h + (row * cw + col)]
                == u.bytes@[i]
            &&& row < ch && col < cw && i >= u.bytes@.len() ==> all[w * h + (row * cw + col)] == 128
            &&& row < ch && col < cw && j < v.bytes@.len() ==> all[w * h + cw * ch + (row * cw
                + col)] == v.bytes@[j]
            &&& row < ch && col < cw && j >= v.bytes@.len() ==> all[w * h + cw * ch + (row * cw
                + col)] == 128
        }),
{
    let (cw, ch) = (half(w), half(h));
    cell_in_plane(row, col, w, h);
    assert(w * h >= 0 && cw * ch >= 0) by (nonlinear_arith)
        requires
            w > 0,
            h > 0,
            cw > 0,
            ch > 0,
    ;
    if row < ch && col < cw {
        cell_in_plane(row, col, cw, ch);
        chroma_keeps_its_rows_and_columns(
            u.bytes@,
            u.row_stride as int,
            u.pixel_stride as int,
            cw,
            ch,
            row,
            col,
        );
        chroma_keeps_its_rows_and_columns(
            v.bytes@,
            v.row_stride as int,
            v.pixel_stride as int,
            cw,
            ch,
            row,
            col,
        );
    }
}

// ---------------------------------------------------------------------------
// What a frame shows
// ---------------------------------------------------------------------------

/// A pixel of a frame is the byte that stands where the layout says: whole rows of the
/// stride before it, then the bytes before it in its row. Of a pair in the chroma rows the
/// first byte is blue and the second red, or the other way round where they are swapped.
pub proof fn a_frame_shows_its_bytes(
    frame: I420Frame,
    bytes: Seq<u8>,
    layout: PlaneLayout,
    width: u32,
    height: u32,
    row: int,
    col: int,
)
    requires
        shows(frame, bytes, layout, width, height),
        0 <= row < height,
        0 <= col < width,
    ensures
        frame.width == width && frame.height == height,
        frame.y@.len() == width * height,
        frame.y@[row * width + col] == bytes[layout.y_off + row * layout.y_stride + col],
        ({
            let (cw, ch) = ((width + 1) / 2, (height + 1) / 2);
            let i = layout.uv_off + row * layout.uv_stride + 2 * col;
            row < ch && col < cw ==> {
                &&& !layout.swap_uv ==> frame.u@[row * cw + col] == bytes[i] && frame.v@[row * cw
                    + col] == bytes[i + 1]
                &&& layout.swap_uv ==> frame.v@[row * cw + col] == bytes[i] && frame.u@[row * cw
                    + col] == bytes[i + 1]
            }
        }),
{
    let (cw, ch) = (half(width as int), half(height as int));
    assert(frame.y@[cell(row, col, width as int)] == luma(bytes, layout, row, col));
    assert(layout.y_stride * row == row * layout.y_stride) by (nonlinear_arith);
    assert(layout.uv_stride * row == row * layout.uv_stride) by (nonlinear_arith);
    if row < ch && col < cw {
        assert(frame.u@[cell(row, col, cw)] == chroma(bytes, layout, row, col, layout.swap_uv));
        assert(frame.v@[cell(row, col, cw)] == chroma(bytes, layout, row, col, !layout.swap_uv));
    }
}

/// Chroma planes with their bytes in pairs.
pub open spec fn paired(first: Seq<u8>, second: Seq<u8>) -> Seq<u8> {
    Seq::new(
        2 * first.len(),
        |i: int|
            if i % 2 == 0 {
                first[i / 2]
            } else {
                second[i / 2]
            },
    )
}

/// An image of even size that is written without gaps, its luma and then its chroma in
/// pairs, is read back plane by plane: blue first in the one format, red first in the
/// other.
pub proof fn a_written_image_is_read_back(
    y: Seq<u8>,
    u: Seq<u8>,
    v: Seq<u8>,
    width: u32,
    height: u32,
    blue_first: bool,
    frame: I420Frame,
)
    requires
        0 < width <= 0x7fff_fffe && width % 2 == 0,
        0 < height && height % 2 == 0,
        y.len() == width * height,
        u.len() == (width / 2) * (height / 2),
        v.len() == (width / 2) * (height / 2),
        ({
            let bytes = if blue_first {
                y + paired(u, v)
            } else {
                y + paired(v, u)
            };
            let format = if blue_first {
                24
            } else {
                25
            };
            shows(frame, bytes, spec_packed_layout(None, format, width, height), width, height)
        }),
    ensures
        frame.y@ == y,
        frame.u@ == u,
        frame.v@ == v,
{
    let pairs = if blue_first {
        paired(u, v)
    } else {
        paired(v, u)
    };
    let bytes = y + pairs;
    let format: i32 = if blue_first {
        24
    } else {
        25
    };
    let layout = spec_packed_layout(None, format, width, height);
    let (w, h) = (width as int, height as int);
    let (cw, ch) = (w / 2, h / 2);
    assert(half(w) == cw && half(h) == ch);
    assert(w * h <= u64::MAX) by (nonlinear_arith)
        requires
            0 < w <= u32::MAX,
            0 < h <= u32::MAX,
    ;
    assert(layout.uv_off == w * h);
    assert forall|i: int| 0 <= i < y.len() implies frame.y@[i] == #[trigger] y[i] by {
        let (row, col) = (i / w, i % w);
        cell_of_index(i, w, h);
        a_frame_shows_its_bytes(frame, bytes, layout, width, height, row, col);
    }
    assert forall|i: int| 0 <= i < u.len() implies frame.u@[i] == #[trigger] u[i] && frame.v@[i]
        == v[i] by {
        let (row, col) = (i / cw, i % cw);
        cell_of_index(i, cw, ch);
        a_frame_shows_its_bytes(frame, bytes, layout, width, height, row, col);
        let j = row * w + 2 * col;
        assert(j == 2 * i) by (nonlinear_arith)
            requires
                j == row * w + 2 * col,
                w == 2 * cw,
                i == row * cw + col,
        ;
        assert(bytes[w * h + j] == pairs[2 * i]);
        assert(bytes[w * h + j + 1] == pairs[2 * i + 1]);
        assert((2 * i) / 2 == i && (2 * i) % 2 == 0 && (2 * i + 1) / 2 == i && (2 * i + 1) % 2
            == 1);
    }
    assert(frame.y@ =~= y);
    assert(frame.u@ =~= u);
    assert(frame.v@ =~= v) by {
        assert forall|i: int| 0 <= i < v.len() implies frame.v@[i] == #[trigger] v[i] by {
            assert(frame.u@[i] == u[i]);
        }
    }
}

proof fn cell_of_index(i: int, w: int, h: int)
    requires
        0 < w,
        0 <= i < w * h,
    ensures
        0 <= i / w < h,
        0 <= i % w < w,
        (i / w) * w + i % w == i,
{
    assert(i / w < h) by (nonlinear_arith)
        requires
            0 < w,
            0 <= i < w * h,
    ;
    assert((i / w) * w + i % w == i) by (nonlinear_arith)
        requires
            0 < w,
    ;
    assert(0 <= i / w) by (nonlinear_arith)
        requires
            0 < w,
            0 <= i,
    ;
}

/// Where a buffer names its two chroma planes side by side behind the luma, the pixels of
/// each plane come from where that plane is named.
pub proof fn each_plane_is_read_from_its_place(
    planes: Seq<NativeBufferPlane>,
    format: i32,
    width: u32,
    height: u32,
    bytes: Seq<u8>,
    frame: I420Frame,
    row: int,
    col: int,
)
    requires
        planes.len() >= 3,
        planes[1].offset == planes[2].offset + 1 || planes[2].offset == planes[1].offset + 1,
        planes[1].offset > 0 && planes[2].offset > 0,
        planes[0].offset + spec_pitch(planes[0], width, width) * height <= u64::MAX,
        planes[1].offset >= planes[0].offset + spec_pitch(planes[0], width, width) * height,
        planes[2].offset >= planes[0].offset + spec_pitch(planes[0], width, width) * height,
        shows(frame, bytes, spec_planes_layout(planes, format, width, height), width, height),
        0 <= row < (height + 1) / 2,
        0 <= col < (width + 1) / 2,
    ensures
        ({
            let cw = (width + 1) / 2;
            let stride = spec_planes_layout(planes, format, width, height).uv_stride;
            &&& frame.u@[row * cw + col] == bytes[planes[1].offset + row * stride + 2 * col]
            &&& frame.v@[row * cw + col] == bytes[planes[2].offset + row * stride + 2 * col]
        }),
        frame.y@[0] == bytes[planes[0].offset as int],
{
    let layout = spec_planes_layout(planes, format, width, height);
    a_frame_shows_its_bytes(frame, bytes, layout, width, height, row, col);
    a_frame_shows_its_bytes(frame, bytes, layout, width, height, 0, 0);
}

/// A row's stride holds the row, is one that the plane gives where it gives such a one,
/// and is the same whichever way round the plane gives its strides.
pub proof fn a_stride_holds_its_row(plane: NativeBufferPlane, width: u32, fallback: u32)
    ensures
        ({
            let pitch = spec_pitch(plane, width, fallback);
            let (r, c) = (plane.row_stride, plane.column_stride);
            &&& fallback >= width ==> pitch >= width
            &&& r >= width || c >= width ==> pitch >= width && (pitch == r || pitch == c)
            &&& r >= width ==> pitch <= r
            &&& c >= width ==> pitch <= c
            &&& r < width && c < width ==> pitch == fallback
            &&& spec_pitch(
                (NativeBufferPlane { row_stride: c, column_stride: r, ..plane }),
                width,
                fallback,
            ) == pitch
        }),
{
}

/// Chroma begins behind luma, and a buffer that does not say which color is first is read
/// by its format.
pub proof fn chroma_follows_luma(
    planes: Seq<NativeBufferPlane>,
    format: i32,
    width: u32,
    height: u32,
)
    requires
        planes.len() >= 2,
        planes[0].offset + spec_pitch(planes[0], width, width) * height <= u64::MAX,
    ensures
        ({
            let layout = spec_planes_layout(planes, format, width, height);
            let end = layout.y_off + height * layout.y_stride;
            &&& layout.y_off == planes[0].offset
            &&& layout.uv_off >= end
            &&& layout.uv_off == end || layout.uv_off == planes[1].offset || planes.len() > 2
                && layout.uv_off == planes[2].offset
            &&& planes.len() == 2 ==> (layout.swap_uv <==> format == 25)
            &&& planes.len() == 2 && planes[1].offset > 0 && planes[1].offset >= end
                ==> layout.uv_off == planes[1].offset
        }),
{
    let s = spec_pitch(planes[0], width, width);
    assert(s * height == height * s) by (nonlinear_arith);
    assert(0 <= s * height) by (nonlinear_arith);
}

proof fn end_is_last_marker(bytes: Seq<u8>, end: int, upto: int)
    requires
        2 <= end <= upto <= bytes.len(),
        bytes[end - 2] == 0xff && bytes[end - 1] == 0xd9,
        forall|i: int| end <= i < upto ==> #[trigger] bytes[i] != 0xd9,
    ensures
        spec_jpeg_end(bytes, upto) == Some(end),
    decreases upto,
{
    if upto > end {
        assert(bytes[upto - 1] != 0xd9);
        end_is_last_marker(bytes, end, upto - 1);
    }
}

/// A JPEG file in a larger buffer ends where it ends: what pads it is left out.
pub proof fn padding_is_left_out(file: Seq<u8>, padding: Seq<u8>)
    requires
        file.len() >= 2,
        file[file.len() - 2] == 0xff && file[file.len() - 1] == 0xd9,
        !padding.contains(0xd9),
    ensures
        spec_jpeg_end(file + padding, (file + padding).len() as int) == Some(file.len() as int),
{
    let all = file + padding;
    assert forall|i: int| file.len() <= i < all.len() implies #[trigger] all[i] != 0xd9 by {
        assert(padding.contains(padding[i - file.len()]));
    }
    end_is_last_marker(all, file.len() as int, all.len() as int);
}

/// Rows are turned over, and within a row nothing moves.
pub proof fn rows_are_turned_over(pixels: Seq<u8>, stride: int, height: int, row: int, col: int)
    requires
        0 <= row < height,
        0 <= col < stride,
        pixels.len() == stride * height,
    ensures
        flipped(pixels, stride, height).len() == pixels.len(),
        flipped(pixels, stride, height)[row * stride + col] == pixels[(height - 1 - row) * stride
            + col],
{
    cell_in_plane(row, col, stride, height);
}

} // verus!
