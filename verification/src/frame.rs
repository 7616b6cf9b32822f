//! The pixels of a frame.

use vstd::prelude::*;
use tiny_skia::Pixmap;

use crate::redraw::{checked_layout, fits};

verus! {

/// A raster of premultiplied RGBA pixels.
#[verifier::external_type_specification]
#[verifier::external_body]
pub struct ExPixmap(Pixmap);

/// The bytes of a pixmap, row by row, four per pixel.
pub uninterp spec fn pixmap_bytes(pixmap: Pixmap) -> Seq<u8>;

/// Whether `tiny_skia` can lay out a pixmap of this size: it has area, and the
/// bytes of a row and of the whole raster can be counted.
pub open spec fn is_pixmap_size(width: u32, height: u32) -> bool {
    &&& 0 < width
    &&& 0 < height
    &&& width * 4 <= i32::MAX
    &&& width * 4 * height <= usize::MAX
}

/// `Pixmap::new` gives a transparent raster of the size asked for, and `None`
/// exactly for the sizes that it cannot lay out. A raster of more than
/// `isize::MAX` bytes is left out: its allocation panics.
pub assume_specification[ Pixmap::new ](width: u32, height: u32) -> (r: Option<Pixmap>)
    requires
        is_pixmap_size(width, height) ==> width * 4 * height <= isize::MAX,
    ensures
        r is Some <==> is_pixmap_size(width, height),
        r matches Some(pixmap) ==> pixmap_bytes(pixmap) == Seq::new(
            (width * 4 * height) as nat,
            |i: int| 0u8,
        ),
;

/// `Pixmap::data` gives the bytes of the raster.
pub assume_specification[ Pixmap::data ](pixmap: &Pixmap) -> (r: &[u8])
    ensures
        r@ == pixmap_bytes(*pixmap),
;

/// `Pixmap::data_mut` gives the bytes of the raster to write to.
pub assume_specification[ Pixmap::data_mut ](pixmap: &mut Pixmap) -> (r: &mut [u8])
    ensures
        r@ == pixmap_bytes(*old(pixmap)),
        final(r)@ == pixmap_bytes(*final(pixmap)),
;

/// A size for which no raster can be laid out.
#[derive(Clone, Copy, Debug, PartialEq, Eq, Structural)]
pub struct FrameError {
    pub width: u32,
    pub height: u32,
}

/// A raster together with its size.
pub struct Frame {
    pub pixmap: Pixmap,
    pub width: u32,
    pub height: u32,
}

/// Where the byte at index `i` of a pixel row goes when red and blue change
/// places.
pub open spec fn swap_index(i: int) -> int {
    if i % 4 == 0 {
        i + 2
    } else if i % 4 == 2 {
        i - 2
    } else {
        i
    }
}

/// Pixel bytes with red and blue exchanged in every pixel.
pub open spec fn swapped(bytes: Seq<u8>) -> Seq<u8> {
    Seq::new(bytes.len(), |i: int| bytes[swap_index(i)])
}

/// Half the side of the debug marker, in pixels.
pub const MARKER_HALF: i32 = 30;

/// Whether the debug marker around `(cx, cy)` covers the pixel `(px, py)`.
pub open spec fn in_marker(px: int, py: int, cx: int, cy: int) -> bool {
    &&& -MARKER_HALF <= px - cx < MARKER_HALF
    &&& -MARKER_HALF <= py - cy < MARKER_HALF
}

/// Opaque magenta, byte by byte.
pub open spec fn marker_byte(channel: int) -> u8 {
    if channel == 1 {
        0x00
    } else {
        0xFF
    }
}

/// Pixel bytes of rows of `width` pixels, with the debug marker around
/// `(cx, cy)` painted over them.
pub open spec fn marked(bytes: Seq<u8>, width: int, cx: int, cy: int) -> Seq<u8> {
    Seq::new(
        bytes.len(),
        |i: int|
            if in_marker((i / 4) % width, (i / 4) / width, cx, cy) {
                marker_byte(i % 4)
            } else {
                bytes[i]
            },
    )
}

/// Pixel bytes with the debug marker painted in the rows above `y` and in the
/// row `y` left of `x`.
spec fn marked_before(
    bytes: Seq<u8>,
    width: int,
    cx: int,
    cy: int,
    y: int,
    x: int,
) -> Seq<u8> {
    Seq::new(
        bytes.len(),
        |i: int|
            if in_marker((i / 4) % width, (i / 4) / width, cx, cy) && ((i / 4) / width < y || ((i
                / 4) / width == y && (i / 4) % width < x)) {
                marker_byte(i % 4)
            } else {
                bytes[i]
            },
    )
}

/// Copies RGBA pixels to BGRA pixels.
pub fn copy_swapped(src: &[u8], out: &mut [u8])
    requires
        src@.len() == old(out)@.len(),
        src@.len() % 4 == 0,
    ensures
        final(out)@ == swapped(src@),
{
    let size: usize = src.len();
    let mut i: usize = 0;
    while i < size
        invariant
            size == src@.len(),
            size == out@.len(),
            size % 4 == 0,
            i % 4 == 0,
            i <= size,
            forall|j: int| 0 <= j < i ==> out@[j] == #[trigger] swapped(src@)[j],
        decreases size - i,
    {
        out[i] = src[i + 2];
        out[i + 1] = src[i + 1];
        out[i + 2] = src[i];
        out[i + 3] = src[i + 3];
        i = i + 4;
    }
    assert(out@ =~= swapped(src@));
}

/// A coordinate moved into the range from zero to `limit`.
spec fn clipped(at: int, limit: int) -> int {
    if at < 0 {
        0
    } else if at > limit {
        limit
    } else {
        at
    }
}

/// `center + offset`, moved into the range from zero to `limit`.
fn clip(center: i32, offset: i32, limit: u32) -> (r: u32)
    ensures
        r == clipped(center + offset, limit as int),
{
    let at: i64 = (center as i64) + (offset as i64);
    if at < 0 {
        0
    } else if at > limit as i64 {
        limit
    } else {
        at as u32
    }
}

/// Every byte of a raster belongs to a pixel in it.
proof fn lemma_position(width: int, height: int, i: int)
    requires
        0 <= i < width * 4 * height,
        0 <= width,
        0 <= height,
    ensures
        0 <= (i / 4) % width < width,
        0 <= (i / 4) / width < height,
{
    let p = i / 4;
    assert(width * 4 * height == 4 * (width * height)) by (nonlinear_arith);
    assert(p < width * height);
    assert(width > 0) by (nonlinear_arith)
        requires
            0 <= p < width * height,
            0 <= height,
            0 <= width,
    ;
    vstd::arithmetic::div_mod::lemma_fundamental_div_mod(p, width);
    vstd::arithmetic::div_mod::lemma_mod_bound(p, width);
    let q = p / width;
    let r = p % width;
    assert(0 <= q < height) by (nonlinear_arith)
        requires
            p == width * q + r,
            0 <= r < width,
            0 <= p < width * height,
    ;
}

/// The pixel number `p` is the one at `(x, y)` exactly if it lies in that
/// column and row.
proof fn lemma_pixel_number(width: int, x: int, y: int, p: int)
    requires
        0 <= x < width,
    ensures
        p == y * width + x <==> (p % width == x && p / width == y),
{
    if p == y * width + x {
        vstd::arithmetic::div_mod::lemma_fundamental_div_mod_converse(p, width, y, x);
    }
    if p % width == x && p / width == y {
        vstd::arithmetic::div_mod::lemma_fundamental_div_mod(p, width);
        assert(width * y == y * width) by (nonlinear_arith);
    }
}

/// Painting the pixel at `(x, y)` advances the marker by that pixel.
proof fn lemma_marked_step(
    bytes: Seq<u8>,
    before: Seq<u8>,
    after: Seq<u8>,
    width: int,
    cx: int,
    cy: int,
    y: int,
    x: int,
)
    requires
        0 <= x < width,
        in_marker(x, y, cx, cy),
        before == marked_before(bytes, width, cx, cy, y, x),
        after.len() == before.len(),
        forall|i: int|
            0 <= i < after.len() ==> #[trigger] after[i] == if i / 4 == y * width + x {
                marker_byte(i % 4)
            } else {
                before[i]
            },
    ensures
        after == marked_before(bytes, width, cx, cy, y, x + 1),
{
    let goal = marked_before(bytes, width, cx, cy, y, x + 1);
    assert forall|i: int| 0 <= i < after.len() implies after[i] == goal[i] by {
        lemma_pixel_number(width, x, y, i / 4);
    }
    assert(after =~= goal);
}

/// Paints a square of opaque magenta, 60 pixels wide, around `(cx, cy)` on a
/// raster of RGBA pixels. Pixels outside the raster are left out.
pub fn paint_marker(data: &mut [u8], width: u32, height: u32, cx: i32, cy: i32)
    requires
        old(data)@.len() == width * 4 * height,
    ensures
        final(data)@ == marked(old(data)@, width as int, cx as int, cy as int),
{
    let x0: u32 = clip(cx, -MARKER_HALF, width);
    let x1: u32 = clip(cx, MARKER_HALF, width);
    let y0: u32 = clip(cy, -MARKER_HALF, height);
    let y1: u32 = clip(cy, MARKER_HALF, height);
    let size: usize = data.len();
    let ghost bytes = data@;
    let ghost w = width as int;
    let ghost h = height as int;
    let ghost gx = cx as int;
    let ghost gy = cy as int;
    let mut y: u32 = y0;
    proof {
        let start = marked_before(bytes, w, gx, gy, y0 as int, 0);
        assert forall|i: int| 0 <= i < bytes.len() implies bytes[i] == start[i] by {
            lemma_position(w, h, i);
        }
        assert(bytes =~= start);
    }
    while y < y1
        invariant
            w == width,
            h == height,
            gx == cx,
            gy == cy,
            bytes.len() == width * 4 * height,
            bytes.len() == size,
            x0 == clipped(cx - MARKER_HALF, w),
            x1 == clipped(cx + MARKER_HALF, w),
            y0 == clipped(cy - MARKER_HALF, h),
            y1 == clipped(cy + MARKER_HALF, h),
            y0 <= y,
            y0 < y1 ==> y <= y1,
            data@ == marked_before(bytes, w, gx, gy, y as int, 0),
        decreases y1 - y,
    {
        let mut x: u32 = x0;
        proof {
            let start = marked_before(bytes, w, gx, gy, y as int, x0 as int);
            assert forall|i: int| 0 <= i < bytes.len() implies data@[i] == start[i] by {
                lemma_position(w, h, i);
            }
            assert(data@ =~= start);
        }
        while x < x1
            invariant
                w == width,
                h == height,
                gx == cx,
                gy == cy,
                bytes.len() == width * 4 * height,
                bytes.len() == size,
                x0 == clipped(cx - MARKER_HALF, w),
                x1 == clipped(cx + MARKER_HALF, w),
                y0 == clipped(cy - MARKER_HALF, h),
                y1 == clipped(cy + MARKER_HALF, h),
                y0 <= y < y1,
                x0 <= x,
                x0 < x1 ==> x <= x1,
                data@ == marked_before(bytes, w, gx, gy, y as int, x as int),
            decreases x1 - x,
        {
            let ghost before = data@;
            proof {
                assert(0 <= (y * w + x) * 4 <= w * 4 * h - 4) by (nonlinear_arith)
                    requires
                        0 <= x < w,
                        0 <= y < h,
                ;
                assert(0 <= y * w <= (y * w + x) * 4) by (nonlinear_arith)
                    requires
                        0 <= x < w,
                        0 <= y < h,
                ;
            }
            let off: usize = ((y as usize) * (width as usize) + (x as usize)) * 4;
            data[off] = 0xFF;
            data[off + 1] = 0x00;
            data[off + 2] = 0xFF;
            data[off + 3] = 0xFF;
            proof {
                lemma_marked_step(bytes, before, data@, w, gx, gy, y as int, x as int);
            }
            x = x + 1;
        }
        proof {
            let next = marked_before(bytes, w, gx, gy, y + 1, 0);
            assert forall|i: int| 0 <= i < bytes.len() implies data@[i] == next[i] by {
                lemma_position(w, h, i);
            }
            assert(data@ =~= next);
        }
        y = y + 1;
    }
    proof {
        let goal = marked(bytes, w, gx, gy);
        assert forall|i: int| 0 <= i < bytes.len() implies data@[i] == goal[i] by {
            lemma_position(w, h, i);
        }
        assert(data@ =~= goal);
    }
}

impl Frame {
    /// The raster has the bytes that its size asks for.
    pub open spec fn wf(self) -> bool {
        &&& is_pixmap_size(self.width, self.height)
        &&& pixmap_bytes(self.pixmap).len() == self.width * 4 * self.height
    }

    /// A transparent frame.
    pub fn new(width: u32, height: u32) -> (r: Result<Frame, FrameError>)
        requires
            is_pixmap_size(width, height) ==> width * 4 * height <= isize::MAX,
        ensures
            r is Ok <==> is_pixmap_size(width, height),
            r matches Ok(frame) ==> {
                &&& frame.wf()
                &&& frame.width == width
                &&& frame.height == height
                &&& pixmap_bytes(frame.pixmap) == Seq::new(
                    (width * 4 * height) as nat,
                    |i: int| 0u8,
                )
            },
            r matches Err(error) ==> error == (FrameError { width, height }),
    {
        match Pixmap::new(width, height) {
            Some(pixmap) => {
                proof {
                    assert(width * 4 * height >= 0) by (nonlinear_arith)
                        requires
                            width >= 0,
                            height >= 0,
                    ;
                }
                Ok(Frame { pixmap, width, height })
            },
            None => Err(FrameError { width, height }),
        }
    }

    /// Whether the raster still has the bytes that its size asks for.
    pub fn is_intact(&self) -> (r: bool)
        ensures
            r == self.wf(),
    {
        match checked_layout(self.width, self.height) {
            Some((_, size)) => {
                self.width > 0 && self.height > 0 && self.pixmap.data().len() == size
            },
            None => false,
        }
    }

    /// Paints the debug marker around `(cx, cy)`.
    pub fn mark(&mut self, cx: i32, cy: i32)
        requires
            old(self).wf(),
        ensures
            final(self).wf(),
            final(self).width == old(self).width,
            final(self).height == old(self).height,
            pixmap_bytes(final(self).pixmap) == marked(
                pixmap_bytes(old(self).pixmap),
                old(self).width as int,
                cx as int,
                cy as int,
            ),
    {
        let width: u32 = self.width;
        let height: u32 = self.height;
        paint_marker(self.pixmap.data_mut(), width, height, cx, cy);
    }

    /// Copies the frame to a buffer of BGRA pixels.
    pub fn copy_to(&self, out: &mut [u8])
        requires
            self.wf(),
            old(out)@.len() == self.width * 4 * self.height,
        ensures
            final(out)@ == swapped(pixmap_bytes(self.pixmap)),
    {
        proof {
            let w = self.width as int;
            let h = self.height as int;
            assert(w * 4 * h == 4 * (w * h)) by (nonlinear_arith);
        }
        copy_swapped(self.pixmap.data(), out);
    }
}

/// Exchanging red and blue twice gives the pixels back.
pub proof fn law_swap_is_its_own_inverse(bytes: Seq<u8>)
    requires
        bytes.len() % 4 == 0,
    ensures
        swapped(swapped(bytes)) == bytes,
{
    assert(swapped(swapped(bytes)) =~= bytes);
}

/// A frame on which nothing was painted reaches the compositor fully
/// transparent.
pub proof fn law_blank_frame_is_transparent(size: nat)
    requires
        size % 4 == 0,
    ensures
        swapped(Seq::new(size, |i: int| 0u8)) == Seq::new(size, |i: int| 0u8),
{
    assert(swapped(Seq::new(size, |i: int| 0u8)) =~= Seq::new(size, |i: int| 0u8));
}

/// In every pixel, whatever its bytes, red and blue change places, and green and
/// alpha stay.
pub proof fn law_red_and_blue_change_places(bytes: Seq<u8>, k: int)
    requires
        0 <= k,
        4 * k + 3 < bytes.len(),
    ensures
        swapped(bytes).len() == bytes.len(),
        swapped(bytes)[4 * k] == bytes[4 * k + 2],
        swapped(bytes)[4 * k + 1] == bytes[4 * k + 1],
        swapped(bytes)[4 * k + 2] == bytes[4 * k],
        swapped(bytes)[4 * k + 3] == bytes[4 * k + 3],
{
}

/// The marker is the square of 60 pixels around its centre: there every pixel
/// of the raster becomes opaque magenta, and every other pixel stays.
pub proof fn law_marker_is_a_magenta_square(
    bytes: Seq<u8>,
    width: int,
    height: int,
    cx: int,
    cy: int,
    px: int,
    py: int,
)
    requires
        bytes.len() == width * 4 * height,
        0 <= px < width,
        0 <= py < height,
    ensures
        ({
            let at = (py * width + px) * 4;
            let after = marked(bytes, width, cx, cy);
            &&& after.len() == bytes.len()
            &&& 0 <= at && at + 3 < bytes.len()
            &&& if cx - 30 <= px < cx + 30 && cy - 30 <= py < cy + 30 {
                after[at] == 255 && after[at + 1] == 0 && after[at + 2] == 255 && after[at + 3]
                    == 255
            } else {
                after[at] == bytes[at] && after[at + 1] == bytes[at + 1] && after[at + 2]
                    == bytes[at + 2] && after[at + 3] == bytes[at + 3]
            }
        }),
{
    let p = py * width + px;
    lemma_pixel_number(width, px, py, p);
    assert(0 <= p * 4 <= width * 4 * height - 4) by (nonlinear_arith)
        requires
            p == py * width + px,
            0 <= px < width,
            0 <= py < height,
    ;
    assert((p * 4) / 4 == p && (p * 4 + 1) / 4 == p && (p * 4 + 2) / 4 == p && (p * 4 + 3) / 4
        == p);
    assert((p * 4) % 4 == 0 && (p * 4 + 1) % 4 == 1 && (p * 4 + 2) % 4 == 2 && (p * 4 + 3) % 4
        == 3);
}

/// A raster can be laid out exactly where it has area and a buffer of its size
/// fits.
pub proof fn law_rasters_fit_their_buffers(width: u32, height: u32)
    ensures
        is_pixmap_size(width, height) <==> width > 0 && height > 0 && fits(width, height),
{
}

} // verus!
