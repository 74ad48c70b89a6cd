//! An owned rectangular grid of packed pixels. The buffer length always
//! equals `width * height`; out-of-range access is a caller error, ruled out
//! by contract.

use vstd::prelude::*;
use crate::math::Size;

verus! {

/// A 2D pixel buffer. Each entry is a pixel packed as `0xAARRGGBB`
/// (see [`crate::Pixel::to_u32`]); entry `(x, y)` sits at index
/// `y * width + x`, rows top to bottom.
pub struct Bitmap {
    width: u32,
    height: u32,
    buf: Vec<u32>,
}

/// The largest width or height of a bitmap, so that `width * height` is an
/// index on 32-bit machines too.
pub const MAX_BITMAP_DIM: u32 = 65535;

impl View for Bitmap {
    type V = Seq<u32>;

    closed spec fn view(&self) -> Seq<u32> {
        self.buf@
    }
}

/// An index strictly inside each dimension is strictly inside the buffer.
proof fn lemma_index_in_bounds(x: int, y: int, w: int, h: int)
    requires
        0 <= x < w,
        0 <= y < h,
        w <= 65535,
        h <= 65535,
    ensures
        0 <= y * w + x < w * h,
        w * h <= 65535 * 65535,
{
    assert(0 <= y * w + x < w * h && w * h <= 65535 * 65535) by (nonlinear_arith)
        requires
            0 <= x < w && 0 <= y < h && w <= 65535 && h <= 65535,
    ;
}

impl Bitmap {
    pub closed spec fn spec_width(&self) -> u32 {
        self.width
    }

    pub closed spec fn spec_height(&self) -> u32 {
        self.height
    }

    /// The buffer holds exactly one entry per coordinate, and the dimensions
    /// are small enough that every index fits a `usize`.
    pub open spec fn wf(&self) -> bool {
        &&& self@.len() == self.spec_width() * self.spec_height()
        &&& self.spec_width() <= MAX_BITMAP_DIM
        &&& self.spec_height() <= MAX_BITMAP_DIM
    }

    /// The packed pixel at `(x, y)`.
    pub open spec fn spec_at(&self, x: int, y: int) -> u32 {
        self@[y * self.spec_width() + x]
    }

    pub fn width(&self) -> (w: u32)
        ensures
            w == self.spec_width(),
    {
        self.width
    }

    pub fn height(&self) -> (h: u32)
        ensures
            h == self.spec_height(),
    {
        self.height
    }

    /// A bitmap of the given size with every pixel fully transparent.
    pub fn new(size: Size) -> (bm: Bitmap)
        requires
            size.w <= MAX_BITMAP_DIM,
            size.h <= MAX_BITMAP_DIM,
        ensures
            bm.wf(),
            bm.spec_width() == size.w,
            bm.spec_height() == size.h,
            forall|i: int| 0 <= i < bm@.len() ==> bm@[i] == 0,
    {
        proof {
            assert(size.w * size.h <= 65535 * 65535) by (nonlinear_arith)
                requires
                    size.w <= 65535 && size.h <= 65535,
            ;
        }
        let n: usize = (size.w as u64 * size.h as u64) as usize;
        let mut buf: Vec<u32> = Vec::new();
        while buf.len() < n
            invariant
                buf.len() <= n,
                forall|i: int| 0 <= i < buf.len() ==> buf[i] == 0,
            decreases n - buf.len(),
        {
            buf.push(0);
        }
        Bitmap { width: size.w, height: size.h, buf }
    }

    /// Wraps an existing row-major buffer of packed pixels.
    pub fn from_buffer(buffer: Vec<u32>, size: Size) -> (bm: Bitmap)
        requires
            size.w <= MAX_BITMAP_DIM,
            size.h <= MAX_BITMAP_DIM,
            buffer@.len() == size.w * size.h,
        ensures
            bm.wf(),
            bm.spec_width() == size.w,
            bm.spec_height() == size.h,
            bm@ == buffer@,
    {
        Bitmap { width: size.w, height: size.h, buf: buffer }
    }

    /// Reads the packed pixel at `(x, y)`.
    pub fn get(&self, x: u32, y: u32) -> (v: u32)
        requires
            self.wf(),
            x < self.spec_width(),
            y < self.spec_height(),
        ensures
            v == self.spec_at(x as int, y as int),
    {
        proof {
            lemma_index_in_bounds(
                x as int,
                y as int,
                self.spec_width() as int,
                self.spec_height() as int,
            );
        }
        let idx: usize = (y as u64 * self.width as u64 + x as u64) as usize;
        self.buf[idx]
    }

    /// Writes the packed pixel at `(x, y)`.
    pub fn set(&mut self, x: u32, y: u32, v: u32)
        requires
            old(self).wf(),
            x < old(self).spec_width(),
            y < old(self).spec_height(),
        ensures
            final(self).wf(),
            final(self).spec_width() == old(self).spec_width(),
            final(self).spec_height() == old(self).spec_height(),
            final(self)@ == old(self)@.update(
                y * old(self).spec_width() + x,
                v,
            ),
    {
        proof {
            lemma_index_in_bounds(
                x as int,
                y as int,
                self.spec_width() as int,
                self.spec_height() as int,
            );
        }
        let idx: usize = (y as u64 * self.width as u64 + x as u64) as usize;
        self.buf.set(idx, v);
    }

    /// The whole buffer, row-major, for handing a finished frame to a
    /// presentation layer.
    pub fn pixels(&self) -> (buf: &Vec<u32>)
        ensures
            buf@ == self@,
    {
        &self.buf
    }
}

} // verus!
