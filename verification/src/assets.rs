//! Asset decoding: PNG bytes become bitmaps in the library's packed pixel
//! order. The decode itself is the `image` crate's; the channel reordering
//! into `0xAARRGGBB` entries is verified here.

use vstd::prelude::*;
use crate::bitmap::{Bitmap, MAX_BITMAP_DIM};
use crate::math::Size;

verus! {

/// What decoding a byte buffer as a PNG yields: `None` when the bytes are
/// not a well-formed PNG, otherwise the image's width, height and its pixels
/// as 4-byte RGBA groups, rows top to bottom, left to right. The result is a
/// function of the bytes alone.
pub uninterp spec fn png_decoded(bytes: Seq<u8>) -> Option<(nat, nat, Seq<u8>)>;

/// Why a byte buffer could not become a bitmap.
#[derive(Clone, Copy, Debug, PartialEq, Eq, Structural)]
pub enum AssetError {
    /// The bytes are not a well-formed PNG image.
    Decode,
    /// The image is wider or taller than a bitmap can be.
    TooLarge,
}

#[verifier::external_type_specification]
#[verifier::external_body]
pub struct ExImageError(image::error::ImageError);

/// Relies on `image::load_from_memory_with_format` with the PNG format and
/// `DynamicImage::into_rgba8`: decoding succeeds or fails as a function of
/// the input bytes alone, and on success the raw container holds exactly
/// `width * height` pixels of 4 RGBA bytes each, rows top to bottom.
#[verifier::external_body]
fn decode_png(bytes: &[u8]) -> (r: Result<(u32, u32, Vec<u8>), image::error::ImageError>)
    ensures
        match r {
            Ok(t) => png_decoded(bytes@) == Option::Some(
                ((t.0 as nat), (t.1 as nat), t.2@),
            ) && t.2@.len() == 4 * (t.0 as nat) * (t.1 as nat),
            Err(_) => png_decoded(bytes@) is None,
        },
{
    let img = match image::load_from_memory_with_format(bytes, image::ImageFormat::Png) {
        Ok(img) => img,
        Err(e) => {
            return Err(e);
        },
    };
    let rgba = img.into_rgba8();
    let (w, h) = (rgba.width(), rgba.height());
    Ok((w, h, rgba.into_raw()))
}

/// The packed `0xAARRGGBB` entry for the `i`-th 4-byte RGBA group of a
/// decoded pixel buffer.
pub open spec fn spec_argb_from_rgba(buf: Seq<u8>, i: int) -> u32 {
    ((buf[4 * i + 3] as u32) << 24) | ((buf[4 * i] as u32) << 16) | ((buf[4 * i + 1] as u32) << 8)
        | (buf[4 * i + 2] as u32)
}

/// Loads a PNG from memory into a bitmap, reordering each RGBA pixel into
/// the packed alpha-red-green-blue entry the compositor works on. Bytes that
/// are not a PNG give `Decode`; an image too large for a bitmap gives
/// `TooLarge`.
pub fn load_png_from_memory(png: &[u8]) -> (r: Result<Bitmap, AssetError>)
    ensures
        match png_decoded(png@) {
            Option::None => r == Result::<Bitmap, AssetError>::Err(AssetError::Decode),
            Option::Some(t) => if t.0 > MAX_BITMAP_DIM || t.1 > MAX_BITMAP_DIM {
                r == Result::<Bitmap, AssetError>::Err(AssetError::TooLarge)
            } else {
                &&& r is Ok
                &&& r->Ok_0.wf()
                &&& r->Ok_0.spec_width() == t.0
                &&& r->Ok_0.spec_height() == t.1
                &&& forall|i: int|
                    0 <= i < t.0 * t.1 ==> #[trigger] r->Ok_0@[i] == spec_argb_from_rgba(t.2, i)
            },
        },
{
    let (w, h, buf) = match decode_png(png) {
        Ok(t) => t,
        Err(_) => {
            return Err(AssetError::Decode);
        },
    };
    if w > MAX_BITMAP_DIM || h > MAX_BITMAP_DIM {
        return Err(AssetError::TooLarge);
    }
    proof {
        assert(4 * (w as int) * (h as int) == 4 * ((w as int) * (h as int))
            && (w as int) * (h as int) <= 65535 * 65535) by (nonlinear_arith)
            requires
                w <= 65535 && h <= 65535,
        ;
    }
    let n_px: usize = (w as u64 * h as u64) as usize;
    let blen: usize = buf.len();
    let mut out: Vec<u32> = Vec::new();
    let mut i: usize = 0;
    while i < n_px
        invariant
            i <= n_px,
            n_px == (w as int) * (h as int),
            buf@.len() == 4 * n_px,
            buf@.len() == blen,
            out@.len() == i,
            forall|j: int| 0 <= j < i ==> #[trigger] out@[j] == spec_argb_from_rgba(buf@, j),
        decreases n_px - i,
    {
        let base: usize = 4 * i;
        let a = buf[base + 3];
        let rr = buf[base];
        let gg = buf[base + 1];
        let bb = buf[base + 2];
        let px: u32 = ((a as u32) << 24) | ((rr as u32) << 16) | ((gg as u32) << 8) | (bb as u32);
        out.push(px);
        i += 1;
    }
    Ok(Bitmap::from_buffer(out, Size { w, h }))
}

} // verus!
