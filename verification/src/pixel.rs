//! The color model: a fixed four-channel (alpha, red, green, blue) pixel
//! value with a packed `u32` representation and saturating channel
//! arithmetic.

use vstd::prelude::*;

verus! {

/// One pixel: four 8-bit channels, alpha first.
#[derive(Clone, Copy, Debug, PartialEq, Eq, PartialOrd, Ord, Hash, Structural)]
pub struct Pixel {
    pub a: u8,
    pub r: u8,
    pub g: u8,
    pub b: u8,
}

/// `x + y` on one channel, saturating at 255.
pub open spec fn spec_sat_add_u8(x: u8, y: u8) -> u8 {
    if x + y > 255 {
        255u8
    } else {
        (x + y) as u8
    }
}

/// `x - y` on one channel, saturating at 0.
pub open spec fn spec_sat_sub_u8(x: u8, y: u8) -> u8 {
    if x >= y {
        (x - y) as u8
    } else {
        0u8
    }
}

/// `x * y` on one channel, saturating at 255.
pub open spec fn spec_sat_mul_u8(x: u8, y: u8) -> u8 {
    if x * y > 255 {
        255u8
    } else {
        (x * y) as u8
    }
}

impl Pixel {
    pub open spec fn spec_new(a: u8, r: u8, g: u8, b: u8) -> Pixel {
        Pixel { a, r, g, b }
    }

    pub fn new(a: u8, r: u8, g: u8, b: u8) -> (p: Pixel)
        ensures
            p == Pixel::spec_new(a, r, g, b),
    {
        Pixel { a, r, g, b }
    }

    /// The fully transparent pixel, with all channels zero.
    pub fn transparent() -> (p: Pixel)
        ensures
            p == Pixel::spec_new(0, 0, 0, 0),
    {
        Pixel { a: 0, r: 0, g: 0, b: 0 }
    }

    /// What `from_hex` unpacks: each channel is a byte of the packed value.
    pub open spec fn spec_from_hex(hex: u32) -> Pixel {
        Pixel {
            a: ((hex >> 24) & 0xff) as u8,
            r: ((hex >> 16) & 0xff) as u8,
            g: ((hex >> 8) & 0xff) as u8,
            b: (hex & 0xff) as u8,
        }
    }

    /// Unpacks `0xAARRGGBB`. Plain shifts and masks, so the result does not
    /// depend on the machine's endianness.
    pub fn from_hex(hex: u32) -> (p: Pixel)
        ensures
            p == Pixel::spec_from_hex(hex),
    {
        Pixel {
            a: ((hex >> 24) & 0xff) as u8,
            r: ((hex >> 16) & 0xff) as u8,
            g: ((hex >> 8) & 0xff) as u8,
            b: (hex & 0xff) as u8,
        }
    }

    /// Packs the channels as `0xAARRGGBB`, the inverse of `from_hex`.
    pub fn to_u32(self) -> (val: u32)
        ensures
            val == self.spec_to_u32(),
    {
        let mut val: u32 = (self.a as u32) << 24;
        val |= (self.r as u32) << 16;
        val |= (self.g as u32) << 8;
        val |= self.b as u32;
        val
    }

    pub open spec fn spec_to_u32(self) -> u32 {
        ((self.a as u32) << 24) | ((self.r as u32) << 16) | ((self.g as u32) << 8) | (
        self.b as u32)
    }

    /// The channels in memory order: alpha, red, green, blue.
    pub fn to_array(self) -> (arr: [u8; 4])
        ensures
            arr@ == seq![self.a, self.r, self.g, self.b],
    {
        let arr = [self.a, self.r, self.g, self.b];
        proof {
            assert(arr@ =~= seq![self.a, self.r, self.g, self.b]);
        }
        arr
    }

    /// Per-channel sum, saturating at 255.
    pub fn saturating_add(self, rhs: Pixel) -> (p: Pixel)
        ensures
            p.a == spec_sat_add_u8(self.a, rhs.a),
            p.r == spec_sat_add_u8(self.r, rhs.r),
            p.g == spec_sat_add_u8(self.g, rhs.g),
            p.b == spec_sat_add_u8(self.b, rhs.b),
    {
        Pixel {
            a: self.a.saturating_add(rhs.a),
            r: self.r.saturating_add(rhs.r),
            g: self.g.saturating_add(rhs.g),
            b: self.b.saturating_add(rhs.b),
        }
    }

    /// Per-channel difference, saturating at 0.
    pub fn saturating_sub(self, rhs: Pixel) -> (p: Pixel)
        ensures
            p.a == spec_sat_sub_u8(self.a, rhs.a),
            p.r == spec_sat_sub_u8(self.r, rhs.r),
            p.g == spec_sat_sub_u8(self.g, rhs.g),
            p.b == spec_sat_sub_u8(self.b, rhs.b),
    {
        Pixel {
            a: self.a.saturating_sub(rhs.a),
            r: self.r.saturating_sub(rhs.r),
            g: self.g.saturating_sub(rhs.g),
            b: self.b.saturating_sub(rhs.b),
        }
    }

    /// Per-channel scaling, saturating at 255.
    pub fn saturating_mul(self, rhs: u8) -> (p: Pixel)
        ensures
            p.a == spec_sat_mul_u8(self.a, rhs),
            p.r == spec_sat_mul_u8(self.r, rhs),
            p.g == spec_sat_mul_u8(self.g, rhs),
            p.b == spec_sat_mul_u8(self.b, rhs),
    {
        Pixel {
            a: sat_mul_u8(self.a, rhs),
            r: sat_mul_u8(self.r, rhs),
            g: sat_mul_u8(self.g, rhs),
            b: sat_mul_u8(self.b, rhs),
        }
    }

    /// Per-channel division. Dividing by zero is a caller error, ruled out
    /// here rather than recovered from.
    pub fn div(self, rhs: u8) -> (p: Pixel)
        requires
            rhs != 0,
        ensures
            p.a == self.a / rhs,
            p.r == self.r / rhs,
            p.g == self.g / rhs,
            p.b == self.b / rhs,
    {
        Pixel { a: self.a / rhs, r: self.r / rhs, g: self.g / rhs, b: self.b / rhs }
    }
}

fn sat_mul_u8(x: u8, y: u8) -> (r: u8)
    ensures
        r == spec_sat_mul_u8(x, y),
{
    proof {
        assert(x as int * y as int <= 255 * 255) by (nonlinear_arith)
            requires
                x <= 255 && y <= 255,
        ;
    }
    let v: u32 = x as u32 * y as u32;
    if v > 255 {
        255
    } else {
        v as u8
    }
}

/// Takes the RGB of the first pixel and the A of the second pixel.
pub fn rgb_a(rgb: Pixel, a: Pixel) -> (p: Pixel)
    ensures
        p == Pixel::spec_new(a.a, rgb.r, rgb.g, rgb.b),
{
    Pixel { a: a.a, r: rgb.r, g: rgb.g, b: rgb.b }
}

/// Packing then unpacking a pixel gives the pixel back.
pub proof fn lemma_hex_roundtrip(p: Pixel)
    ensures
        Pixel::spec_from_hex(p.spec_to_u32()) == p,
{
    let v = p.spec_to_u32();
    let a = p.a;
    let r = p.r;
    let g = p.g;
    let b = p.b;
    assert(((v >> 24) & 0xff) as u8 == a && ((v >> 16) & 0xff) as u8 == r && ((v >> 8) & 0xff) as u8
        == g && (v & 0xff) as u8 == b) by (bit_vector)
        requires
            v == ((a as u32) << 24) | ((r as u32) << 16) | ((g as u32) << 8) | (b as u32),
    ;
}

} // verus!
