//! Alpha composition: operators that combine a source pixel with a
//! destination pixel during drawing. Operators are first-class values (see
//! [`AlphaComp`]) so every draw command can pick its own.

use vstd::prelude::*;
use crate::pixel::Pixel;
use crate::pixel::spec_sat_add_u8;

verus! {

/// Standard alpha compositing of `src` over `dst`, on the integers.
///
/// The result alpha, on a 0..=255*255 scale, is
/// `src.a * 255 + dst.a * (255 - src.a)`; each color channel is the weighted
/// channel sum divided by that alpha. When both alphas are zero the division
/// is undefined, and the result is defined as the fully transparent pixel.
pub open spec fn spec_over(src: Pixel, dst: Pixel) -> Pixel {
    let sa = src.a as int;
    let da = dst.a as int;
    let ao255 = sa * 255 + da * (255 - sa);
    if ao255 == 0 {
        Pixel { a: 0, r: 0, g: 0, b: 0 }
    } else {
        Pixel {
            a: (ao255 / 255) as u8,
            r: ((src.r * sa * 255 + dst.r * da * (255 - sa)) / ao255) as u8,
            g: ((src.g * sa * 255 + dst.g * da * (255 - sa)) / ao255) as u8,
            b: ((src.b * sa * 255 + dst.b * da * (255 - sa)) / ao255) as u8,
        }
    }
}

/// Per-channel saturating sum of the two pixels.
pub open spec fn spec_add(src: Pixel, dst: Pixel) -> Pixel {
    Pixel {
        a: spec_sat_add_u8(src.a, dst.a),
        r: spec_sat_add_u8(src.r, dst.r),
        g: spec_sat_add_u8(src.g, dst.g),
        b: spec_sat_add_u8(src.b, dst.b),
    }
}

/// One weighted channel sum divided by the result alpha stays within a
/// channel, and is exact when one of the two weights is zero.
proof fn lemma_over_channel(c_src: int, c_dst: int, sa: int, da: int)
    requires
        0 <= c_src <= 255,
        0 <= c_dst <= 255,
        0 <= sa <= 255,
        0 <= da <= 255,
        sa * 255 + da * (255 - sa) > 0,
    ensures
        0 <= (c_src * sa * 255 + c_dst * da * (255 - sa)) / (sa * 255 + da * (255 - sa)) <= 255,
        da == 0 ==> (c_src * sa * 255 + c_dst * da * (255 - sa)) / (sa * 255 + da * (255 - sa))
            == c_src,
        sa == 0 ==> (c_src * sa * 255 + c_dst * da * (255 - sa)) / (sa * 255 + da * (255 - sa))
            == c_dst,
{
    let ao = sa * 255 + da * (255 - sa);
    let num = c_src * sa * 255 + c_dst * da * (255 - sa);
    assert(0 <= num && num <= 255 * ao) by (nonlinear_arith)
        requires
            0 <= c_src <= 255,
            0 <= c_dst <= 255,
            0 <= sa <= 255,
            0 <= da <= 255,
            ao == sa * 255 + da * (255 - sa),
            num == c_src * sa * 255 + c_dst * da * (255 - sa),
    ;
    assert(0 <= num / ao <= 255) by (nonlinear_arith)
        requires
            ao > 0,
            0 <= num,
            num <= 255 * ao,
    ;
    if da == 0 {
        assert(num == c_src * ao) by (nonlinear_arith)
            requires
                da == 0,
                ao == sa * 255 + da * (255 - sa),
                num == c_src * sa * 255 + c_dst * da * (255 - sa),
        ;
        assert(c_src * ao / ao == c_src) by (nonlinear_arith)
            requires
                ao > 0,
        ;
    }
    if sa == 0 {
        assert(num == c_dst * ao) by (nonlinear_arith)
            requires
                sa == 0,
                ao == sa * 255 + da * (255 - sa),
                num == c_src * sa * 255 + c_dst * da * (255 - sa),
        ;
        assert(c_dst * ao / ao == c_dst) by (nonlinear_arith)
            requires
                ao > 0,
        ;
    }
}

/// A product of three channel-sized factors stays within `255^3`.
proof fn lemma_prod_bound(c: int, w: int, m: int)
    requires
        0 <= c <= 255,
        0 <= w <= 255,
        0 <= m <= 255,
    ensures
        0 <= c * w <= 255 * 255,
        0 <= c * w * m <= 255 * 255 * 255,
{
    assert(0 <= c * w <= 255 * 255 && 0 <= c * w * m <= 255 * 255 * 255) by (nonlinear_arith)
        requires
            0 <= c <= 255 && 0 <= w <= 255 && 0 <= m <= 255,
    ;
}

/// Composites `src` over `dst` with standard alpha compositing.
pub fn over(src: Pixel, dst: Pixel) -> (p: Pixel)
    ensures
        p == spec_over(src, dst),
{
    let sa: u32 = src.a as u32;
    let da: u32 = dst.a as u32;
    proof {
        assert(0 <= sa * 255 + da * (255 - sa) <= 255 * 255) by (nonlinear_arith)
            requires
                0 <= sa <= 255 && 0 <= da <= 255,
        ;
    }
    let ao255: u32 = sa * 255 + da * (255 - sa);
    if ao255 == 0 {
        Pixel { a: 0, r: 0, g: 0, b: 0 }
    } else {
        proof {
            lemma_over_channel(src.r as int, dst.r as int, sa as int, da as int);
            lemma_over_channel(src.g as int, dst.g as int, sa as int, da as int);
            lemma_over_channel(src.b as int, dst.b as int, sa as int, da as int);
            lemma_prod_bound(src.r as int, sa as int, 255);
            lemma_prod_bound(src.g as int, sa as int, 255);
            lemma_prod_bound(src.b as int, sa as int, 255);
            lemma_prod_bound(dst.r as int, da as int, 255 - sa as int);
            lemma_prod_bound(dst.g as int, da as int, 255 - sa as int);
            lemma_prod_bound(dst.b as int, da as int, 255 - sa as int);
        }
        let r: u32 = (src.r as u32 * sa * 255 + dst.r as u32 * da * (255 - sa)) / ao255;
        let g: u32 = (src.g as u32 * sa * 255 + dst.g as u32 * da * (255 - sa)) / ao255;
        let b: u32 = (src.b as u32 * sa * 255 + dst.b as u32 * da * (255 - sa)) / ao255;
        Pixel { a: (ao255 / 255) as u8, r: r as u8, g: g as u8, b: b as u8 }
    }
}

/// Adds `src` onto `dst`, saturating each channel at 255.
pub fn add(src: Pixel, dst: Pixel) -> (p: Pixel)
    ensures
        p == spec_add(src, dst),
{
    src.saturating_add(dst)
}

/// An alpha-composition operator as a first-class value, selectable per draw
/// command.
#[derive(Clone, Copy, Debug, PartialEq, Eq, Structural)]
pub enum AlphaComp {
    /// Standard alpha compositing (the default operator).
    Over,
    /// Per-channel saturating addition.
    Add,
}

impl AlphaComp {
    pub open spec fn spec_apply(self, src: Pixel, dst: Pixel) -> Pixel {
        match self {
            AlphaComp::Over => spec_over(src, dst),
            AlphaComp::Add => spec_add(src, dst),
        }
    }

    /// Applies the operator to a source and a destination pixel.
    pub fn apply(self, src: Pixel, dst: Pixel) -> (p: Pixel)
        ensures
            p == self.spec_apply(src, dst),
    {
        match self {
            AlphaComp::Over => over(src, dst),
            AlphaComp::Add => crate::alphacomp::add(src, dst),
        }
    }
}

/// Compositing over a fully transparent destination gives the source back,
/// for any source with nonzero alpha. (A source whose alpha is zero composes
/// to the fully transparent pixel instead, whatever its color channels: with
/// both alphas zero the operator is defined to produce full transparency.)
pub proof fn lemma_over_transparent_dst(src: Pixel, dst: Pixel)
    requires
        dst.a == 0,
        src.a > 0,
    ensures
        spec_over(src, dst) == src,
{
    let sa = src.a as int;
    lemma_over_channel(src.r as int, dst.r as int, sa, 0);
    lemma_over_channel(src.g as int, dst.g as int, sa, 0);
    lemma_over_channel(src.b as int, dst.b as int, sa, 0);
    assert(sa * 255 / 255 == sa) by (nonlinear_arith)
        requires
            0 <= sa,
    ;
}

/// Compositing a fully transparent source leaves the destination, for any
/// destination with nonzero alpha. (With both alphas zero the result is the
/// fully transparent pixel.)
pub proof fn lemma_over_transparent_src(src: Pixel, dst: Pixel)
    requires
        src.a == 0,
        dst.a > 0,
    ensures
        spec_over(src, dst) == dst,
{
    let da = dst.a as int;
    lemma_over_channel(src.r as int, dst.r as int, 0, da);
    lemma_over_channel(src.g as int, dst.g as int, 0, da);
    lemma_over_channel(src.b as int, dst.b as int, 0, da);
    assert(da * 255 / 255 == da) by (nonlinear_arith)
        requires
            0 <= da,
    ;
}

/// With both alphas zero, `over` produces the fully transparent pixel.
pub proof fn lemma_over_both_transparent(src: Pixel, dst: Pixel)
    requires
        src.a == 0,
        dst.a == 0,
    ensures
        spec_over(src, dst) == Pixel::spec_new(0, 0, 0, 0),
{
}

/// Each channel of a saturating `add` is at least as large as the same
/// channel of either operand, unless it saturated at 255.
pub proof fn lemma_add_channel_monotone(src: Pixel, dst: Pixel)
    ensures
        spec_add(src, dst).a >= src.a && spec_add(src, dst).a >= dst.a || spec_add(src, dst).a
            == 255,
        spec_add(src, dst).r >= src.r && spec_add(src, dst).r >= dst.r || spec_add(src, dst).r
            == 255,
        spec_add(src, dst).g >= src.g && spec_add(src, dst).g >= dst.g || spec_add(src, dst).g
            == 255,
        spec_add(src, dst).b >= src.b && spec_add(src, dst).b >= dst.b || spec_add(src, dst).b
            == 255,
{
}

} // verus!
