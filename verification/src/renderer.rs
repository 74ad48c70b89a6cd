//! The pixel compositor. A renderer owns the output bitmap, a bitmap font
//! sheet and a registry of spritesheets, and executes draw commands strictly
//! in order, each with a selectable alpha-composition operator and an
//! optional color mask.

use vstd::prelude::*;
use vstd::string::StringSliceAdditionalSpecFns;
use crate::alphacomp::AlphaComp;
use crate::bitmap::Bitmap;
use crate::math::{size, Pos, Rect};
use crate::pixel::Pixel;
use crate::sprite::{NineSlicingSprite, Rotate, Sprite, SpritesheetId, Text};

verus! {

/// The value a destination pixel takes when `src` is composited onto it.
pub open spec fn spec_blend(acf: AlphaComp, src: Pixel, dstv: u32) -> u32 {
    acf.spec_apply(src, Pixel::spec_from_hex(dstv)).spec_to_u32()
}

/// A color mask replaces the source's RGB channels and preserves its alpha,
/// re-tinting glyphs and icons without separate art assets.
pub open spec fn spec_masked(src: Pixel, mask: Option<Pixel>) -> Pixel {
    match mask {
        Option::None => src,
        Option::Some(m) => Pixel { a: src.a, r: m.r, g: m.g, b: m.b },
    }
}

fn masked(src: Pixel, mask: Option<Pixel>) -> (p: Pixel)
    ensures
        p == spec_masked(src, mask),
{
    match mask {
        Option::None => src,
        Option::Some(m) => Pixel { a: src.a, r: m.r, g: m.g, b: m.b },
    }
}

/// Two distinct coordinates have distinct row-major indices.
proof fn lemma_rowmajor_distinct(w: int, x1: int, y1: int, x2: int, y2: int)
    requires
        0 <= x1 < w,
        0 <= x2 < w,
        0 <= y1,
        0 <= y2,
        !(x1 == x2 && y1 == y2),
    ensures
        y1 * w + x1 != y2 * w + x2,
{
    assert(y1 * w + x1 != y2 * w + x2) by (nonlinear_arith)
        requires
            0 <= x1 < w && 0 <= x2 < w && 0 <= y1 && 0 <= y2 && !(x1 == x2 && y1 == y2),
    ;
}

/// A row-major index lies inside the buffer.
proof fn lemma_rowmajor_bounds(w: int, h: int, x: int, y: int)
    requires
        0 <= x < w,
        0 <= y < h,
    ensures
        0 <= y * w + x < w * h,
{
    assert(0 <= y * w + x < w * h) by (nonlinear_arith)
        requires
            0 <= x < w && 0 <= y < h,
    ;
}

/// Composites one pixel onto the bitmap at `(x, y)` and leaves every other
/// entry alone.
fn blend_pixel(fb: &mut Bitmap, x: u32, y: u32, src: Pixel, acf: AlphaComp)
    requires
        old(fb).wf(),
        x < old(fb).spec_width(),
        y < old(fb).spec_height(),
    ensures
        final(fb).wf(),
        final(fb).spec_width() == old(fb).spec_width(),
        final(fb).spec_height() == old(fb).spec_height(),
        forall|x2: int, y2: int|
            0 <= x2 < old(fb).spec_width() && 0 <= y2 < old(fb).spec_height()
                ==> #[trigger] final(fb).spec_at(x2, y2) == if x2 == x as int && y2 == y as int {
                spec_blend(acf, src, old(fb).spec_at(x2, y2))
            } else {
                old(fb).spec_at(x2, y2)
            },
{
    let dstv = fb.get(x, y);
    let out = acf.apply(src, Pixel::from_hex(dstv)).to_u32();
    fb.set(x, y, out);
    proof {
        let w = fb.spec_width() as int;
        let h = fb.spec_height() as int;
        assert forall|x2: int, y2: int| 0 <= x2 < w && 0 <= y2 < h implies #[trigger] fb.spec_at(
            x2,
            y2,
        ) == if x2 == x as int && y2 == y as int {
            spec_blend(acf, src, old(fb).spec_at(x2, y2))
        } else {
            old(fb).spec_at(x2, y2)
        } by {
            lemma_rowmajor_bounds(w, h, x2, y2);
            lemma_rowmajor_bounds(w, h, x as int, y as int);
            if !(x2 == x as int && y2 == y as int) {
                lemma_rowmajor_distinct(w, x2, y2, x as int, y as int);
            }
        }
    }
}

/// Fills the intersection of `r` with the bitmap, compositing `color` onto
/// each covered pixel; pixels outside `r` keep their value.
fn fill_rect_on(fb: &mut Bitmap, r: Rect, color: Pixel, acf: AlphaComp)
    requires
        old(fb).wf(),
    ensures
        final(fb).wf(),
        final(fb).spec_width() == old(fb).spec_width(),
        final(fb).spec_height() == old(fb).spec_height(),
        forall|x: int, y: int|
            0 <= x < old(fb).spec_width() && 0 <= y < old(fb).spec_height()
                ==> #[trigger] final(fb).spec_at(x, y) == if r.spec_contains(x, y) {
                spec_blend(acf, color, old(fb).spec_at(x, y))
            } else {
                old(fb).spec_at(x, y)
            },
{
    let ghost w = old(fb).spec_width() as int;
    let ghost h = old(fb).spec_height() as int;
    let fbw: i64 = fb.width() as i64;
    let fbh: i64 = fb.height() as i64;
    let x0: i64 = if (r.x as i64) > 0 {
        r.x as i64
    } else {
        0
    };
    let x1: i64 = if (r.x as i64) + (r.w as i64) < fbw {
        (r.x as i64) + (r.w as i64)
    } else {
        fbw
    };
    let y0: i64 = if (r.y as i64) > 0 {
        r.y as i64
    } else {
        0
    };
    let y1: i64 = if (r.y as i64) + (r.h as i64) < fbh {
        (r.y as i64) + (r.h as i64)
    } else {
        fbh
    };
    let mut fy: i64 = y0;
    while fy < y1
        invariant
            fb.wf(),
            fb.spec_width() as int == w,
            fb.spec_height() as int == h,
            y0 <= fy <= if y0 < y1 {
                y1
            } else {
                y0
            },
            y0 == if (r.y as int) > 0 {
                r.y as int
            } else {
                0
            },
            y1 == if (r.y as int) + (r.h as int) < h {
                (r.y as int) + (r.h as int)
            } else {
                h
            },
            x0 == if (r.x as int) > 0 {
                r.x as int
            } else {
                0
            },
            x1 == if (r.x as int) + (r.w as int) < w {
                (r.x as int) + (r.w as int)
            } else {
                w
            },
            forall|x: int, y: int|
                0 <= x < w && 0 <= y < h ==> #[trigger] fb.spec_at(x, y) == if r.spec_contains(
                    x,
                    y,
                ) && y < fy {
                    spec_blend(acf, color, old(fb).spec_at(x, y))
                } else {
                    old(fb).spec_at(x, y)
                },
        decreases y1 - fy,
    {
        let mut fx: i64 = x0;
        while fx < x1
            invariant
                fb.wf(),
                fb.spec_width() as int == w,
                fb.spec_height() as int == h,
                y0 <= fy < y1,
                x0 <= fx <= if x0 < x1 {
                    x1
                } else {
                    x0
                },
                y0 == if (r.y as int) > 0 {
                    r.y as int
                } else {
                    0
                },
                y1 == if (r.y as int) + (r.h as int) < h {
                    (r.y as int) + (r.h as int)
                } else {
                    h
                },
                x0 == if (r.x as int) > 0 {
                    r.x as int
                } else {
                    0
                },
                x1 == if (r.x as int) + (r.w as int) < w {
                    (r.x as int) + (r.w as int)
                } else {
                    w
                },
                forall|x: int, y: int|
                    0 <= x < w && 0 <= y < h ==> #[trigger] fb.spec_at(x, y)
                        == if r.spec_contains(x, y) && (y < fy || (y == fy && x < fx)) {
                        spec_blend(acf, color, old(fb).spec_at(x, y))
                    } else {
                        old(fb).spec_at(x, y)
                    },
            decreases x1 - fx,
        {
            blend_pixel(fb, fx as u32, fy as u32, color, acf);
            fx = fx + 1;
        }
        fy = fy + 1;
    }
}

/// The outline of `r` at the given stroke width: inside `r` but not inside
/// `r` shrunk by `stroke` on every edge.
pub open spec fn spec_border_region(r: Rect, stroke: int, x: int, y: int) -> bool {
    &&& r.spec_contains(x, y)
    &&& !(r.x + stroke <= x < r.x + r.w - stroke && r.y + stroke <= y < r.y + r.h - stroke)
}

/// Paints the outline of `r`, `stroke` pixels thick, onto the bitmap.
fn border_on(fb: &mut Bitmap, r: Rect, stroke: u32, color: Pixel, acf: AlphaComp)
    requires
        old(fb).wf(),
    ensures
        final(fb).wf(),
        final(fb).spec_width() == old(fb).spec_width(),
        final(fb).spec_height() == old(fb).spec_height(),
        forall|x: int, y: int|
            0 <= x < old(fb).spec_width() && 0 <= y < old(fb).spec_height()
                ==> #[trigger] final(fb).spec_at(x, y) == if spec_border_region(
                r,
                stroke as int,
                x,
                y,
            ) {
                spec_blend(acf, color, old(fb).spec_at(x, y))
            } else {
                old(fb).spec_at(x, y)
            },
{
    let ghost w = old(fb).spec_width() as int;
    let ghost h = old(fb).spec_height() as int;
    let fbw: i64 = fb.width() as i64;
    let fbh: i64 = fb.height() as i64;
    let x0: i64 = if (r.x as i64) > 0 {
        r.x as i64
    } else {
        0
    };
    let x1: i64 = if (r.x as i64) + (r.w as i64) < fbw {
        (r.x as i64) + (r.w as i64)
    } else {
        fbw
    };
    let y0: i64 = if (r.y as i64) > 0 {
        r.y as i64
    } else {
        0
    };
    let y1: i64 = if (r.y as i64) + (r.h as i64) < fbh {
        (r.y as i64) + (r.h as i64)
    } else {
        fbh
    };
    let ix0: i64 = (r.x as i64) + (stroke as i64);
    let ix1: i64 = (r.x as i64) + (r.w as i64) - (stroke as i64);
    let iy0: i64 = (r.y as i64) + (stroke as i64);
    let iy1: i64 = (r.y as i64) + (r.h as i64) - (stroke as i64);
    let mut fy: i64 = y0;
    while fy < y1
        invariant
            fb.wf(),
            fb.spec_width() as int == w,
            fb.spec_height() as int == h,
            y0 <= fy <= if y0 < y1 {
                y1
            } else {
                y0
            },
            y0 == if (r.y as int) > 0 {
                r.y as int
            } else {
                0
            },
            y1 == if (r.y as int) + (r.h as int) < h {
                (r.y as int) + (r.h as int)
            } else {
                h
            },
            x0 == if (r.x as int) > 0 {
                r.x as int
            } else {
                0
            },
            x1 == if (r.x as int) + (r.w as int) < w {
                (r.x as int) + (r.w as int)
            } else {
                w
            },
            ix0 == (r.x as int) + (stroke as int),
            ix1 == (r.x as int) + (r.w as int) - (stroke as int),
            iy0 == (r.y as int) + (stroke as int),
            iy1 == (r.y as int) + (r.h as int) - (stroke as int),
            forall|x: int, y: int|
                0 <= x < w && 0 <= y < h ==> #[trigger] fb.spec_at(x, y) == if spec_border_region(
                    r,
                    stroke as int,
                    x,
                    y,
                ) && y < fy {
                    spec_blend(acf, color, old(fb).spec_at(x, y))
                } else {
                    old(fb).spec_at(x, y)
                },
        decreases y1 - fy,
    {
        let mut fx: i64 = x0;
        while fx < x1
            invariant
                fb.wf(),
                fb.spec_width() as int == w,
                fb.spec_height() as int == h,
                y0 <= fy < y1,
                x0 <= fx <= if x0 < x1 {
                    x1
                } else {
                    x0
                },
                y0 == if (r.y as int) > 0 {
                    r.y as int
                } else {
                    0
                },
                y1 == if (r.y as int) + (r.h as int) < h {
                    (r.y as int) + (r.h as int)
                } else {
                    h
                },
                x0 == if (r.x as int) > 0 {
                    r.x as int
                } else {
                    0
                },
                x1 == if (r.x as int) + (r.w as int) < w {
                    (r.x as int) + (r.w as int)
                } else {
                    w
                },
                ix0 == (r.x as int) + (stroke as int),
                ix1 == (r.x as int) + (r.w as int) - (stroke as int),
                iy0 == (r.y as int) + (stroke as int),
                iy1 == (r.y as int) + (r.h as int) - (stroke as int),
                forall|x: int, y: int|
                    0 <= x < w && 0 <= y < h ==> #[trigger] fb.spec_at(x, y)
                        == if spec_border_region(r, stroke as int, x, y) && (y < fy || (y == fy && x
                        < fx)) {
                        spec_blend(acf, color, old(fb).spec_at(x, y))
                    } else {
                        old(fb).spec_at(x, y)
                    },
            decreases x1 - fx,
        {
            let inside_inner = ix0 <= fx && fx < ix1 && iy0 <= fy && fy < iy1;
            if !inside_inner {
                blend_pixel(fb, fx as u32, fy as u32, color, acf);
            }
            fx = fx + 1;
        }
        fy = fy + 1;
    }
}

/// The destination extent of a sprite after rotation: quarter turns swap
/// width and height.
pub open spec fn spec_rot_dims(sp: Sprite, rot: Rotate) -> (int, int) {
    match rot {
        Rotate::R0 => (sp.w as int, sp.h as int),
        Rotate::R90 => (sp.h as int, sp.w as int),
        Rotate::R180 => (sp.w as int, sp.h as int),
        Rotate::R270 => (sp.h as int, sp.w as int),
    }
}

/// The sheet coordinate shown at destination offset `(dx, dy)` when a sprite
/// is blitted with the given rotation; quarter turns are clockwise.
pub open spec fn spec_rot_src(sp: Sprite, rot: Rotate, dx: int, dy: int) -> (int, int) {
    match rot {
        Rotate::R0 => (sp.x + dx, sp.y + dy),
        Rotate::R90 => (sp.x + dy, sp.y + (sp.h - 1 - dx)),
        Rotate::R180 => (sp.x + (sp.w - 1 - dx), sp.y + (sp.h - 1 - dy)),
        Rotate::R270 => (sp.x + (sp.w - 1 - dy), sp.y + dx),
    }
}

/// Blits a sprite rectangle from `sheet` to `dst`, rotated by a quarter
/// turn, optionally re-tinted by `mask`, clipped to the bitmap.
fn blit_sprite_on(
    fb: &mut Bitmap,
    sheet: &Bitmap,
    sp: Sprite,
    dst: Pos,
    rot: Rotate,
    mask: Option<Pixel>,
    acf: AlphaComp,
)
    requires
        old(fb).wf(),
        sheet.wf(),
        sp.x + sp.w <= sheet.spec_width(),
        sp.y + sp.h <= sheet.spec_height(),
    ensures
        final(fb).wf(),
        final(fb).spec_width() == old(fb).spec_width(),
        final(fb).spec_height() == old(fb).spec_height(),
        forall|x: int, y: int|
            0 <= x < old(fb).spec_width() && 0 <= y < old(fb).spec_height()
                ==> #[trigger] final(fb).spec_at(x, y) == if dst.x <= x < dst.x + spec_rot_dims(
                sp,
                rot,
            ).0 && dst.y <= y < dst.y + spec_rot_dims(sp, rot).1 {
                spec_blend(
                    acf,
                    spec_masked(
                        Pixel::spec_from_hex(
                            sheet.spec_at(
                                spec_rot_src(sp, rot, x - dst.x, y - dst.y).0,
                                spec_rot_src(sp, rot, x - dst.x, y - dst.y).1,
                            ),
                        ),
                        mask,
                    ),
                    old(fb).spec_at(x, y),
                )
            } else {
                old(fb).spec_at(x, y)
            },
{
    let ghost w = old(fb).spec_width() as int;
    let ghost h = old(fb).spec_height() as int;
    let fbw: i64 = fb.width() as i64;
    let fbh: i64 = fb.height() as i64;
    let (dw, dh): (u32, u32) = match rot {
        Rotate::R0 => (sp.w, sp.h),
        Rotate::R90 => (sp.h, sp.w),
        Rotate::R180 => (sp.w, sp.h),
        Rotate::R270 => (sp.h, sp.w),
    };
    let mut dy: u32 = 0;
    while dy < dh
        invariant
            fb.wf(),
            fb.spec_width() as int == w,
            fb.spec_height() as int == h,
            dy <= dh,
            fbw == w,
            fbh == h,
            (dw as int, dh as int) == spec_rot_dims(sp, rot),
            sheet.wf(),
            sp.x + sp.w <= sheet.spec_width(),
            sp.y + sp.h <= sheet.spec_height(),
            forall|x: int, y: int|
                0 <= x < w && 0 <= y < h ==> #[trigger] fb.spec_at(x, y) == if dst.x <= x < dst.x
                    + dw && dst.y <= y < dst.y + dy {
                    spec_blend(
                        acf,
                        spec_masked(
                            Pixel::spec_from_hex(
                                sheet.spec_at(
                                    spec_rot_src(sp, rot, x - dst.x, y - dst.y).0,
                                    spec_rot_src(sp, rot, x - dst.x, y - dst.y).1,
                                ),
                            ),
                            mask,
                        ),
                        old(fb).spec_at(x, y),
                    )
                } else {
                    old(fb).spec_at(x, y)
                },
        decreases dh - dy,
    {
        let mut dx: u32 = 0;
        while dx < dw
            invariant
                fb.wf(),
                fb.spec_width() as int == w,
                fb.spec_height() as int == h,
                dy < dh,
                dx <= dw,
                fbw == w,
                fbh == h,
                (dw as int, dh as int) == spec_rot_dims(sp, rot),
                sheet.wf(),
                sp.x + sp.w <= sheet.spec_width(),
                sp.y + sp.h <= sheet.spec_height(),
                forall|x: int, y: int|
                    0 <= x < w && 0 <= y < h ==> #[trigger] fb.spec_at(x, y) == if dst.x <= x
                        < dst.x + dw && dst.y <= y && (y < dst.y + dy || (y == dst.y + dy && x
                        < dst.x + dx)) {
                        spec_blend(
                            acf,
                            spec_masked(
                                Pixel::spec_from_hex(
                                    sheet.spec_at(
                                        spec_rot_src(sp, rot, x - dst.x, y - dst.y).0,
                                        spec_rot_src(sp, rot, x - dst.x, y - dst.y).1,
                                    ),
                                ),
                                mask,
                            ),
                            old(fb).spec_at(x, y),
                        )
                    } else {
                        old(fb).spec_at(x, y)
                    },
            decreases dw - dx,
        {
            let fx: i64 = (dst.x as i64) + (dx as i64);
            let fy: i64 = (dst.y as i64) + (dy as i64);
            if 0 <= fx && fx < fbw && 0 <= fy && fy < fbh {
                let (sx, sy): (u32, u32) = match rot {
                    Rotate::R0 => (sp.x + dx, sp.y + dy),
                    Rotate::R90 => (sp.x + dy, sp.y + (sp.h - 1 - dx)),
                    Rotate::R180 => (sp.x + (sp.w - 1 - dx), sp.y + (sp.h - 1 - dy)),
                    Rotate::R270 => (sp.x + (sp.w - 1 - dy), sp.y + dx),
                };
                let srcp = Pixel::from_hex(sheet.get(sx, sy));
                blend_pixel(fb, fx as u32, fy as u32, masked(srcp, mask), acf);
            }
            dx = dx + 1;
        }
        dy = dy + 1;
    }
}


/// One axis of the nine-slice mapping: a destination offset `d` inside a
/// target extent `t` maps to a source offset inside `len`. Offsets within the
/// low inset copy the low edge, offsets within the high inset copy the high
/// edge, and the middle tiles the source's middle band.
pub open spec fn spec_nine_off(len: int, lo: int, hi: int, t: int, d: int) -> int {
    if d < lo {
        d
    } else if d >= t - hi {
        len - (t - d)
    } else if len - lo - hi > 0 {
        lo + ((d - lo) % (len - lo - hi))
    } else if lo > 0 {
        lo - 1
    } else {
        0
    }
}

proof fn lemma_nine_off_bounds(len: int, lo: int, hi: int, t: int, d: int)
    requires
        0 <= d < t,
        0 <= lo,
        0 <= hi,
        lo + hi <= len,
        0 < len,
    ensures
        0 <= spec_nine_off(len, lo, hi, t, d) < len,
{
    if d < lo {
    } else if d >= t - hi {
    } else if len - lo - hi > 0 {
        let m = len - lo - hi;
        assert(0 <= (d - lo) % m < m) by (nonlinear_arith)
            requires
                m > 0 && d - lo >= 0,
        ;
    }
}

fn nine_off(len: u32, lo: u32, hi: u32, t: u32, d: u32) -> (r: u32)
    requires
        d < t,
        lo + hi <= len,
        0 < len,
    ensures
        r == spec_nine_off(len as int, lo as int, hi as int, t as int, d as int),
        r < len,
{
    proof {
        lemma_nine_off_bounds(len as int, lo as int, hi as int, t as int, d as int);
    }
    if d < lo {
        d
    } else if (d as i64) >= (t as i64) - (hi as i64) {
        len - (t - d)
    } else {
        let m: u32 = len - lo - hi;
        if m > 0 {
            lo + ((d - lo) % m)
        } else if lo > 0 {
            lo - 1
        } else {
            0
        }
    }
}

/// Stretches the nine-slice `nss` from `sheet` over the destination
/// rectangle `dst`: corner blocks are copied unscaled, edges and the center
/// tile, all clipped to the bitmap.
fn blit_nine_slice_on(
    fb: &mut Bitmap,
    sheet: &Bitmap,
    nss: NineSlicingSprite,
    dst: Rect,
    mask: Option<Pixel>,
    acf: AlphaComp,
)
    requires
        old(fb).wf(),
        sheet.wf(),
        nss.wf(),
        nss.x + nss.w <= sheet.spec_width(),
        nss.y + nss.h <= sheet.spec_height(),
    ensures
        final(fb).wf(),
        final(fb).spec_width() == old(fb).spec_width(),
        final(fb).spec_height() == old(fb).spec_height(),
        forall|x: int, y: int|
            0 <= x < old(fb).spec_width() && 0 <= y < old(fb).spec_height()
                ==> #[trigger] final(fb).spec_at(x, y) == if dst.spec_contains(x, y) {
                spec_blend(
                    acf,
                    spec_masked(
                        Pixel::spec_from_hex(
                            sheet.spec_at(
                                nss.x + spec_nine_off(
                                    nss.w as int,
                                    nss.left as int,
                                    nss.right as int,
                                    dst.w as int,
                                    x - dst.x,
                                ),
                                nss.y + spec_nine_off(
                                    nss.h as int,
                                    nss.top as int,
                                    nss.bottom as int,
                                    dst.h as int,
                                    y - dst.y,
                                ),
                            ),
                        ),
                        mask,
                    ),
                    old(fb).spec_at(x, y),
                )
            } else {
                old(fb).spec_at(x, y)
            },
{
    let ghost w = old(fb).spec_width() as int;
    let ghost h = old(fb).spec_height() as int;
    let fbw: i64 = fb.width() as i64;
    let fbh: i64 = fb.height() as i64;
    let mut dy: u32 = 0;
    while dy < dst.h
        invariant
            fb.wf(),
            fb.spec_width() as int == w,
            fb.spec_height() as int == h,
            fbw == w,
            fbh == h,
            dy <= dst.h,
            sheet.wf(),
            nss.wf(),
            nss.x + nss.w <= sheet.spec_width(),
            nss.y + nss.h <= sheet.spec_height(),
            forall|x: int, y: int|
                0 <= x < w && 0 <= y < h ==> #[trigger] fb.spec_at(x, y) == if dst.spec_contains(
                    x,
                    y,
                ) && y < dst.y + dy {
                    spec_blend(
                        acf,
                        spec_masked(
                            Pixel::spec_from_hex(
                                sheet.spec_at(
                                    nss.x + spec_nine_off(
                                        nss.w as int,
                                        nss.left as int,
                                        nss.right as int,
                                        dst.w as int,
                                        x - dst.x,
                                    ),
                                    nss.y + spec_nine_off(
                                        nss.h as int,
                                        nss.top as int,
                                        nss.bottom as int,
                                        dst.h as int,
                                        y - dst.y,
                                    ),
                                ),
                            ),
                            mask,
                        ),
                        old(fb).spec_at(x, y),
                    )
                } else {
                    old(fb).spec_at(x, y)
                },
        decreases dst.h - dy,
    {
        let sy: u32 = nss.y + nine_off(nss.h, nss.top, nss.bottom, dst.h, dy);
        let mut dx: u32 = 0;
        while dx < dst.w
            invariant
                fb.wf(),
                fb.spec_width() as int == w,
                fb.spec_height() as int == h,
                fbw == w,
                fbh == h,
                dy < dst.h,
                dx <= dst.w,
                sheet.wf(),
                nss.wf(),
                nss.x + nss.w <= sheet.spec_width(),
                nss.y + nss.h <= sheet.spec_height(),
                sy == nss.y + spec_nine_off(
                    nss.h as int,
                    nss.top as int,
                    nss.bottom as int,
                    dst.h as int,
                    dy as int,
                ),
                sy < sheet.spec_height(),
                forall|x: int, y: int|
                    0 <= x < w && 0 <= y < h ==> #[trigger] fb.spec_at(x, y)
                        == if dst.spec_contains(x, y) && (y < dst.y + dy || (y == dst.y + dy && x
                        < dst.x + dx)) {
                        spec_blend(
                            acf,
                            spec_masked(
                                Pixel::spec_from_hex(
                                    sheet.spec_at(
                                        nss.x + spec_nine_off(
                                            nss.w as int,
                                            nss.left as int,
                                            nss.right as int,
                                            dst.w as int,
                                            x - dst.x,
                                        ),
                                        nss.y + spec_nine_off(
                                            nss.h as int,
                                            nss.top as int,
                                            nss.bottom as int,
                                            dst.h as int,
                                            y - dst.y,
                                        ),
                                    ),
                                ),
                                mask,
                            ),
                            old(fb).spec_at(x, y),
                        )
                    } else {
                        old(fb).spec_at(x, y)
                    },
            decreases dst.w - dx,
        {
            let fx: i64 = (dst.x as i64) + (dx as i64);
            let fy: i64 = (dst.y as i64) + (dy as i64);
            if 0 <= fx && fx < fbw && 0 <= fy && fy < fbh {
                let sx: u32 = nss.x + nine_off(nss.w, nss.left, nss.right, dst.w, dx);
                let srcp = Pixel::from_hex(sheet.get(sx, sy));
                blend_pixel(fb, fx as u32, fy as u32, masked(srcp, mask), acf);
            }
            dx = dx + 1;
        }
        dy = dy + 1;
    }
}


/// The font-sheet coordinate shown at offset `(off, dy)` of a text run. The
/// glyph is the cell of the 16-column, 8-row font grid indexed by the
/// character code (codes are taken modulo 128).
pub open spec fn spec_glyph_src(text: Text, off: int, dy: int) -> (int, int) {
    let c = (text.bytes@[off / (text.glyph_w as int)] as int) % 128;
    (
        (c % 16) * (text.glyph_w as int) + (off % (text.glyph_w as int)),
        (c / 16) * (text.glyph_h as int) + dy,
    )
}

/// Division and remainder recover the two components of `i * g + r`.
proof fn lemma_div_mod_id(i: int, g: int, r: int)
    requires
        g > 0,
        0 <= r < g,
        0 <= i,
    ensures
        (i * g + r) / g == i,
        (i * g + r) % g == r,
{
    assert((i * g + r) / g == i && (i * g + r) % g == r) by (nonlinear_arith)
        requires
            g > 0 && 0 <= r < g && 0 <= i,
    ;
}

/// Draws a pre-shaped text run at `dst`: one fixed-width glyph cell of the
/// font sheet per character, clipped to the bitmap.
fn blit_text_on(
    fb: &mut Bitmap,
    font: &Bitmap,
    text: &Text,
    dst: Pos,
    mask: Option<Pixel>,
    acf: AlphaComp,
)
    requires
        old(fb).wf(),
        font.wf(),
        text.glyph_w > 0,
        text.glyph_h > 0,
        16 * text.glyph_w <= font.spec_width(),
        8 * text.glyph_h <= font.spec_height(),
        text.bytes@.len() * text.glyph_w <= u32::MAX,
    ensures
        final(fb).wf(),
        final(fb).spec_width() == old(fb).spec_width(),
        final(fb).spec_height() == old(fb).spec_height(),
        forall|x: int, y: int|
            0 <= x < old(fb).spec_width() && 0 <= y < old(fb).spec_height()
                ==> #[trigger] final(fb).spec_at(x, y) == if dst.x <= x < dst.x + text.spec_width()
                && dst.y <= y < dst.y + text.glyph_h {
                spec_blend(
                    acf,
                    spec_masked(
                        Pixel::spec_from_hex(
                            font.spec_at(
                                spec_glyph_src(*text, x - dst.x, y - dst.y).0,
                                spec_glyph_src(*text, x - dst.x, y - dst.y).1,
                            ),
                        ),
                        mask,
                    ),
                    old(fb).spec_at(x, y),
                )
            } else {
                old(fb).spec_at(x, y)
            },
{
    let ghost w = old(fb).spec_width() as int;
    let ghost h = old(fb).spec_height() as int;
    let fbw: i64 = fb.width() as i64;
    let fbh: i64 = fb.height() as i64;
    let gw: u32 = text.glyph_w;
    let gh: u32 = text.glyph_h;
    let len: usize = text.bytes.len();
    let mut gy: u32 = 0;
    while gy < gh
        invariant
            fb.wf(),
            fb.spec_width() as int == w,
            fb.spec_height() as int == h,
            fbw == w,
            fbh == h,
            gy <= gh,
            gw == text.glyph_w,
            gh == text.glyph_h,
            len == text.bytes@.len(),
            gw > 0,
            gh > 0,
            font.wf(),
            16 * gw <= font.spec_width(),
            8 * gh <= font.spec_height(),
            len * gw <= u32::MAX,
            forall|x: int, y: int|
                0 <= x < w && 0 <= y < h ==> #[trigger] fb.spec_at(x, y) == if dst.x <= x < dst.x
                    + text.spec_width() && dst.y <= y < dst.y + gy {
                    spec_blend(
                        acf,
                        spec_masked(
                            Pixel::spec_from_hex(
                                font.spec_at(
                                    spec_glyph_src(*text, x - dst.x, y - dst.y).0,
                                    spec_glyph_src(*text, x - dst.x, y - dst.y).1,
                                ),
                            ),
                            mask,
                        ),
                        old(fb).spec_at(x, y),
                    )
                } else {
                    old(fb).spec_at(x, y)
                },
        decreases gh - gy,
    {
        let mut i: usize = 0;
        while i < len
            invariant
                fb.wf(),
                fb.spec_width() as int == w,
                fb.spec_height() as int == h,
                fbw == w,
                fbh == h,
                gy < gh,
                i <= len,
                gw == text.glyph_w,
                gh == text.glyph_h,
                len == text.bytes@.len(),
                gw > 0,
                gh > 0,
                font.wf(),
                16 * gw <= font.spec_width(),
                8 * gh <= font.spec_height(),
                len * gw <= u32::MAX,
                forall|x: int, y: int|
                    0 <= x < w && 0 <= y < h ==> #[trigger] fb.spec_at(x, y) == if dst.x <= x
                        < dst.x + text.spec_width() && dst.y <= y && (y < dst.y + gy || (y == dst.y
                        + gy && x < dst.x + i * gw)) {
                        spec_blend(
                            acf,
                            spec_masked(
                                Pixel::spec_from_hex(
                                    font.spec_at(
                                        spec_glyph_src(*text, x - dst.x, y - dst.y).0,
                                        spec_glyph_src(*text, x - dst.x, y - dst.y).1,
                                    ),
                                ),
                                mask,
                            ),
                            old(fb).spec_at(x, y),
                        )
                    } else {
                        old(fb).spec_at(x, y)
                    },
            decreases len - i,
        {
            proof {
                assert(i * gw + gw <= len * gw && (i + 1) * gw == i * gw + gw) by (nonlinear_arith)
                    requires
                        0 <= i && i < len && gw > 0,
                ;
            }
            let code: u8 = text.bytes[i] % 128;
            let col: u32 = (code % 16) as u32;
            let row: u32 = (code / 16) as u32;
            let mut gx: u32 = 0;
            while gx < gw
                invariant
                    fb.wf(),
                    fb.spec_width() as int == w,
                    fb.spec_height() as int == h,
                    fbw == w,
                    fbh == h,
                    gy < gh,
                    i < len,
                    gx <= gw,
                    gw == text.glyph_w,
                    gh == text.glyph_h,
                    len == text.bytes@.len(),
                    gw > 0,
                    gh > 0,
                    font.wf(),
                    16 * gw <= font.spec_width(),
                    8 * gh <= font.spec_height(),
                    len * gw <= u32::MAX,
                    i * gw + gw <= len * gw,
                    code == text.bytes@[i as int] % 128,
                    col == code % 16,
                    row == code / 16,
                    forall|x: int, y: int|
                        0 <= x < w && 0 <= y < h ==> #[trigger] fb.spec_at(x, y) == if dst.x <= x
                            < dst.x + text.spec_width() && dst.y <= y && (y < dst.y + gy || (y
                            == dst.y + gy && x < dst.x + i * gw + gx)) {
                            spec_blend(
                                acf,
                                spec_masked(
                                    Pixel::spec_from_hex(
                                        font.spec_at(
                                            spec_glyph_src(*text, x - dst.x, y - dst.y).0,
                                            spec_glyph_src(*text, x - dst.x, y - dst.y).1,
                                        ),
                                    ),
                                    mask,
                                ),
                                old(fb).spec_at(x, y),
                            )
                        } else {
                            old(fb).spec_at(x, y)
                        },
                decreases gw - gx,
            {
                let xoff: u64 = (i as u64) * (gw as u64) + (gx as u64);
                let fx: i64 = (dst.x as i64) + (xoff as i64);
                let fy: i64 = (dst.y as i64) + (gy as i64);
                proof {
                    lemma_div_mod_id(i as int, gw as int, gx as int);
                    assert(col * gw + gx < 16 * gw && row * gh + gy < 8 * gh) by (nonlinear_arith)
                        requires
                            col < 16 && row < 8 && gx < gw && gy < gh && gw > 0 && gh > 0,
                    ;
                }
                if 0 <= fx && fx < fbw && 0 <= fy && fy < fbh {
                    let sx: u32 = col * gw + gx;
                    let sy: u32 = row * gh + gy;
                    let srcp = Pixel::from_hex(font.get(sx, sy));
                    blend_pixel(fb, fx as u32, fy as u32, masked(srcp, mask), acf);
                }
                gx = gx + 1;
            }
            i = i + 1;
        }
        gy = gy + 1;
    }
}


/// One draw command. Commands execute strictly in order: later commands
/// paint over earlier ones. Each carries its own composition operator;
/// sprite-like commands also carry an optional color mask.
pub enum DrawCommand {
    /// Resets the output bitmap to fully transparent.
    Clear,
    /// Paints a solid rectangle.
    FilledRect { rect: Rect, color: Pixel, acf: AlphaComp },
    /// Paints the outline of a rectangle at a stroke width.
    Border { rect: Rect, stroke: u32, color: Pixel, acf: AlphaComp },
    /// Copies a sprite rectangle from a registered sheet, rotated by a
    /// quarter turn.
    SimpleSprite {
        sheet: SpritesheetId,
        sprite: Sprite,
        pos: Pos,
        rotate: Rotate,
        mask: Option<Pixel>,
        acf: AlphaComp,
    },
    /// Stretches a nine-slice panel over a destination rectangle.
    NineSlice {
        sheet: SpritesheetId,
        sprite: NineSlicingSprite,
        rect: Rect,
        mask: Option<Pixel>,
        acf: AlphaComp,
    },
    /// Draws a pre-shaped glyph run.
    Text { text: Text, pos: Pos, mask: Option<Pixel>, acf: AlphaComp },
}

/// The sheet exists and the sprite rectangle lies inside it. A command that
/// fails this is a caller error and is skipped rather than drawn.
pub open spec fn spec_simple_sprite_valid(sheets: Seq<Bitmap>, id: SpritesheetId, sp: Sprite) -> bool {
    &&& id.0 < sheets.len()
    &&& sp.x + sp.w <= sheets[id.0 as int].spec_width()
    &&& sp.y + sp.h <= sheets[id.0 as int].spec_height()
}

/// The sheet exists and the nine-slice source lies inside it with sound
/// insets.
pub open spec fn spec_nine_slice_valid(
    sheets: Seq<Bitmap>,
    id: SpritesheetId,
    nss: NineSlicingSprite,
) -> bool {
    &&& id.0 < sheets.len()
    &&& nss.wf()
    &&& nss.x + nss.w <= sheets[id.0 as int].spec_width()
    &&& nss.y + nss.h <= sheets[id.0 as int].spec_height()
}

/// The run's glyph cells agree with the font sheet's 16-by-8 grid and the
/// run is narrow enough to address.
pub open spec fn spec_text_valid(font: Bitmap, text: Text) -> bool {
    &&& text.glyph_w > 0
    &&& text.glyph_h > 0
    &&& 16 * text.glyph_w <= font.spec_width()
    &&& 8 * text.glyph_h <= font.spec_height()
    &&& text.bytes@.len() * text.glyph_w <= u32::MAX
}

/// What one command does to the output pixel at `(x, y)`, as a function of
/// that pixel's previous value. Every command is pointwise: no output pixel
/// depends on another output pixel.
pub open spec fn spec_cmd_pixel(
    cmd: DrawCommand,
    font: Bitmap,
    sheets: Seq<Bitmap>,
    old_at: u32,
    x: int,
    y: int,
) -> u32 {
    match cmd {
        DrawCommand::Clear => 0,
        DrawCommand::FilledRect { rect, color, acf } => if rect.spec_contains(x, y) {
            spec_blend(acf, color, old_at)
        } else {
            old_at
        },
        DrawCommand::Border { rect, stroke, color, acf } => if spec_border_region(
            rect,
            stroke as int,
            x,
            y,
        ) {
            spec_blend(acf, color, old_at)
        } else {
            old_at
        },
        DrawCommand::SimpleSprite { sheet, sprite, pos, rotate, mask, acf } => if
            spec_simple_sprite_valid(sheets, sheet, sprite) && pos.x <= x < pos.x + spec_rot_dims(
            sprite,
            rotate,
        ).0 && pos.y <= y < pos.y + spec_rot_dims(sprite, rotate).1 {
            spec_blend(
                acf,
                spec_masked(
                    Pixel::spec_from_hex(
                        sheets[sheet.0 as int].spec_at(
                            spec_rot_src(sprite, rotate, x - pos.x, y - pos.y).0,
                            spec_rot_src(sprite, rotate, x - pos.x, y - pos.y).1,
                        ),
                    ),
                    mask,
                ),
                old_at,
            )
        } else {
            old_at
        },
        DrawCommand::NineSlice { sheet, sprite, rect, mask, acf } => if spec_nine_slice_valid(
            sheets,
            sheet,
            sprite,
        ) && rect.spec_contains(x, y) {
            spec_blend(
                acf,
                spec_masked(
                    Pixel::spec_from_hex(
                        sheets[sheet.0 as int].spec_at(
                            sprite.x + spec_nine_off(
                                sprite.w as int,
                                sprite.left as int,
                                sprite.right as int,
                                rect.w as int,
                                x - rect.x,
                            ),
                            sprite.y + spec_nine_off(
                                sprite.h as int,
                                sprite.top as int,
                                sprite.bottom as int,
                                rect.h as int,
                                y - rect.y,
                            ),
                        ),
                    ),
                    mask,
                ),
                old_at,
            )
        } else {
            old_at
        },
        DrawCommand::Text { text, pos, mask, acf } => if spec_text_valid(font, text) && pos.x <= x
            < pos.x + text.spec_width() && pos.y <= y < pos.y + text.glyph_h {
            spec_blend(
                acf,
                spec_masked(
                    Pixel::spec_from_hex(
                        font.spec_at(
                            spec_glyph_src(text, x - pos.x, y - pos.y).0,
                            spec_glyph_src(text, x - pos.x, y - pos.y).1,
                        ),
                    ),
                    mask,
                ),
                old_at,
            )
        } else {
            old_at
        },
    }
}

/// The output pixel at `(x, y)` after a whole command list has run, given
/// its value before.
pub open spec fn spec_draw_at(
    cmds: Seq<DrawCommand>,
    font: Bitmap,
    sheets: Seq<Bitmap>,
    old_at: u32,
    x: int,
    y: int,
) -> u32
    decreases cmds.len(),
{
    if cmds.len() == 0 {
        old_at
    } else {
        spec_cmd_pixel(
            cmds.last(),
            font,
            sheets,
            spec_draw_at(cmds.drop_last(), font, sheets, old_at, x, y),
            x,
            y,
        )
    }
}

/// The renderer: the output bitmap, the font sheet used by text commands,
/// and the registry of spritesheets.
pub struct Renderer {
    framebuffer: Bitmap,
    font: Bitmap,
    sheets: Vec<Bitmap>,
}

impl Renderer {
    /// The output bitmap.
    pub closed spec fn spec_fb(&self) -> Bitmap {
        self.framebuffer
    }

    /// The font sheet: a 16-column, 8-row grid of equal glyph cells.
    pub closed spec fn spec_font(&self) -> Bitmap {
        self.font
    }

    /// The registered spritesheets, in registration order.
    pub closed spec fn spec_sheets(&self) -> Seq<Bitmap> {
        self.sheets@
    }

    pub open spec fn wf(&self) -> bool {
        &&& self.spec_fb().wf()
        &&& self.spec_font().wf()
        &&& forall|i: int| 0 <= i < self.spec_sheets().len() ==> (#[trigger] self.spec_sheets()[i]).wf()
    }

    /// A renderer drawing into `framebuffer`, shaping text against `font`.
    pub fn new(framebuffer: Bitmap, font: Bitmap) -> (r: Renderer)
        requires
            framebuffer.wf(),
            font.wf(),
        ensures
            r.wf(),
            r.spec_fb() == framebuffer,
            r.spec_font() == font,
            r.spec_sheets() == Seq::<Bitmap>::empty(),
    {
        let r = Renderer { framebuffer, font, sheets: Vec::new() };
        proof {
            assert(r.spec_sheets() =~= Seq::<Bitmap>::empty());
        }
        r
    }

    /// The finished frame, for presentation.
    pub fn framebuffer(&self) -> (fb: &Bitmap)
        ensures
            *fb == self.spec_fb(),
    {
        &self.framebuffer
    }

    /// Registers a spritesheet and returns its identifier. Identifiers are
    /// assigned monotonically — the new sheet's index — and never reused.
    pub fn register_spritesheet(&mut self, sheet: Bitmap) -> (id: SpritesheetId)
        requires
            old(self).wf(),
            sheet.wf(),
        ensures
            final(self).wf(),
            id.0 == old(self).spec_sheets().len(),
            final(self).spec_sheets() == old(self).spec_sheets().push(sheet),
            final(self).spec_fb() == old(self).spec_fb(),
            final(self).spec_font() == old(self).spec_font(),
    {
        let id = SpritesheetId(self.sheets.len());
        self.sheets.push(sheet);
        proof {
            assert forall|i: int| 0 <= i < self.spec_sheets().len() implies (
            #[trigger] self.spec_sheets()[i]).wf() by {
                if i < old(self).spec_sheets().len() {
                    assert(old(self).spec_sheets()[i].wf());
                }
            }
        }
        id
    }

    /// Shapes a string into a text run against the font sheet: one glyph
    /// cell per byte of the string.
    pub fn text(&self, s: &str) -> (t: Text)
        ensures
            t.bytes@ == s.spec_bytes(),
            t.glyph_w == self.spec_font().spec_width() / 16,
            t.glyph_h == self.spec_font().spec_height() / 8,
    {
        let b = s.as_bytes();
        let mut bytes: Vec<u8> = Vec::new();
        let mut i: usize = 0;
        while i < b.len()
            invariant
                i <= b@.len(),
                bytes@ == b@.subrange(0, i as int),
            decreases b@.len() - i,
        {
            bytes.push(b[i]);
            i += 1;
            proof {
                assert(bytes@ =~= b@.subrange(0, i as int));
            }
        }
        proof {
            assert(bytes@ =~= b@);
        }
        Text { bytes, glyph_w: self.font.width() / 16, glyph_h: self.font.height() / 8 }
    }

    /// Executes one draw command against the output bitmap.
    fn exec_cmd(&mut self, cmd: &DrawCommand)
        requires
            old(self).wf(),
        ensures
            final(self).wf(),
            final(self).spec_font() == old(self).spec_font(),
            final(self).spec_sheets() == old(self).spec_sheets(),
            final(self).spec_fb().spec_width() == old(self).spec_fb().spec_width(),
            final(self).spec_fb().spec_height() == old(self).spec_fb().spec_height(),
            forall|x: int, y: int|
                0 <= x < old(self).spec_fb().spec_width() && 0 <= y < old(
                    self,
                ).spec_fb().spec_height() ==> #[trigger] final(self).spec_fb().spec_at(x, y)
                    == spec_cmd_pixel(
                    *cmd,
                    old(self).spec_font(),
                    old(self).spec_sheets(),
                    old(self).spec_fb().spec_at(x, y),
                    x,
                    y,
                ),
    {
        match cmd {
            DrawCommand::Clear => {
                let w = self.framebuffer.width();
                let h = self.framebuffer.height();
                self.framebuffer = Bitmap::new(size(w, h));
                proof {
                    assert forall|x: int, y: int|
                        0 <= x < w && 0 <= y < h implies #[trigger] self.spec_fb().spec_at(x, y)
                        == 0u32 by {
                        lemma_rowmajor_bounds(w as int, h as int, x, y);
                    }
                }
            },
            DrawCommand::FilledRect { rect, color, acf } => {
                fill_rect_on(&mut self.framebuffer, *rect, *color, *acf);
            },
            DrawCommand::Border { rect, stroke, color, acf } => {
                border_on(&mut self.framebuffer, *rect, *stroke, *color, *acf);
            },
            DrawCommand::SimpleSprite { sheet, sprite, pos, rotate, mask, acf } => {
                let valid = sheet.0 < self.sheets.len() && {
                    let sh = &self.sheets[sheet.0];
                    sprite.x <= u32::MAX - sprite.w && sprite.x + sprite.w <= sh.width()
                        && sprite.y <= u32::MAX - sprite.h && sprite.y + sprite.h <= sh.height()
                };
                if valid {
                    proof {
                        assert(self.spec_sheets()[sheet.0 as int].wf());
                    }
                    blit_sprite_on(
                        &mut self.framebuffer,
                        &self.sheets[sheet.0],
                        *sprite,
                        *pos,
                        *rotate,
                        *mask,
                        *acf,
                    );
                }
            },
            DrawCommand::NineSlice { sheet, sprite, rect, mask, acf } => {
                let valid = sheet.0 < self.sheets.len() && {
                    let sh = &self.sheets[sheet.0];
                    sprite.w > 0 && sprite.h > 0 && sprite.left <= u32::MAX - sprite.right
                        && sprite.left + sprite.right <= sprite.w && sprite.top <= u32::MAX
                        - sprite.bottom && sprite.top + sprite.bottom <= sprite.h && sprite.x
                        <= u32::MAX - sprite.w && sprite.x + sprite.w <= sh.width() && sprite.y
                        <= u32::MAX - sprite.h && sprite.y + sprite.h <= sh.height()
                };
                if valid {
                    proof {
                        assert(self.spec_sheets()[sheet.0 as int].wf());
                    }
                    blit_nine_slice_on(
                        &mut self.framebuffer,
                        &self.sheets[sheet.0],
                        *sprite,
                        *rect,
                        *mask,
                        *acf,
                    );
                }
            },
            DrawCommand::Text { text, pos, mask, acf } => {
                let valid = text.glyph_w > 0 && text.glyph_h > 0 && 16 * (text.glyph_w as u64)
                    <= self.font.width() as u64 && 8 * (text.glyph_h as u64)
                    <= self.font.height() as u64 && (text.bytes.len() as u64) <= (u32::MAX as u64)
                    / (text.glyph_w as u64);
                proof {
                    let gw = text.glyph_w as int;
                    let len = text.bytes@.len() as int;
                    if gw > 0 {
                        assert((len <= (u32::MAX as int) / gw) == (len * gw <= u32::MAX as int))
                            by (nonlinear_arith)
                            requires
                                gw > 0 && 0 <= len,
                        ;
                    }
                }
                if valid {
                    blit_text_on(&mut self.framebuffer, &self.font, text, *pos, *mask, *acf);
                }
            },
        }
        proof {
            assert forall|i: int| 0 <= i < self.spec_sheets().len() implies (
            #[trigger] self.spec_sheets()[i]).wf() by {
                assert(old(self).spec_sheets()[i].wf());
            }
        }
    }

    /// Executes the commands strictly in order: each output pixel ends as
    /// the fold of the whole list over its previous value.
    pub fn draw(&mut self, cmds: &Vec<DrawCommand>)
        requires
            old(self).wf(),
        ensures
            final(self).wf(),
            final(self).spec_font() == old(self).spec_font(),
            final(self).spec_sheets() == old(self).spec_sheets(),
            final(self).spec_fb().spec_width() == old(self).spec_fb().spec_width(),
            final(self).spec_fb().spec_height() == old(self).spec_fb().spec_height(),
            forall|x: int, y: int|
                0 <= x < old(self).spec_fb().spec_width() && 0 <= y < old(
                    self,
                ).spec_fb().spec_height() ==> #[trigger] final(self).spec_fb().spec_at(x, y)
                    == spec_draw_at(
                    cmds@,
                    old(self).spec_font(),
                    old(self).spec_sheets(),
                    old(self).spec_fb().spec_at(x, y),
                    x,
                    y,
                ),
    {
        let ghost w = old(self).spec_fb().spec_width() as int;
        let ghost h = old(self).spec_fb().spec_height() as int;
        let mut i: usize = 0;
        while i < cmds.len()
            invariant
                i <= cmds@.len(),
                self.wf(),
                self.spec_font() == old(self).spec_font(),
                self.spec_sheets() == old(self).spec_sheets(),
                self.spec_fb().spec_width() as int == w,
                self.spec_fb().spec_height() as int == h,
                forall|x: int, y: int|
                    0 <= x < w && 0 <= y < h ==> #[trigger] self.spec_fb().spec_at(x, y)
                        == spec_draw_at(
                        cmds@.take(i as int),
                        old(self).spec_font(),
                        old(self).spec_sheets(),
                        old(self).spec_fb().spec_at(x, y),
                        x,
                        y,
                    ),
            decreases cmds@.len() - i,
        {
            let ghost prev = self.spec_fb();
            self.exec_cmd(&cmds[i]);
            i += 1;
            proof {
                assert(cmds@.take(i as int).drop_last() =~= cmds@.take(i as int - 1));
                assert(cmds@.take(i as int).last() == cmds@[i as int - 1]);
            }
        }
        proof {
            assert(cmds@.take(cmds@.len() as int) =~= cmds@);
        }
    }
}

} // verus!
