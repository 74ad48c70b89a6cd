//! Plain 2D geometry: positions, sizes and rectangles in pixel coordinates.

use vstd::prelude::*;

verus! {

/// A position in pixels. Positions may be negative: layout does not clip
/// content that overflows its container.
#[derive(Clone, Copy, Debug, PartialEq, Eq, Structural)]
pub struct Pos {
    pub x: i32,
    pub y: i32,
}

/// A size in pixels.
#[derive(Clone, Copy, Debug, PartialEq, Eq, Structural)]
pub struct Size {
    pub w: u32,
    pub h: u32,
}

/// A rectangle: its top-left corner and its size.
#[derive(Clone, Copy, Debug, PartialEq, Eq, Structural)]
pub struct Rect {
    pub x: i32,
    pub y: i32,
    pub w: u32,
    pub h: u32,
}

pub fn pos(x: i32, y: i32) -> (p: Pos)
    ensures
        p == (Pos { x, y }),
{
    Pos { x, y }
}

pub fn size(w: u32, h: u32) -> (s: Size)
    ensures
        s == (Size { w, h }),
{
    Size { w, h }
}

pub fn rect(x: i32, y: i32, w: u32, h: u32) -> (r: Rect)
    ensures
        r == (Rect { x, y, w, h }),
{
    Rect { x, y, w, h }
}

impl Rect {
    /// Whether the point lies inside the rectangle.
    pub open spec fn spec_contains(self, x: int, y: int) -> bool {
        &&& self.x <= x < self.x + self.w
        &&& self.y <= y < self.y + self.h
    }

    /// Hit test: whether the point lies inside the rectangle.
    pub fn contains(&self, x: i32, y: i32) -> (r: bool)
        ensures
            r == self.spec_contains(x as int, y as int),
    {
        let xe: i64 = self.x as i64 + self.w as i64;
        let ye: i64 = self.y as i64 + self.h as i64;
        self.x <= x && (x as i64) < xe && self.y <= y && (y as i64) < ye
    }
}

/// `a + b`, saturating at `u32::MAX`: layout arithmetic never wraps.
pub open spec fn spec_sat_add_u32(a: u32, b: u32) -> u32 {
    if a + b > u32::MAX {
        u32::MAX
    } else {
        (a + b) as u32
    }
}

/// `a - b`, saturating at zero.
pub open spec fn spec_sat_sub_u32(a: u32, b: u32) -> u32 {
    if a >= b {
        (a - b) as u32
    } else {
        0
    }
}

/// Offsets a coordinate by an extent, saturating at the `i64` range's image
/// inside `i32` so that solved positions never wrap.
pub open spec fn spec_clamp_i64_to_i32(v: int) -> i32 {
    if v > i32::MAX {
        i32::MAX
    } else if v < i32::MIN {
        i32::MIN
    } else {
        v as i32
    }
}

pub fn clamp_i64_to_i32(v: i64) -> (r: i32)
    ensures
        r == spec_clamp_i64_to_i32(v as int),
{
    if v > i32::MAX as i64 {
        i32::MAX
    } else if v < i32::MIN as i64 {
        i32::MIN
    } else {
        v as i32
    }
}

} // verus!
