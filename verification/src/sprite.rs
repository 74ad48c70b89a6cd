//! Sprite references: rectangles into a registered spritesheet, either plain
//! or nine-sliced, plus quarter-turn rotation and pre-shaped text runs.

use vstd::prelude::*;

verus! {

/// An opaque identifier of a registered spritesheet. Identifiers are handed
/// out monotonically at registration and never reused or removed.
#[derive(Clone, Copy, Debug, PartialEq, Eq, Structural)]
pub struct SpritesheetId(pub usize);

/// A plain sprite: a pixel rectangle inside a spritesheet.
#[derive(Clone, Copy, Debug, PartialEq, Eq, Structural)]
pub struct Sprite {
    pub x: u32,
    pub y: u32,
    pub w: u32,
    pub h: u32,
}

pub fn sprite(x: u32, y: u32, w: u32, h: u32) -> (s: Sprite)
    ensures
        s == (Sprite { x, y, w, h }),
{
    Sprite { x, y, w, h }
}

/// A nine-slice descriptor: a source rectangle plus fixed insets. The four
/// corner blocks are drawn unscaled; edges and center tile to fill an
/// arbitrary destination size.
#[derive(Clone, Copy, Debug, PartialEq, Eq, Structural)]
pub struct NineSlicingSprite {
    pub x: u32,
    pub y: u32,
    pub w: u32,
    pub h: u32,
    /// Inset of the left, right, top and bottom slice boundary.
    pub left: u32,
    pub right: u32,
    pub top: u32,
    pub bottom: u32,
}

impl NineSlicingSprite {
    /// The insets fit inside a nonempty source rectangle.
    pub open spec fn wf(self) -> bool {
        &&& self.w > 0
        &&& self.h > 0
        &&& self.left + self.right <= self.w
        &&& self.top + self.bottom <= self.h
    }
}

pub fn nine_slicing_sprite(
    x: u32,
    y: u32,
    w: u32,
    h: u32,
    left: u32,
    right: u32,
    top: u32,
    bottom: u32,
) -> (s: NineSlicingSprite)
    ensures
        s == (NineSlicingSprite { x, y, w, h, left, right, top, bottom }),
{
    NineSlicingSprite { x, y, w, h, left, right, top, bottom }
}

/// A rotation by a multiple of 90 degrees, applied when a sprite is blitted.
#[derive(Clone, Copy, Debug, PartialEq, Eq, Structural)]
pub enum Rotate {
    R0,
    R90,
    R180,
    R270,
}

/// What a widget draws when its sprite flag is set: a plain sprite or a
/// nine-slice panel, each from a registered sheet.
#[derive(Clone, Copy, Debug, PartialEq, Eq, Structural)]
pub enum WidgetSprite {
    Simple(SpritesheetId, Sprite),
    NineSlice(SpritesheetId, NineSlicingSprite),
}

/// A pre-shaped text run: glyphs are fixed-width cells of the renderer's
/// font sheet, looked up by character code, advancing `glyph_w` pixels per
/// character.
#[derive(Clone, Debug, PartialEq, Eq)]
pub struct Text {
    /// The character codes to draw, one glyph each.
    pub bytes: Vec<u8>,
    /// Width of one glyph cell in the font sheet.
    pub glyph_w: u32,
    /// Height of one glyph cell in the font sheet.
    pub glyph_h: u32,
}

impl Text {
    /// The pixel width of the run: one cell per character.
    pub open spec fn spec_width(&self) -> int {
        self.bytes@.len() * self.glyph_w
    }

    /// An exact copy of the run.
    pub fn duplicate(&self) -> (t: Text)
        ensures
            t.bytes@ == self.bytes@,
            t.glyph_w == self.glyph_w,
            t.glyph_h == self.glyph_h,
    {
        let mut bytes: Vec<u8> = Vec::new();
        let mut i: usize = 0;
        while i < self.bytes.len()
            invariant
                i <= self.bytes@.len(),
                bytes@ == self.bytes@.subrange(0, i as int),
            decreases self.bytes@.len() - i,
        {
            bytes.push(self.bytes[i]);
            i += 1;
            proof {
                assert(bytes@ =~= self.bytes@.subrange(0, i as int));
            }
        }
        proof {
            assert(bytes@ =~= self.bytes@);
        }
        Text { bytes, glyph_w: self.glyph_w, glyph_h: self.glyph_h }
    }
}

} // verus!
