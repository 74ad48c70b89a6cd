//! Widget data: durable keys, property bundles, flags, the box model's
//! sizing vocabulary, and the per-widget record kept across frames.

use vstd::prelude::*;
use crate::alphacomp::AlphaComp;
use crate::math::{Pos, Size};
use crate::pixel::Pixel;
use crate::sprite::{NineSlicingSprite, Rotate, Sprite, SpritesheetId, Text, WidgetSprite};

verus! {

/// What a parent key contributes when a key is scoped under it, so that
/// identical call sites under different parents do not collide.
pub open spec fn spec_key_mix(k: WidgetKey) -> u64 {
    k.site ^ ((k.a << 16) | (k.a >> 48)) ^ ((k.b << 32) | (k.b >> 32)) ^ ((k.parent_mix << 48) | (
    k.parent_mix >> 16))
}

/// A durable widget identity within one parent: a caller-chosen call-site
/// number, up to two integer disambiguators for list items, and a
/// contribution mixed in from the enclosing parent's key.
///
/// Two widgets declared under one parent with equal keys are a caller error.
#[derive(Clone, Copy, Debug, PartialEq, Eq, Hash, Structural)]
pub struct WidgetKey {
    pub site: u64,
    pub a: u64,
    pub b: u64,
    pub parent_mix: u64,
}

impl WidgetKey {
    /// A key for a call site, without disambiguators.
    pub fn new(site: u64) -> (k: WidgetKey)
        ensures
            k == (WidgetKey { site, a: 0, b: 0, parent_mix: 0 }),
    {
        WidgetKey { site, a: 0, b: 0, parent_mix: 0 }
    }

    /// A key for a call site producing a list of widgets, one per index.
    pub fn indexed(site: u64, a: u64) -> (k: WidgetKey)
        ensures
            k == (WidgetKey { site, a, b: 0, parent_mix: 0 }),
    {
        WidgetKey { site, a, b: 0, parent_mix: 0 }
    }

    /// A key for a call site producing a grid of widgets.
    pub fn indexed2(site: u64, a: u64, b: u64) -> (k: WidgetKey)
        ensures
            k == (WidgetKey { site, a, b, parent_mix: 0 }),
    {
        WidgetKey { site, a, b, parent_mix: 0 }
    }

    /// Scopes this key under a parent key.
    pub fn under(self, parent: &WidgetKey) -> (k: WidgetKey)
        ensures
            k == (WidgetKey { parent_mix: self.parent_mix ^ spec_key_mix(*parent), ..self }),
    {
        let p = parent.site ^ ((parent.a << 16) | (parent.a >> 48)) ^ ((parent.b << 32) | (
        parent.b >> 32)) ^ ((parent.parent_mix << 48) | (parent.parent_mix >> 16));
        WidgetKey { site: self.site, a: self.a, b: self.b, parent_mix: self.parent_mix ^ p }
    }
}

/// What a widget draws and how it reacts to the pointer.
#[derive(Clone, Copy, Debug, PartialEq, Eq, Structural)]
pub struct WidgetFlags {
    pub draw_background: bool,
    pub draw_border: bool,
    pub draw_sprite: bool,
    pub draw_text: bool,
    pub can_hover: bool,
    pub can_click: bool,
    pub can_focus: bool,
}

impl WidgetFlags {
    /// No flag set.
    pub fn none() -> (f: WidgetFlags)
        ensures
            f == (WidgetFlags {
                draw_background: false,
                draw_border: false,
                draw_sprite: false,
                draw_text: false,
                can_hover: false,
                can_click: false,
                can_focus: false,
            }),
    {
        WidgetFlags {
            draw_background: false,
            draw_border: false,
            draw_sprite: false,
            draw_text: false,
            can_hover: false,
            can_click: false,
            can_focus: false,
        }
    }

    pub fn draw_background() -> (f: WidgetFlags)
        ensures
            f == (WidgetFlags { draw_background: true, ..WidgetFlags::spec_none() }),
    {
        WidgetFlags { draw_background: true, ..WidgetFlags::none() }
    }

    pub fn draw_border() -> (f: WidgetFlags)
        ensures
            f == (WidgetFlags { draw_border: true, ..WidgetFlags::spec_none() }),
    {
        WidgetFlags { draw_border: true, ..WidgetFlags::none() }
    }

    pub fn draw_sprite() -> (f: WidgetFlags)
        ensures
            f == (WidgetFlags { draw_sprite: true, ..WidgetFlags::spec_none() }),
    {
        WidgetFlags { draw_sprite: true, ..WidgetFlags::none() }
    }

    pub fn draw_text() -> (f: WidgetFlags)
        ensures
            f == (WidgetFlags { draw_text: true, ..WidgetFlags::spec_none() }),
    {
        WidgetFlags { draw_text: true, ..WidgetFlags::none() }
    }

    pub fn can_hover() -> (f: WidgetFlags)
        ensures
            f == (WidgetFlags { can_hover: true, ..WidgetFlags::spec_none() }),
    {
        WidgetFlags { can_hover: true, ..WidgetFlags::none() }
    }

    pub fn can_click() -> (f: WidgetFlags)
        ensures
            f == (WidgetFlags { can_click: true, ..WidgetFlags::spec_none() }),
    {
        WidgetFlags { can_click: true, ..WidgetFlags::none() }
    }

    pub fn can_focus() -> (f: WidgetFlags)
        ensures
            f == (WidgetFlags { can_focus: true, ..WidgetFlags::spec_none() }),
    {
        WidgetFlags { can_focus: true, ..WidgetFlags::none() }
    }

    /// The flags with no bit set.
    pub open spec fn spec_none() -> WidgetFlags {
        WidgetFlags {
            draw_background: false,
            draw_border: false,
            draw_sprite: false,
            draw_text: false,
            can_hover: false,
            can_click: false,
            can_focus: false,
        }
    }

    /// The flags set in either operand.
    pub open spec fn spec_union(self, o: WidgetFlags) -> WidgetFlags {
        WidgetFlags {
            draw_background: self.draw_background || o.draw_background,
            draw_border: self.draw_border || o.draw_border,
            draw_sprite: self.draw_sprite || o.draw_sprite,
            draw_text: self.draw_text || o.draw_text,
            can_hover: self.can_hover || o.can_hover,
            can_click: self.can_click || o.can_click,
            can_focus: self.can_focus || o.can_focus,
        }
    }

    /// Combines two flag sets.
    pub fn union(self, o: WidgetFlags) -> (f: WidgetFlags)
        ensures
            f == self.spec_union(o),
    {
        WidgetFlags {
            draw_background: self.draw_background || o.draw_background,
            draw_border: self.draw_border || o.draw_border,
            draw_sprite: self.draw_sprite || o.draw_sprite,
            draw_text: self.draw_text || o.draw_text,
            can_hover: self.can_hover || o.can_hover,
            can_click: self.can_click || o.can_click,
            can_focus: self.can_focus || o.can_focus,
        }
    }
}

/// One sizing rule for one axis of a widget's box.
#[derive(Clone, Copy, Debug, PartialEq, Eq, Structural)]
pub enum WidgetDim {
    /// Exactly this many pixels.
    Fixed(u32),
    /// Consume the space remaining in the parent along this axis.
    Fill,
    /// Shrink to the content: children, sprite or text, plus padding.
    Hug,
}

/// The sizing rule for both axes.
#[derive(Clone, Copy, Debug, PartialEq, Eq, Structural)]
pub struct WidgetSize {
    pub w: WidgetDim,
    pub h: WidgetDim,
}

impl WidgetSize {
    pub fn new(w: WidgetDim, h: WidgetDim) -> (s: WidgetSize)
        ensures
            s == (WidgetSize { w, h }),
    {
        WidgetSize { w, h }
    }

    pub fn fixed(w: u32, h: u32) -> (s: WidgetSize)
        ensures
            s == (WidgetSize { w: WidgetDim::Fixed(w), h: WidgetDim::Fixed(h) }),
    {
        WidgetSize { w: WidgetDim::Fixed(w), h: WidgetDim::Fixed(h) }
    }

    pub fn fill() -> (s: WidgetSize)
        ensures
            s == (WidgetSize { w: WidgetDim::Fill, h: WidgetDim::Fill }),
    {
        WidgetSize { w: WidgetDim::Fill, h: WidgetDim::Fill }
    }

    pub fn hug() -> (s: WidgetSize)
        ensures
            s == (WidgetSize { w: WidgetDim::Hug, h: WidgetDim::Hug }),
    {
        WidgetSize { w: WidgetDim::Hug, h: WidgetDim::Hug }
    }
}

/// Four independent edge insets, in pixels.
#[derive(Clone, Copy, Debug, PartialEq, Eq, Structural)]
pub struct WidgetPadding {
    pub top: u32,
    pub right: u32,
    pub bottom: u32,
    pub left: u32,
}

impl WidgetPadding {
    /// The same inset on all four edges.
    pub fn all(v: u32) -> (p: WidgetPadding)
        ensures
            p == (WidgetPadding { top: v, right: v, bottom: v, left: v }),
    {
        WidgetPadding { top: v, right: v, bottom: v, left: v }
    }

    /// A horizontal inset for left and right, a vertical one for top and
    /// bottom.
    pub fn hv(h: u32, v: u32) -> (p: WidgetPadding)
        ensures
            p == (WidgetPadding { top: v, right: h, bottom: v, left: h }),
    {
        WidgetPadding { top: v, right: h, bottom: v, left: h }
    }

    /// Top, right, bottom and left insets in that order.
    pub fn trbl(top: u32, right: u32, bottom: u32, left: u32) -> (p: WidgetPadding)
        ensures
            p == (WidgetPadding { top, right, bottom, left }),
    {
        WidgetPadding { top, right, bottom, left }
    }
}

/// The axis along which a flex container stacks its children.
#[derive(Clone, Copy, Debug, PartialEq, Eq, Structural)]
pub enum FlexDirection {
    Horizontal,
    Vertical,
}

/// How a widget lays out its children.
#[derive(Clone, Copy, Debug, PartialEq, Eq, Structural)]
pub enum WidgetLayout {
    /// Children are positioned independently by their anchor pairs.
    Anchored,
    /// Children stack along an axis with a fixed gap between them.
    Flex { direction: FlexDirection, gap: u32 },
}

impl WidgetLayout {
    pub fn flex(direction: FlexDirection, gap: u32) -> (l: WidgetLayout)
        ensures
            l == (WidgetLayout::Flex { direction, gap }),
    {
        WidgetLayout::Flex { direction, gap }
    }
}

/// One of the nine canonical points of a box: four corners, four edge
/// midpoints, and the center. An anchor pair aligns a point of the widget's
/// own box with a point of the parent's content box.
#[derive(Clone, Copy, Debug, PartialEq, Eq, Structural)]
pub enum Anchor {
    TopLeft,
    TopCenter,
    TopRight,
    CenterLeft,
    Center,
    CenterRight,
    BottomLeft,
    BottomCenter,
    BottomRight,
}

impl Anchor {
    /// The x coordinate of this anchor point on a box of width `w`.
    pub open spec fn spec_point_x(self, w: int) -> int {
        match self {
            Anchor::TopLeft | Anchor::CenterLeft | Anchor::BottomLeft => 0,
            Anchor::TopCenter | Anchor::Center | Anchor::BottomCenter => w / 2,
            Anchor::TopRight | Anchor::CenterRight | Anchor::BottomRight => w,
        }
    }

    /// The y coordinate of this anchor point on a box of height `h`.
    pub open spec fn spec_point_y(self, h: int) -> int {
        match self {
            Anchor::TopLeft | Anchor::TopCenter | Anchor::TopRight => 0,
            Anchor::CenterLeft | Anchor::Center | Anchor::CenterRight => h / 2,
            Anchor::BottomLeft | Anchor::BottomCenter | Anchor::BottomRight => h,
        }
    }

    pub fn point_x(self, w: u32) -> (x: u32)
        ensures
            x == self.spec_point_x(w as int),
    {
        match self {
            Anchor::TopLeft | Anchor::CenterLeft | Anchor::BottomLeft => 0,
            Anchor::TopCenter | Anchor::Center | Anchor::BottomCenter => w / 2,
            Anchor::TopRight | Anchor::CenterRight | Anchor::BottomRight => w,
        }
    }

    pub fn point_y(self, h: u32) -> (y: u32)
        ensures
            y == self.spec_point_y(h as int),
    {
        match self {
            Anchor::TopLeft | Anchor::TopCenter | Anchor::TopRight => 0,
            Anchor::CenterLeft | Anchor::Center | Anchor::CenterRight => h / 2,
            Anchor::BottomLeft | Anchor::BottomCenter | Anchor::BottomRight => h,
        }
    }
}

/// Everything a caller declares about a widget for one frame.
#[derive(Debug, PartialEq, Eq)]
pub struct WidgetProps {
    pub key: WidgetKey,
    pub flags: WidgetFlags,
    pub size: WidgetSize,
    pub padding: WidgetPadding,
    pub layout: WidgetLayout,
    /// The point of this widget's own box that is aligned...
    pub anchor: Anchor,
    /// ...to this point of the parent's content box.
    pub origin: Anchor,
    /// An explicit offset added to the solved position; children are placed
    /// relative to it.
    pub pos: Pos,
    /// An offset applied to this widget's own drawing only; children do not
    /// inherit it.
    pub draw_offset: Pos,
    pub color: Pixel,
    pub border_color: Pixel,
    pub border_width: u32,
    pub sprite: Option<WidgetSprite>,
    pub text: Option<Text>,
    pub mask: Option<Pixel>,
    /// The composition operator for this widget's drawing; `None` means the
    /// default operator, standard alpha-over.
    pub acf: Option<AlphaComp>,
    pub rotate: Rotate,
}

impl WidgetProps {
    /// The defaults every declaration starts from: hug sizing, no padding,
    /// anchored layout, top-left anchors, nothing drawn.
    pub open spec fn spec_defaults(key: WidgetKey) -> WidgetProps {
        WidgetProps {
            key,
            flags: WidgetFlags::spec_none(),
            size: WidgetSize { w: WidgetDim::Hug, h: WidgetDim::Hug },
            padding: WidgetPadding { top: 0, right: 0, bottom: 0, left: 0 },
            layout: WidgetLayout::Anchored,
            anchor: Anchor::TopLeft,
            origin: Anchor::TopLeft,
            pos: Pos { x: 0, y: 0 },
            draw_offset: Pos { x: 0, y: 0 },
            color: Pixel { a: 0, r: 0, g: 0, b: 0 },
            border_color: Pixel { a: 0, r: 0, g: 0, b: 0 },
            border_width: 0,
            sprite: Option::None,
            text: Option::None,
            mask: Option::None,
            acf: Option::None,
            rotate: Rotate::R0,
        }
    }

    pub fn new(key: WidgetKey) -> (p: WidgetProps)
        ensures
            p == WidgetProps::spec_defaults(key),
    {
        WidgetProps {
            key,
            flags: WidgetFlags::none(),
            size: WidgetSize::hug(),
            padding: WidgetPadding::all(0),
            layout: WidgetLayout::Anchored,
            anchor: Anchor::TopLeft,
            origin: Anchor::TopLeft,
            pos: Pos { x: 0, y: 0 },
            draw_offset: Pos { x: 0, y: 0 },
            color: Pixel { a: 0, r: 0, g: 0, b: 0 },
            border_color: Pixel { a: 0, r: 0, g: 0, b: 0 },
            border_width: 0,
            sprite: Option::None,
            text: Option::None,
            mask: Option::None,
            acf: Option::None,
            rotate: Rotate::R0,
        }
    }

    /// A hug-sized widget that draws a text run.
    pub fn text(key: WidgetKey, text: Text) -> (p: WidgetProps)
        ensures
            p == (WidgetProps {
                flags: WidgetFlags { draw_text: true, ..WidgetFlags::spec_none() },
                text: Option::Some(text),
                ..WidgetProps::spec_defaults(key)
            }),
    {
        let mut p = WidgetProps::new(key);
        p.flags = WidgetFlags::draw_text();
        p.text = Option::Some(text);
        p
    }

    /// A hug-sized widget that draws a sprite.
    pub fn sprite(key: WidgetKey, sprite: WidgetSprite) -> (p: WidgetProps)
        ensures
            p == (WidgetProps {
                flags: WidgetFlags { draw_sprite: true, ..WidgetFlags::spec_none() },
                sprite: Option::Some(sprite),
                ..WidgetProps::spec_defaults(key)
            }),
    {
        let mut p = WidgetProps::new(key);
        p.flags = WidgetFlags::draw_sprite();
        p.sprite = Option::Some(sprite);
        p
    }

    /// A hug-sized widget drawing a plain sprite from a sheet.
    pub fn simple_sprite(key: WidgetKey, sheet_id: SpritesheetId, sprite: Sprite) -> (p:
        WidgetProps)
        ensures
            p == (WidgetProps {
                flags: WidgetFlags { draw_sprite: true, ..WidgetFlags::spec_none() },
                sprite: Option::Some(WidgetSprite::Simple(sheet_id, sprite)),
                ..WidgetProps::spec_defaults(key)
            }),
    {
        WidgetProps::sprite(key, WidgetSprite::Simple(sheet_id, sprite))
    }

    /// A hug-sized widget drawing a nine-slice panel from a sheet.
    pub fn nine_slice_sprite(key: WidgetKey, sheet_id: SpritesheetId, sprite: NineSlicingSprite)
        -> (p: WidgetProps)
        ensures
            p == (WidgetProps {
                flags: WidgetFlags { draw_sprite: true, ..WidgetFlags::spec_none() },
                sprite: Option::Some(WidgetSprite::NineSlice(sheet_id, sprite)),
                ..WidgetProps::spec_defaults(key)
            }),
    {
        WidgetProps::sprite(key, WidgetSprite::NineSlice(sheet_id, sprite))
    }

    pub fn with_flags(self, flags: WidgetFlags) -> (p: WidgetProps)
        ensures
            p == (WidgetProps { flags, ..self }),
    {
        WidgetProps { flags, ..self }
    }

    pub fn with_size(self, size: WidgetSize) -> (p: WidgetProps)
        ensures
            p == (WidgetProps { size, ..self }),
    {
        WidgetProps { size, ..self }
    }

    pub fn with_padding(self, padding: WidgetPadding) -> (p: WidgetProps)
        ensures
            p == (WidgetProps { padding, ..self }),
    {
        WidgetProps { padding, ..self }
    }

    pub fn with_layout(self, layout: WidgetLayout) -> (p: WidgetProps)
        ensures
            p == (WidgetProps { layout, ..self }),
    {
        WidgetProps { layout, ..self }
    }

    pub fn with_anchor_origin(self, anchor: Anchor, origin: Anchor) -> (p: WidgetProps)
        ensures
            p == (WidgetProps { anchor, origin, ..self }),
    {
        WidgetProps { anchor, origin, ..self }
    }

    pub fn with_pos(self, pos: Pos) -> (p: WidgetProps)
        ensures
            p == (WidgetProps { pos, ..self }),
    {
        WidgetProps { pos, ..self }
    }

    pub fn with_draw_offset(self, draw_offset: Pos) -> (p: WidgetProps)
        ensures
            p == (WidgetProps { draw_offset, ..self }),
    {
        WidgetProps { draw_offset, ..self }
    }

    pub fn with_color(self, color: Pixel) -> (p: WidgetProps)
        ensures
            p == (WidgetProps { color, ..self }),
    {
        WidgetProps { color, ..self }
    }

    pub fn with_border_color(self, border_color: Pixel) -> (p: WidgetProps)
        ensures
            p == (WidgetProps { border_color, ..self }),
    {
        WidgetProps { border_color, ..self }
    }

    pub fn with_border_width(self, border_width: u32) -> (p: WidgetProps)
        ensures
            p == (WidgetProps { border_width, ..self }),
    {
        WidgetProps { border_width, ..self }
    }

    pub fn with_sprite(self, sprite: Option<WidgetSprite>) -> (p: WidgetProps)
        ensures
            p == (WidgetProps { sprite, ..self }),
    {
        WidgetProps { sprite, ..self }
    }

    pub fn with_text(self, text: Option<Text>) -> (p: WidgetProps)
        ensures
            p == (WidgetProps { text, ..self }),
    {
        WidgetProps { text, ..self }
    }

    /// Sets the color mask applied to this widget's sprite or text.
    pub fn with_mask_and(self, mask: Option<Pixel>) -> (p: WidgetProps)
        ensures
            p == (WidgetProps { mask, ..self }),
    {
        WidgetProps { mask, ..self }
    }

    pub fn with_acf(self, acf: Option<AlphaComp>) -> (p: WidgetProps)
        ensures
            p == (WidgetProps { acf, ..self }),
    {
        WidgetProps { acf, ..self }
    }

    pub fn with_rotate(self, rotate: Rotate) -> (p: WidgetProps)
        ensures
            p == (WidgetProps { rotate, ..self }),
    {
        WidgetProps { rotate, ..self }
    }
}

/// An identifier into the widget arena. Identifiers are only meaningful for
/// the frames in which the widget is alive.
#[derive(Clone, Copy, Debug, PartialEq, Eq, Structural)]
pub struct WidgetId(pub usize);

/// One widget record in the arena: the declared properties, the frame's
/// child list, the solved geometry and the interaction state carried across
/// frames.
#[derive(Debug)]
pub struct Widget {
    /// A freed slot is dead and may be reused for a new widget.
    pub alive: bool,
    pub props: WidgetProps,
    /// Children in declaration order: layout order and paint order.
    pub children: Vec<WidgetId>,
    /// Whether the child list has been rebuilt this frame; the first
    /// `add_child` of a frame discards the previous frame's list.
    pub fresh_children: bool,
    /// Set when the widget is declared; widgets left untouched at the end of
    /// a frame are garbage-collected.
    pub touched: bool,
    pub hovered: bool,
    pub pressed: bool,
    pub clicked: bool,
    pub focused: bool,
    /// Solved absolute position, set by the layout pass.
    pub pos: Pos,
    /// Solved size, set by the layout pass.
    pub size: Size,
}

/// The interaction snapshot returned by a build call: the widget's identity
/// and the state it carried into this frame.
#[derive(Clone, Copy, Debug, PartialEq, Eq, Structural)]
pub struct WidgetReaction {
    pub id: WidgetId,
    pub hovered: bool,
    pub pressed: bool,
    pub clicked: bool,
    pub focused: bool,
}

impl WidgetReaction {
    pub fn id(&self) -> (id: WidgetId)
        ensures
            id == self.id,
    {
        self.id
    }

    pub fn hovered(&self) -> (b: bool)
        ensures
            b == self.hovered,
    {
        self.hovered
    }

    pub fn pressed(&self) -> (b: bool)
        ensures
            b == self.pressed,
    {
        self.pressed
    }

    pub fn clicked(&self) -> (b: bool)
        ensures
            b == self.clicked,
    {
        self.clicked
    }

    pub fn focused(&self) -> (b: bool)
        ensures
            b == self.focused,
    {
        self.focused
    }
}

/// The pointer snapshot a frame reacts to: the position (absent when the
/// pointer is outside the window) and, for each button, this frame's and the
/// previous frame's down state.
#[derive(Clone, Copy, Debug, PartialEq, Eq)]
pub struct Mouse {
    pub pos: Option<Pos>,
    /// Left button: (down this frame, down previous frame).
    pub l_pressed: (bool, bool),
    /// Right button: (down this frame, down previous frame).
    pub r_pressed: (bool, bool),
    /// Middle button: (down this frame, down previous frame).
    pub m_pressed: (bool, bool),
}

impl Mouse {
    /// No pointer, no button down.
    pub fn new() -> (m: Mouse)
        ensures
            m == (Mouse {
                pos: Option::None,
                l_pressed: (false, false),
                r_pressed: (false, false),
                m_pressed: (false, false),
            }),
    {
        Mouse {
            pos: Option::None,
            l_pressed: (false, false),
            r_pressed: (false, false),
            m_pressed: (false, false),
        }
    }
}

} // verus!
