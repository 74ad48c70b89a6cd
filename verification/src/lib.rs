//! A software-rendered GUI core: a retained widget tree rebuilt declaratively
//! every frame with key-based reconciliation, a box-model layout solver, a
//! pointer interaction state machine, and a pixel compositor that executes
//! draw commands against an owned bitmap.

use vstd::prelude::*;

mod alphacomp;
mod assets;
mod bitmap;
mod components;
mod context;
mod draw;
mod layout;
mod math;
mod pixel;
mod react;
mod renderer;
mod sprite;
mod widget;

pub use alphacomp::{over, add, lemma_add_channel_monotone, lemma_over_both_transparent, lemma_over_transparent_dst, lemma_over_transparent_src, spec_add, spec_over, AlphaComp};
pub use assets::{load_png_from_memory, AssetError};
pub use bitmap::{Bitmap, MAX_BITMAP_DIM};
pub use math::{pos, size, rect, Pos, Size, Rect};
pub use pixel::{rgb_a, lemma_hex_roundtrip, Pixel};
pub use components::spec_carried_reaction;
pub use context::{lemma_find_key_match, lemma_first_free_dead, spec_find_key_from, spec_first_free_from, spec_fresh, spec_reconciled, UiContext};
pub use draw::{spec_emitted, spec_text_cmd_matches, spec_widget_acf, spec_widget_base_cmds, spec_widget_cmds_match, spec_widget_emits_text};
pub use layout::{spec_fixed_dim, spec_paint_closed, spec_root_dim};
pub use react::{lemma_click_pulse, lemma_no_press_no_click, spec_clicked_next, spec_hit_worthy, spec_pressed_next, spec_widget_rect};
pub use renderer::{spec_blend, spec_cmd_pixel, spec_draw_at, spec_masked, DrawCommand, Renderer};
pub use sprite::{sprite, nine_slicing_sprite, NineSlicingSprite, Rotate, Sprite, SpritesheetId, Text, WidgetSprite};
pub use widget::{Anchor, FlexDirection, Mouse, Widget, WidgetDim, WidgetFlags, WidgetId, WidgetKey, WidgetLayout, WidgetPadding, WidgetProps, WidgetReaction, WidgetSize};

verus! {

} // verus!
