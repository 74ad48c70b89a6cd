//! Emission of draw commands from the solved widget tree: one frame's
//! widgets, in paint order, each contributing its background, border, sprite
//! and text commands.

use vstd::prelude::*;
use crate::alphacomp::AlphaComp;
use crate::math::{Pos, Rect};
use crate::renderer::DrawCommand;
use crate::sprite::WidgetSprite;
use crate::widget::Widget;
use crate::react::spec_widget_rect;
use crate::layout::{spec_flat_ids, spec_paint_closed};
use crate::context::UiContext;

verus! {

/// The composition operator a widget draws with: the declared one, or
/// standard alpha-over when none is declared.
pub open spec fn spec_widget_acf(w: Widget) -> AlphaComp {
    match w.props.acf {
        Option::Some(a) => a,
        Option::None => AlphaComp::Over,
    }
}

/// The background, border and sprite commands one widget emits, in that
/// order: each only when its flag is set, each at the widget's solved
/// geometry, with the widget's mask and operator. (The text command is
/// described separately by `spec_text_cmd_matches`.)
pub open spec fn spec_widget_base_cmds(w: Widget) -> Seq<DrawCommand> {
    let r = spec_widget_rect(w);
    let acf = spec_widget_acf(w);
    (if w.props.flags.draw_background {
        seq![DrawCommand::FilledRect { rect: r, color: w.props.color, acf }]
    } else {
        Seq::empty()
    }) + (if w.props.flags.draw_border {
        seq![
            DrawCommand::Border {
                rect: r,
                stroke: w.props.border_width,
                color: w.props.border_color,
                acf,
            },
        ]
    } else {
        Seq::empty()
    }) + (if w.props.flags.draw_sprite {
        match w.props.sprite {
            Option::Some(WidgetSprite::Simple(sheet, sp)) => seq![
                DrawCommand::SimpleSprite {
                    sheet,
                    sprite: sp,
                    pos: w.pos,
                    rotate: w.props.rotate,
                    mask: w.props.mask,
                    acf,
                },
            ],
            Option::Some(WidgetSprite::NineSlice(sheet, nss)) => seq![
                DrawCommand::NineSlice { sheet, sprite: nss, rect: r, mask: w.props.mask, acf },
            ],
            Option::None => Seq::empty(),
        }
    } else {
        Seq::empty()
    })
}

/// Whether a widget emits a text command: its text flag is set and it holds
/// a run.
pub open spec fn spec_widget_emits_text(w: Widget) -> bool {
    w.props.flags.draw_text && w.props.text is Some
}

/// The text command a widget emits: its run, drawn at the widget's content
/// origin (solved position plus left and top padding), with the widget's
/// mask and operator.
pub open spec fn spec_text_cmd_matches(w: Widget, c: DrawCommand) -> bool {
    match c {
        DrawCommand::Text { text, pos, mask, acf } => {
            &&& w.props.text is Some
            &&& text.bytes@ == w.props.text->0.bytes@
            &&& text.glyph_w == w.props.text->0.glyph_w
            &&& text.glyph_h == w.props.text->0.glyph_h
            &&& pos == (Pos {
                x: crate::math::spec_clamp_i64_to_i32(w.pos.x + w.props.padding.left),
                y: crate::math::spec_clamp_i64_to_i32(w.pos.y + w.props.padding.top),
            })
            &&& mask == w.props.mask
            &&& acf == spec_widget_acf(w)
        },
        _ => false,
    }
}

/// The command segment one widget emits: its base commands, followed by its
/// text command when it draws text.
pub open spec fn spec_widget_cmds_match(w: Widget, s: Seq<DrawCommand>) -> bool {
    if spec_widget_emits_text(w) {
        &&& s.len() == spec_widget_base_cmds(w).len() + 1
        &&& s.take(s.len() - 1) == spec_widget_base_cmds(w)
        &&& spec_text_cmd_matches(w, s.last())
    } else {
        s == spec_widget_base_cmds(w)
    }
}

/// The emitted command list for a paint order: the concatenation, widget by
/// widget, of each listed widget's command segment.
pub open spec fn spec_emitted(ui: UiContext, ids: Seq<int>, s: Seq<DrawCommand>) -> bool
    decreases ids.len(),
{
    if ids.len() == 0 {
        s.len() == 0
    } else {
        exists|m: int|
            0 <= m <= s.len() && spec_widget_cmds_match(ui.widgets@[ids[0]], #[trigger] s.take(m))
                && spec_emitted(ui, ids.skip(1), s.skip(m))
    }
}

/// Appending one widget's segment extends an emitted list by that widget.
proof fn lemma_emitted_snoc(
    ui: UiContext,
    ids: Seq<int>,
    s: Seq<DrawCommand>,
    id: int,
    seg: Seq<DrawCommand>,
)
    requires
        spec_emitted(ui, ids, s),
        spec_widget_cmds_match(ui.widgets@[id], seg),
    ensures
        spec_emitted(ui, ids.push(id), s + seg),
    decreases ids.len(),
{
    if ids.len() == 0 {
        assert(s.len() == 0);
        assert((s + seg) =~= seg);
        let m = seg.len() as int;
        assert((s + seg).take(m) =~= seg);
        assert((s + seg).skip(m) =~= Seq::<DrawCommand>::empty());
        assert(ids.push(id)[0] == id);
        assert(ids.push(id).skip(1) =~= Seq::<int>::empty());
        assert(spec_emitted(ui, ids.push(id).skip(1), (s + seg).skip(m)));
    } else {
        let m = choose|m: int|
            0 <= m <= s.len() && spec_widget_cmds_match(ui.widgets@[ids[0]], #[trigger] s.take(m))
                && spec_emitted(ui, ids.skip(1), s.skip(m));
        assert((s + seg).take(m) =~= s.take(m));
        assert((s + seg).skip(m) =~= s.skip(m) + seg);
        lemma_emitted_snoc(ui, ids.skip(1), s.skip(m), id, seg);
        assert(ids.push(id).skip(1) =~= ids.skip(1).push(id));
        assert(ids.push(id)[0] == ids[0]);
        assert(0 <= m <= (s + seg).len() && spec_widget_cmds_match(
            ui.widgets@[ids.push(id)[0]],
            (s + seg).take(m),
        ) && spec_emitted(ui, ids.push(id).skip(1), (s + seg).skip(m)));
    }
}

impl UiContext {
    /// Appends this frame's draw commands to `cmds` in paint order: the root
    /// first, parents before children, siblings in declaration order, so
    /// later widgets paint over earlier ones. Per widget, in order: a
    /// background rectangle, a border, a sprite (plain or nine-slice), and a
    /// text run, each only when its flag is set, each at the widget's solved
    /// geometry, with the widget's mask and composition operator (alpha-over
    /// when none is declared). Commands already in `cmds` stay untouched in
    /// front.
    #[verifier::loop_isolation(false)]
    #[verifier::rlimit(100)]
    pub fn draw_widgets(&self, cmds: &mut Vec<DrawCommand>)
        ensures
            old(cmds)@.is_prefix_of(final(cmds)@),
            exists|ids: Seq<int>|
                #[trigger] spec_paint_closed(*self, ids) && spec_emitted(
                    *self,
                    ids,
                    final(cmds)@.skip(old(cmds)@.len() as int),
                ),
    {
        let flat = self.flatten();
        let ghost ids = spec_flat_ids(flat@);
        let ghost base = cmds@.len() as int;
        let mut t: usize = 0;
        proof {
            assert(cmds@.skip(base) =~= Seq::<DrawCommand>::empty());
            assert(ids.take(0) =~= Seq::<int>::empty());
        }
        while t < flat.len()
            invariant
                t <= flat@.len(),
                old(cmds)@.is_prefix_of(cmds@),
                cmds@.len() >= base,
                spec_emitted(*self, ids.take(t as int), cmds@.skip(base)),
            decreases flat@.len() - t,
        {
            let ghost pre = cmds@;
            let id = flat[t].id;
            let w = &self.widgets[id];
            let acf = match w.props.acf {
                Option::Some(a) => a,
                Option::None => AlphaComp::Over,
            };
            let r = Rect { x: w.pos.x, y: w.pos.y, w: w.size.w, h: w.size.h };
            if w.props.flags.draw_background {
                cmds.push(DrawCommand::FilledRect { rect: r, color: w.props.color, acf });
            }
            if w.props.flags.draw_border {
                cmds.push(
                    DrawCommand::Border {
                        rect: r,
                        stroke: w.props.border_width,
                        color: w.props.border_color,
                        acf,
                    },
                );
            }
            if w.props.flags.draw_sprite {
                match &w.props.sprite {
                    Option::Some(WidgetSprite::Simple(sheet, sp)) => {
                        cmds.push(
                            DrawCommand::SimpleSprite {
                                sheet: *sheet,
                                sprite: *sp,
                                pos: w.pos,
                                rotate: w.props.rotate,
                                mask: w.props.mask,
                                acf,
                            },
                        );
                    },
                    Option::Some(WidgetSprite::NineSlice(sheet, nss)) => {
                        cmds.push(
                            DrawCommand::NineSlice {
                                sheet: *sheet,
                                sprite: *nss,
                                rect: r,
                                mask: w.props.mask,
                                acf,
                            },
                        );
                    },
                    Option::None => {},
                }
            }
            proof {
                assert(cmds@.skip(pre.len() as int) =~= spec_widget_base_cmds(*w));
            }
            if w.props.flags.draw_text {
                match &w.props.text {
                    Option::Some(text) => {
                        let tx: i64 = w.pos.x as i64 + w.props.padding.left as i64;
                        let ty: i64 = w.pos.y as i64 + w.props.padding.top as i64;
                        cmds.push(
                            DrawCommand::Text {
                                text: text.duplicate(),
                                pos: Pos {
                                    x: crate::math::clamp_i64_to_i32(tx),
                                    y: crate::math::clamp_i64_to_i32(ty),
                                },
                                mask: w.props.mask,
                                acf: acf,
                            },
                        );
                    },
                    Option::None => {},
                }
            }
            proof {
                let seg = cmds@.skip(pre.len() as int);
                if spec_widget_emits_text(*w) {
                    assert(seg.take(seg.len() - 1) =~= spec_widget_base_cmds(*w));
                    assert(spec_text_cmd_matches(*w, seg.last()));
                } else {
                    assert(seg =~= spec_widget_base_cmds(*w));
                }
                assert(spec_widget_cmds_match(*w, seg));
                assert(pre.skip(base) + seg =~= cmds@.skip(base));
                assert(ids.take(t as int).push(ids[t as int]) =~= ids.take(t as int + 1));
                assert(self.widgets@[ids[t as int]] == *w);
                lemma_emitted_snoc(*self, ids.take(t as int), pre.skip(base), ids[t as int], seg);
            }
            t += 1;
        }
        proof {
            assert(ids.take(flat@.len() as int) =~= ids);
        }
    }
}

} // verus!
