//! Compound widgets built from the declaration primitives: icon buttons,
//! nine-slice box buttons, and the fixed-format numeric displays. Each call
//! reports, like `build_widget`, the interaction state its widget carried
//! into the frame, so hover, the click pulse and drag persistence flow
//! through these as they do through the primitives.

use vstd::prelude::*;
use crate::math::Pos;
use crate::pixel::Pixel;
use crate::sprite::{NineSlicingSprite, Sprite, SpritesheetId, WidgetSprite};
use crate::widget::{
    spec_key_mix, Anchor, FlexDirection, Widget, WidgetFlags, WidgetId, WidgetKey, WidgetLayout,
    WidgetPadding, WidgetProps, WidgetReaction,
};
use crate::context::{
    lemma_find_key_match, lemma_first_free_dead, spec_find_key_from, spec_first_free_from,
    UiContext,
};

verus! {

/// The reaction a declaration with this key returns: the flags the matched
/// widget carried into the frame, or a blank state for a fresh widget.
pub open spec fn spec_carried_reaction(ui: UiContext, key: WidgetKey, r: WidgetReaction) -> bool {
    match spec_find_key_from(ui.widgets@, key, 0) {
        Option::Some(j) => {
            &&& r.id.0 == j
            &&& r.hovered == ui.widgets@[j].hovered
            &&& r.pressed == ui.widgets@[j].pressed
            &&& r.clicked == ui.widgets@[j].clicked
            &&& r.focused == ui.widgets@[j].focused
        },
        Option::None => !r.hovered && !r.pressed && !r.clicked && !r.focused,
    }
}

/// The properties of one display cell: a widget drawing the given sprite
/// under the given mask, everything else at the defaults.
pub open spec fn spec_cell_props(
    key: WidgetKey,
    sheet_id: SpritesheetId,
    sp: Sprite,
    mask: Option<Pixel>,
) -> WidgetProps {
    WidgetProps {
        flags: WidgetFlags { draw_sprite: true, ..WidgetFlags::spec_none() },
        sprite: Option::Some(WidgetSprite::Simple(sheet_id, sp)),
        mask,
        ..WidgetProps::spec_defaults(key)
    }
}

/// The key of the big display's cell `k`: call site 1 under the display's
/// key, indexed hundreds, tens, ones.
pub open spec fn spec_holder_key(key: WidgetKey, k: int) -> WidgetKey {
    WidgetKey { site: 1, a: (2 - k) as u64, b: 0, parent_mix: spec_key_mix(key) }
}

/// The key of the digit inside the big display's cell `k`: call site 2.
pub open spec fn spec_digit_key(key: WidgetKey, k: int) -> WidgetKey {
    WidgetKey { site: 2, a: (2 - k) as u64, b: 0, parent_mix: spec_key_mix(key) }
}

/// The digit the big display's cell `k` stands for: the hundreds, tens and
/// ones of `n`; only `n` modulo 1000 is displayed.
pub open spec fn spec_3digit(n: int, k: int) -> int {
    if k == 0 {
        (n / 100) % 10
    } else if k == 1 {
        (n / 10) % 10
    } else {
        n % 10
    }
}

/// Whether the big display's cell `k` shows its digit: a digit shows once
/// some digit at its position or a more significant one is nonzero, so
/// leading zeros are left blank (and zero shows nothing at all).
pub open spec fn spec_3digit_shown(n: int, k: int) -> bool {
    if k == 0 {
        spec_3digit(n, 0) > 0
    } else if k == 1 {
        spec_3digit(n, 0) > 0 || spec_3digit(n, 1) > 0
    } else {
        spec_3digit(n, 0) > 0 || spec_3digit(n, 1) > 0 || spec_3digit(n, 2) > 0
    }
}



/// The key of the clock's cell `k`: digit cells at call site 3, colons at 4,
/// the final milliseconds digit at 5, all under the display's key.
pub open spec fn spec_clock_key(key: WidgetKey, k: int) -> WidgetKey {
    if k == 2 {
        WidgetKey { site: 4, a: 100, b: 0, parent_mix: spec_key_mix(key) }
    } else if k == 5 {
        WidgetKey { site: 4, a: 101, b: 0, parent_mix: spec_key_mix(key) }
    } else if k == 8 {
        WidgetKey { site: 5, a: 0, b: 0, parent_mix: spec_key_mix(key) }
    } else {
        WidgetKey {
            site: 3,
            a: k as u64,
            b: if k == 0 || k == 3 || k == 7 {
                1
            } else if k == 6 {
                2
            } else {
                0
            },
            parent_mix: spec_key_mix(key),
        }
    }
}

/// Whether the clock's cell `k` is a colon separator.
pub open spec fn spec_clock_cell_is_colon(k: int) -> bool {
    k == 2 || k == 5
}

/// Whether the clock's cell `k` is bright: minutes, the first colon and
/// seconds are bright, the second colon and the milliseconds dimmed.
pub open spec fn spec_clock_bright(k: int) -> bool {
    k <= 4
}

/// The digit the clock's cell `k` shows: minutes tens and ones, seconds tens
/// and ones, milliseconds hundreds, tens and ones of the duration.
pub open spec fn spec_clock_digit(total_millis: u64, k: int) -> int {
    let m = ((total_millis as int / 1000) / 60) % 60;
    let s = (total_millis as int / 1000) % 60;
    let ms = total_millis as int % 1000;
    if k == 0 {
        (m / 10) % 10
    } else if k == 1 {
        m % 10
    } else if k == 3 {
        (s / 10) % 10
    } else if k == 4 {
        s % 10
    } else if k == 6 {
        (ms / 100) % 10
    } else if k == 7 {
        (ms / 10) % 10
    } else {
        ms % 10
    }
}

/// The clock's cell table, one entry per loop-built cell: the key slot
/// number, the digit to show (10 marks a colon), and whether it is bright.
pub open spec fn spec_clock_cell(total_millis: u64, k: int) -> (u64, u64, bool) {
    let m = ((total_millis as int / 1000) / 60) % 60;
    let s = (total_millis as int / 1000) % 60;
    let ms = total_millis as int % 1000;
    if k == 0 {
        (1u64, (((m / 10) % 10) as u64), true)
    } else if k == 1 {
        (0u64, ((m % 10) as u64), true)
    } else if k == 2 {
        (100u64, 10u64, true)
    } else if k == 3 {
        (1u64, (((s / 10) % 10) as u64), true)
    } else if k == 4 {
        (0u64, ((s % 10) as u64), true)
    } else if k == 5 {
        (101u64, 10u64, false)
    } else if k == 6 {
        (2u64, (((ms / 100) % 10) as u64), false)
    } else {
        (1u64, (((ms / 10) % 10) as u64), false)
    }
}

/// The sprite the clock's cell `k` draws: the colon, or the digit sprite of
/// its digit.
pub open spec fn spec_clock_cell_sprite(
    total_millis: u64,
    k: int,
    colon_sprite: Sprite,
    digits: Seq<Sprite>,
) -> Sprite {
    if spec_clock_cell_is_colon(k) {
        colon_sprite
    } else {
        digits[spec_clock_digit(total_millis, k)]
    }
}


/// Exclusive-or with zero changes nothing; scoping an unscoped key under a
/// parent stores exactly the parent's mix.
proof fn lemma_xor_zero(x: u64)
    ensures
        0u64 ^ x == x,
{
    assert(0u64 ^ x == x) by (bit_vector);
}

impl UiContext {
    /// A clickable, focusable icon button: the given widget, its flags
    /// extended with `CAN_FOCUS | CAN_HOVER | CAN_CLICK | DRAW_BACKGROUND`,
    /// holding one centered icon child built from `sprite_props`; while
    /// hovered its background takes `hover_color`. The returned reaction is
    /// the button's carried interaction state, its flags survive into the
    /// final arena, and no widget but the button and its icon is touched.
    /// The two keys must differ: equal keys under one parent are a caller
    /// error.
    #[verifier::rlimit(100)]
    pub fn btn_icon(
        &mut self,
        props: WidgetProps,
        sprite_props: WidgetProps,
        hover_color: Pixel,
    ) -> (r: WidgetReaction)
        requires
            props.key != sprite_props.key,
        ensures
            final(self).viewport == old(self).viewport,
            final(self).spec_alive(r.id.0 as int),
            spec_carried_reaction(*old(self), props.key, r),
            final(self).widgets@[r.id.0 as int].hovered == r.hovered,
            final(self).widgets@[r.id.0 as int].pressed == r.pressed,
            final(self).widgets@[r.id.0 as int].clicked == r.clicked,
            final(self).widgets@[r.id.0 as int].focused == r.focused,
            final(self).widgets@[r.id.0 as int].props == (WidgetProps {
                flags: props.flags.spec_union(
                    WidgetFlags {
                        draw_background: true,
                        can_hover: true,
                        can_click: true,
                        can_focus: true,
                        ..WidgetFlags::spec_none()
                    },
                ),
                color: if r.hovered {
                    hover_color
                } else {
                    props.color
                },
                ..props
            }),
            final(self).widgets@[r.id.0 as int].touched,
            final(self).widgets@[r.id.0 as int].children@.len() == 1,
            ({
                let inner = final(self).widgets@[r.id.0 as int].children@[0].0 as int;
                &&& final(self).spec_alive(inner)
                &&& inner != r.id.0 as int
                &&& final(self).widgets@[inner].props == (WidgetProps {
                    anchor: Anchor::Center,
                    origin: Anchor::Center,
                    ..sprite_props
                })
                &&& final(self).widgets@[inner].touched
            }),
            old(self).widgets@.len() <= final(self).widgets@.len(),
            forall|q: int|
                0 <= q < old(self).widgets@.len() ==> (#[trigger] final(self).widgets@[q]) == old(
                    self,
                ).widgets@[q] || q == r.id.0 as int || final(self).widgets@[q].props.key
                    == sprite_props.key,
    {
        let prev_flags = props.flags;
        let button = self.build_widget(
            props.with_flags(
                prev_flags.union(WidgetFlags::can_focus()).union(WidgetFlags::can_hover()).union(
                    WidgetFlags::can_click(),
                ).union(WidgetFlags::draw_background()),
            ),
        );
        let ghost m1 = self.widgets@;
        proof {
            assert forall|q: int|
                0 <= q < old(self).widgets@.len() && q != button.id.0 as int implies (
            #[trigger] m1[q]) == old(self).widgets@[q] by {
                match spec_find_key_from(old(self).widgets@, props.key, 0) {
                    Option::Some(j) => {
                        lemma_find_key_match(old(self).widgets@, props.key, 0);
                        assert(j == button.id.0 as int);
                    },
                    Option::None => {
                        match spec_first_free_from(old(self).widgets@, 0) {
                            Option::Some(f) => {
                                lemma_first_free_dead(old(self).widgets@, 0);
                                assert(f == button.id.0 as int);
                            },
                            Option::None => {},
                        }
                    },
                }
            }
        }
        let inner_sprite = self.build_widget(
            sprite_props.with_anchor_origin(Anchor::Center, Anchor::Center),
        );
        let ghost m2 = self.widgets@;
        proof {
            assert(self.widgets@[button.id.0 as int] == m1[button.id.0 as int]);
            assert(inner_sprite.id.0 != button.id.0);
            assert forall|q: int|
                0 <= q < m1.len() && q != inner_sprite.id.0 as int implies (#[trigger] m2[q])
                == m1[q] by {
                match spec_find_key_from(m1, sprite_props.key, 0) {
                    Option::Some(j) => {
                        lemma_find_key_match(m1, sprite_props.key, 0);
                        assert(j == inner_sprite.id.0 as int);
                    },
                    Option::None => {
                        match spec_first_free_from(m1, 0) {
                            Option::Some(f) => {
                                lemma_first_free_dead(m1, 0);
                                assert(f == inner_sprite.id.0 as int);
                            },
                            Option::None => {},
                        }
                    },
                }
            }
            assert(m2[inner_sprite.id.0 as int].props.key == sprite_props.key);
        }
        self.add_child(button.id(), inner_sprite.id());
        proof {
            assert(self.widgets@[button.id.0 as int].children@ =~= seq![inner_sprite.id]);
        }
        if button.hovered() {
            self.set_color(button.id(), hover_color);
        }
        proof {
            assert forall|q: int|
                0 <= q < old(self).widgets@.len() implies (#[trigger] self.widgets@[q]) == old(
                self,
            ).widgets@[q] || q == button.id.0 as int || self.widgets@[q].props.key
                == sprite_props.key by {
                if q != button.id.0 as int && self.widgets@[q] != old(self).widgets@[q] {
                    assert(m1[q] == old(self).widgets@[q]);
                    assert(self.widgets@[q] == m2[q]);
                    assert(q == inner_sprite.id.0 as int);
                    assert(m2[q].props.key == sprite_props.key);
                }
            }
        }
        button
    }

    /// A clickable, focusable box button drawn as a nine-slice panel around
    /// an existing child widget; while pressed and hovered it switches to
    /// the `hover_nss` panel and nudges itself and its child one pixel down
    /// and right. The returned reaction is the button's carried interaction
    /// state, its flags survive into the final arena, and no widget but the
    /// button and the child is touched. The child must not carry the
    /// button's key.
    #[verifier::rlimit(100)]
    pub fn btn_box(
        &mut self,
        props: WidgetProps,
        normal_nss: WidgetSprite,
        hover_nss: WidgetSprite,
        child_id: WidgetId,
    ) -> (r: WidgetReaction)
        requires
            old(self).spec_alive(child_id.0 as int),
            old(self).widgets@[child_id.0 as int].props.key != props.key,
        ensures
            final(self).viewport == old(self).viewport,
            final(self).spec_alive(r.id.0 as int),
            spec_carried_reaction(*old(self), props.key, r),
            r.id != child_id,
            final(self).widgets@[r.id.0 as int].hovered == r.hovered,
            final(self).widgets@[r.id.0 as int].pressed == r.pressed,
            final(self).widgets@[r.id.0 as int].clicked == r.clicked,
            final(self).widgets@[r.id.0 as int].focused == r.focused,
            final(self).widgets@[r.id.0 as int].props == (WidgetProps {
                flags: WidgetFlags {
                    draw_sprite: true,
                    can_hover: true,
                    can_click: true,
                    can_focus: true,
                    ..WidgetFlags::spec_none()
                },
                sprite: Option::Some(
                    if r.pressed && r.hovered {
                        hover_nss
                    } else {
                        normal_nss
                    },
                ),
                draw_offset: if r.pressed && r.hovered {
                    Pos { x: 1, y: 1 }
                } else {
                    props.draw_offset
                },
                ..props
            }),
            final(self).widgets@[r.id.0 as int].touched,
            final(self).widgets@[r.id.0 as int].children@ == seq![child_id],
            final(self).spec_alive(child_id.0 as int),
            final(self).widgets@[child_id.0 as int] == (crate::widget::Widget {
                props: WidgetProps {
                    draw_offset: if r.pressed && r.hovered {
                        Pos { x: 1, y: 1 }
                    } else {
                        old(self).widgets@[child_id.0 as int].props.draw_offset
                    },
                    ..old(self).widgets@[child_id.0 as int].props
                },
                ..old(self).widgets@[child_id.0 as int]
            }),
            old(self).widgets@.len() <= final(self).widgets@.len(),
            forall|q: int|
                0 <= q < old(self).widgets@.len() ==> (#[trigger] final(self).widgets@[q]) == old(
                    self,
                ).widgets@[q] || q == r.id.0 as int || q == child_id.0 as int,
    {
        let button = self.build_widget(
            props.with_flags(
                WidgetFlags::can_focus().union(WidgetFlags::can_hover()).union(
                    WidgetFlags::can_click(),
                ).union(WidgetFlags::draw_sprite()),
            ).with_sprite(Option::Some(normal_nss)),
        );
        proof {
            assert(button.id.0 != child_id.0);
            assert(self.widgets@[child_id.0 as int] == old(self).widgets@[child_id.0 as int]);
            assert forall|q: int|
                0 <= q < old(self).widgets@.len() && q != button.id.0 as int implies (
            #[trigger] self.widgets@[q]) == old(self).widgets@[q] by {
                match spec_find_key_from(old(self).widgets@, props.key, 0) {
                    Option::Some(j) => {
                        lemma_find_key_match(old(self).widgets@, props.key, 0);
                        assert(j == button.id.0 as int);
                    },
                    Option::None => {
                        match spec_first_free_from(old(self).widgets@, 0) {
                            Option::Some(f) => {
                                lemma_first_free_dead(old(self).widgets@, 0);
                                assert(f == button.id.0 as int);
                            },
                            Option::None => {},
                        }
                    },
                }
            }
        }
        let ghost mb = self.widgets@;
        self.add_child(button.id(), child_id);
        proof {
            assert(self.widgets@[button.id.0 as int].children@ =~= seq![child_id]);
            assert(self.widgets@[child_id.0 as int] == old(self).widgets@[child_id.0 as int]);
        }
        if button.pressed() && button.hovered() {
            self.set_sprite(button.id(), Option::Some(hover_nss));
            self.set_draw_offset(button.id(), Pos { x: 1, y: 1 });
            self.set_draw_offset(child_id, Pos { x: 1, y: 1 });
        }
        proof {
            assert forall|q: int|
                0 <= q < old(self).widgets@.len() implies (#[trigger] self.widgets@[q]) == old(
                self,
            ).widgets@[q] || q == button.id.0 as int || q == child_id.0 as int by {
                if q != button.id.0 as int && q != child_id.0 as int {
                    assert(mb[q] == old(self).widgets@[q]);
                    assert(self.widgets@[q] == mb[q]);
                }
            }
        }
        button
    }

    /// A three-digit number display in a nine-slice box: three cells stacked
    /// horizontally — hundreds, tens, ones — each drawing the placeholder
    /// sprite, each holding one digit-sprite child exactly when its digit
    /// shows (leading zeros are blank, so zero shows no digit at all); only
    /// `n` modulo 1000 is displayed. A cell whose digit does not show keeps
    /// the child list it carried into the frame; the end-of-frame free pass
    /// collects the stale digit. The returned reaction is the display's
    /// carried state, its flags survive into the final arena, and no widget
    /// outside the display and its cells is touched. Call-site numbers 1 and
    /// 2 under `key` are reserved for the cells, so the caller's key must
    /// not use them.
    #[verifier::loop_isolation(false)]
    #[verifier::rlimit(100)]
    pub fn big_3digits_display(
        &mut self,
        key: WidgetKey,
        n: usize,
        sheet_id: SpritesheetId,
        display_box: NineSlicingSprite,
        placeholder_sprite: Sprite,
        digit_sprites: &[Sprite; 10],
    ) -> (r: WidgetReaction)
        requires
            key.site != 1,
            key.site != 2,
        ensures
            final(self).viewport == old(self).viewport,
            final(self).spec_alive(r.id.0 as int),
            spec_carried_reaction(*old(self), key, r),
            final(self).widgets@[r.id.0 as int].hovered == r.hovered,
            final(self).widgets@[r.id.0 as int].pressed == r.pressed,
            final(self).widgets@[r.id.0 as int].clicked == r.clicked,
            final(self).widgets@[r.id.0 as int].focused == r.focused,
            final(self).widgets@[r.id.0 as int].props == (WidgetProps {
                flags: WidgetFlags { draw_sprite: true, ..WidgetFlags::spec_none() },
                sprite: Option::Some(WidgetSprite::NineSlice(sheet_id, display_box)),
                layout: WidgetLayout::Flex { direction: FlexDirection::Horizontal, gap: 2 },
                padding: WidgetPadding { top: 2, right: 3, bottom: 2, left: 3 },
                ..WidgetProps::spec_defaults(key)
            }),
            final(self).widgets@[r.id.0 as int].touched,
            final(self).widgets@[r.id.0 as int].children@.len() == 3,
            forall|k: int|
                0 <= k < 3 ==> {
                    let cid = (
                    #[trigger] final(self).widgets@[r.id.0 as int].children@[k]).0 as int;
                    &&& final(self).spec_alive(cid)
                    &&& cid != r.id.0 as int
                    &&& final(self).widgets@[cid].props == spec_cell_props(
                        spec_holder_key(key, k),
                        sheet_id,
                        placeholder_sprite,
                        Option::None,
                    )
                    &&& final(self).widgets@[cid].touched
                    &&& if spec_3digit_shown(n as int, k) {
                        &&& final(self).widgets@[cid].children@.len() == 1
                        &&& {
                            let dg = final(self).widgets@[cid].children@[0].0 as int;
                            &&& final(self).spec_alive(dg)
                            &&& final(self).widgets@[dg].props == spec_cell_props(
                                spec_digit_key(key, k),
                                sheet_id,
                                digit_sprites@[spec_3digit(n as int, k)],
                                Option::None,
                            )
                            &&& final(self).widgets@[dg].touched
                        }
                    } else {
                        true
                    }
                },
            old(self).widgets@.len() <= final(self).widgets@.len(),
    {
        let display = self.build_widget(
            WidgetProps::nine_slice_sprite(key, sheet_id, display_box).with_layout(
                WidgetLayout::flex(FlexDirection::Horizontal, 2),
            ).with_padding(WidgetPadding::hv(3, 2)),
        );
        let ghost dprops = self.widgets@[display.id.0 as int].props;
        let d2: usize = (n / 100) % 10;
        let d1: usize = (n / 10) % 10;
        let d0: usize = n % 10;
        let mut after_first_digit = false;
        let digits: [usize; 3] = [d2, d1, d0];
        let mut i: usize = 0;
        while i < 3
            invariant
                i <= 3,
                self.viewport == old(self).viewport,
                old(self).widgets@.len() <= self.widgets@.len(),
                self.spec_alive(display.id.0 as int),
                self.widgets@[display.id.0 as int].props == dprops,
                dprops.key == key,
                self.widgets@[display.id.0 as int].touched,
                self.widgets@[display.id.0 as int].hovered == display.hovered,
                self.widgets@[display.id.0 as int].pressed == display.pressed,
                self.widgets@[display.id.0 as int].clicked == display.clicked,
                self.widgets@[display.id.0 as int].focused == display.focused,
                i == 0 ==> !self.widgets@[display.id.0 as int].fresh_children,
                i > 0 ==> self.widgets@[display.id.0 as int].fresh_children
                    && self.widgets@[display.id.0 as int].children@.len() == i,
                forall|k: int| 0 <= k < 3 ==> #[trigger] digits@[k] == spec_3digit(n as int, k),
                i > 0 ==> after_first_digit == spec_3digit_shown(n as int, i - 1),
                i == 0 ==> !after_first_digit,
                key.site != 1 && key.site != 2,
                // The completed cells.
                forall|k: int|
                    0 <= k < i ==> {
                        let cid = (
                        #[trigger] self.widgets@[display.id.0 as int].children@[k]).0 as int;
                        &&& self.spec_alive(cid)
                        &&& cid != display.id.0 as int
                        &&& self.widgets@[cid].props == spec_cell_props(
                            spec_holder_key(key, k),
                            sheet_id,
                            placeholder_sprite,
                            Option::None,
                        )
                        &&& self.widgets@[cid].touched
                        &&& if spec_3digit_shown(n as int, k) {
                            &&& self.widgets@[cid].children@.len() == 1
                            &&& {
                                let dg = self.widgets@[cid].children@[0].0 as int;
                                &&& self.spec_alive(dg)
                                &&& self.widgets@[dg].props == spec_cell_props(
                                    spec_digit_key(key, k),
                                    sheet_id,
                                    digit_sprites@[spec_3digit(n as int, k)],
                                    Option::None,
                                )
                                &&& self.widgets@[dg].touched
                            }
                        } else {
                            true
                        }
                    },
            decreases 3 - i,
        {
            let d = digits[i];
            let hk = WidgetKey::indexed(1, (2 - i) as u64).under(&key);
            proof {
                lemma_xor_zero(spec_key_mix(key));
                assert(hk == spec_holder_key(key, i as int));
            }
            let ghost pre = self.widgets@;
            let holder = self.build_widget(
                WidgetProps::simple_sprite(hk, sheet_id, placeholder_sprite),
            );
            proof {
                assert(self.widgets@[display.id.0 as int] == pre[display.id.0 as int]);
                assert(holder.id.0 != display.id.0);
                assert forall|k: int| 0 <= k < i implies {
                    let cid = (#[trigger] pre[display.id.0 as int].children@[k]).0 as int;
                    self.widgets@[cid] == pre[cid] && (spec_3digit_shown(n as int, k)
                        ==> self.widgets@[pre[cid].children@[0].0 as int] == pre[pre[cid].children@[0].0 as int])
                } by {
                    let cid = pre[display.id.0 as int].children@[k].0 as int;
                    assert(pre[cid].props.key == spec_holder_key(key, k));
                    assert(spec_holder_key(key, k) != hk);
                    if spec_3digit_shown(n as int, k) {
                        let dg = pre[cid].children@[0].0 as int;
                        assert(pre[dg].props.key == spec_digit_key(key, k));
                        assert(spec_digit_key(key, k) != hk);
                    }
                }
            }
            let ghost mid_h = self.widgets@;
            if after_first_digit || d > 0 {
                let dk = WidgetKey::indexed(2, (2 - i) as u64).under(&key);
                proof {
                    lemma_xor_zero(spec_key_mix(key));
                    assert(dk == spec_digit_key(key, i as int));
                }
                let digit = self.build_widget(
                    WidgetProps::simple_sprite(dk, sheet_id, digit_sprites[d]),
                );
                proof {
                    assert(self.widgets@[display.id.0 as int] == mid_h[display.id.0 as int]);
                    assert(self.widgets@[holder.id.0 as int] == mid_h[holder.id.0 as int]);
                    assert(digit.id.0 != holder.id.0);
                    assert(digit.id.0 != display.id.0);
                    assert forall|k: int| 0 <= k < i implies {
                        let cid = (#[trigger] mid_h[display.id.0 as int].children@[k]).0 as int;
                        self.widgets@[cid] == mid_h[cid] && (spec_3digit_shown(n as int, k)
                            ==> self.widgets@[mid_h[cid].children@[0].0 as int] == mid_h[mid_h[cid].children@[0].0 as int])
                    } by {
                        let cid = mid_h[display.id.0 as int].children@[k].0 as int;
                        assert(mid_h[cid].props.key == spec_holder_key(key, k));
                        assert(spec_holder_key(key, k) != dk);
                        if spec_3digit_shown(n as int, k) {
                            let dg = mid_h[cid].children@[0].0 as int;
                            assert(mid_h[dg].props.key == spec_digit_key(key, k));
                            assert(spec_digit_key(key, k) != dk);
                        }
                    }
                }
                self.add_child(holder.id(), digit.id());
                proof {
                    assert(self.widgets@[holder.id.0 as int].children@ =~= seq![digit.id]);
                }
                after_first_digit = true;
            }
            self.add_child(display.id(), holder.id());
            i += 1;
        }
        display
    }

    /// A clock display in a nine-slice box, nine cells stacked horizontally:
    /// the duration's minutes, a colon, its seconds, a colon, and its
    /// milliseconds, each cell drawing its digit sprite (or the colon
    /// sprite) — minutes, the first colon and seconds masked bright green,
    /// the rest dimmed green. The returned reaction is the display's carried
    /// state, its flags survive into the final arena, and no widget outside
    /// the display and its cells is touched. Call-site numbers 3, 4 and 5
    /// under `key` are reserved for the cells, so the caller's key must not
    /// use them.
    #[verifier::loop_isolation(false)]
    #[verifier::rlimit(100)]
    pub fn time_display(
        &mut self,
        key: WidgetKey,
        total_millis: u64,
        sheet_id: SpritesheetId,
        display_box: NineSlicingSprite,
        colon_sprite: Sprite,
        digit_sprites: &[Sprite; 10],
    ) -> (r: WidgetReaction)
        requires
            key.site != 3,
            key.site != 4,
            key.site != 5,
        ensures
            final(self).viewport == old(self).viewport,
            final(self).spec_alive(r.id.0 as int),
            spec_carried_reaction(*old(self), key, r),
            final(self).widgets@[r.id.0 as int].hovered == r.hovered,
            final(self).widgets@[r.id.0 as int].pressed == r.pressed,
            final(self).widgets@[r.id.0 as int].clicked == r.clicked,
            final(self).widgets@[r.id.0 as int].focused == r.focused,
            final(self).widgets@[r.id.0 as int].props == (WidgetProps {
                flags: WidgetFlags { draw_sprite: true, ..WidgetFlags::spec_none() },
                sprite: Option::Some(WidgetSprite::NineSlice(sheet_id, display_box)),
                layout: WidgetLayout::Flex { direction: FlexDirection::Horizontal, gap: 1 },
                padding: WidgetPadding { top: 2, right: 2, bottom: 2, left: 2 },
                ..WidgetProps::spec_defaults(key)
            }),
            final(self).widgets@[r.id.0 as int].touched,
            final(self).widgets@[r.id.0 as int].children@.len() == 9,
            forall|k: int|
                0 <= k < 9 ==> {
                    let cid = (
                    #[trigger] final(self).widgets@[r.id.0 as int].children@[k]).0 as int;
                    &&& final(self).spec_alive(cid)
                    &&& cid != r.id.0 as int
                    &&& final(self).widgets@[cid].props == spec_cell_props(
                        spec_clock_key(key, k),
                        sheet_id,
                        spec_clock_cell_sprite(total_millis, k, colon_sprite, digit_sprites@),
                        Option::Some(
                            if spec_clock_bright(k) {
                                Pixel::spec_from_hex(0xff99e550)
                            } else {
                                Pixel::spec_from_hex(0xff64a328)
                            },
                        ),
                    )
                    &&& final(self).widgets@[cid].touched
                },
            old(self).widgets@.len() <= final(self).widgets@.len(),
    {
        let display = self.build_widget(
            WidgetProps::nine_slice_sprite(key, sheet_id, display_box).with_layout(
                WidgetLayout::flex(FlexDirection::Horizontal, 1),
            ).with_padding(WidgetPadding::all(2)),
        );
        let ghost dprops = self.widgets@[display.id.0 as int].props;
        let seconds_total: u64 = total_millis / 1000;
        let minutes: u64 = (seconds_total / 60) % 60;
        let seconds: u64 = seconds_total % 60;
        let millis: u64 = total_millis % 1000;
        let bright_green = Pixel::from_hex(0xff99e550);
        let dimmed_green = Pixel::from_hex(0xff64a328);

        // One entry per cell: a slot number for the key, the digit to show
        // (10 marks a colon), and whether the cell is bright.
        let cells: [(u64, u64, bool); 8] = [
            (1, (minutes / 10) % 10, true),
            (0, minutes % 10, true),
            (100, 10, true),
            (1, (seconds / 10) % 10, true),
            (0, seconds % 10, true),
            (101, 10, false),
            (2, (millis / 100) % 10, false),
            (1, (millis / 10) % 10, false),
        ];
        let mut i: usize = 0;
        while i < 8
            invariant
                i <= 8,
                self.viewport == old(self).viewport,
                old(self).widgets@.len() <= self.widgets@.len(),
                self.spec_alive(display.id.0 as int),
                self.widgets@[display.id.0 as int].props == dprops,
                dprops.key == key,
                self.widgets@[display.id.0 as int].touched,
                self.widgets@[display.id.0 as int].hovered == display.hovered,
                self.widgets@[display.id.0 as int].pressed == display.pressed,
                self.widgets@[display.id.0 as int].clicked == display.clicked,
                self.widgets@[display.id.0 as int].focused == display.focused,
                i == 0 ==> !self.widgets@[display.id.0 as int].fresh_children,
                i > 0 ==> self.widgets@[display.id.0 as int].fresh_children
                    && self.widgets@[display.id.0 as int].children@.len() == i,
                key.site != 3 && key.site != 4 && key.site != 5,
                forall|k: int|
                    0 <= k < 8 ==> (#[trigger] cells@[k]) == spec_clock_cell(total_millis, k),

                forall|k: int|
                    0 <= k < i ==> {
                        let cid = (
                        #[trigger] self.widgets@[display.id.0 as int].children@[k]).0 as int;
                        &&& self.spec_alive(cid)
                        &&& cid != display.id.0 as int
                        &&& self.widgets@[cid].props == spec_cell_props(
                            spec_clock_key(key, k),
                            sheet_id,
                            spec_clock_cell_sprite(total_millis, k, colon_sprite, digit_sprites@),
                            Option::Some(
                                if spec_clock_bright(k) {
                                    Pixel::spec_from_hex(0xff99e550)
                                } else {
                                    Pixel::spec_from_hex(0xff64a328)
                                },
                            ),
                        )
                        &&& self.widgets@[cid].touched
                    },
            decreases 8 - i,
        {
            let (slot, d, bright) = cells[i];
            let mask = if bright {
                bright_green
            } else {
                dimmed_green
            };
            let ghost pre_c = self.widgets@;
            let widget = if d < 10 {
                let ck = WidgetKey::indexed2(3, i as u64, slot).under(&key);
                proof {
                    lemma_xor_zero(spec_key_mix(key));
                    assert(ck == spec_clock_key(key, i as int));
                }
                self.build_widget(
                    WidgetProps::simple_sprite(ck, sheet_id, digit_sprites[d as usize])
                        .with_mask_and(Option::Some(mask)),
                )
            } else {
                let ck = WidgetKey::indexed(4, slot).under(&key);
                proof {
                    lemma_xor_zero(spec_key_mix(key));
                    assert(ck == spec_clock_key(key, i as int));
                }
                self.build_widget(
                    WidgetProps::simple_sprite(ck, sheet_id, colon_sprite).with_mask_and(
                        Option::Some(mask),
                    ),
                )
            };
            proof {
                assert(self.widgets@[display.id.0 as int] == pre_c[display.id.0 as int]);
                assert(widget.id.0 != display.id.0);
                assert(d < 10 ==> d as int == spec_clock_digit(total_millis, i as int));
                assert(bright == spec_clock_bright(i as int));
                assert(self.widgets@[widget.id.0 as int].props.key == spec_clock_key(key, i as int));
                assert(self.widgets@[widget.id.0 as int].props.sprite == Option::Some(
                    WidgetSprite::Simple(
                        sheet_id,
                        spec_clock_cell_sprite(total_millis, i as int, colon_sprite, digit_sprites@),
                    ),
                ));
                assert(self.widgets@[widget.id.0 as int].props.mask == Option::Some(
                    if spec_clock_bright(i as int) {
                        Pixel::spec_from_hex(0xff99e550)
                    } else {
                        Pixel::spec_from_hex(0xff64a328)
                    },
                ));
                assert(self.widgets@[widget.id.0 as int].props == spec_cell_props(
                    spec_clock_key(key, i as int),
                    sheet_id,
                    spec_clock_cell_sprite(total_millis, i as int, colon_sprite, digit_sprites@),
                    Option::Some(
                        if spec_clock_bright(i as int) {
                            Pixel::spec_from_hex(0xff99e550)
                        } else {
                            Pixel::spec_from_hex(0xff64a328)
                        },
                    ),
                ));
                assert forall|k: int| 0 <= k < i implies {
                    let cid = (#[trigger] pre_c[display.id.0 as int].children@[k]).0 as int;
                    self.widgets@[cid] == pre_c[cid]
                } by {
                    let cid = pre_c[display.id.0 as int].children@[k].0 as int;
                    assert(pre_c[cid].props.key == spec_clock_key(key, k));
                    assert(spec_clock_key(key, k) != spec_clock_key(key, i as int));
                }
            }
            self.add_child(display.id(), widget.id());
            i += 1;
        }
        // The last milliseconds digit sits outside the loop so the cell
        // array stays a fixed eight entries.
        let lk = WidgetKey::indexed(5, 0).under(&key);
        proof {
            lemma_xor_zero(spec_key_mix(key));
            assert(lk == spec_clock_key(key, 8));
        }
        let ghost pre_l = self.widgets@;
        let last = self.build_widget(
            WidgetProps::simple_sprite(lk, sheet_id, digit_sprites[(millis % 10) as usize])
                .with_mask_and(Option::Some(dimmed_green)),
        );
        proof {
            assert(self.widgets@[display.id.0 as int] == pre_l[display.id.0 as int]);
            assert(last.id.0 != display.id.0);
            assert forall|k: int| 0 <= k < 8 implies {
                let cid = (#[trigger] pre_l[display.id.0 as int].children@[k]).0 as int;
                self.widgets@[cid] == pre_l[cid]
            } by {
                let cid = pre_l[display.id.0 as int].children@[k].0 as int;
                assert(pre_l[cid].props.key == spec_clock_key(key, k));
                assert(spec_clock_key(key, k) != spec_clock_key(key, 8));
            }
        }
        self.add_child(display.id(), last.id());
        display
    }
}

} // verus!
