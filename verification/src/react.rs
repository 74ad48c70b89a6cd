//! The interaction system: once per frame, after layout, the solved tree is
//! hit-tested against the pointer in reverse paint order — children before
//! ancestors, later siblings before earlier ones, so the topmost eligible
//! widget wins — and every widget's hover, press, click and focus flags are
//! stepped by a small per-widget state machine.

use vstd::prelude::*;
use crate::math::Rect;
use crate::widget::{Mouse, Widget};
use crate::layout::spec_paint_closed;
use crate::context::UiContext;

verus! {

/// Whether a widget is pressed after a frame: the button is down, and either
/// the widget was already pressed (drag semantics: the press survives the
/// pointer leaving) or the press starts now — the widget is hovered, the
/// button went down this very frame, and the widget takes clicks.
pub open spec fn spec_pressed_next(
    was_pressed: bool,
    hovered_now: bool,
    can_click: bool,
    down: bool,
    prev_down: bool,
) -> bool {
    down && (was_pressed || (hovered_now && !prev_down && can_click))
}

/// Whether a widget is clicked on a frame: a one-frame pulse, true exactly
/// when the button transitions from down to up while the widget was the
/// pressed widget.
pub open spec fn spec_clicked_next(was_pressed: bool, down: bool, prev_down: bool) -> bool {
    was_pressed && prev_down && !down
}

/// The first widget, in arena order, that was clicked this frame and can
/// take focus; focus transfers to it.
pub open spec fn spec_focus_winner_from(s: Seq<Widget>, i: int) -> Option<int>
    decreases s.len() - i,
{
    if i < 0 || i >= s.len() {
        Option::None
    } else if s[i].alive && s[i].clicked && s[i].props.flags.can_focus {
        Option::Some(i)
    } else {
        spec_focus_winner_from(s, i + 1)
    }
}

/// The solved rectangle of a widget.
pub open spec fn spec_widget_rect(w: Widget) -> Rect {
    Rect { x: w.pos.x, y: w.pos.y, w: w.size.w, h: w.size.h }
}

/// Whether a widget can take this frame's hover: live, eligible (it can
/// hover or click), and containing the pointer.
pub open spec fn spec_hit_worthy(ui: UiContext, i: int, mouse: Mouse) -> bool {
    &&& ui.spec_alive(i)
    &&& (ui.widgets@[i].props.flags.can_hover || ui.widgets@[i].props.flags.can_click)
    &&& mouse.pos is Some
    &&& spec_widget_rect(ui.widgets@[i]).spec_contains(
        mouse.pos->0.x as int,
        mouse.pos->0.y as int,
    )
}

/// Pressing a `CAN_CLICK` widget and releasing produces `clicked` on exactly
/// one frame. On the frame hover and a fresh button-down coincide the widget
/// becomes pressed but not yet clicked; while the button stays down it stays
/// pressed and unclicked (even unhovered: drag semantics); on the release
/// frame it is clicked; and afterwards, being no longer pressed, it cannot
/// click again until pressed anew.
pub proof fn lemma_click_pulse(hovered_while_held: bool, hovered_at_release: bool)
    ensures
        spec_pressed_next(false, true, true, true, false),
        !spec_clicked_next(false, true, false),
        spec_pressed_next(true, hovered_while_held, true, true, true),
        !spec_clicked_next(true, true, true),
        spec_clicked_next(true, false, true),
        !spec_pressed_next(true, hovered_at_release, true, false, true),
        !spec_clicked_next(false, false, false),
{
}

/// A widget that never became pressed never clicks, whatever the button did.
pub proof fn lemma_no_press_no_click(down: bool, prev_down: bool)
    ensures
        !spec_clicked_next(false, down, prev_down),
{
}

impl UiContext {
    /// Hit-tests the solved tree in reverse paint order: the returned index
    /// names the first eligible widget (`CAN_HOVER` or `CAN_CLICK`)
    /// containing the pointer — the topmost one — or the arena length when
    /// nothing is hit.
    #[verifier::loop_isolation(false)]
    fn hit_test(&self, mouse: &Mouse) -> (hit: usize)
        ensures
            hit == self.widgets@.len() || (hit < self.widgets@.len() && spec_hit_worthy(
                *self,
                hit as int,
                *mouse,
            )),
            exists|ids: Seq<int>|
                #[trigger] spec_paint_closed(*self, ids) && (hit == self.widgets@.len()
                    ==> forall|k: int|
                    0 <= k < ids.len() ==> !spec_hit_worthy(*self, #[trigger] ids[k], *mouse)),
    {
        let n = self.widgets.len();
        let order = self.flatten();
        let ghost ids = crate::layout::spec_flat_ids(order@);
        let mut hit: usize = n;
        match mouse.pos {
            Option::None => {},
            Option::Some(p) => {
                let mut t: usize = 0;
                while t < order.len()
                    invariant
                        t <= order@.len(),
                        hit == n || (hit < n && spec_hit_worthy(*self, hit as int, *mouse)),
                        hit == n ==> forall|q: int|
                            order@.len() - t <= q < order@.len() ==> !spec_hit_worthy(
                                *self,
                                #[trigger] ids[q],
                                *mouse,
                            ),
                    decreases order@.len() - t,
                {
                    let fi = order.len() - 1 - t;
                    let id = order[fi].id;
                    if hit == n {
                        let w = &self.widgets[id];
                        let eligible = w.props.flags.can_hover || w.props.flags.can_click;
                        let mut worthy = false;
                        if eligible {
                            let r = Rect { x: w.pos.x, y: w.pos.y, w: w.size.w, h: w.size.h };
                            if r.contains(p.x, p.y) {
                                hit = id;
                                worthy = true;
                            }
                        }
                        proof {
                            if !worthy {
                                assert(!spec_hit_worthy(*self, ids[fi as int], *mouse));
                            }
                        }
                    }
                    t += 1;
                }
            },
        }
        proof {
            if hit == n {
                assert forall|k: int| 0 <= k < ids.len() implies !spec_hit_worthy(
                    *self,
                    #[trigger] ids[k],
                    *mouse,
                ) by {
                    if mouse.pos is None {
                    }
                }
            }
        }
        hit
    }

    /// Steps every widget's hover, press and click flags for one frame: the
    /// widget at `hit` (if any) is the sole hovered one, and press and click
    /// follow `spec_pressed_next` and `spec_clicked_next`.
    #[verifier::loop_isolation(false)]
    #[verifier::rlimit(100)]
    fn step_flags(&mut self, hit: usize, down: bool, prev_down: bool)
        ensures
            final(self).viewport == old(self).viewport,
            final(self).widgets@.len() == old(self).widgets@.len(),
            forall|i: int|
                0 <= i < old(self).widgets@.len() ==> #[trigger] final(self).widgets@[i] == (
                Widget {
                    hovered: final(self).widgets@[i].hovered,
                    pressed: final(self).widgets@[i].pressed,
                    clicked: final(self).widgets@[i].clicked,
                    ..old(self).widgets@[i]
                }),
            forall|i: int|
                0 <= i < old(self).widgets@.len()
                    ==> (#[trigger] final(self).widgets@[i]).hovered == (old(
                    self,
                ).widgets@[i].alive && i == hit as int),
            forall|i: int|
                0 <= i < old(self).widgets@.len() && old(self).widgets@[i].alive
                    ==> (#[trigger] final(self).widgets@[i]).pressed == spec_pressed_next(
                    old(self).widgets@[i].pressed,
                    final(self).widgets@[i].hovered,
                    old(self).widgets@[i].props.flags.can_click,
                    down,
                    prev_down,
                ) && final(self).widgets@[i].clicked == spec_clicked_next(
                    old(self).widgets@[i].pressed,
                    down,
                    prev_down,
                ),
            forall|i: int|
                0 <= i < old(self).widgets@.len() && !old(self).widgets@[i].alive
                    ==> (#[trigger] final(self).widgets@[i]).pressed == old(
                    self,
                ).widgets@[i].pressed && final(self).widgets@[i].clicked == old(
                    self,
                ).widgets@[i].clicked,
    {
        let n = self.widgets.len();
        let mut i: usize = 0;
        while i < n
            invariant
                i <= n,
                self.widgets@.len() == n,
                self.viewport == old(self).viewport,
                forall|k: int| i <= k < n ==> #[trigger] self.widgets@[k] == old(self).widgets@[k],
                forall|k: int|
                    0 <= k < i ==> #[trigger] self.widgets@[k] == (Widget {
                        hovered: self.widgets@[k].hovered,
                        pressed: self.widgets@[k].pressed,
                        clicked: self.widgets@[k].clicked,
                        ..old(self).widgets@[k]
                    }),
                forall|k: int|
                    0 <= k < i ==> (#[trigger] self.widgets@[k]).hovered == (old(
                        self,
                    ).widgets@[k].alive && k == hit as int),
                forall|k: int|
                    0 <= k < i && old(self).widgets@[k].alive
                        ==> (#[trigger] self.widgets@[k]).pressed == spec_pressed_next(
                        old(self).widgets@[k].pressed,
                        k == hit as int,
                        old(self).widgets@[k].props.flags.can_click,
                        down,
                        prev_down,
                    ) && self.widgets@[k].clicked == spec_clicked_next(
                        old(self).widgets@[k].pressed,
                        down,
                        prev_down,
                    ),
                forall|k: int|
                    0 <= k < i && !old(self).widgets@[k].alive
                        ==> (#[trigger] self.widgets@[k]).pressed == old(self).widgets@[k].pressed
                        && self.widgets@[k].clicked == old(self).widgets@[k].clicked,
            decreases n - i,
        {
            let is_hit = i == hit;
            let w = &mut self.widgets[i];
            if w.alive {
                let was_pressed = w.pressed;
                let can_click = w.props.flags.can_click;
                w.hovered = is_hit;
                w.pressed = down && (was_pressed || (is_hit && !prev_down && can_click));
                w.clicked = was_pressed && prev_down && !down;
            } else {
                w.hovered = false;
            }
            i += 1;
        }
    }

    /// Transfers focus to the first clicked focusable widget; with no such
    /// click every widget keeps its focus flag. Nothing but focus changes.
    #[verifier::loop_isolation(false)]
    fn focus_pass(&mut self)
        ensures
            final(self).viewport == old(self).viewport,
            final(self).widgets@.len() == old(self).widgets@.len(),
            forall|i: int|
                0 <= i < old(self).widgets@.len() ==> #[trigger] final(self).widgets@[i] == (
                Widget { focused: final(self).widgets@[i].focused, ..old(self).widgets@[i] }),
            match spec_focus_winner_from(old(self).widgets@, 0) {
                Option::Some(f) => forall|i: int|
                    0 <= i < old(self).widgets@.len() && old(self).widgets@[i].alive
                        ==> (#[trigger] final(self).widgets@[i]).focused == (i == f),
                Option::None => forall|i: int|
                    0 <= i < old(self).widgets@.len()
                        ==> (#[trigger] final(self).widgets@[i]).focused == old(
                        self,
                    ).widgets@[i].focused,
            },
    {
        let n = self.widgets.len();
        let ghost mid = self.widgets@;
        let mut f: usize = n;
        let mut j: usize = 0;
        while j < n
            invariant
                j <= n,
                f <= n,
                self.widgets@ == mid,
                if f == n {
                    spec_focus_winner_from(mid, 0) == spec_focus_winner_from(mid, j as int)
                } else {
                    spec_focus_winner_from(mid, 0) == Option::Some(f as int) && f < n
                        && mid[f as int].alive && mid[f as int].clicked
                        && mid[f as int].props.flags.can_focus
                },
            decreases n - j,
        {
            if f == n {
                let w = &self.widgets[j];
                if w.alive && w.clicked && w.props.flags.can_focus {
                    f = j;
                }
            }
            j += 1;
        }
        if f < n {
            let mut v: usize = 0;
            while v < n
                invariant
                    v <= n,
                    f < n,
                    self.widgets@.len() == n,
                    self.viewport == old(self).viewport,
                    forall|k: int| v <= k < n ==> #[trigger] self.widgets@[k] == mid[k],
                    forall|k: int|
                        0 <= k < v ==> #[trigger] self.widgets@[k] == (Widget {
                            focused: self.widgets@[k].focused,
                            ..mid[k]
                        }),
                    forall|k: int|
                        0 <= k < v && mid[k].alive ==> (#[trigger] self.widgets@[k]).focused == (k
                            == f as int),
                    forall|k: int|
                        0 <= k < v && !mid[k].alive ==> (#[trigger] self.widgets@[k]).focused
                            == mid[k].focused,
                decreases n - v,
            {
                let set_focus = v == f;
                let w = &mut self.widgets[v];
                if w.alive {
                    w.focused = set_focus;
                }
                v += 1;
            }
        }
    }

    /// Converts the pointer snapshot into per-widget reactions. At most one
    /// widget is hovered: the first eligible widget (`CAN_HOVER` or
    /// `CAN_CLICK`) containing the pointer, searching the solved tree in
    /// reverse paint order so the topmost wins. Press and click flags step
    /// by `spec_pressed_next` and `spec_clicked_next` on the left button;
    /// focus transfers to the first clicked `CAN_FOCUS` widget and otherwise
    /// stays as it was. Nothing else changes.
    pub fn react(&mut self, mouse: &Mouse)
        ensures
            final(self).viewport == old(self).viewport,
            final(self).widgets@.len() == old(self).widgets@.len(),
            forall|i: int|
                0 <= i < old(self).widgets@.len() ==> #[trigger] final(self).widgets@[i] == (
                Widget {
                    hovered: final(self).widgets@[i].hovered,
                    pressed: final(self).widgets@[i].pressed,
                    clicked: final(self).widgets@[i].clicked,
                    focused: final(self).widgets@[i].focused,
                    ..old(self).widgets@[i]
                }),
            forall|i: int|
                0 <= i < old(self).widgets@.len() && (#[trigger] final(self).widgets@[i]).hovered
                    ==> {
                    &&& old(self).widgets@[i].alive
                    &&& mouse.pos is Some
                    &&& spec_widget_rect(old(self).widgets@[i]).spec_contains(
                        mouse.pos->0.x as int,
                        mouse.pos->0.y as int,
                    )
                    &&& (old(self).widgets@[i].props.flags.can_hover || old(
                        self,
                    ).widgets@[i].props.flags.can_click)
                },
            forall|i: int, j: int|
                0 <= i < old(self).widgets@.len() && 0 <= j < old(self).widgets@.len() && (
                #[trigger] final(self).widgets@[i]).hovered && (
                #[trigger] final(self).widgets@[j]).hovered ==> i == j,
            forall|i: int|
                0 <= i < old(self).widgets@.len() && old(self).widgets@[i].alive
                    ==> (#[trigger] final(self).widgets@[i]).pressed == spec_pressed_next(
                    old(self).widgets@[i].pressed,
                    final(self).widgets@[i].hovered,
                    old(self).widgets@[i].props.flags.can_click,
                    mouse.l_pressed.0,
                    mouse.l_pressed.1,
                ),
            forall|i: int|
                0 <= i < old(self).widgets@.len() && old(self).widgets@[i].alive
                    ==> (#[trigger] final(self).widgets@[i]).clicked == spec_clicked_next(
                    old(self).widgets@[i].pressed,
                    mouse.l_pressed.0,
                    mouse.l_pressed.1,
                ),
            match spec_focus_winner_from(final(self).widgets@, 0) {
                Option::Some(f) => forall|i: int|
                    0 <= i < old(self).widgets@.len() && old(self).widgets@[i].alive
                        ==> (#[trigger] final(self).widgets@[i]).focused == (i == f),
                Option::None => forall|i: int|
                    0 <= i < old(self).widgets@.len() && old(self).widgets@[i].alive
                        ==> (#[trigger] final(self).widgets@[i]).focused == old(
                        self,
                    ).widgets@[i].focused,
            },
            exists|ids: Seq<int>|
                #[trigger] spec_paint_closed(*old(self), ids) && ((exists|k: int|
                    0 <= k < ids.len() && spec_hit_worthy(*old(self), #[trigger] ids[k], *mouse))
                    ==> exists|j: int|
                    0 <= j < old(self).widgets@.len() && (#[trigger] final(self).widgets@[j]).hovered),
    {
        let n = self.widgets.len();
        let hit = self.hit_test(mouse);
        self.step_flags(hit, mouse.l_pressed.0, mouse.l_pressed.1);
        let ghost mid = self.widgets@;
        self.focus_pass();
        proof {
            lemma_focus_winner_congruent(mid, self.widgets@, 0);
            if hit < n {
                assert(self.widgets@[hit as int].hovered);
            }
        }
    }
}

proof fn lemma_focus_winner_congruent(before: Seq<Widget>, after: Seq<Widget>, i: int)
    requires
        before.len() == after.len(),
        forall|k: int|
            0 <= k < before.len() ==> {
                &&& (#[trigger] after[k]).alive == before[k].alive
                &&& after[k].clicked == before[k].clicked
                &&& after[k].props.flags.can_focus == before[k].props.flags.can_focus
            },
    ensures
        spec_focus_winner_from(before, i) == spec_focus_winner_from(after, i),
    decreases before.len() - i,
{
    if 0 <= i < before.len() {
        lemma_focus_winner_congruent(before, after, i + 1);
    }
}

} // verus!
