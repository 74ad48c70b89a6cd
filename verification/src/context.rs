//! The widget tree: an arena of widget records addressed by small integer
//! identifiers, rebuilt declaratively every frame. Declaring a widget whose
//! (parent-scoped) key existed last frame reuses the old record, carrying
//! its interaction state over; widgets not re-declared in a frame are
//! garbage-collected by the end-of-frame free pass.

use vstd::prelude::*;
use crate::math::{Pos, Size};
use crate::pixel::Pixel;
use crate::sprite::WidgetSprite;
use crate::widget::{Widget, WidgetId, WidgetKey, WidgetProps, WidgetReaction};

verus! {

/// The index of the first live widget at or after `i` whose key equals
/// `key`; reconciliation matches a declared key against this slot.
pub open spec fn spec_find_key_from(s: Seq<Widget>, key: WidgetKey, i: int) -> Option<int>
    decreases s.len() - i,
{
    if i < 0 || i >= s.len() {
        Option::None
    } else if s[i].alive && s[i].props.key == key {
        Option::Some(i)
    } else {
        spec_find_key_from(s, key, i + 1)
    }
}

/// The index of the first dead slot at or after `i`, reused for a new
/// widget before the arena grows.
pub open spec fn spec_first_free_from(s: Seq<Widget>, i: int) -> Option<int>
    decreases s.len() - i,
{
    if i < 0 || i >= s.len() {
        Option::None
    } else if !s[i].alive {
        Option::Some(i)
    } else {
        spec_first_free_from(s, i + 1)
    }
}

/// A found key really is a live widget carrying that key.
pub proof fn lemma_find_key_match(s: Seq<Widget>, key: WidgetKey, i: int)
    requires
        spec_find_key_from(s, key, i) is Some,
    ensures
        ({
            let j = spec_find_key_from(s, key, i)->0;
            &&& i <= j < s.len()
            &&& s[j].alive
            &&& s[j].props.key == key
        }),
    decreases s.len() - i,
{
    if i < 0 || i >= s.len() {
    } else if s[i].alive && s[i].props.key == key {
    } else {
        lemma_find_key_match(s, key, i + 1);
    }
}

/// A found free slot really is dead.
pub proof fn lemma_first_free_dead(s: Seq<Widget>, i: int)
    requires
        spec_first_free_from(s, i) is Some,
    ensures
        ({
            let j = spec_first_free_from(s, i)->0;
            &&& i <= j < s.len()
            &&& !s[j].alive
        }),
    decreases s.len() - i,
{
    if i < 0 || i >= s.len() {
    } else if !s[i].alive {
    } else {
        lemma_first_free_dead(s, i + 1);
    }
}

/// Finding a key looks only at each slot's liveness and key: two arenas that
/// agree on where that key sits alive agree on the find.
pub proof fn lemma_find_key_congruent(s1: Seq<Widget>, s2: Seq<Widget>, key: WidgetKey, i: int)
    requires
        s1.len() <= s2.len(),
        forall|q: int|
            0 <= q < s1.len() ==> ((s1[q].alive && (#[trigger] s1[q]).props.key == key) <==> (
            s2[q].alive && s2[q].props.key == key)),
        forall|q: int|
            s1.len() <= q < s2.len() ==> !((#[trigger] s2[q]).alive && s2[q].props.key == key),
        0 <= i,
    ensures
        spec_find_key_from(s1, key, i) == spec_find_key_from(s2, key, i),
    decreases s2.len() - i,
{
    if i >= s2.len() {
    } else if i >= s1.len() {
        lemma_find_key_congruent(s1, s2, key, i + 1);
    } else {
        lemma_find_key_congruent(s1, s2, key, i + 1);
    }
}

/// The record a reused widget holds after its declaration: the new
/// properties, marked touched, child list and interaction state and solved
/// geometry carried over from the previous frame.
pub open spec fn spec_reconciled(w_old: Widget, props: WidgetProps, w_new: Widget) -> bool {
    &&& w_new.alive
    &&& w_new.props == props
    &&& w_new.children@ == w_old.children@
    &&& !w_new.fresh_children
    &&& w_new.touched
    &&& w_new.hovered == w_old.hovered
    &&& w_new.pressed == w_old.pressed
    &&& w_new.clicked == w_old.clicked
    &&& w_new.focused == w_old.focused
    &&& w_new.pos == w_old.pos
    &&& w_new.size == w_old.size
}

/// The record a widget allocated this frame holds: the declared properties,
/// marked touched, no children, default interaction state.
pub open spec fn spec_fresh(props: WidgetProps, w_new: Widget) -> bool {
    &&& w_new.alive
    &&& w_new.props == props
    &&& w_new.children@ == Seq::<WidgetId>::empty()
    &&& !w_new.fresh_children
    &&& w_new.touched
    &&& !w_new.hovered
    &&& !w_new.pressed
    &&& !w_new.clicked
    &&& !w_new.focused
    &&& w_new.pos == (Pos { x: 0, y: 0 })
    &&& w_new.size == (Size { w: 0, h: 0 })
}

/// The widget tree and the viewport it fills. The first widget ever
/// declared (slot 0) is the root; its available space is the viewport.
pub struct UiContext {
    pub widgets: Vec<Widget>,
    pub viewport: Size,
}

impl UiContext {
    /// Whether `i` indexes a live widget.
    pub open spec fn spec_alive(&self, i: int) -> bool {
        0 <= i < self.widgets@.len() && self.widgets@[i].alive
    }

    /// An empty tree for a viewport of the given size.
    pub fn new(viewport: Size) -> (ui: UiContext)
        ensures
            ui.widgets@.len() == 0,
            ui.viewport == viewport,
    {
        UiContext { widgets: Vec::new(), viewport }
    }

    /// Whether `id` names a live widget.
    pub fn has_widget(&self, id: WidgetId) -> (b: bool)
        ensures
            b == self.spec_alive(id.0 as int),
    {
        id.0 < self.widgets.len() && self.widgets[id.0].alive
    }

    /// The live widget named by `id`. Looking up a freed or out-of-range
    /// identifier is a caller error, ruled out by contract.
    pub fn widget(&self, id: WidgetId) -> (w: &Widget)
        requires
            self.spec_alive(id.0 as int),
        ensures
            *w == self.widgets@[id.0 as int],
    {
        &self.widgets[id.0]
    }

    /// Declares a widget for this frame. If a live widget carries the same
    /// key, its record is reused: the new properties replace the old ones
    /// and the interaction state accumulated in earlier frames is preserved.
    /// Otherwise a fresh record is allocated (reusing a freed slot if one
    /// exists). Either way the widget is marked touched, and the returned
    /// reaction reports the interaction state the widget carried into this
    /// frame.
    pub fn build_widget(&mut self, props: WidgetProps) -> (r: WidgetReaction)
        ensures
            final(self).viewport == old(self).viewport,
            final(self).spec_alive(r.id.0 as int),
            old(self).widgets@.len() <= final(self).widgets@.len(),
            forall|i: int|
                0 <= i < old(self).widgets@.len() && old(self).widgets@[i].alive ==> (
                #[trigger] final(self).widgets@[i]).alive,
            forall|i: int|
                0 <= i < old(self).widgets@.len() && old(self).widgets@[i].alive && old(
                    self,
                ).widgets@[i].props.key != props.key ==> (#[trigger] final(self).widgets@[i]) == old(
                    self,
                ).widgets@[i],
            forall|i: int|
                old(self).widgets@.len() <= i < final(self).widgets@.len() ==> (
                #[trigger] final(self).widgets@[i]).props.key == props.key,
            final(self).widgets@[r.id.0 as int].props.key == props.key,
            match spec_find_key_from(old(self).widgets@, props.key, 0) {
                Option::Some(j) => {
                    &&& r.id.0 == j
                    &&& final(self).widgets@ == old(self).widgets@.update(
                        j,
                        final(self).widgets@[j],
                    )
                    &&& spec_reconciled(old(self).widgets@[j], props, final(self).widgets@[j])
                    &&& r.hovered == old(self).widgets@[j].hovered
                    &&& r.pressed == old(self).widgets@[j].pressed
                    &&& r.clicked == old(self).widgets@[j].clicked
                    &&& r.focused == old(self).widgets@[j].focused
                },
                Option::None => {
                    &&& spec_fresh(props, final(self).widgets@[r.id.0 as int])
                    &&& !r.hovered
                    &&& !r.pressed
                    &&& !r.clicked
                    &&& !r.focused
                    &&& match spec_first_free_from(old(self).widgets@, 0) {
                        Option::Some(f) => r.id.0 == f && final(self).widgets@ == old(
                            self,
                        ).widgets@.update(f, final(self).widgets@[f]),
                        Option::None => r.id.0 == old(self).widgets@.len() && final(self).widgets@
                            == old(self).widgets@.push(final(self).widgets@[r.id.0 as int]),
                    }
                },
            },
    {
        let n = self.widgets.len();
        let ghost s = self.widgets@;
        let mut i: usize = 0;
        let mut found: usize = n;
        while i < n
            invariant
                i <= n,
                n == s.len(),
                s == self.widgets@,
                self.viewport == old(self).viewport,
                if found == n {
                    spec_find_key_from(s, props.key, 0) == spec_find_key_from(s, props.key, i as int)
                } else {
                    spec_find_key_from(s, props.key, 0) == Option::Some(found as int)
                },
                found == n || found < n,
            decreases n - i,
        {
            if found == n && self.widgets[i].alive {
                let same = self.widgets[i].props.key == props.key;
                if same {
                    found = i;
                }
            }
            i += 1;
        }
        if found < n {
            proof {
                lemma_find_key_match(s, props.key, 0);
            }
            let r = {
                let w = &self.widgets[found];
                WidgetReaction {
                    id: WidgetId(found),
                    hovered: w.hovered,
                    pressed: w.pressed,
                    clicked: w.clicked,
                    focused: w.focused,
                }
            };
            let w = &mut self.widgets[found];
            w.alive = true;
            w.props = props;
            w.fresh_children = false;
            w.touched = true;
            r
        } else {
            let mut j: usize = 0;
            let mut free: usize = n;
            while j < n
                invariant
                    j <= n,
                    free <= n,
                    n == s.len(),
                    s == self.widgets@,
                    self.viewport == old(self).viewport,
                    if free == n {
                        spec_first_free_from(s, 0) == spec_first_free_from(s, j as int)
                    } else {
                        spec_first_free_from(s, 0) == Option::Some(free as int)
                    },
                decreases n - j,
            {
                if free == n && !self.widgets[j].alive {
                    free = j;
                }
                j += 1;
            }
            let children: Vec<WidgetId> = Vec::new();
            proof {
                assert(children@ =~= Seq::<WidgetId>::empty());
            }
            let fresh = Widget {
                alive: true,
                props,
                children,
                fresh_children: false,
                touched: true,
                hovered: false,
                pressed: false,
                clicked: false,
                focused: false,
                pos: Pos { x: 0, y: 0 },
                size: Size { w: 0, h: 0 },
            };
            let id: usize = if free < n {
                proof {
                    lemma_first_free_dead(s, 0);
                }
                let slot = &mut self.widgets[free];
                *slot = fresh;
                free
            } else {
                self.widgets.push(fresh);
                n
            };
            WidgetReaction { id: WidgetId(id), hovered: false, pressed: false, clicked: false, focused: false }
        }
    }

    /// Appends `child` to `parent`'s child list for this frame. The first
    /// such call of the frame discards the previous frame's list for that
    /// parent. Naming a dead widget is a caller error, ruled out by
    /// contract.
    pub fn add_child(&mut self, parent: WidgetId, child: WidgetId)
        requires
            old(self).spec_alive(parent.0 as int),
            old(self).spec_alive(child.0 as int),
        ensures
            final(self).viewport == old(self).viewport,
            final(self).widgets@ == old(self).widgets@.update(
                parent.0 as int,
                final(self).widgets@[parent.0 as int],
            ),
            final(self).widgets@[parent.0 as int] == (Widget {
                children: final(self).widgets@[parent.0 as int].children,
                fresh_children: true,
                ..old(self).widgets@[parent.0 as int]
            }),
            final(self).widgets@[parent.0 as int].children@ == if old(
                self,
            ).widgets@[parent.0 as int].fresh_children {
                old(self).widgets@[parent.0 as int].children@.push(child)
            } else {
                seq![child]
            },
    {
        let w = &mut self.widgets[parent.0];
        if !w.fresh_children {
            w.children = Vec::new();
            w.fresh_children = true;
        }
        w.children.push(child);
        proof {
            if !old(self).widgets@[parent.0 as int].fresh_children {
                assert(self.widgets@[parent.0 as int].children@ =~= seq![child]);
            }
        }
    }

    /// Replaces the declared color of a live widget.
    pub fn set_color(&mut self, id: WidgetId, color: Pixel)
        requires
            old(self).spec_alive(id.0 as int),
        ensures
            final(self).viewport == old(self).viewport,
            final(self).widgets@ == old(self).widgets@.update(
                id.0 as int,
                final(self).widgets@[id.0 as int],
            ),
            final(self).widgets@[id.0 as int] == (Widget {
                props: WidgetProps { color, ..old(self).widgets@[id.0 as int].props },
                ..old(self).widgets@[id.0 as int]
            }),
    {
        let w = &mut self.widgets[id.0];
        w.props.color = color;
    }

    /// Replaces the declared sprite of a live widget.
    pub fn set_sprite(&mut self, id: WidgetId, sprite: Option<WidgetSprite>)
        requires
            old(self).spec_alive(id.0 as int),
        ensures
            final(self).viewport == old(self).viewport,
            final(self).widgets@ == old(self).widgets@.update(
                id.0 as int,
                final(self).widgets@[id.0 as int],
            ),
            final(self).widgets@[id.0 as int] == (Widget {
                props: WidgetProps { sprite, ..old(self).widgets@[id.0 as int].props },
                ..old(self).widgets@[id.0 as int]
            }),
    {
        let w = &mut self.widgets[id.0];
        w.props.sprite = sprite;
    }

    /// Replaces the declared draw offset of a live widget.
    pub fn set_draw_offset(&mut self, id: WidgetId, draw_offset: Pos)
        requires
            old(self).spec_alive(id.0 as int),
        ensures
            final(self).viewport == old(self).viewport,
            final(self).widgets@ == old(self).widgets@.update(
                id.0 as int,
                final(self).widgets@[id.0 as int],
            ),
            final(self).widgets@[id.0 as int] == (Widget {
                props: WidgetProps { draw_offset, ..old(self).widgets@[id.0 as int].props },
                ..old(self).widgets@[id.0 as int]
            }),
    {
        let w = &mut self.widgets[id.0];
        w.props.draw_offset = draw_offset;
    }

    /// The end-of-frame garbage collection: every widget not re-declared
    /// this frame is freed — a widget whose children were not re-declared
    /// either loses them to the same sweep, so no orphans remain — and the
    /// touched marks of the survivors are cleared for the next frame.
    pub fn free_untouched_widgets(&mut self)
        ensures
            final(self).viewport == old(self).viewport,
            final(self).widgets@.len() == old(self).widgets@.len(),
            forall|i: int|
                0 <= i < old(self).widgets@.len() ==> #[trigger] final(self).widgets@[i] == (
                if old(self).widgets@[i].alive && old(self).widgets@[i].touched {
                    Widget { touched: false, ..old(self).widgets@[i] }
                } else {
                    Widget { alive: false, touched: false, ..old(self).widgets@[i] }
                }),
    {
        let n = self.widgets.len();
        let mut i: usize = 0;
        while i < n
            invariant
                i <= n,
                n == old(self).widgets@.len(),
                self.widgets@.len() == n,
                self.viewport == old(self).viewport,
                forall|k: int|
                    0 <= k < i ==> #[trigger] self.widgets@[k] == (if old(
                        self,
                    ).widgets@[k].alive && old(self).widgets@[k].touched {
                        Widget { touched: false, ..old(self).widgets@[k] }
                    } else {
                        Widget { alive: false, touched: false, ..old(self).widgets@[k] }
                    }),
                forall|k: int| i <= k < n ==> #[trigger] self.widgets@[k] == old(self).widgets@[k],
            decreases n - i,
        {
            let w = &mut self.widgets[i];
            if !(w.alive && w.touched) {
                w.alive = false;
            }
            w.touched = false;
            i += 1;
        }
    }
}

} // verus!
