//! The layout solver: a two-pass box-model traversal. A bottom-up measure
//! pass computes each widget's intrinsic size (fixed and hug sizing), then a
//! top-down placement pass assigns final sizes (fill sizing shares leftover
//! space) and absolute positions (anchor pairs, explicit offsets and flex
//! stacking). Overflowing content is not clipped: clipping is the
//! compositor's business.

use vstd::prelude::*;
use crate::math::{Pos, Size};
use crate::widget::{FlexDirection, Widget, WidgetDim, WidgetLayout};
use crate::sprite::WidgetSprite;
use crate::context::UiContext;

verus! {

/// One node of the frame's flattened tree: an arena index and the flat
/// indices of its children. Children always carry larger flat indices than
/// their parent, so a reverse sweep sees children before parents and a
/// forward sweep parents before children.
pub(crate) struct FlatNode {
    pub id: usize,
    pub children: Vec<usize>,
}

/// How many entries of a visited map are still false.
pub(crate) open spec fn count_false(s: Seq<bool>) -> nat
    decreases s.len(),
{
    if s.len() == 0 {
        0
    } else {
        count_false(s.drop_last()) + if s.last() {
            0nat
        } else {
            1nat
        }
    }
}

/// Marking one unvisited entry visited lowers the unvisited count by one.
proof fn lemma_count_false_update(s: Seq<bool>, i: int)
    requires
        0 <= i < s.len(),
        !s[i],
    ensures
        count_false(s.update(i, true)) + 1 == count_false(s),
    decreases s.len(),
{
    if i == s.len() - 1 {
        assert(s.update(i, true).drop_last() =~= s.drop_last());
    } else {
        assert(s.update(i, true).drop_last() =~= s.drop_last().update(i, true));
        lemma_count_false_update(s.drop_last(), i);
    }
}

/// The flat nodes reference live widgets, and each child's flat index lies
/// strictly between its parent's and the end.
pub(crate) open spec fn flat_wf(ui: UiContext, flat: Seq<FlatNode>) -> bool {
    &&& forall|k: int|
        0 <= k < flat.len() ==> ui.spec_alive((#[trigger] flat[k]).id as int)
    &&& forall|k: int, c: int|
        0 <= k < flat.len() && 0 <= c < (#[trigger] flat[k]).children@.len() ==> k < #[trigger] flat[k].children@[c] < flat.len()
}

/// The arena indices of a flattened tree, in paint order.
pub(crate) open spec fn spec_flat_ids(flat: Seq<FlatNode>) -> Seq<int> {
    Seq::new(flat.len(), |k: int| flat[k].id as int)
}

/// A frame's paint order: if the root (slot 0) is live it stands first;
/// every listed widget is live; no widget is listed twice; and the list is
/// closed under live children — every live child of a listed widget is
/// itself listed. Parents stand before their children, siblings in
/// declaration order.
pub open spec fn spec_paint_closed(ui: UiContext, ids: Seq<int>) -> bool {
    &&& (ui.spec_alive(0) ==> ids.len() > 0 && ids[0] == 0)
    &&& forall|k: int| 0 <= k < ids.len() ==> ui.spec_alive(#[trigger] ids[k])
    &&& forall|k1: int, k2: int|
        0 <= k1 < ids.len() && 0 <= k2 < ids.len() && #[trigger] ids[k1] == #[trigger] ids[k2]
            ==> k1 == k2
    &&& forall|k: int, c: int|
        0 <= k < ids.len() && 0 <= c < ui.widgets@[ids[k]].children@.len() && ui.spec_alive(
            (#[trigger] ui.widgets@[ids[k]].children@[c]).0 as int,
        ) ==> ids.contains(ui.widgets@[ids[k]].children@[c].0 as int)
}

/// Every live arena child of a flattened node is already visited or still
/// waits on the traversal stack.
pub(crate) open spec fn stack_covers(
    ui: UiContext,
    flat: Seq<FlatNode>,
    st: Seq<(usize, usize)>,
    visited: Seq<bool>,
    n: int,
) -> bool {
    forall|k: int, c: int|
        0 <= k < flat.len() && 0 <= c < ui.widgets@[flat[k].id as int].children@.len() ==> {
            let ch = (#[trigger] ui.widgets@[flat[k].id as int].children@[c]).0;
            !(ch < n && ui.widgets@[ch as int].alive) || visited[ch as int] || exists|q: int|
                0 <= q < st.len() && (#[trigger] st[q]).0 == ch
        }
}

/// Popping one stack entry keeps every child covered, counting the popped
/// widget itself as covered.
proof fn lemma_stack_pop_coverage(
    ui: UiContext,
    flat: Seq<FlatNode>,
    st0: Seq<(usize, usize)>,
    st1: Seq<(usize, usize)>,
    visited: Seq<bool>,
    id: usize,
    n: int,
    take: bool,
)
    requires
        st0.len() > 0,
        st1 == st0.drop_last(),
        st0.last().0 == id,
        stack_covers(ui, flat, st0, visited, n),
    ensures
        forall|k: int, c: int|
            0 <= k < flat.len() && 0 <= c < ui.widgets@[flat[k].id as int].children@.len() ==> {
                let ch = (#[trigger] ui.widgets@[flat[k].id as int].children@[c]).0;
                !(ch < n && ui.widgets@[ch as int].alive) || visited[ch as int] || ch == id
                    || exists|q: int| 0 <= q < st1.len() && (#[trigger] st1[q]).0 == ch
            },
{
    assert forall|k: int, c: int|
        0 <= k < flat.len() && 0 <= c < ui.widgets@[flat[k].id as int].children@.len() implies {
        let ch = (#[trigger] ui.widgets@[flat[k].id as int].children@[c]).0;
        !(ch < n && ui.widgets@[ch as int].alive) || visited[ch as int] || ch == id || exists|q: int|
            0 <= q < st1.len() && (#[trigger] st1[q]).0 == ch
    } by {
        let ch = ui.widgets@[flat[k].id as int].children@[c].0;
        if ch < n && ui.widgets@[ch as int].alive && !visited[ch as int] && ch != id {
            let q = choose|q: int| 0 <= q < st0.len() && (#[trigger] st0[q]).0 == ch;
            assert(q < st0.len() - 1);
            assert(st1[q].0 == ch);
        }
    }
}

impl UiContext {
    /// Flattens the frame's tree from the root (slot 0) into paint order:
    /// depth-first, parents before children, siblings in declaration order.
    /// A widget reachable twice (a caller error) is taken only once, so the
    /// sweep terminates on any input.
    #[verifier::loop_isolation(false)]
    #[verifier::rlimit(100)]
    pub(crate) fn flatten(&self) -> (flat: Vec<FlatNode>)
        ensures
            flat_wf(*self, flat@),
            spec_paint_closed(*self, spec_flat_ids(flat@)),
            flat@.len() > 0 ==> flat@[0].id == 0,
    {
        let n = self.widgets.len();
        let mut flat: Vec<FlatNode> = Vec::new();
        let mut visited: Vec<bool> = Vec::new();
        let mut unvisited: usize = 0;
        while visited.len() < n
            invariant
                visited@.len() <= n,
                unvisited == count_false(visited@),
                unvisited == visited@.len(),
                forall|i: int| 0 <= i < visited@.len() ==> !(#[trigger] visited@[i]),
            decreases n - visited.len(),
        {
            let ghost vpre = visited@;
            visited.push(false);
            unvisited += 1;
            proof {
                assert(visited@.drop_last() =~= vpre);
                assert(!visited@.last());
            }
        }
        if n == 0 || !self.widgets[0].alive {
            return flat;
        }
        // Each stack entry: an arena index to visit and the flat index of
        // its parent (`n` for the root, which has none).
        let mut stack: Vec<(usize, usize)> = Vec::new();
        stack.push((0, n));
        while stack.len() > 0
            invariant
                n == self.widgets@.len(),
                visited@.len() == n,
                unvisited == count_false(visited@),
                flat@.len() + unvisited <= n,
                flat_wf(*self, flat@),
                forall|k: int|
                    0 <= k < stack@.len() ==> (#[trigger] stack@[k]).1 < flat@.len() || stack@[k].1
                        == n,
                flat@.len() == 0 ==> stack@ =~= seq![(0usize, n)],
                flat@.len() > 0 ==> flat@[0].id == 0,
                forall|k: int| 0 <= k < flat@.len() ==> visited@[(#[trigger] flat@[k]).id as int],
                forall|i: int|
                    0 <= i < n && visited@[i] ==> exists|k: int|
                        0 <= k < flat@.len() && (#[trigger] flat@[k]).id == i,
                forall|k1: int, k2: int|
                    0 <= k1 < flat@.len() && 0 <= k2 < flat@.len() && (#[trigger] flat@[k1]).id == (
                    #[trigger] flat@[k2]).id ==> k1 == k2,
                stack_covers(*self, flat@, stack@, visited@, n as int),
            decreases unvisited, stack@.len(),
        {
            let ghost st0 = stack@;
            let (id, pfi) = stack.pop().unwrap();
            let take = id < n && self.widgets[id].alive && !visited[id];
            proof {
                lemma_stack_pop_coverage(*self, flat@, st0, stack@, visited@, id, n as int, take);
            }
            if take {
                proof {
                    lemma_count_false_update(visited@, id as int);
                }
                visited.set(id, true);
                unvisited = unvisited - 1;
                let fi = flat.len();
                let ghost flat0 = flat@;
                flat.push(FlatNode { id, children: Vec::new() });
                if pfi < fi {
                    let parent = &mut flat[pfi];
                    parent.children.push(fi);
                }
                proof {
                    assert(flat@.len() == flat0.len() + 1);
                    assert(flat@[fi as int].id == id);
                    assert forall|k2: int| 0 <= k2 < flat0.len() implies (#[trigger] flat@[k2]).id
                        == flat0[k2].id by {}
                    assert forall|k2: int, c2: int|
                        0 <= k2 < flat@.len() && 0 <= c2 < (
                        #[trigger] flat@[k2]).children@.len() implies k2
                        < #[trigger] flat@[k2].children@[c2] < flat@.len() by {
                        if k2 == fi as int {
                        } else if pfi < fi && k2 == pfi as int {
                            if c2 < flat0[k2].children@.len() {
                                assert(flat0[k2].children@[c2] == flat@[k2].children@[c2]);
                            } else {
                                assert(flat@[k2].children@[c2] == fi);
                            }
                        } else {
                            assert(flat@[k2].children@ == flat0[k2].children@);
                        }
                    }
                    assert(flat_wf(*self, flat@));
                    assert forall|i: int| 0 <= i < n && visited@[i] implies exists|k2: int|
                        0 <= k2 < flat@.len() && (#[trigger] flat@[k2]).id == i by {
                        if i == id {
                            assert(flat@[fi as int].id == i);
                        } else {
                            let k2 = choose|k2: int|
                                0 <= k2 < flat0.len() && (#[trigger] flat0[k2]).id == i;
                            assert(flat@[k2].id == i);
                        }
                    }
                }
                // Push the children in reverse so the stack pops them in
                // declaration order.
                let w = &self.widgets[id];
                let k = w.children.len();
                let mut t: usize = 0;
                while t < k
                    invariant
                        k == self.widgets@[id as int].children@.len(),
                        *w == self.widgets@[id as int],
                        t <= k,
                        id < n,
                        n == self.widgets@.len(),
                        visited@.len() == n,
                        unvisited == count_false(visited@),
                        flat@.len() + unvisited <= n,
                        flat_wf(*self, flat@),
                        fi < flat@.len(),
                        forall|q: int|
                            0 <= q < stack@.len() ==> (#[trigger] stack@[q]).1 < flat@.len() || stack@[q].1 == n,
                        flat@.len() > 0 && flat@[0].id == 0,
                        flat@[fi as int].id == id,
                        forall|k2: int| 0 <= k2 < flat@.len() ==> visited@[(#[trigger] flat@[k2]).id as int],
                        forall|i: int|
                            0 <= i < n && visited@[i] ==> exists|k2: int|
                                0 <= k2 < flat@.len() && (#[trigger] flat@[k2]).id == i,
                        forall|k1: int, k2: int|
                            0 <= k1 < flat@.len() && 0 <= k2 < flat@.len() && (
                            #[trigger] flat@[k1]).id == (#[trigger] flat@[k2]).id ==> k1 == k2,
                        // The children of every flat node other than the one
                        // just taken are covered; the new node's children are
                        // covered once pushed, from the back forward.
                        forall|k2: int, c: int|
                            0 <= k2 < flat@.len() && 0 <= c
                                < self.widgets@[flat@[k2].id as int].children@.len() && !(k2
                                == fi as int && c < k - t) ==> {
                                let ch = (
                                #[trigger] self.widgets@[flat@[k2].id as int].children@[c]).0;
                                !(ch < n && self.widgets@[ch as int].alive) || visited@[ch as int]
                                    || exists|q: int|
                                    0 <= q < stack@.len() && (#[trigger] stack@[q]).0 == ch
                            },
                    decreases k - t,
                {
                    let c = w.children[k - 1 - t];
                    let ghost st_pre = stack@;
                    stack.push((c.0, fi));
                    t += 1;
                    proof {
                        assert(stack@.last().0 == c.0);
                        assert forall|k2: int, c2: int|
                            0 <= k2 < flat@.len() && 0 <= c2
                                < self.widgets@[flat@[k2].id as int].children@.len() && !(k2
                                == fi as int && c2 < k - t) implies {
                            let ch = (#[trigger] self.widgets@[flat@[k2].id as int].children@[c2]).0;
                            !(ch < n && self.widgets@[ch as int].alive) || visited@[ch as int]
                                || exists|q: int|
                                0 <= q < stack@.len() && (#[trigger] stack@[q]).0 == ch
                        } by {
                            let ch = self.widgets@[flat@[k2].id as int].children@[c2].0;
                            if k2 == fi as int && c2 == k - t {
                                assert(flat@[k2].id == id);
                                assert(ch == c.0);
                                assert(stack@[stack@.len() - 1].0 == ch);
                            } else if ch < n && self.widgets@[ch as int].alive
                                && !visited@[ch as int] {
                                let q = choose|q: int|
                                    0 <= q < st_pre.len() && (#[trigger] st_pre[q]).0 == ch;
                                assert(stack@[q].0 == ch);
                            }
                        }
                    }
                }
            }
        }
        proof {
            let ids = spec_flat_ids(flat@);
            assert(flat@.len() > 0 && flat@[0].id == 0);
            assert forall|k: int, c: int|
                0 <= k < ids.len() && 0 <= c < self.widgets@[ids[k]].children@.len()
                    && self.spec_alive(
                    (#[trigger] self.widgets@[ids[k]].children@[c]).0 as int,
                ) implies ids.contains(self.widgets@[ids[k]].children@[c].0 as int) by {
                let ch = self.widgets@[flat@[k].id as int].children@[c].0;
                assert(visited@[ch as int]);
                let k2 = choose|k2: int|
                    0 <= k2 < flat@.len() && (#[trigger] flat@[k2]).id == ch;
                assert(ids[k2] == ch as int);
            }
        }
        flat
    }
}

/// A solved extent respects a declared fixed extent exactly.
pub open spec fn spec_fixed_dim(d: WidgetDim, s: u32) -> bool {
    match d {
        WidgetDim::Fixed(v) => s == v,
        _ => true,
    }
}

/// The root's solved extent: its fixed value, or the viewport for fill
/// sizing; hug sizing shrinks to the root's measured content.
pub open spec fn spec_root_dim(d: WidgetDim, viewport: u32, s: u32) -> bool {
    match d {
        WidgetDim::Fixed(v) => s == v,
        WidgetDim::Fill => s == viewport,
        WidgetDim::Hug => true,
    }
}

/// `a + b`, saturating: layout arithmetic never wraps.
pub(crate) fn sat_add(a: u32, b: u32) -> (r: u32)
    ensures
        r == crate::math::spec_sat_add_u32(a, b),
{
    a.saturating_add(b)
}

/// `a - b`, saturating at zero.
pub(crate) fn sat_sub(a: u32, b: u32) -> (r: u32)
    ensures
        r == crate::math::spec_sat_sub_u32(a, b),
{
    a.saturating_sub(b)
}

fn max_u32(a: u32, b: u32) -> (r: u32)
    ensures
        r == if a >= b {
            a
        } else {
            b
        },
{
    if a >= b {
        a
    } else {
        b
    }
}

/// The intrinsic extent of a widget's own content on one axis: its sprite's
/// source extent and its text run's extent, whichever is larger.
fn own_content_size(w: &Widget) -> (s: (u32, u32)) {
    let mut cw: u32 = 0;
    let mut ch: u32 = 0;
    if w.props.flags.draw_sprite {
        match &w.props.sprite {
            Option::Some(WidgetSprite::Simple(_, sp)) => {
                cw = max_u32(cw, sp.w);
                ch = max_u32(ch, sp.h);
            },
            Option::Some(WidgetSprite::NineSlice(_, nss)) => {
                cw = max_u32(cw, nss.w);
                ch = max_u32(ch, nss.h);
            },
            Option::None => {},
        }
    }
    if w.props.flags.draw_text {
        match &w.props.text {
            Option::Some(t) => {
                let tw: u64 = (t.bytes.len() as u64).checked_mul(t.glyph_w as u64).unwrap_or(
                    u64::MAX,
                );
                let tw32: u32 = if tw > u32::MAX as u64 {
                    u32::MAX
                } else {
                    tw as u32
                };
                cw = max_u32(cw, tw32);
                ch = max_u32(ch, t.glyph_h);
            },
            Option::None => {},
        }
    }
    (cw, ch)
}

impl UiContext {
    /// Solves the frame's layout in two passes over the tree rooted at the
    /// first declared widget: a bottom-up measure pass (hug sizing shrinks
    /// to content: children, sprite or text, plus padding) and a top-down
    /// placement pass (fill sizing shares the space left after fixed and
    /// hug children and gaps; positions combine the parent's content
    /// origin, the anchor pair, the explicit offset and flex stacking).
    /// Only solved geometry changes: every widget's properties, child list
    /// and interaction state are left exactly as declared, and content that
    /// overflows its container is not clipped.
    #[verifier::loop_isolation(false)]
    #[verifier::rlimit(100)]
    pub fn solve_layout(&mut self)
        ensures
            final(self).viewport == old(self).viewport,
            final(self).widgets@.len() == old(self).widgets@.len(),
            forall|i: int|
                0 <= i < old(self).widgets@.len() ==> #[trigger] final(self).widgets@[i] == (
                Widget {
                    pos: final(self).widgets@[i].pos,
                    size: final(self).widgets@[i].size,
                    ..old(self).widgets@[i]
                }),
            exists|ids: Seq<int>|
                {
                    &&& #[trigger] spec_paint_closed(*old(self), ids)
                    &&& ids.len() > 0 ==> {
                        &&& spec_root_dim(
                            old(self).widgets@[0].props.size.w,
                            old(self).viewport.w,
                            final(self).widgets@[0].size.w,
                        )
                        &&& spec_root_dim(
                            old(self).widgets@[0].props.size.h,
                            old(self).viewport.h,
                            final(self).widgets@[0].size.h,
                        )
                    }
                    &&& forall|k: int|
                        0 <= k < ids.len() ==> {
                            &&& spec_fixed_dim(
                                old(self).widgets@[#[trigger] ids[k]].props.size.w,
                                final(self).widgets@[ids[k]].size.w,
                            )
                            &&& spec_fixed_dim(
                                old(self).widgets@[ids[k]].props.size.h,
                                final(self).widgets@[ids[k]].size.h,
                            )
                        }
                },
    {
        let flat = self.flatten();
        let m = flat.len();

        // Intrinsic sizes, children before parents.
        let mut mw: Vec<u32> = Vec::new();
        let mut mh: Vec<u32> = Vec::new();
        let mut q: usize = 0;
        while q < m
            invariant
                mw@.len() == q,
                mh@.len() == q,
                q <= m,
            decreases m - q,
        {
            mw.push(0);
            mh.push(0);
            q += 1;
        }
        let mut t: usize = 0;
        while t < m
            invariant
                t <= m,
                m == flat@.len(),
                mw@.len() == m,
                mh@.len() == m,
                flat_wf(*self, flat@),
            decreases m - t,
        {
            let i = m - 1 - t;
            let node = &flat[i];
            let w = &self.widgets[node.id];
            let mut cw: u32 = 0;
            let mut ch: u32 = 0;
            let kn = node.children.len();
            let mut k: usize = 0;
            while k < kn
                invariant
                    k <= kn,
                    kn == flat@[i as int].children@.len(),
                    *node == flat@[i as int],
                    *w == self.widgets@[flat@[i as int].id as int],
                    i < m,
                    m == flat@.len(),
                    mw@.len() == m,
                    mh@.len() == m,
                    flat_wf(*self, flat@),
                decreases kn - k,
            {
                let c = node.children[k];
                match w.props.layout {
                    WidgetLayout::Anchored => {
                        cw = max_u32(cw, mw[c]);
                        ch = max_u32(ch, mh[c]);
                    },
                    WidgetLayout::Flex { direction: FlexDirection::Horizontal, gap } => {
                        cw = sat_add(cw, mw[c]);
                        if k > 0 {
                            cw = sat_add(cw, gap);
                        }
                        ch = max_u32(ch, mh[c]);
                    },
                    WidgetLayout::Flex { direction: FlexDirection::Vertical, gap } => {
                        ch = sat_add(ch, mh[c]);
                        if k > 0 {
                            ch = sat_add(ch, gap);
                        }
                        cw = max_u32(cw, mw[c]);
                    },
                }
                k += 1;
            }
            let own = own_content_size(w);
            cw = max_u32(cw, own.0);
            ch = max_u32(ch, own.1);
            let iw: u32 = match w.props.size.w {
                WidgetDim::Fixed(v) => v,
                _ => sat_add(cw, sat_add(w.props.padding.left, w.props.padding.right)),
            };
            let ih: u32 = match w.props.size.h {
                WidgetDim::Fixed(v) => v,
                _ => sat_add(ch, sat_add(w.props.padding.top, w.props.padding.bottom)),
            };
            mw.set(i, iw);
            mh.set(i, ih);
            t += 1;
        }

        // Final sizes and base positions, parents before children.
        let mut fw: Vec<u32> = Vec::new();
        let mut fh: Vec<u32> = Vec::new();
        let mut bx: Vec<i64> = Vec::new();
        let mut by: Vec<i64> = Vec::new();
        let mut q2: usize = 0;
        while q2 < m
            invariant
                fw@.len() == q2,
                fh@.len() == q2,
                bx@.len() == q2,
                by@.len() == q2,
                q2 <= m,
                forall|k: int| 0 <= k < q2 ==> #[trigger] bx@[k] == 0i64,
                forall|k: int| 0 <= k < q2 ==> #[trigger] by@[k] == 0i64,
                forall|k: int|
                    0 <= k < q2 ==> spec_fixed_dim(
                        self.widgets@[flat@[k].id as int].props.size.w,
                        #[trigger] fw@[k],
                    ),
                forall|k: int|
                    0 <= k < q2 ==> spec_fixed_dim(
                        self.widgets@[flat@[k].id as int].props.size.h,
                        #[trigger] fh@[k],
                    ),
            decreases m - q2,
        {
            let seed = &self.widgets[flat[q2].id];
            let sw: u32 = match seed.props.size.w {
                WidgetDim::Fixed(v) => v,
                _ => 0,
            };
            let sh: u32 = match seed.props.size.h {
                WidgetDim::Fixed(v) => v,
                _ => 0,
            };
            fw.push(sw);
            fh.push(sh);
            bx.push(0);
            by.push(0);
            q2 += 1;
        }
        if m > 0 {
            // The root fills the viewport unless its size is fixed.
            let rootw = &self.widgets[flat[0].id];
            let rw: u32 = match rootw.props.size.w {
                WidgetDim::Fixed(v) => v,
                WidgetDim::Fill => self.viewport.w,
                WidgetDim::Hug => mw[0],
            };
            let rh: u32 = match rootw.props.size.h {
                WidgetDim::Fixed(v) => v,
                WidgetDim::Fill => self.viewport.h,
                WidgetDim::Hug => mh[0],
            };
            fw.set(0, rw);
            fh.set(0, rh);
            let adx: i64 = (rootw.props.origin.point_x(self.viewport.w) as i64) - (
            rootw.props.anchor.point_x(rw) as i64);
            let ady: i64 = (rootw.props.origin.point_y(self.viewport.h) as i64) - (
            rootw.props.anchor.point_y(rh) as i64);
            bx.set(0, adx + rootw.props.pos.x as i64);
            by.set(0, ady + rootw.props.pos.y as i64);
        }
        let mut i: usize = 0;
        while i < m
            invariant
                i <= m,
                m == flat@.len(),
                mw@.len() == m,
                mh@.len() == m,
                fw@.len() == m,
                fh@.len() == m,
                bx@.len() == m,
                by@.len() == m,
                flat_wf(*self, flat@),
                forall|k: int| 0 <= k < m ==> -9223372036854775808i64 / 2 < #[trigger] bx@[k]
                    < 9223372036854775807i64 / 2,
                forall|k: int| 0 <= k < m ==> -9223372036854775808i64 / 2 < #[trigger] by@[k]
                    < 9223372036854775807i64 / 2,
                forall|k: int|
                    0 <= k < m ==> spec_fixed_dim(
                        self.widgets@[flat@[k].id as int].props.size.w,
                        #[trigger] fw@[k],
                    ),
                forall|k: int|
                    0 <= k < m ==> spec_fixed_dim(
                        self.widgets@[flat@[k].id as int].props.size.h,
                        #[trigger] fh@[k],
                    ),
                m > 0 ==> spec_root_dim(
                    self.widgets@[flat@[0].id as int].props.size.w,
                    self.viewport.w,
                    fw@[0],
                ) && spec_root_dim(
                    self.widgets@[flat@[0].id as int].props.size.h,
                    self.viewport.h,
                    fh@[0],
                ),
            decreases m - i,
        {
            let node = &flat[i];
            let w = &self.widgets[node.id];
            let cx: i64 = bx[i] + w.props.padding.left as i64;
            let cy: i64 = by[i] + w.props.padding.top as i64;
            let cw: u32 = sat_sub(fw[i], sat_add(w.props.padding.left, w.props.padding.right));
            let ch: u32 = sat_sub(fh[i], sat_add(w.props.padding.top, w.props.padding.bottom));
            let kn = node.children.len();

            // One pass to size the fill children: what the fixed and hug
            // children and the gaps leave over, shared equally.
            let mut fills: usize = 0;
            let mut used: u32 = 0;
            let horizontal = match w.props.layout {
                WidgetLayout::Flex { direction: FlexDirection::Horizontal, gap: _ } => true,
                _ => false,
            };
            match w.props.layout {
                WidgetLayout::Anchored => {},
                WidgetLayout::Flex { direction, gap } => {
                    let mut k: usize = 0;
                    while k < kn
                        invariant
                            k <= kn,
                            kn == flat@[i as int].children@.len(),
                            *node == flat@[i as int],
                            i < m,
                            m == flat@.len(),
                            mw@.len() == m,
                            mh@.len() == m,
                            flat_wf(*self, flat@),
                            fills <= k,
                        decreases kn - k,
                    {
                        let c = node.children[k];
                        let cid = flat[c].id;
                        let cwid = &self.widgets[cid];
                        let main_dim = if horizontal {
                            cwid.props.size.w
                        } else {
                            cwid.props.size.h
                        };
                        match main_dim {
                            WidgetDim::Fill => {
                                fills += 1;
                            },
                            WidgetDim::Fixed(v) => {
                                used = sat_add(used, v);
                            },
                            WidgetDim::Hug => {
                                used = sat_add(
                                    used,
                                    if horizontal {
                                        mw[c]
                                    } else {
                                        mh[c]
                                    },
                                );
                            },
                        }
                        if k > 0 {
                            used = sat_add(used, gap);
                        }
                        k += 1;
                    }
                },
            }
            let content_main: u32 = if horizontal {
                cw
            } else {
                ch
            };
            let share: u32 = if fills > 0 {
                let leftover: u64 = sat_sub(content_main, used) as u64;
                let q: u64 = leftover / (fills as u64);
                proof {
                    assert(q <= leftover) by (nonlinear_arith)
                        requires
                            q == leftover / (fills as u64) && fills > 0 && leftover >= 0,
                    ;
                }
                q as u32
            } else {
                0
            };

            // Place the children.
            let gap: u32 = match w.props.layout {
                WidgetLayout::Flex { direction: _, gap } => gap,
                WidgetLayout::Anchored => 0,
            };
            let anchored = match w.props.layout {
                WidgetLayout::Anchored => true,
                _ => false,
            };
            let mut acc: i64 = 0;
            let mut k: usize = 0;
            while k < kn
                invariant
                    k <= kn,
                    kn == flat@[i as int].children@.len(),
                    *node == flat@[i as int],
                    i < m,
                    m == flat@.len(),
                    mw@.len() == m,
                    mh@.len() == m,
                    fw@.len() == m,
                    fh@.len() == m,
                    bx@.len() == m,
                    by@.len() == m,
                    flat_wf(*self, flat@),
                    -9223372036854775808i64 / 2 < cx < 9223372036854775807i64 / 2 + 8589934592i64,
                    -9223372036854775808i64 / 2 < cy < 9223372036854775807i64 / 2 + 8589934592i64,
                    0 <= acc <= 65536i64 * 8589934592i64,
                    forall|q: int|
                        0 <= q < m ==> spec_fixed_dim(
                            self.widgets@[flat@[q].id as int].props.size.w,
                            #[trigger] fw@[q],
                        ),
                    forall|q: int|
                        0 <= q < m ==> spec_fixed_dim(
                            self.widgets@[flat@[q].id as int].props.size.h,
                            #[trigger] fh@[q],
                        ),
                    m > 0 ==> spec_root_dim(
                        self.widgets@[flat@[0].id as int].props.size.w,
                        self.viewport.w,
                        fw@[0],
                    ) && spec_root_dim(
                        self.widgets@[flat@[0].id as int].props.size.h,
                        self.viewport.h,
                        fh@[0],
                    ),
                    forall|q: int| 0 <= q < m ==> -9223372036854775808i64 / 2 < #[trigger] bx@[q]
                        < 9223372036854775807i64 / 2,
                    forall|q: int| 0 <= q < m ==> -9223372036854775808i64 / 2 < #[trigger] by@[q]
                        < 9223372036854775807i64 / 2,
                decreases kn - k,
            {
                let c = node.children[k];
                let cid = flat[c].id;
                let cwid = &self.widgets[cid];
                let cw_c: u32 = match cwid.props.size.w {
                    WidgetDim::Fixed(v) => v,
                    WidgetDim::Hug => mw[c],
                    WidgetDim::Fill => if anchored || !horizontal {
                        cw
                    } else {
                        share
                    },
                };
                let ch_c: u32 = match cwid.props.size.h {
                    WidgetDim::Fixed(v) => v,
                    WidgetDim::Hug => mh[c],
                    WidgetDim::Fill => if anchored || horizontal {
                        ch
                    } else {
                        share
                    },
                };
                let adx: i64 = (cwid.props.origin.point_x(cw) as i64) - (cwid.props.anchor.point_x(
                    cw_c,
                ) as i64);
                let ady: i64 = (cwid.props.origin.point_y(ch) as i64) - (cwid.props.anchor.point_y(
                    ch_c,
                ) as i64);
                let child_x: i64 = cx + adx + cwid.props.pos.x as i64 + if horizontal && !anchored {
                    acc
                } else {
                    0
                };
                let child_y: i64 = cy + ady + cwid.props.pos.y as i64 + if !horizontal && !anchored {
                    acc
                } else {
                    0
                };
                fw.set(c, cw_c);
                fh.set(c, ch_c);
                bx.set(c, clamp_base(child_x));
                by.set(c, clamp_base(child_y));
                if !anchored {
                    let main: u32 = if horizontal {
                        cw_c
                    } else {
                        ch_c
                    };
                    acc = acc + main as i64 + gap as i64;
                    if acc > (65536i64) * 8589934592i64 {
                        acc = 65536i64 * 8589934592i64;
                    }
                }
                k += 1;
            }
            i += 1;
        }

        // Write the solved geometry back to the arena; drawing and
        // hit-testing read the base position shifted by the widget's own
        // draw offset.
        let ghost ids = spec_flat_ids(flat@);
        let mut v: usize = 0;
        while v < m
            invariant
                v <= m,
                m == flat@.len(),
                fw@.len() == m,
                fh@.len() == m,
                bx@.len() == m,
                by@.len() == m,
                self.widgets@.len() == old(self).widgets@.len(),
                self.viewport == old(self).viewport,
                spec_paint_closed(*old(self), ids),
                ids == spec_flat_ids(flat@),
                forall|j: int| 0 <= j < m ==> (#[trigger] flat@[j]).id < self.widgets@.len(),
                forall|j: int|
                    0 <= j < old(self).widgets@.len() ==> #[trigger] self.widgets@[j] == (Widget {
                        pos: self.widgets@[j].pos,
                        size: self.widgets@[j].size,
                        ..old(self).widgets@[j]
                    }),
                forall|j: int|
                    0 <= j < v ==> #[trigger] self.widgets@[flat@[j].id as int].size == (Size {
                        w: fw@[j],
                        h: fh@[j],
                    }),
            decreases m - v,
        {
            let id = flat[v].id;
            let dox: i64 = {
                let w = &self.widgets[id];
                w.props.draw_offset.x as i64
            };
            let doy: i64 = {
                let w = &self.widgets[id];
                w.props.draw_offset.y as i64
            };
            let px = crate::math::clamp_i64_to_i32(bx[v] + dox);
            let py = crate::math::clamp_i64_to_i32(by[v] + doy);
            let sw = fw[v];
            let sh = fh[v];
            let w = &mut self.widgets[id];
            w.pos = Pos { x: px, y: py };
            w.size = Size { w: sw, h: sh };
            proof {
                assert forall|j: int|
                    0 <= j < v + 1 implies #[trigger] self.widgets@[flat@[j].id as int].size == (
                Size { w: fw@[j], h: fh@[j] }) by {
                    if j < v && flat@[j].id == id {
                        assert(ids[j] == ids[v as int]);
                    }
                }
            }
            v += 1;
        }
        proof {
            assert(spec_paint_closed(*old(self), ids));
            if m > 0 {
                assert(ids[0] == 0);
                assert(self.widgets@[0].size == (Size { w: fw@[0], h: fh@[0] }));
            }
            assert forall|k: int| 0 <= k < ids.len() implies {
                &&& spec_fixed_dim(
                    old(self).widgets@[#[trigger] ids[k]].props.size.w,
                    self.widgets@[ids[k]].size.w,
                )
                &&& spec_fixed_dim(
                    old(self).widgets@[ids[k]].props.size.h,
                    self.widgets@[ids[k]].size.h,
                )
            } by {
                assert(self.widgets@[flat@[k].id as int].size == (Size { w: fw@[k], h: fh@[k] }));
                assert(old(self).widgets@[ids[k]].props == self.widgets@[ids[k]].props);
            }
        }
    }
}

/// Clamps a freshly computed base coordinate into the range that keeps
/// later additions free of overflow.
fn clamp_base(v: i64) -> (r: i64)
    ensures
        -9223372036854775808i64 / 2 < r < 9223372036854775807i64 / 2,
{
    if v >= 9223372036854775807i64 / 2 {
        9223372036854775807i64 / 2 - 1
    } else if v <= -9223372036854775808i64 / 2 {
        -9223372036854775808i64 / 2 + 1
    } else {
        v
    }
}

} // verus!
