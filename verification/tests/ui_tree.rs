//! The widget tree across frames: reconciliation, garbage collection,
//! layout, hit-testing, and the click pulse.

use snaek::{
    pos, size, Mouse, Pos, UiContext, WidgetDim, WidgetFlags, WidgetKey, WidgetLayout,
    WidgetPadding, WidgetProps, WidgetSize, FlexDirection,
};

fn mouse(p: Option<Pos>, down: bool, prev: bool) -> Mouse {
    let mut m = Mouse::new();
    m.pos = p;
    m.l_pressed = (down, prev);
    m
}

fn hoverable_root(ui: &mut UiContext) -> snaek::WidgetReaction {
    ui.build_widget(
        WidgetProps::new(WidgetKey::new(0))
            .with_size(WidgetSize::fill())
            .with_flags(WidgetFlags::can_hover().union(WidgetFlags::can_click())),
    )
}

#[test]
fn reconciliation_preserves_interaction_state() {
    let mut ui = UiContext::new(size(100, 100));

    // Frame 1: press the root.
    let r1 = hoverable_root(&mut ui);
    assert!(!r1.hovered() && !r1.pressed());
    ui.solve_layout();
    ui.free_untouched_widgets();
    ui.react(&mouse(Some(pos(5, 5)), true, false));
    assert!(ui.widget(r1.id()).hovered);
    assert!(ui.widget(r1.id()).pressed);

    // Frame 2: the same key reports the carried-over state before this
    // frame's reaction pass runs.
    let r2 = hoverable_root(&mut ui);
    assert_eq!(r2.id(), r1.id());
    assert!(r2.hovered());
    assert!(r2.pressed());
}

#[test]
fn garbage_collection_removes_undeclared_subtrees() {
    let mut ui = UiContext::new(size(100, 100));

    // Frame 1: a root with a child and a grandchild.
    let root = ui.build_widget(WidgetProps::new(WidgetKey::new(0)).with_size(WidgetSize::fill()));
    let child = ui.build_widget(WidgetProps::new(WidgetKey::new(1)));
    let grandchild = ui.build_widget(WidgetProps::new(WidgetKey::new(2)));
    ui.add_child(root.id(), child.id());
    ui.add_child(child.id(), grandchild.id());
    ui.free_untouched_widgets();
    assert!(ui.has_widget(root.id()));
    assert!(ui.has_widget(child.id()));
    assert!(ui.has_widget(grandchild.id()));

    // Frame 2: only the root is re-declared; the child and its own child
    // are gone after the free pass, leaving no orphans.
    let root2 = ui.build_widget(WidgetProps::new(WidgetKey::new(0)).with_size(WidgetSize::fill()));
    assert_eq!(root2.id(), root.id());
    ui.free_untouched_widgets();
    assert!(ui.has_widget(root.id()));
    assert!(!ui.has_widget(child.id()));
    assert!(!ui.has_widget(grandchild.id()));
}

#[test]
fn two_fill_children_split_a_flex_row() {
    let mut ui = UiContext::new(size(100, 100));
    let root = ui.build_widget(
        WidgetProps::new(WidgetKey::new(0))
            .with_size(WidgetSize::fill())
            .with_layout(WidgetLayout::flex(FlexDirection::Horizontal, 0)),
    );
    let a = ui.build_widget(WidgetProps::new(WidgetKey::new(1)).with_size(WidgetSize::fill()));
    let b = ui.build_widget(WidgetProps::new(WidgetKey::new(2)).with_size(WidgetSize::fill()));
    ui.add_child(root.id(), a.id());
    ui.add_child(root.id(), b.id());
    ui.solve_layout();
    assert_eq!(ui.widget(root.id()).size, size(100, 100));
    assert_eq!(ui.widget(a.id()).size, size(50, 100));
    assert_eq!(ui.widget(b.id()).size, size(50, 100));
    assert_eq!(ui.widget(a.id()).pos, pos(0, 0));
    assert_eq!(ui.widget(b.id()).pos, pos(50, 0));
}

#[test]
fn hug_parent_wraps_fixed_child_plus_padding() {
    let mut ui = UiContext::new(size(100, 100));
    let root = ui.build_widget(
        WidgetProps::new(WidgetKey::new(0))
            .with_size(WidgetSize::hug())
            .with_padding(WidgetPadding::all(2)),
    );
    let child = ui.build_widget(
        WidgetProps::new(WidgetKey::new(1)).with_size(WidgetSize::fixed(10, 10)),
    );
    ui.add_child(root.id(), child.id());
    ui.solve_layout();
    assert_eq!(ui.widget(root.id()).size, size(14, 14));
    assert_eq!(ui.widget(child.id()).size, size(10, 10));
    assert_eq!(ui.widget(child.id()).pos, pos(2, 2));
}

#[test]
fn topmost_overlapping_widget_wins_hover() {
    let mut ui = UiContext::new(size(100, 100));
    let root = ui.build_widget(WidgetProps::new(WidgetKey::new(0)).with_size(WidgetSize::fill()));
    let below = ui.build_widget(
        WidgetProps::new(WidgetKey::new(1))
            .with_size(WidgetSize::fill())
            .with_flags(WidgetFlags::can_hover()),
    );
    let above = ui.build_widget(
        WidgetProps::new(WidgetKey::new(2))
            .with_size(WidgetSize::fill())
            .with_flags(WidgetFlags::can_hover()),
    );
    ui.add_child(root.id(), below.id());
    ui.add_child(root.id(), above.id());
    ui.solve_layout();
    ui.react(&mouse(Some(pos(50, 50)), false, false));
    assert!(!ui.widget(below.id()).hovered);
    assert!(ui.widget(above.id()).hovered);
}

#[test]
fn click_pulses_on_exactly_the_release_frame() {
    let mut ui = UiContext::new(size(100, 100));
    // (down this frame, down previous frame) per frame.
    let frames = [
        (false, false),
        (true, false),  // press
        (true, true),   // hold
        (false, true),  // release: the one click
        (false, false),
    ];
    let mut clicks = 0;
    let mut clicked_frames = Vec::new();
    for (i, (down, prev)) in frames.iter().enumerate() {
        let r = hoverable_root(&mut ui);
        ui.solve_layout();
        ui.draw_widgets(&mut Vec::new());
        ui.free_untouched_widgets();
        ui.react(&mouse(Some(pos(5, 5)), *down, *prev));
        if ui.widget(r.id()).clicked {
            clicks += 1;
            clicked_frames.push(i);
        }
    }
    assert_eq!(clicks, 1);
    assert_eq!(clicked_frames, vec![3]);
}

#[test]
fn drag_release_outside_still_clicks() {
    let mut ui = UiContext::new(size(100, 100));
    let r = hoverable_root(&mut ui);
    ui.solve_layout();
    ui.react(&mouse(Some(pos(5, 5)), true, false));
    assert!(ui.widget(r.id()).pressed);
    // The pointer leaves the window, the button stays down: still pressed.
    let r = hoverable_root(&mut ui);
    ui.solve_layout();
    ui.free_untouched_widgets();
    ui.react(&mouse(None, true, true));
    assert!(ui.widget(r.id()).pressed);
    // Release outside: the click still fires.
    let r = hoverable_root(&mut ui);
    ui.solve_layout();
    ui.free_untouched_widgets();
    ui.react(&mouse(None, false, true));
    assert!(ui.widget(r.id()).clicked);
    assert!(!ui.widget(r.id()).pressed);
}

#[test]
fn focus_transfers_on_click() {
    let mut ui = UiContext::new(size(100, 100));
    let focusable_root = |ui: &mut UiContext| {
        ui.build_widget(
            WidgetProps::new(WidgetKey::new(0)).with_size(WidgetSize::fill()).with_flags(
                WidgetFlags::can_hover()
                    .union(WidgetFlags::can_click())
                    .union(WidgetFlags::can_focus()),
            ),
        )
    };
    let r = focusable_root(&mut ui);
    ui.solve_layout();
    ui.react(&mouse(Some(pos(1, 1)), true, false));
    assert!(!ui.widget(r.id()).focused);
    let r = focusable_root(&mut ui);
    ui.solve_layout();
    ui.free_untouched_widgets();
    ui.react(&mouse(Some(pos(1, 1)), false, true));
    assert!(ui.widget(r.id()).focused);
    // Focus persists across idle frames.
    let r = focusable_root(&mut ui);
    ui.solve_layout();
    ui.free_untouched_widgets();
    ui.react(&mouse(Some(pos(90, 90)), false, false));
    assert!(ui.widget(r.id()).focused);
}

#[test]
fn keys_under_different_parents_differ() {
    let a = WidgetKey::indexed(7, 1).under(&WidgetKey::new(100));
    let b = WidgetKey::indexed(7, 1).under(&WidgetKey::new(101));
    assert_ne!(a, b);
    assert_eq!(a, WidgetKey::indexed(7, 1).under(&WidgetKey::new(100)));
}

#[test]
fn fixed_and_fill_share_a_row() {
    let mut ui = UiContext::new(size(100, 50));
    let root = ui.build_widget(
        WidgetProps::new(WidgetKey::new(0))
            .with_size(WidgetSize::fill())
            .with_layout(WidgetLayout::flex(FlexDirection::Horizontal, 4)),
    );
    let fixed = ui.build_widget(
        WidgetProps::new(WidgetKey::new(1)).with_size(WidgetSize::new(
            WidgetDim::Fixed(20),
            WidgetDim::Fill,
        )),
    );
    let fill = ui.build_widget(WidgetProps::new(WidgetKey::new(2)).with_size(WidgetSize::fill()));
    ui.add_child(root.id(), fixed.id());
    ui.add_child(root.id(), fill.id());
    ui.solve_layout();
    assert_eq!(ui.widget(fixed.id()).size, size(20, 50));
    // 100 - 20 fixed - 4 gap = 76 for the one fill child.
    assert_eq!(ui.widget(fill.id()).size, size(76, 50));
    assert_eq!(ui.widget(fill.id()).pos, pos(24, 0));
}
