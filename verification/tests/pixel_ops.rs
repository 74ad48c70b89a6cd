//! The color model and the composition operators on concrete values.

use snaek::{Pixel, AlphaComp};

fn px(a: u8, r: u8, g: u8, b: u8) -> Pixel {
    Pixel::new(a, r, g, b)
}

#[test]
fn hex_roundtrip() {
    let p = Pixel::from_hex(0x80102030);
    assert_eq!(p, px(0x80, 0x10, 0x20, 0x30));
    assert_eq!(p.to_u32(), 0x80102030);
    assert_eq!(px(1, 2, 3, 4).to_u32(), 0x01020304);
}

#[test]
fn to_array_is_channel_order() {
    assert_eq!(px(9, 8, 7, 6).to_array(), [9, 8, 7, 6]);
}

#[test]
fn rgb_a_takes_rgb_and_alpha() {
    let p = snaek::rgb_a(px(1, 10, 20, 30), px(200, 0, 0, 0));
    assert_eq!(p, px(200, 10, 20, 30));
}

#[test]
fn saturating_channel_arithmetic() {
    assert_eq!(px(250, 1, 2, 3).saturating_add(px(10, 1, 2, 3)), px(255, 2, 4, 6));
    assert_eq!(px(5, 10, 0, 3).saturating_sub(px(10, 1, 2, 3)), px(0, 9, 0, 0));
    assert_eq!(px(100, 2, 3, 200).saturating_mul(3), px(255, 6, 9, 255));
    assert_eq!(px(100, 9, 3, 200).div(3), px(33, 3, 1, 66));
}

#[test]
fn over_transparent_dst_returns_src() {
    // Compositing over full transparency keeps the source.
    let a = px(255, 10, 20, 30);
    let clear = px(0, 0, 0, 0);
    assert_eq!(snaek::over(a, clear), a);
    let half = px(128, 200, 100, 50);
    assert_eq!(snaek::over(half, clear), half);
}

#[test]
fn over_transparent_src_returns_dst() {
    let b = px(255, 44, 55, 66);
    let clear = px(0, 9, 9, 9);
    assert_eq!(snaek::over(clear, b), b);
    let half = px(77, 1, 2, 3);
    assert_eq!(snaek::over(px(0, 0, 0, 0), half), half);
}

#[test]
fn over_both_transparent_is_transparent() {
    // With both alphas zero the weighted sums cannot be divided by the
    // result alpha; the operator is defined to yield full transparency.
    assert_eq!(snaek::over(px(0, 1, 2, 3), px(0, 4, 5, 6)), px(0, 0, 0, 0));
}

#[test]
fn over_opaque_src_wins() {
    let a = px(255, 10, 20, 30);
    let b = px(255, 200, 200, 200);
    assert_eq!(snaek::over(a, b), a);
}

#[test]
fn add_is_saturating_and_monotone() {
    let a = px(200, 10, 255, 0);
    let b = px(100, 5, 1, 7);
    let s = snaek::add(a, b);
    assert_eq!(s, px(255, 15, 255, 7));
    for (ca, cb, cs) in [
        (a.a, b.a, s.a),
        (a.r, b.r, s.r),
        (a.g, b.g, s.g),
        (a.b, b.b, s.b),
    ] {
        assert!((cs >= ca && cs >= cb) || cs == 255);
    }
}

#[test]
fn alphacomp_apply_dispatches() {
    let a = px(0, 1, 2, 3);
    let b = px(50, 4, 5, 6);
    assert_eq!(AlphaComp::Over.apply(a, b), snaek::over(a, b));
    assert_eq!(AlphaComp::Add.apply(a, b), snaek::add(a, b));
}
