//! The compositor: sprite blits, nine-slice stretching, text, rectangles,
//! clipping, masks and rotation, checked pixel by pixel.

use snaek::{
    nine_slicing_sprite, pos, rect, size, sprite, AlphaComp, Bitmap, DrawCommand, Pixel, Renderer,
    Rotate,
};

/// An opaque packed pixel whose channels encode a coordinate, so any wrong
/// source lookup shows up as a wrong value.
fn coded(x: u32, y: u32) -> u32 {
    Pixel::new(255, (x as u8) + 1, (y as u8) + 1, 7).to_u32()
}

fn sheet(w: u32, h: u32) -> Bitmap {
    let mut buf = Vec::new();
    for y in 0..h {
        for x in 0..w {
            buf.push(coded(x, y));
        }
    }
    Bitmap::from_buffer(buf, size(w, h))
}

fn renderer(out_w: u32, out_h: u32) -> Renderer {
    // A tiny but well-formed font sheet: 16 x 8 one-pixel glyph cells.
    let font = sheet(16, 8);
    Renderer::new(Bitmap::new(size(out_w, out_h)), font)
}

#[test]
fn simple_sprite_blits_exactly_its_destination() {
    let mut r = renderer(16, 16);
    let id = r.register_spritesheet(sheet(16, 16));
    let cmds = vec![DrawCommand::SimpleSprite {
        sheet: id,
        sprite: sprite(2, 1, 8, 8),
        pos: pos(4, 4),
        rotate: Rotate::R0,
        mask: None,
        acf: AlphaComp::Over,
    }];
    r.draw(&cmds);
    let fb = r.framebuffer();
    for y in 0..16 {
        for x in 0..16 {
            let expected = if (4..12).contains(&x) && (4..12).contains(&y) {
                coded(2 + (x - 4), 1 + (y - 4))
            } else {
                0
            };
            assert_eq!(fb.get(x, y), expected, "pixel ({x},{y})");
        }
    }
}

#[test]
fn nine_slice_keeps_corners_unscaled() {
    let mut r = renderer(12, 12);
    let id = r.register_spritesheet(sheet(3, 3));
    let nss = nine_slicing_sprite(0, 0, 3, 3, 1, 1, 1, 1);
    let cmds = vec![DrawCommand::NineSlice {
        sheet: id,
        sprite: nss,
        rect: rect(0, 0, 10, 10),
        mask: None,
        acf: AlphaComp::Over,
    }];
    r.draw(&cmds);
    let fb = r.framebuffer();
    // The four 1x1 corners of the destination show the source corners.
    assert_eq!(fb.get(0, 0), coded(0, 0));
    assert_eq!(fb.get(9, 0), coded(2, 0));
    assert_eq!(fb.get(0, 9), coded(0, 2));
    assert_eq!(fb.get(9, 9), coded(2, 2));
    // The middle of an edge tiles the source's middle column or row.
    assert_eq!(fb.get(5, 0), coded(1, 0));
    assert_eq!(fb.get(0, 5), coded(0, 1));
    assert_eq!(fb.get(5, 5), coded(1, 1));
    // Outside the destination nothing was painted.
    assert_eq!(fb.get(11, 11), 0);
}

#[test]
fn rotation_quarter_turn_clockwise() {
    let mut r = renderer(4, 4);
    let id = r.register_spritesheet(sheet(2, 1));
    // A 2x1 strip rotated a quarter turn clockwise becomes a 1x2 column:
    // the left source pixel ends at the top, the right one at the bottom.
    let cmds = vec![DrawCommand::SimpleSprite {
        sheet: id,
        sprite: sprite(0, 0, 2, 1),
        pos: pos(0, 0),
        rotate: Rotate::R90,
        mask: None,
        acf: AlphaComp::Over,
    }];
    r.draw(&cmds);
    let fb = r.framebuffer();
    assert_eq!(fb.get(0, 0), coded(0, 0));
    assert_eq!(fb.get(0, 1), coded(1, 0));
    assert_eq!(fb.get(1, 0), 0);
}

#[test]
fn mask_replaces_rgb_and_keeps_alpha() {
    let mut r = renderer(1, 1);
    let mut buf = Vec::new();
    buf.push(Pixel::new(200, 10, 20, 30).to_u32());
    let id = r.register_spritesheet(Bitmap::from_buffer(buf, size(1, 1)));
    let cmds = vec![DrawCommand::SimpleSprite {
        sheet: id,
        sprite: sprite(0, 0, 1, 1),
        pos: pos(0, 0),
        rotate: Rotate::R0,
        mask: Some(Pixel::new(0, 1, 2, 3)),
        acf: AlphaComp::Over,
    }];
    r.draw(&cmds);
    // Masked source (200, 1, 2, 3) composited over transparency is itself.
    assert_eq!(r.framebuffer().get(0, 0), Pixel::new(200, 1, 2, 3).to_u32());
}

#[test]
fn filled_rect_clips_and_border_rings() {
    let mut r = renderer(4, 4);
    let red = Pixel::new(255, 255, 0, 0);
    let blue = Pixel::new(255, 0, 0, 255);
    let cmds = vec![
        // Overhangs the bitmap on two sides; only the overlap paints.
        DrawCommand::FilledRect { rect: rect(-2, -2, 4, 4), color: red, acf: AlphaComp::Over },
        // A one-pixel border around the whole bitmap.
        DrawCommand::Border { rect: rect(0, 0, 4, 4), stroke: 1, color: blue, acf: AlphaComp::Over },
    ];
    r.draw(&cmds);
    let fb = r.framebuffer();
    assert_eq!(fb.get(1, 1), red.to_u32());
    assert_eq!(fb.get(2, 2), 0);
    assert_eq!(fb.get(0, 0), blue.to_u32());
    assert_eq!(fb.get(3, 1), blue.to_u32());
    assert_eq!(fb.get(1, 3), blue.to_u32());
}

#[test]
fn fully_offscreen_commands_are_noops() {
    let mut r = renderer(4, 4);
    let red = Pixel::new(255, 255, 0, 0);
    let cmds = vec![DrawCommand::FilledRect {
        rect: rect(100, 100, 5, 5),
        color: red,
        acf: AlphaComp::Over,
    }];
    r.draw(&cmds);
    for y in 0..4 {
        for x in 0..4 {
            assert_eq!(r.framebuffer().get(x, y), 0);
        }
    }
}

#[test]
fn later_commands_paint_over_earlier_ones() {
    let mut r = renderer(2, 1);
    let red = Pixel::new(255, 255, 0, 0);
    let blue = Pixel::new(255, 0, 0, 255);
    let cmds = vec![
        DrawCommand::FilledRect { rect: rect(0, 0, 2, 1), color: red, acf: AlphaComp::Over },
        DrawCommand::FilledRect { rect: rect(1, 0, 1, 1), color: blue, acf: AlphaComp::Over },
    ];
    r.draw(&cmds);
    assert_eq!(r.framebuffer().get(0, 0), red.to_u32());
    assert_eq!(r.framebuffer().get(1, 0), blue.to_u32());
}

#[test]
fn clear_resets_to_transparency() {
    let mut r = renderer(2, 2);
    let red = Pixel::new(255, 255, 0, 0);
    let cmds = vec![
        DrawCommand::FilledRect { rect: rect(0, 0, 2, 2), color: red, acf: AlphaComp::Over },
        DrawCommand::Clear,
    ];
    r.draw(&cmds);
    for y in 0..2 {
        for x in 0..2 {
            assert_eq!(r.framebuffer().get(x, y), 0);
        }
    }
}

#[test]
fn text_draws_one_glyph_cell_per_byte() {
    // The font sheet is a 16x8 grid of 1x1 cells whose pixel encodes its
    // cell coordinate; byte 65 ('A') sits at column 1, row 4.
    let mut r = renderer(4, 1);
    let text = r.text("A!");
    assert_eq!(text.bytes, b"A!".to_vec());
    assert_eq!((text.glyph_w, text.glyph_h), (1, 1));
    let cmds = vec![DrawCommand::Text {
        text,
        pos: pos(0, 0),
        mask: None,
        acf: AlphaComp::Over,
    }];
    r.draw(&cmds);
    let fb = r.framebuffer();
    assert_eq!(fb.get(0, 0), coded(1, 4)); // 'A' = 0x41
    assert_eq!(fb.get(1, 0), coded(1, 2)); // '!' = 0x21
    assert_eq!(fb.get(2, 0), 0);
}

#[test]
fn add_operator_saturates_on_the_framebuffer() {
    let mut r = renderer(1, 1);
    let c = Pixel::new(200, 200, 1, 2);
    let cmds = vec![
        DrawCommand::FilledRect { rect: rect(0, 0, 1, 1), color: c, acf: AlphaComp::Add },
        DrawCommand::FilledRect { rect: rect(0, 0, 1, 1), color: c, acf: AlphaComp::Add },
    ];
    r.draw(&cmds);
    assert_eq!(r.framebuffer().get(0, 0), Pixel::new(255, 255, 2, 4).to_u32());
}
