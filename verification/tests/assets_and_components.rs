//! PNG decoding into packed bitmaps, and the compound widgets.

use snaek::{
    nine_slicing_sprite, pos, size, sprite, AssetError, Mouse, Pixel, SpritesheetId, UiContext,
    WidgetFlags, WidgetKey, WidgetProps, WidgetSize, WidgetSprite,
};
use std::io::Cursor;

#[test]
fn png_decodes_into_packed_argb() {
    // A 2x1 image: an opaque red pixel and a half-transparent blue one.
    let mut img = image::RgbaImage::new(2, 1);
    img.put_pixel(0, 0, image::Rgba([255, 0, 0, 255]));
    img.put_pixel(1, 0, image::Rgba([0, 0, 255, 128]));
    let mut bytes: Vec<u8> = Vec::new();
    img.write_to(&mut Cursor::new(&mut bytes), image::ImageFormat::Png).unwrap();

    let bm = snaek::load_png_from_memory(&bytes).unwrap();
    assert_eq!((bm.width(), bm.height()), (2, 1));
    assert_eq!(bm.get(0, 0), Pixel::new(255, 255, 0, 0).to_u32());
    assert_eq!(bm.get(1, 0), Pixel::new(128, 0, 0, 255).to_u32());
}

#[test]
fn malformed_png_is_a_decode_error() {
    match snaek::load_png_from_memory(&[1, 2, 3, 4]) {
        Ok(_) => panic!("malformed bytes decoded"),
        Err(e) => assert_eq!(e, AssetError::Decode),
    }
}

fn digit_sprites() -> [snaek::Sprite; 10] {
    let mut out = [sprite(0, 0, 4, 6); 10];
    let mut i = 0;
    while i < 10 {
        out[i] = sprite(4 * (i as u32), 0, 4, 6);
        i += 1;
    }
    out
}

#[test]
fn big_3digits_display_builds_three_cells() {
    let mut ui = UiContext::new(size(100, 100));
    let root = ui.build_widget(WidgetProps::new(WidgetKey::new(0)).with_size(WidgetSize::fill()));
    let sheet = SpritesheetId(0);
    let display = ui.big_3digits_display(
        WidgetKey::new(10),
        207,
        sheet,
        nine_slicing_sprite(0, 8, 3, 3, 1, 1, 1, 1),
        sprite(40, 0, 4, 6),
        &digit_sprites(),
    );
    ui.add_child(root.id(), display.id());
    assert!(ui.has_widget(display.id()));
    // Three placeholder cells under the display.
    assert_eq!(ui.widget(display.id()).children.len(), 3);
    // 207 shows all three digits: each cell holds one digit child.
    for c in ui.widget(display.id()).children.clone() {
        assert_eq!(ui.widget(c).children.len(), 1);
    }
}

#[test]
fn big_3digits_display_blanks_leading_zeros() {
    let mut ui = UiContext::new(size(100, 100));
    let sheet = SpritesheetId(0);
    let display = ui.big_3digits_display(
        WidgetKey::new(10),
        7,
        sheet,
        nine_slicing_sprite(0, 8, 3, 3, 1, 1, 1, 1),
        sprite(40, 0, 4, 6),
        &digit_sprites(),
    );
    let cells = ui.widget(display.id()).children.clone();
    assert_eq!(cells.len(), 3);
    assert_eq!(ui.widget(cells[0]).children.len(), 0);
    assert_eq!(ui.widget(cells[1]).children.len(), 0);
    assert_eq!(ui.widget(cells[2]).children.len(), 1);
}

#[test]
fn time_display_builds_digits_and_colons() {
    let mut ui = UiContext::new(size(100, 100));
    let sheet = SpritesheetId(0);
    // 1 minute, 23.456 seconds.
    let display = ui.time_display(
        WidgetKey::new(10),
        83_456,
        sheet,
        nine_slicing_sprite(0, 8, 3, 3, 1, 1, 1, 1),
        sprite(44, 0, 2, 6),
        &digit_sprites(),
    );
    // mm, colon, ss, colon, mmm: 4 + 2 + 3 = 9 children.
    assert_eq!(ui.widget(display.id()).children.len(), 9);
}

#[test]
fn btn_box_swaps_sprite_while_pressed() {
    let mut ui = UiContext::new(size(100, 100));
    let normal = WidgetSprite::NineSlice(SpritesheetId(0), nine_slicing_sprite(0, 0, 3, 3, 1, 1, 1, 1));
    let hover = WidgetSprite::NineSlice(SpritesheetId(0), nine_slicing_sprite(3, 0, 3, 3, 1, 1, 1, 1));

    let build_frame = |ui: &mut UiContext| {
        let root = ui.build_widget(
            WidgetProps::new(WidgetKey::new(0)).with_size(WidgetSize::fill()).with_flags(
                WidgetFlags::none(),
            ),
        );
        let label = ui.build_widget(WidgetProps::new(WidgetKey::new(5)).with_size(
            WidgetSize::fixed(4, 4),
        ));
        let btn = ui.btn_box(
            WidgetProps::new(WidgetKey::new(6)).with_size(WidgetSize::fill()),
            normal,
            hover,
            label.id(),
        );
        ui.add_child(root.id(), btn.id());
        btn
    };

    let btn = build_frame(&mut ui);
    ui.solve_layout();
    ui.free_untouched_widgets();
    assert_eq!(ui.widget(btn.id()).props.sprite, Some(normal));
    let mut m = Mouse::new();
    m.pos = Some(pos(50, 50));
    m.l_pressed = (true, false);
    ui.react(&m);

    // Next frame the button is pressed and hovered, so it shows the hover
    // panel and nudges itself.
    let btn = build_frame(&mut ui);
    assert!(btn.pressed());
    assert_eq!(ui.widget(btn.id()).props.sprite, Some(hover));
    assert_eq!(ui.widget(btn.id()).props.draw_offset, pos(1, 1));
}

#[test]
fn btn_icon_recolors_while_hovered() {
    let mut ui = UiContext::new(size(100, 100));
    let hover_color = Pixel::new(255, 1, 2, 3);
    let build_frame = |ui: &mut UiContext| {
        ui.btn_icon(
            WidgetProps::new(WidgetKey::new(0)).with_size(WidgetSize::fill()),
            WidgetProps::simple_sprite(WidgetKey::new(1), SpritesheetId(0), sprite(0, 0, 4, 4)),
            hover_color,
        )
    };
    let btn = build_frame(&mut ui);
    assert!(!btn.hovered());
    ui.solve_layout();
    ui.free_untouched_widgets();
    let mut m = Mouse::new();
    m.pos = Some(pos(10, 10));
    ui.react(&m);

    let btn = build_frame(&mut ui);
    assert!(btn.hovered());
    assert_eq!(ui.widget(btn.id()).props.color, hover_color);
}
