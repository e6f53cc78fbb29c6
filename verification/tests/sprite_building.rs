use anothercssspritelib::canvas::{compose, SpriteSheet};
use anothercssspritelib::error::SpriteError;
use anothercssspritelib::geometry::{CanvasSize, PlacementRecord};
use anothercssspritelib::source::SourceImage;
use anothercssspritelib::sprite::{canvas_fits, Layout, Sprite};
use anothercssspritelib::stylesheet::{css_rule, push_decimal, stylesheet};

fn filled(name: &str, width: u32, height: u32, seed: u8) -> SourceImage {
    let bytes = 4 * (width as usize) * (height as usize);
    let pixels: Vec<u8> = (0..bytes).map(|k| seed.wrapping_add((k % 251) as u8)).collect();
    SourceImage::new(name.to_string(), width, height, pixels).unwrap()
}

fn pixel(sheet: &SpriteSheet, x: u32, y: u32) -> [u8; 4] {
    let at = 4 * (y as usize * sheet.width as usize + x as usize);
    [sheet.pixels[at], sheet.pixels[at + 1], sheet.pixels[at + 2], sheet.pixels[at + 3]]
}

fn source_pixel(img: &SourceImage, x: u32, y: u32) -> [u8; 4] {
    let at = 4 * (y as usize * img.width() as usize + x as usize);
    let p = img.pixels();
    [p[at], p[at + 1], p[at + 2], p[at + 3]]
}

fn record(name: &str, x: u32, y: u32, width: u32, height: u32) -> PlacementRecord {
    PlacementRecord { identifier: name.to_string(), offset_x: x, offset_y: y, width, height }
}

fn assert_shows(sheet: &SpriteSheet, img: &SourceImage, at_x: u32, at_y: u32) {
    for y in 0..img.height() {
        for x in 0..img.width() {
            assert_eq!(pixel(sheet, at_x + x, at_y + y), source_pixel(img, x, y));
        }
    }
}

#[test]
fn vertical_sprite_shows_every_image_and_blank_elsewhere() {
    let a = filled("a", 2, 3, 10);
    let b = filled("b", 4, 1, 90);
    let sprite = Sprite::new(vec![a.clone(), b.clone()]);
    assert!(sprite.can_build(Layout::Vertical));
    let (sheet, css) = sprite.build_vertical().unwrap();
    assert_eq!((sheet.width, sheet.height), (4, 4));
    assert_eq!(sheet.pixels.len(), 64);
    assert_shows(&sheet, &a, 0, 0);
    assert_shows(&sheet, &b, 0, 3);
    for y in 0..3 {
        for x in 2..4 {
            assert_eq!(pixel(&sheet, x, y), [0, 0, 0, 0]);
        }
    }
    assert_eq!(
        css,
        ".a { background-position: 0px -0px; width: 2px; height: 3px; }\n\
         .b { background-position: 0px -3px; width: 4px; height: 1px; }\n"
    );
}

#[test]
fn horizontal_sprite_shows_every_image() {
    let a = filled("a", 2, 3, 10);
    let b = filled("b", 4, 1, 90);
    let sprite = Sprite::new(vec![a.clone(), b.clone()]);
    let (sheet, css) = sprite.build_horizontal().unwrap();
    assert_eq!((sheet.width, sheet.height), (6, 3));
    assert_shows(&sheet, &a, 0, 0);
    assert_shows(&sheet, &b, 2, 0);
    for y in 1..3 {
        for x in 2..6 {
            assert_eq!(pixel(&sheet, x, y), [0, 0, 0, 0]);
        }
    }
    assert_eq!(
        css,
        ".a { background-position: -0px 0px; width: 2px; height: 3px; }\n\
         .b { background-position: -2px 0px; width: 4px; height: 1px; }\n"
    );
}

#[test]
fn packed_sprite_is_cut_to_the_rows_in_use() {
    let a = filled("a", 100, 100, 1);
    let b = filled("b", 100, 100, 77);
    let c = filled("c", 100, 100, 200);
    let sprite = Sprite::new(vec![a.clone(), b.clone(), c.clone()]);
    assert!(sprite.can_build(Layout::Packed));
    assert_eq!(sprite.estimate_bin_size(), (512, 512));
    let (sheet, css) = sprite.build_packed().unwrap();
    assert_eq!((sheet.width, sheet.height), (512, 100));
    assert_eq!(sheet.pixels.len(), 4 * 512 * 100);
    assert_shows(&sheet, &a, 0, 0);
    assert_shows(&sheet, &b, 100, 0);
    assert_shows(&sheet, &c, 200, 0);
    for y in [0u32, 50, 99] {
        for x in [300u32, 400, 511] {
            assert_eq!(pixel(&sheet, x, y), [0, 0, 0, 0]);
        }
    }
    assert_eq!(
        css,
        ".a { background-position: -0px -0px; width: 100px; height: 100px; }\n\
         .b { background-position: -100px -0px; width: 100px; height: 100px; }\n\
         .c { background-position: -200px -0px; width: 100px; height: 100px; }\n"
    );
}

#[test]
fn packed_sprite_with_two_rows() {
    let a = filled("a", 300, 20, 5);
    let b = filled("b", 300, 10, 50);
    let sprite = Sprite::new(vec![a.clone(), b.clone()]);
    let (sheet, _) = sprite.build_sprite(Layout::Packed).unwrap();
    assert_eq!((sheet.width, sheet.height), (512, 30));
    assert_shows(&sheet, &a, 0, 0);
    assert_shows(&sheet, &b, 0, 20);
}

#[test]
fn build_sprite_follows_the_chosen_strategy() {
    let sprite = Sprite::new(vec![filled("a", 2, 3, 10), filled("b", 4, 1, 90)]);
    assert_eq!(sprite.build_sprite(Layout::Vertical), sprite.build_vertical());
    assert_eq!(sprite.build_sprite(Layout::Horizontal), sprite.build_horizontal());
    assert_eq!(sprite.build_sprite(Layout::Packed), sprite.build_packed());
    assert_eq!(sprite.layout(Layout::Vertical).unwrap().canvas, CanvasSize { width: 4, height: 4 });
    assert_eq!(sprite.layout(Layout::Horizontal).unwrap().canvas, CanvasSize { width: 6, height: 3 });
    assert_eq!(sprite.layout(Layout::Packed).unwrap().canvas, CanvasSize { width: 512, height: 3 });
}

#[test]
fn building_fails_as_the_layout_does() {
    let empty = Sprite::new(Vec::new());
    for layout in [Layout::Vertical, Layout::Horizontal, Layout::Packed] {
        assert!(empty.can_build(layout));
        assert_eq!(empty.build_sprite(layout), Err(SpriteError::EmptyInput));
    }
    assert_eq!(empty.build_vertical(), Err(SpriteError::EmptyInput));
    assert_eq!(empty.build_horizontal(), Err(SpriteError::EmptyInput));
    assert_eq!(empty.build_packed(), Err(SpriteError::EmptyInput));
    let flat = Sprite::new(vec![filled("a", 3, 0, 0)]);
    assert_eq!(flat.build_vertical(), Err(SpriteError::DegenerateCanvas));
    assert_eq!(flat.build_horizontal(), Err(SpriteError::DegenerateCanvas));
    assert_eq!(flat.build_packed(), Err(SpriteError::PackingFailed("a".to_string())));
}

#[test]
fn compose_overwrites_in_order() {
    let a = filled("a", 2, 2, 10);
    let b = filled("b", 2, 2, 120);
    let images = vec![a.clone(), b.clone()];
    let placements = vec![record("a", 0, 0, 2, 2), record("b", 1, 1, 2, 2)];
    let sheet = compose(CanvasSize { width: 3, height: 3 }, &placements, &images).unwrap();
    assert_eq!(pixel(&sheet, 0, 0), source_pixel(&a, 0, 0));
    assert_eq!(pixel(&sheet, 1, 0), source_pixel(&a, 1, 0));
    assert_eq!(pixel(&sheet, 0, 1), source_pixel(&a, 0, 1));
    assert_shows(&sheet, &b, 1, 1);
    assert_eq!(pixel(&sheet, 2, 0), [0, 0, 0, 0]);
    assert_eq!(pixel(&sheet, 0, 2), [0, 0, 0, 0]);
}

#[test]
fn compose_rejects_a_placement_beyond_the_canvas() {
    let images = vec![filled("a", 2, 2, 10)];
    let canvas = CanvasSize { width: 3, height: 3 };
    assert!(compose(canvas, &vec![record("a", 1, 1, 2, 2)], &images).is_ok());
    assert_eq!(compose(canvas, &vec![record("a", 2, 1, 2, 2)], &images), Err(SpriteError::CopyOutOfBounds));
    assert_eq!(compose(canvas, &vec![record("a", 1, 2, 2, 2)], &images), Err(SpriteError::CopyOutOfBounds));
    assert_eq!(
        compose(canvas, &vec![record("a", u32::MAX, 0, 2, 2)], &images),
        Err(SpriteError::CopyOutOfBounds)
    );
    let small = CanvasSize { width: 1, height: 5 };
    assert_eq!(compose(small, &vec![record("a", 0, 0, 2, 2)], &images), Err(SpriteError::CopyOutOfBounds));
}

#[test]
fn compose_of_nothing_is_a_blank_canvas() {
    let sheet = compose(CanvasSize { width: 2, height: 3 }, &Vec::new(), &Vec::new()).unwrap();
    assert_eq!(sheet, SpriteSheet { width: 2, height: 3, pixels: vec![0u8; 24] });
}

#[test]
fn rules_negate_the_offsets() {
    let r = record("icon-home", 12, 345, 6, 7890);
    assert_eq!(
        css_rule(Layout::Packed, &r),
        ".icon-home { background-position: -12px -345px; width: 6px; height: 7890px; }\n"
    );
    assert_eq!(
        css_rule(Layout::Vertical, &r),
        ".icon-home { background-position: 0px -345px; width: 6px; height: 7890px; }\n"
    );
    assert_eq!(
        css_rule(Layout::Horizontal, &r),
        ".icon-home { background-position: -12px 0px; width: 6px; height: 7890px; }\n"
    );
}

#[test]
fn rules_pass_identifiers_through() {
    let r = record("not a class{}", 0, 0, 1, 1);
    assert_eq!(
        css_rule(Layout::Packed, &r),
        ".not a class{} { background-position: -0px -0px; width: 1px; height: 1px; }\n"
    );
    assert_eq!(stylesheet(Layout::Packed, &Vec::new()), "");
    let both = vec![record("a", 1, 2, 3, 4), record("b", 5, 6, 7, 8)];
    assert_eq!(
        stylesheet(Layout::Packed, &both),
        format!("{}{}", css_rule(Layout::Packed, &both[0]), css_rule(Layout::Packed, &both[1]))
    );
}

#[test]
fn decimal_digits_match_the_standard_formatting() {
    for n in [0u32, 1, 9, 10, 11, 99, 100, 101, 4095, 65536, 1234567890, u32::MAX] {
        let mut text = String::from("n=");
        push_decimal(&mut text, n);
        assert_eq!(text, format!("n={}", n));
    }
}

#[test]
fn limits_are_tested_before_building() {
    assert!(canvas_fits(0, u32::MAX));
    assert!(canvas_fits(1000, 1000));
    assert_eq!(canvas_fits(u32::MAX, u32::MAX), false);
    let wide = Sprite::new(vec![
        SourceImage::new("a".to_string(), u32::MAX, 0, Vec::new()).unwrap(),
        SourceImage::new("b".to_string(), 1, 0, Vec::new()).unwrap(),
    ]);
    assert!(wide.can_place(Layout::Vertical));
    assert!(!wide.can_place(Layout::Horizontal));
    assert!(!wide.can_build(Layout::Horizontal));
    assert!(!wide.can_place(Layout::Packed));
    let tall = Sprite::new(vec![
        SourceImage::new("a".to_string(), 0, u32::MAX, Vec::new()).unwrap(),
        SourceImage::new("b".to_string(), 0, 1, Vec::new()).unwrap(),
    ]);
    assert!(!tall.can_place(Layout::Vertical));
    assert!(tall.can_place(Layout::Horizontal));
    assert!(tall.can_place(Layout::Packed));
    assert_eq!(tall.build_horizontal(), Err(SpriteError::DegenerateCanvas));
}

#[test]
fn an_image_without_pixels_changes_nothing_on_the_sheet() {
    let a = filled("a", 2, 2, 10);
    let gap = SourceImage::new("gap".to_string(), 0, 0, Vec::new()).unwrap();
    let b = filled("b", 1, 3, 60);
    let sprite = Sprite::new(vec![a.clone(), gap, b.clone()]);
    let (sheet, css) = sprite.build_vertical().unwrap();
    assert_eq!((sheet.width, sheet.height), (2, 5));
    assert_shows(&sheet, &a, 0, 0);
    assert_shows(&sheet, &b, 0, 2);
    assert_eq!(css.lines().nth(1), Some(".gap { background-position: 0px -2px; width: 0px; height: 0px; }"));
    let (across, _) = sprite.build_horizontal().unwrap();
    assert_eq!((across.width, across.height), (3, 3));
    assert_shows(&across, &a, 0, 0);
    assert_shows(&across, &b, 2, 0);
}

#[test]
fn errors_say_what_went_wrong() {
    assert_eq!(SpriteError::EmptyInput.message(), "No images found in input directory");
    assert_eq!(SpriteError::DegenerateCanvas.message(), "Invalid sprite dimensions");
    assert_eq!(SpriteError::PackingFailed("logo".to_string()).message(), "Failed to pack image 'logo'");
    assert_eq!(SpriteError::CopyOutOfBounds.message(), "Copy failed");
}
