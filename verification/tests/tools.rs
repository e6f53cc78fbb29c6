use anothercssspritelib::cli_args::{CliArgs, LogLevel};
use anothercssspritelib::encoding::{encoding_of_path, sheet_encoding, SheetEncoding};
use anothercssspritelib::error::SpriteError;
use anothercssspritelib::preview::{
    generate_html_preview, preview_from_rules, PreviewError, PAGE_HEAD, PAGE_STYLE,
};
use anothercssspritelib::source::SourceImage;
use anothercssspritelib::sprite::{Layout, Sprite};
use anothercssspritelib::utils::{has_png_extension, rename_files_with_prefix, FileName};

fn file(stem: &str, extension: &str) -> FileName {
    FileName { stem: stem.to_string(), extension: extension.to_string() }
}

fn page(css_path: &str, elements: &str) -> String {
    format!(
        "{}<link rel=\"stylesheet\" href=\"{}\"><style>{}</style></head><body><div class=\"container\">{}</div></body></html>",
        PAGE_HEAD, css_path, PAGE_STYLE, elements
    )
}

#[test]
fn webp_is_chosen_by_extension_in_any_case() {
    assert_eq!(sheet_encoding("webp"), SheetEncoding::LosslessWebp);
    assert_eq!(sheet_encoding("WEBP"), SheetEncoding::LosslessWebp);
    assert_eq!(sheet_encoding("WebP"), SheetEncoding::LosslessWebp);
    assert_eq!(sheet_encoding("png"), SheetEncoding::ByExtension);
    assert_eq!(sheet_encoding(""), SheetEncoding::ByExtension);
    assert_eq!(sheet_encoding("webp2"), SheetEncoding::ByExtension);
}

#[test]
fn encoding_follows_the_path() {
    assert_eq!(encoding_of_path("out/sprite.webp"), SheetEncoding::LosslessWebp);
    assert_eq!(encoding_of_path("sprite.WEBP"), SheetEncoding::LosslessWebp);
    assert_eq!(encoding_of_path("sprite.png"), SheetEncoding::ByExtension);
    assert_eq!(encoding_of_path("sprite"), SheetEncoding::ByExtension);
    assert_eq!(encoding_of_path("webp"), SheetEncoding::ByExtension);
}

#[test]
fn generated_files_carry_sheet_stylesheet_and_encoding() {
    let image = SourceImage::new("dot".to_string(), 1, 1, vec![9, 8, 7, 6]).unwrap();
    let sprite = Sprite::new(vec![image]);
    let files = sprite.generate_sprite_and_css("sheet.webp", Layout::Vertical).unwrap();
    assert_eq!(files.encoding, SheetEncoding::LosslessWebp);
    assert_eq!((files.sheet.width, files.sheet.height), (1, 1));
    assert_eq!(files.sheet.pixels, vec![9, 8, 7, 6]);
    assert_eq!(files.css, ".dot { background-position: 0px -0px; width: 1px; height: 1px; }\n");
    let png = sprite.generate_sprite_and_css("sheet.png", Layout::Horizontal).unwrap();
    assert_eq!(png.encoding, SheetEncoding::ByExtension);
    let none = Sprite::new(Vec::new());
    assert_eq!(none.generate_sprite_and_css("sheet.png", Layout::Packed), Err(SpriteError::EmptyInput));
}

#[test]
fn arguments_have_their_defaults() {
    let args = CliArgs::new("icons".to_string());
    assert_eq!(args.input, "icons");
    assert_eq!(args.output, "sprite.png");
    assert_eq!(args.css, "sprite.css");
    assert_eq!(args.layout, Layout::Vertical);
    assert!(args.minify_css);
    assert_eq!(args.verbose, 0);
}

#[test]
fn verbosity_sets_the_log_level() {
    let mut args = CliArgs::new("icons".to_string());
    assert_eq!(args.log_level(), LogLevel::Warn);
    args.verbose = 1;
    assert_eq!(args.log_level(), LogLevel::Info);
    args.verbose = 2;
    assert_eq!(args.log_level(), LogLevel::Debug);
    args.verbose = 3;
    assert_eq!(args.log_level(), LogLevel::Trace);
    args.verbose = 255;
    assert_eq!(args.log_level(), LogLevel::Trace);
}

#[test]
fn png_extension_in_any_case() {
    for ext in ["png", "PNG", "Png", "pNg", "pnG"] {
        assert!(has_png_extension(ext));
    }
    for ext in ["", "pn", "pngs", "jpg", "p\u{f1}g", "\u{212a}ng"] {
        assert!(!has_png_extension(ext));
    }
}

#[test]
fn matching_png_files_get_the_template_name() {
    let files = vec![
        file("icon1", "png"),
        file("photo", "png"),
        file("icon2", "PNG"),
        file("icon3", "jpg"),
        file("icon{}", "png"),
    ];
    let plan = rename_files_with_prefix(&files, "^icon", "ui-{}").unwrap();
    assert_eq!(
        plan,
        vec![
            Some("ui-icon1.png".to_string()),
            None,
            Some("ui-icon2.PNG".to_string()),
            None,
            Some("ui-icon{}.png".to_string()),
        ]
    );
}

#[test]
fn template_placeholders_are_all_replaced() {
    let files = vec![file("a", "png")];
    assert_eq!(rename_files_with_prefix(&files, "a", "{}{}-{}"), Some(vec![Some("aa-a.png".to_string())]));
    assert_eq!(rename_files_with_prefix(&files, "a", "fixed"), Some(vec![Some("fixed.png".to_string())]));
    assert_eq!(rename_files_with_prefix(&files, "a", "{{}}"), Some(vec![Some("{a}.png".to_string())]));
    assert_eq!(rename_files_with_prefix(&files, "b", "{}"), Some(vec![None]));
    assert_eq!(rename_files_with_prefix(&Vec::new(), "b", "{}"), Some(Vec::new()));
}

#[test]
fn an_invalid_pattern_gives_no_plan() {
    assert_eq!(rename_files_with_prefix(&vec![file("a", "png")], "foo(bar", "{}"), None);
    assert_eq!(rename_files_with_prefix(&Vec::new(), "[", "{}"), None);
}

#[test]
fn preview_shows_the_first_selector_of_each_style_rule() {
    let rules = vec![
        Some(vec![Some(".a".to_string())]),
        None,
        Some(vec![Some(".b".to_string()), Some(".c".to_string())]),
        Some(Vec::new()),
        Some(vec![Some("..  d e \t".to_string()), None]),
        Some(vec![Some("h1".to_string())]),
    ];
    assert_eq!(
        preview_from_rules("sprite.css", &rules),
        Ok(page(
            "sprite.css",
            "<div class=\"a\"></div><div class=\"b\"></div><div class=\"d e\"></div><div class=\"h1\"></div>"
        ))
    );
    assert_eq!(preview_from_rules("x.css", &Vec::new()), Ok(page("x.css", "")));
}

#[test]
fn preview_fails_on_a_first_selector_without_text() {
    let rules = vec![Some(vec![Some(".a".to_string())]), Some(vec![None, Some(".b".to_string())])];
    assert_eq!(preview_from_rules("sprite.css", &rules), Err(PreviewError::UnprintableSelector));
}

#[test]
fn preview_of_a_stylesheet() {
    let css = ".a { background-position: 0px -0px; width: 2px; height: 3px; }\n\
               .b, .c { width: 4px; }\n\
               @media print { .d { width: 1px; } }\n\
               #e > .f { height: 1px; }\n";
    assert_eq!(
        generate_html_preview("out/sprite.css", css),
        Ok(page(
            "out/sprite.css",
            "<div class=\"a\"></div><div class=\"b\"></div><div class=\"#e > .f\"></div>"
        ))
    );
    assert_eq!(generate_html_preview("s.css", ""), Ok(page("s.css", "")));
}

#[test]
fn preview_of_what_is_no_stylesheet() {
    assert_eq!(generate_html_preview("s.css", "..a { width: 1px; }"), Err(PreviewError::InvalidStylesheet));
}

#[test]
fn page_text_is_fixed() {
    assert_eq!(PAGE_HEAD, "<!DOCTYPE html><html><head><meta charset=\"utf-8\"><title>Preview</title>");
    assert!(PAGE_STYLE.starts_with("\n        body {\n            background-color: black;\n"));
    assert!(PAGE_STYLE.ends_with("            align-items: flex-start;\n        }\n    "));
    assert_eq!(PAGE_STYLE.lines().count(), 13);
}
