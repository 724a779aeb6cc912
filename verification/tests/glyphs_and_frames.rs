use geode::commands::indexer_path;
use geode::fonts::{outlined_font_charset, CharsetError};
use geode::freshness::{check_json_different_or_file_later, settings_key};
use geode::glyphs::{edge_pixels, glyph_texture_size, is_edge_pixel, point_in_circle, smooth_outline};
use geode::json::Json;
use geode::modinfo::{parse_resources, ModInfoErrorKind};
use geode::profiles::is_valid_geode_dir;
use geode::resources::find_build_directory;
use geode::sdk::format_env;
use geode::sheets::{frame_names, packed_frame, sheet_frame_fits, sheet_metadata, FrameRect, SpriteFile};
use std::path::Path;

fn dot() -> Vec<u8> {
    vec![0, 0, 0, 0, 255, 0, 0, 0, 0]
}

#[test]
fn circle_is_open() {
    assert!(!point_in_circle(3, 4, 5));
    assert!(point_in_circle(3, 4, 6));
    assert!(point_in_circle(-1, -1, 2));
    assert!(!point_in_circle(0, 0, 0));
    assert!(point_in_circle(0, 0, 1));
}

#[test]
fn texture_has_room_for_outline_and_shadow() {
    assert_eq!(glyph_texture_size(10, 20, 0), (10, 20));
    assert_eq!(glyph_texture_size(10, 20, 1), (10, 20));
    assert_eq!(glyph_texture_size(10, 20, 3), (18, 28));
    assert_eq!(glyph_texture_size(10, 20, 4), (22, 32));
}

#[test]
fn edge_of_a_single_dot() {
    let b = dot();
    let on: Vec<bool> = (0..9).map(|ix| is_edge_pixel(&b, 3, 3, ix)).collect();
    assert_eq!(on, vec![false, true, false, true, true, true, false, true, false]);
    assert_eq!(edge_pixels(&b, 3, 3), vec![(0, 1), (1, 0), (1, 1), (1, 2), (2, 1)]);
}

#[test]
fn edge_pixel_wraps_to_next_row() {
    // The pixel after the last of a row is the first of the next one.
    let b = vec![0, 0, 255, 0, 0, 0];
    assert!(is_edge_pixel(&b, 3, 2, 3));
    assert!(!is_edge_pixel(&b, 3, 2, 4));
}

#[test]
fn empty_bitmap_has_no_edge() {
    assert!(edge_pixels(&vec![], 0, 0).is_empty());
    assert!(edge_pixels(&vec![0; 6], 3, 2).is_empty());
}

#[test]
fn outline_is_smoothed() {
    assert_eq!(smooth_outline(&dot(), 3, 3), vec![0, 31, 0, 31, 127, 31, 0, 31, 0]);
    assert_eq!(smooth_outline(&vec![255; 4], 2, 2), vec![189, 189, 189, 189]);
}

#[test]
fn outlined_charset_ranges_exclude_their_end() {
    assert_eq!(outlined_font_charset(&Some("65-68".to_string())), Ok(vec!['A', 'B', 'C']));
    assert_eq!(outlined_font_charset(&Some("65".to_string())), Ok(vec![]));
    assert_eq!(outlined_font_charset(&Some("65-67,97-99".to_string())), Ok(vec!['A', 'B', 'a', 'b']));
    let default = outlined_font_charset(&None).ok().unwrap();
    assert_eq!(default.len(), 94);
    assert_eq!(default[0], ' ');
    assert_eq!(default[93], '}');
}

#[test]
fn outlined_charset_errors() {
    assert_eq!(outlined_font_charset(&Some("1-2-3".to_string())), Err(CharsetError::TooManyDashes));
    assert_eq!(outlined_font_charset(&Some("a-b".to_string())), Err(CharsetError::NotANumber));
    assert_eq!(outlined_font_charset(&Some("65-".to_string())), Err(CharsetError::NotANumber));
    assert_eq!(outlined_font_charset(&Some("55295-55297".to_string())), Err(CharsetError::NotACharacter));
    assert_eq!(outlined_font_charset(&Some("x,1-2-3".to_string())), Err(CharsetError::NotANumber));
}

#[test]
fn launch_agent_names_the_sdk() {
    let text = format_env("/Users/me/sdk");
    let expected = "\n\t\t<?xml version=\"1.0\" encoding=\"UTF-8\"?>\n\n\t\t<!DOCTYPE plist PUBLIC \"-//Apple//DTD PLIST 1.0//EN\" \"http://www.apple.com/DTDs/PropertyList-1.0.dtd\">\n\n\t\t<plist version=\"1.0\">\n\t\t<dict>\n\t\t    <key>Label</key>\n\t\t    <string>com.geode-sdk.env</string>\n\t\t    <key>ProgramArguments</key>\n\t\t    <array>\n\t\t    <string>sh</string>\n\t\t    <string>-c</string>\n\t\t    <string>launchctl setenv GEODE_SDK /Users/me/sdk</string>\n\t\t    </array>\n\t\t    <key>RunAtLoad</key>\n\t\t    <true/>\n\t\t</dict>\n\t\t</plist>\n\t\t";
    assert_eq!(text, expected);
}

#[test]
fn build_folder_and_indexer_paths() {
    let root = "/work/mod".to_string();
    assert_eq!(
        find_build_directory(&root, true),
        Some(Path::new("/work/mod").join("build").to_string_lossy().into_owned())
    );
    assert_eq!(find_build_directory(&root, false), None);
    assert_eq!(indexer_path(&"/data/Geode".to_string()), Path::new("/data/Geode").join("indexer").to_string_lossy());
    assert!(is_valid_geode_dir(&"/anything".to_string()));
}

#[test]
fn font_settings_freshness() {
    assert_eq!(settings_key("font"), "font_json");
    assert!(!check_json_different_or_file_later(false, None, None, 3));
    assert!(check_json_different_or_file_later(true, None, Some(9), 3));
    assert!(check_json_different_or_file_later(true, Some(false), Some(5), 3));
    assert!(!check_json_different_or_file_later(true, Some(true), Some(5), 5));
    assert!(check_json_different_or_file_later(true, Some(true), Some(5), 6));
    assert!(check_json_different_or_file_later(true, Some(true), None, 1));
}

fn file(stem: &str, readable: bool) -> SpriteFile {
    SpriteFile { stem: stem.to_string(), readable }
}

#[test]
fn frame_names_drop_suffixes_and_skip_unreadable() {
    let files = vec![file("a-uhd", true), file("b", false), file("c-hd", true), file("d", true), file("e-hd", false)];
    let (names, at, count) = frame_names(&files).ok().unwrap();
    assert_eq!(names, vec!["a.png", "c.png", "d.png"]);
    assert_eq!(at, vec![0, 2, 3]);
    assert_eq!(count, 3);
}

#[test]
fn frame_names_refuse_duplicates() {
    assert_eq!(frame_names(&vec![file("a-uhd", true), file("a", true)]).err(), Some("a.png".to_string()));
    let (names, _, _) = frame_names(&vec![file("a", true), file("a", false)]).ok().unwrap();
    assert_eq!(names, vec!["a.png"]);
}

#[test]
fn packed_frame_entry_texts() {
    let f = packed_frame(FrameRect { x: 1, y: 2, w: 3, h: 4 }, FrameRect { x: 5, y: 6, w: 7, h: 8 }, false);
    assert_eq!(f.sprite_size, "{3, 4}");
    assert_eq!(f.sprite_source_size, "{7, 8}");
    assert_eq!(f.texture_rect, "{{1, 2}, {3, 4}}");
    assert_eq!(f.sprite_offset, "{5, -6}");
    assert!(!f.texture_rotated);
}

#[test]
fn resources_member_is_read() {
    let res = Json::Object(vec![(
        "raw".to_string(),
        Json::Array(vec![Json::Str("a.txt".to_string()), Json::Str("/abs/b.txt".to_string())]),
    )]);
    let r = parse_resources(&res, &"/m".to_string()).ok().unwrap();
    assert_eq!(r.raw, vec![Path::new("/m").join("a.txt").to_string_lossy().into_owned(), "/abs/b.txt".to_string()]);
    assert!(r.files.is_empty());

    let bad = Json::Object(vec![("x".to_string(), Json::Null)]);
    let e = parse_resources(&bad, &"/m".to_string()).err().unwrap();
    assert_eq!(e.kind, ModInfoErrorKind::UnknownResourceKey);
    assert_eq!(e.key, "x");

    assert!(parse_resources(&Json::Null, &"/m".to_string()).ok().unwrap().raw.is_empty());
}

#[test]
fn sheet_metadata_and_frame_range() {
    let (name, size) = sheet_metadata("me.mod", "sheet-hd.png", 512, 256);
    assert_eq!(name, "me.mod/sheet-hd.png");
    assert_eq!(size, "{512,256}");
    let small = FrameRect { x: 0, y: 0, w: 10, h: 20 };
    let source = FrameRect { x: 3, y: 4, w: 10, h: 20 };
    assert!(sheet_frame_fits(false, small, source));
    let far = FrameRect { x: i32::MAX as u32, y: 0, w: 10, h: 20 };
    assert!(!sheet_frame_fits(false, small, far));
    let edge = FrameRect { x: i32::MAX as u32 - 5, y: 0, w: 10, h: 20 };
    assert!(sheet_frame_fits(false, small, edge));
    assert!(!sheet_frame_fits(true, small, edge));
}
