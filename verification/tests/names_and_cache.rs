use geode::naming::{update_suffix, sheet_name, PackResult, sanitize_project_name, get_bool, get_index_url};
use geode::cache::{hash_sheet, hash_font, BitmapFont, ResourceCache, CacheMap};
use geode::color::Color;
use geode::bundles::{SheetBundles, FontBundles};
use geode::order::sort_strings;

#[test]
fn update_suffix_replaces_resolution_suffix() {
    let mut a = "button-uhd".to_string();
    assert!(update_suffix(&mut a, "-hd"));
    assert_eq!(a, "button-hd.png");
    let mut b = "button-hd".to_string();
    assert!(update_suffix(&mut b, ""));
    assert_eq!(b, "button.png");
    let mut c = "button".to_string();
    assert!(!update_suffix(&mut c, "-uhd"));
    assert_eq!(c, "button-uhd.png");
}

#[test]
fn sheet_names_default_to_spritesheet() {
    assert_eq!(sheet_name(&None, "-hd"), "spritesheet-hd");
    assert_eq!(sheet_name(&Some("mysheet".to_string()), ""), "mysheet");
}

#[test]
fn pack_result_merge_appends_files() {
    let mut a = PackResult { suffix_removals: 2, created_files: vec!["a.plist".to_string()] };
    let b = PackResult { suffix_removals: 5, created_files: vec!["b.plist".to_string(), "c.plist".to_string()] };
    a.merge(&b);
    assert_eq!(a.created_files, vec!["a.plist", "b.plist", "c.plist"]);
    assert_eq!(a.suffix_removals, 2);
}

#[test]
fn sanitize_names() {
    assert_eq!(sanitize_project_name("  My Cool-Mod!! "), "My_Cool-Mod");
    assert_eq!(sanitize_project_name("***"), "mod");
    assert_eq!(sanitize_project_name("9 lives.v2"), "9_lives.v2");
}

#[test]
fn bool_answers() {
    assert_eq!(get_bool("YES"), Some(true));
    assert_eq!(get_bool("y"), Some(true));
    assert_eq!(get_bool("True"), Some(true));
    assert_eq!(get_bool("No"), Some(false));
    assert_eq!(get_bool("n"), Some(false));
    assert_eq!(get_bool("false"), Some(false));
    assert_eq!(get_bool("maybe"), None);
    assert_eq!(get_bool(""), None);
}

#[test]
fn index_url_joins_with_one_slash() {
    assert_eq!(get_index_url("/v1/mods", "https://api.geode-sdk.org/"), "https://api.geode-sdk.org/v1/mods");
    assert_eq!(get_index_url("v1/me", "https://x.org"), "https://x.org/v1/me");
    assert_eq!(get_index_url("//a", "b//"), "b/a");
}

#[test]
fn sort_strings_orders_lexically() {
    let v = sort_strings(vec!["b".to_string(), "a".to_string(), "ab".to_string()]);
    assert_eq!(v, vec!["a", "ab", "b"]);
}

#[test]
fn sheet_hash_digests_sorted_concatenation() {
    assert_eq!(
        hash_sheet(vec!["b".to_string(), "a".to_string()]),
        "fb8e20fc2e4c3f248c60c39bd652f3c1347298bb977b8b4d5903b85055620603"
    );
    assert_eq!(hash_sheet(vec![]), "e3b0c44298fc1c149afbf4c8996fb92427ae41e4649b934ca495991b7852b855");
}

#[test]
fn sheet_hash_law_order_independent() {
    let a = hash_sheet(vec!["x1".to_string(), "y2".to_string(), "z3".to_string()]);
    let b = hash_sheet(vec!["z3".to_string(), "x1".to_string(), "y2".to_string()]);
    assert_eq!(a, b);
}

#[test]
fn font_hash_joins_fields() {
    let f = BitmapFont {
        name: "f".to_string(),
        path: "f.ttf".to_string(),
        charset: Some("32-126".to_string()),
        size: 16,
        outline: 2,
        color: Color::white(),
    };
    assert_eq!(hash_font(&f, &"abc".to_string()), "2d4fae815d0196ef290d44972d798d8093bcba13bb2d235e479a98d816d1d8d2");
    let g = BitmapFont { charset: None, outline: 0, ..f };
    assert_eq!(hash_font(&g, &"d".to_string()), "dbc1710434006886ba22034b12d707f01515110f1d9795317bdd42d5521e7e57");
}

#[test]
fn cache_law_fetch_after_add() {
    let mut c = ResourceCache::new();
    assert!(c.fetch_spritesheet_bundles(&"k".to_string()).is_none());
    c.add_sheet("k".to_string(), "sheets/a.png".to_string());
    c.add_sheet("j".to_string(), "sheets/b.png".to_string());
    c.add_sheet("k".to_string(), "sheets/c.png".to_string());
    assert_eq!(c.fetch_spritesheet_bundles(&"k".to_string()).unwrap(), "sheets/c.png");
    assert_eq!(c.fetch_spritesheet_bundles(&"j".to_string()).unwrap(), "sheets/b.png");
    assert!(c.fetch_font_bundles(&"k".to_string()).is_none());
    c.add_font("k".to_string(), "fonts/f.png".to_string());
    assert_eq!(c.fetch_font_bundles(&"k".to_string()).unwrap(), "fonts/f.png");
}

#[test]
fn cache_refuses_absolute_paths() {
    let mut c = ResourceCache::new();
    assert!(!c.try_add_sheet("k".to_string(), "/abs/a.png".to_string()));
    assert!(c.fetch_spritesheet_bundles(&"k".to_string()).is_none());
    assert!(c.try_add_font("k".to_string(), "rel/a.png".to_string()));
    assert!(!c.try_add_font("m".to_string(), "/abs".to_string()));
}

#[test]
fn cache_map_from_pairs_later_wins() {
    let m = CacheMap::from_pairs(vec![
        ("a".to_string(), "1".to_string()),
        ("b".to_string(), "2".to_string()),
        ("a".to_string(), "3".to_string()),
    ]);
    assert_eq!(m.get(&"a".to_string()).unwrap(), "3");
    assert_eq!(m.get(&"b".to_string()).unwrap(), "2");
    assert_eq!(m.entries().len(), 2);
}

#[test]
fn sheet_bundle_names() {
    let b = SheetBundles::new("out/sheet".to_string());
    assert_eq!(b.sd.png, "out/sheet.png");
    assert_eq!(b.hd.png, "out/sheet-hd.png");
    assert_eq!(b.uhd.png, "out/sheet-uhd.png");
    assert_eq!(b.uhd.plist, "out/sheet-uhd.plist");
    assert_eq!(b.cache_name(&"/work".to_string()), "out/sheet.png");
    let abs = SheetBundles::new("/work/dir/s.png".to_string());
    assert_eq!(abs.cache_name(&"/work".to_string()), "dir/s.png");
    assert_eq!(abs.try_cache_name(&"/elsewhere".to_string()), None);
}

#[test]
fn font_bundle_names() {
    let b = FontBundles::new("fonts/big.fnt".to_string());
    assert_eq!(b.sd.png, "fonts/big.png");
    assert_eq!(b.sd.fnt, "fonts/big.fnt");
    assert_eq!(b.hd.fnt, "fonts/big-hd.fnt");
    assert_eq!(b.uhd.png, "fonts/big-uhd.png");
    assert!(FontBundles::try_new("/".to_string()).is_none());
    assert!(FontBundles::try_new("x".to_string()).is_some());
}

#[test]
fn cache_map_written_and_read_back() {
    let mut m = CacheMap::new();
    m.insert("k1".to_string(), "a.png".to_string());
    m.insert("k2".to_string(), "b.png".to_string());
    m.insert("k1".to_string(), "c.png".to_string());
    let saved: Vec<(String, String)> = m.entries().clone();
    assert_eq!(saved.len(), 2);
    let loaded = CacheMap::from_pairs(saved);
    assert_eq!(loaded.get(&"k1".to_string()).map(|s| s.as_str()), Some("c.png"));
    assert_eq!(loaded.get(&"k2".to_string()).map(|s| s.as_str()), Some("b.png"));
    assert_eq!(loaded.get(&"k3".to_string()), None);
    assert_eq!(loaded.entries().len(), 2);
}
