use geode::json::Json;
use geode::modinfo::{extract_mod_info, binary_list, font_settings, package_mod_info, mod_info_from_text, font_settings_in_text, ModInfoErrorKind};
use geode::platform::TargetOs;

fn s(x: &str) -> Json {
    Json::Str(x.to_string())
}

fn obj(members: Vec<(&str, Json)>) -> Json {
    Json::Object(members.into_iter().map(|(k, v)| (k.to_string(), v)).collect())
}

fn binary_obj(members: Vec<(&str, Json)>) -> Json {
    let mut all = members;
    for k in ["windows", "macos", "android", "ios", "*"] {
        if !all.iter().any(|(n, _)| *n == k) {
            all.push((k, Json::Null));
        }
    }
    obj(all)
}

#[test]
fn binary_from_string_gets_host_extension() {
    assert_eq!(binary_list(&s("mymod"), TargetOs::Windows).ok().unwrap(), vec!["mymod.dll"]);
    assert_eq!(binary_list(&s("mymod.dylib"), TargetOs::MacOS).ok().unwrap(), vec!["mymod.dylib"]);
}

#[test]
fn binary_from_object_per_platform() {
    let b = binary_obj(vec![("android", s("m")), ("windows", s("m.dll")), ("ios", s("*")), ("macos", Json::Null)]);
    assert_eq!(binary_list(&b, TargetOs::Linux).ok().unwrap(), vec!["m.dll", "m.so"]);
    let star = binary_obj(vec![("*", s("*"))]);
    assert_eq!(binary_list(&star, TargetOs::Android).ok().unwrap(), vec!["*.so"]);
}

#[test]
fn binary_errors() {
    assert_eq!(binary_list(&Json::Null, TargetOs::Windows).err().unwrap().kind, ModInfoErrorKind::BinaryNotStringOrObject);
    let e = binary_list(&binary_obj(vec![("macos", Json::Bool(true))]), TargetOs::Windows).err().unwrap();
    assert_eq!(e.kind, ModInfoErrorKind::BinaryEntryNotString);
    assert_eq!(e.subject, "macos");
    assert_eq!(binary_list(&binary_obj(vec![]), TargetOs::Windows).err().unwrap().kind, ModInfoErrorKind::BinaryEmpty);
    assert_eq!(binary_list(&binary_obj(vec![("*", s("x"))]), TargetOs::Windows).err().unwrap().kind, ModInfoErrorKind::BinaryForAnyPlatform);
    let missing = binary_list(&obj(vec![("windows", s("m")), ("macos", Json::Null)]), TargetOs::Windows).err().unwrap();
    assert_eq!(missing.kind, ModInfoErrorKind::BinaryKeyMissing);
    assert_eq!(missing.subject, "android");
}

#[test]
fn mod_info_with_resources() {
    let json = obj(vec![
        ("binary", s("mod")),
        ("id", s("me.mod")),
        ("name", s("Mod")),
        ("resources", obj(vec![
            ("files", Json::Array(vec![s("res/*.png"), s("/abs/a.ogg")])),
            ("fonts", obj(vec![("title", obj(vec![
                ("outline", Json::Number(Some(2))),
                ("path", s("f.ttf")),
                ("size", Json::Number(Some(4294967336))),
            ]))])),
            ("spritesheets", obj(vec![("icons", Json::Array(vec![s("icons/*.png")]))])),
        ])),
    ]);
    let info = extract_mod_info(&json, &"/proj".to_string(), TargetOs::MacOS).ok().unwrap();
    assert_eq!(info.bin_list, vec!["mod.dylib"]);
    assert_eq!(info.id, "me.mod");
    assert_eq!(info.resources.files, vec!["/proj/res/*.png", "/abs/a.ogg"]);
    assert!(info.resources.raw.is_empty());
    assert_eq!(info.resources.sheets.len(), 1);
    assert_eq!(info.resources.sheets[0].name, "icons");
    assert_eq!(info.resources.sheets[0].patterns, vec!["/proj/icons/*.png"]);
    assert_eq!(info.resources.fonts.len(), 1);
    let f = &info.resources.fonts[0];
    assert_eq!(f.name, "title");
    assert_eq!(f.path, "/proj/f.ttf");
    assert_eq!(f.size, 40);
    assert_eq!(f.outline, 2);
    assert!(f.charset.is_none());
}

#[test]
fn mod_info_errors() {
    let no_name = obj(vec![("binary", s("m")), ("id", s("x"))]);
    assert_eq!(extract_mod_info(&no_name, &"/p".to_string(), TargetOs::Windows).err().unwrap().kind, ModInfoErrorKind::NameMissing);
    let bad_id = obj(vec![("binary", s("m")), ("name", s("n")), ("id", Json::Number(Some(1)))]);
    assert_eq!(extract_mod_info(&bad_id, &"/p".to_string(), TargetOs::Windows).err().unwrap().kind, ModInfoErrorKind::IdNotString);
    let unknown = obj(vec![("binary", s("m")), ("name", s("n")), ("id", s("x")), ("resources", obj(vec![("music", Json::Null)]))]);
    let e = extract_mod_info(&unknown, &"/p".to_string(), TargetOs::Windows).err().unwrap();
    assert_eq!(e.kind, ModInfoErrorKind::UnknownResourceKey);
    assert_eq!(e.key, "music");
    let font_key = obj(vec![("binary", s("m")), ("name", s("n")), ("id", s("x")), ("resources", obj(vec![
        ("fonts", obj(vec![("f", obj(vec![("path", s("a")), ("size", Json::Number(Some(3))), ("weight", Json::Null)]))])),
    ]))]);
    let e2 = extract_mod_info(&font_key, &"/p".to_string(), TargetOs::Windows).err().unwrap();
    assert_eq!(e2.kind, ModInfoErrorKind::FontUnknownKey);
    assert_eq!(e2.subject, "f");
    assert_eq!(e2.key, "weight");
    let raw_item = obj(vec![("binary", s("m")), ("name", s("n")), ("id", s("x")), ("resources", obj(vec![
        ("raw", Json::Array(vec![s("a"), Json::Bool(false)])),
    ]))]);
    let e3 = extract_mod_info(&raw_item, &"/p".to_string(), TargetOs::Windows).err().unwrap();
    assert_eq!(e3.kind, ModInfoErrorKind::ListItemNotString);
    assert_eq!(e3.subject, "raw");
    let no_resources = obj(vec![("binary", s("m")), ("name", s("n")), ("id", s("x")), ("resources", Json::Null)]);
    assert!(extract_mod_info(&no_resources, &"/p".to_string(), TargetOs::Windows).is_ok());
}

#[test]
fn package_info_from_parsed_text() {
    let e = package_mod_info(None, &"/m".to_string(), TargetOs::Windows).err().unwrap();
    assert_eq!(e.kind, ModInfoErrorKind::NotJson);
    let json = obj(vec![("binary", s("m")), ("name", s("n")), ("id", s("x"))]);
    let info = package_mod_info(Some(json), &"/m".to_string(), TargetOs::Windows).ok().unwrap();
    assert_eq!(info.bin_list, vec!["m.dll"]);
    assert_eq!(info.id, "x");
}

#[test]
fn font_settings_as_written() {
    let big = obj(vec![("path", s("a.ttf")), ("size", Json::Number(Some(40))), ("outline", Json::Number(Some(2)))]);
    let resources = obj(vec![("fonts", obj(vec![("big", big)]))]);
    match font_settings(&resources, "big") {
        Some(Json::Object(members)) => {
            let keys: Vec<&str> = members.iter().map(|(k, _)| k.as_str()).collect();
            assert_eq!(keys, vec!["path", "size", "outline"]);
        }
        _ => panic!("the font's settings are an object"),
    }
    assert!(font_settings(&resources, "small").is_none());
    assert!(font_settings(&Json::Null, "big").is_none());
}

#[test]
fn mod_info_read_from_text() {
    let e = mod_info_from_text("not json", &"/m".to_string(), TargetOs::Windows).err().unwrap();
    assert_eq!(e.kind, ModInfoErrorKind::NotJson);
    let text = r#"{"binary": "m", "name": "n", "id": "me.x", "resources": {"files": ["res/*.png"]}}"#;
    let info = mod_info_from_text(text, &"/p".to_string(), TargetOs::Windows).ok().unwrap();
    assert_eq!(info.id, "me.x");
    assert_eq!(info.bin_list, vec!["m.dll"]);
    assert_eq!(info.resources.files, vec!["/p/res/*.png"]);
    let missing = r#"{"binary": {"windows": "a.dll"}, "name": "n", "id": "x"}"#;
    let e2 = mod_info_from_text(missing, &"/p".to_string(), TargetOs::Windows).err().unwrap();
    assert_eq!(e2.kind, ModInfoErrorKind::BinaryKeyMissing);
    let no_id = r#"{"binary": "m", "name": "n"}"#;
    assert_eq!(mod_info_from_text(no_id, &"/p".to_string(), TargetOs::Windows).err().unwrap().kind, ModInfoErrorKind::IdMissing);
}

#[test]
fn font_settings_read_from_text() {
    let text = r#"{"resources": {"fonts": {"title": {"path": "f.ttf", "size": 20}}}}"#;
    let got = font_settings_in_text(text, "title").unwrap();
    match got {
        Json::Object(ms) => {
            assert_eq!(ms.len(), 2);
            assert_eq!(ms[0].0, "path");
            assert!(matches!(&ms[0].1, Json::Str(p) if p == "f.ttf"));
            assert_eq!(ms[1].0, "size");
            assert!(matches!(ms[1].1, Json::Number(Some(20))));
        }
        _ => panic!("settings are an object"),
    }
    assert!(font_settings_in_text(text, "body").is_none());
    assert!(font_settings_in_text("{", "title").is_none());
    assert!(font_settings_in_text(r#"{"resources": 3}"#, "title").is_none());
}
