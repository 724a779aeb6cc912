use geode::cache::{hash_font, BitmapFont};
use geode::color::Color;
use geode::freshness::{settings_check, SettingsRecord};
use geode::index::{get_random_message, rejection_message};
use geode::modfile::{comparable_requirement, without_v};
use geode::project_files::{new_mod_json_text, project_context, project_templates, render_project_file};
use geode::sdk::binaries_release;
use geode::templates::{subcommand, Template, Templates};

fn template(name: &str, description: Option<&str>, subfolder: Option<&str>) -> Template {
    Template {
        name: name.to_string(),
        description: description.map(|s| s.to_string()),
        repository: format!("https://example.com/{}", name),
        subfolder: subfolder.map(|s| s.to_string()),
    }
}

#[test]
fn modify_command_changes_the_first_named_template() {
    let mut ts = vec![template("a", Some("old"), Some("sub")), template("b", None, None), template("a", Some("x"), None)];
    let cmd = Templates::Modify {
        name: "a".to_string(),
        repository: Some("local/path".to_string()),
        description: Some("".to_string()),
        subfolder: None,
    };
    assert_eq!(subcommand(&mut ts, cmd), Ok(()));
    assert_eq!(ts.len(), 3);
    assert_eq!(ts[0].repository, "local/path");
    assert_eq!(ts[0].description, None);
    assert_eq!(ts[0].subfolder.as_deref(), Some("sub"));
    assert_eq!(ts[2].description.as_deref(), Some("x"));
    assert_eq!(ts[1].repository, "https://example.com/b");
}

#[test]
fn project_context_values() {
    let c = project_context(
        &"My Mod".to_string(),
        &"me.my-mod".to_string(),
        &"v1.0.0".to_string(),
        &"Me".to_string(),
        &"Does things".to_string(),
        &"4.0.0".to_string(),
        true,
    );
    let texts: Vec<(&str, &str)> = c.texts.iter().map(|(k, v)| (k.as_str(), v.as_str())).collect();
    assert_eq!(
        texts,
        vec![
            ("id", "me.my-mod"),
            ("name", "My Mod"),
            ("escaped_name", "My_Mod"),
            ("geode", "4.0.0"),
            ("version", "v1.0.0"),
            ("developer", "Me"),
            ("description", "Does things"),
        ]
    );
    assert_eq!(c.flags, vec![("comments".to_string(), false)]);
}

#[test]
fn project_files_render() {
    let ctx = project_context(
        &"My Mod".to_string(),
        &"me.my-mod".to_string(),
        &"v1.0.0".to_string(),
        &"Me".to_string(),
        &"Does things".to_string(),
        &"4.0.0".to_string(),
        false,
    );
    let files: Vec<(String, String)> = vec![
        ("a.txt", "  \n\t"),
        ("main.cpp", "// {{ name }} ({{ id }}){% if comments %} with comments{% endif %}"),
        ("x.md", "{% if not comments %}text{% endif %}"),
        ("inc.txt", "{% include 'main.cpp' %}!"),
    ]
    .into_iter()
    .map(|(n, c)| (n.to_string(), c.to_string()))
    .collect();
    let sources = project_templates(files);
    let names: Vec<&str> = sources.iter().map(|(n, _)| n.as_str()).collect();
    assert_eq!(names, vec!["main.cpp", "x.md", "inc.txt"]);
    assert_eq!(
        render_project_file(&"main.cpp".to_string(), &sources, &ctx),
        Ok(("// My Mod (me.my-mod) with comments".to_string(), false))
    );
    assert_eq!(render_project_file(&"x.md".to_string(), &sources, &ctx), Ok(("".to_string(), true)));
    assert_eq!(
        render_project_file(&"inc.txt".to_string(), &sources, &ctx),
        Ok(("// My Mod (me.my-mod) with comments!".to_string(), false))
    );
    assert!(render_project_file(&"a.txt".to_string(), &sources, &ctx).is_err());
    let broken = vec![("bad.txt".to_string(), "{% if %}".to_string())];
    assert!(render_project_file(&"bad.txt".to_string(), &broken, &ctx).is_err());
}

#[test]
fn generated_mod_json_matches_pretty_json() {
    let text = new_mod_json_text("4.0.0", "v1.0.0", "me.mod", "My \"Mod\"", "Me\\You", "line\nbreak\u{1}");
    let mut map = serde_json::Map::new();
    map.insert("geode".to_string(), serde_json::Value::String("4.0.0".to_string()));
    map.insert("version".to_string(), serde_json::Value::String("v1.0.0".to_string()));
    map.insert("id".to_string(), serde_json::Value::String("me.mod".to_string()));
    map.insert("name".to_string(), serde_json::Value::String("My \"Mod\"".to_string()));
    map.insert("developer".to_string(), serde_json::Value::String("Me\\You".to_string()));
    map.insert("description".to_string(), serde_json::Value::String("line\nbreak\u{1}".to_string()));
    let mut buf = Vec::new();
    let formatter = serde_json::ser::PrettyFormatter::with_indent(b"\t");
    let mut ser = serde_json::Serializer::with_formatter(&mut buf, formatter);
    serde::Serialize::serialize(&serde_json::Value::Object(map), &mut ser).unwrap();
    assert_eq!(text, String::from_utf8(buf).unwrap());
    assert!(text.starts_with("{\n\t\"description\": \"line\\nbreak\\u0001\",\n"));
}

#[test]
fn requirements_as_geode_reads_them() {
    assert_eq!(without_v("v1.2.3"), "1.2.3");
    assert_eq!(comparable_requirement("v1.2.3").as_deref(), Some(">=1.2.3"));
    assert_eq!(comparable_requirement("^1.2").as_deref(), Some(">=1.2"));
    assert_eq!(comparable_requirement("=1.2.3").as_deref(), Some("=1.2.3"));
    assert_eq!(comparable_requirement("<2.0.0, ^1.1").as_deref(), Some("<2.0.0, >=1.1"));
    assert_eq!(comparable_requirement("*").as_deref(), Some("*"));
    assert_eq!(comparable_requirement("~1.2").as_deref(), Some("~1.2"));
    assert_eq!(comparable_requirement("nonsense"), None);
}

#[test]
fn rejection_messages_by_index() {
    assert_eq!(rejection_message(0), "[BUZZER]");
    assert_eq!(rejection_message(9), "You're an admin, Harry");
    let m = get_random_message();
    assert!((0..10).any(|i| rejection_message(i) == m));
}

#[test]
fn binaries_folder_drops_only_the_pre_release() {
    assert_eq!(
        binaries_release(false, &"/sdk".to_string(), "1.2.3-alpha.1+build.5"),
        Some(("v1.2.3-alpha.1+build.5".to_string(), "/sdk/bin/1.2.3+build.5".to_string()))
    );
    assert_eq!(
        binaries_release(false, &"/sdk".to_string(), "10.0.7"),
        Some(("v10.0.7".to_string(), "/sdk/bin/10.0.7".to_string()))
    );
}

#[test]
fn colours_read_back() {
    let (r, g, b) = (0x1fu8, 0xa0u8, 0xffu8);
    assert_eq!(Color::parse_hex(&format!("#{:02x}{:02X}{:02x}", r, g, b)), Ok(Color { red: r, green: g, blue: b }));
    assert_eq!(Color::parse_hex(&format!("{:02X}{:02x}{:02X}", r, g, b)), Ok(Color { red: r, green: g, blue: b }));
    assert_eq!(Color::parse_hex("#aF3"), Ok(Color { red: 170, green: 255, blue: 51 }));
}

#[test]
fn font_key_ignores_name_path_colour() {
    let a = BitmapFont {
        name: "a".to_string(),
        path: "/x/a.ttf".to_string(),
        charset: None,
        size: 20,
        outline: 2,
        color: Color { red: 1, green: 2, blue: 3 },
    };
    let b = BitmapFont {
        name: "b".to_string(),
        path: "/y/b.ttf".to_string(),
        charset: Some("".to_string()),
        size: 20,
        outline: 2,
        color: Color { red: 9, green: 9, blue: 9 },
    };
    let d = "digest".to_string();
    assert_eq!(hash_font(&a, &d), hash_font(&b, &d));
    let c = BitmapFont { size: 21, ..b };
    assert_ne!(hash_font(&a, &d), hash_font(&c, &d));
}

#[test]
fn settings_check_keeps_what_it_saw() {
    let empty = SettingsRecord { settings: None, time: None };
    let (rebuild, kept) = settings_check(true, empty, "{\"size\":20}".to_string(), 100);
    assert!(rebuild);
    assert_eq!(kept.settings.as_deref(), Some("{\"size\":20}"));
    assert_eq!(kept.time, Some(100));
    let (again, kept) = settings_check(true, kept, "{\"size\":20}".to_string(), 100);
    assert!(!again);
    let (newer, kept) = settings_check(true, kept, "{\"size\":20}".to_string(), 101);
    assert!(newer);
    assert_eq!(kept.time, Some(101));
    let (changed, kept) = settings_check(true, kept, "{\"size\":22}".to_string(), 101);
    assert!(changed);
    assert_eq!(kept.settings.as_deref(), Some("{\"size\":22}"));
    let (missing, kept2) = settings_check(false, kept, "{}".to_string(), 5);
    assert!(!missing);
    assert_eq!(kept2.time, Some(101));
}
