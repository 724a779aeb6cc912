use geode::install::{gd_path_from_processes, install_dirs, suite_platform_folder, suite_url, GdPathError};
use geode::profiles::{OldConfig, OldConfigInstallation};
use geode::naming::{get_index_url, sanitize_project_name};
use geode::packaging::com_mod_id;
use geode::platform::TargetOs;
use geode::resources::merge_resources;
use geode::templates::{fill_template, template_project_name};
use std::path::Path;

fn strings(v: &[&str]) -> Vec<String> {
    v.iter().map(|s| s.to_string()).collect()
}

#[test]
fn project_name_drops_white_space() {
    assert_eq!(template_project_name("My Cool\tMod"), "MyCoolMod");
    assert_eq!(template_project_name("A\u{a0}B\u{3000}C\n"), "ABC");
    assert_eq!(template_project_name("Plain"), "Plain");
}

#[test]
fn template_placeholder_is_replaced() {
    assert_eq!(fill_template("name=$Template;$Template$Templat", "Foo"), "name=Foo;Foo$Templat");
    assert_eq!(fill_template("$$Template", "X"), "$X");
    assert_eq!(fill_template("nothing here", "X"), "nothing here");
    assert_eq!(fill_template("", "X"), "");
}

#[test]
fn interactive_creator_ids() {
    assert_eq!(com_mod_id("Cool Dev", "My Mod"), "com.cool_dev.my_mod");
    assert_eq!(com_mod_id("a", "b"), "com.a.b");
}

#[test]
fn suite_locations() {
    assert_eq!(suite_url(true), "https://github.com/geode-sdk/suite/archive/refs/heads/nightly.zip");
    assert_eq!(suite_url(false), "https://github.com/geode-sdk/suite/archive/refs/heads/main.zip");
    assert_eq!(suite_platform_folder(TargetOs::Windows), Some("windows"));
    assert_eq!(suite_platform_folder(TargetOs::MacOS), Some("macos"));
    assert_eq!(suite_platform_folder(TargetOs::Linux), None);
}

#[test]
fn install_folders() {
    let exe = "/games/GD/GeometryDash.exe".to_string();
    let (mods, loader) = install_dirs(&exe, TargetOs::Windows).unwrap();
    assert_eq!(mods, Path::new("/games/GD").join("geode").join("mods").to_string_lossy());
    assert_eq!(loader, "/games/GD");

    let app = "/Applications/GD.app".to_string();
    let (mods, loader) = install_dirs(&app, TargetOs::MacOS).unwrap();
    let contents = Path::new("/Applications/GD.app").join("Contents");
    assert_eq!(mods, contents.join("geode").join("mods").to_string_lossy());
    assert_eq!(loader, contents.join("Frameworks").to_string_lossy());

    assert_eq!(install_dirs(&"/".to_string(), TargetOs::Windows), None);
}

#[test]
fn merging_keeps_every_entry() {
    let (merged, dups) = merge_resources(&strings(&["a", "b"]), &strings(&["b", "c", "a"]));
    for x in ["a", "b", "c"] {
        assert!(merged.iter().any(|m| m == x));
    }
    assert_eq!(merged, strings(&["a", "b", "c", "a"]));
    assert_eq!(dups, strings(&["a", "b", "a"]));
}

#[test]
fn index_url_ignores_extra_slashes() {
    let expected = "https://api.example.org/v1/mods";
    assert_eq!(get_index_url("v1/mods", "https://api.example.org"), expected);
    assert_eq!(get_index_url("/v1/mods", "https://api.example.org/"), expected);
    assert_eq!(get_index_url("//v1/mods", "https://api.example.org//"), expected);
}

#[test]
fn sanitizing_twice_is_sanitizing_once() {
    let once = sanitize_project_name("  --My Mod!! ");
    assert_eq!(once, "My_Mod");
    assert_eq!(sanitize_project_name(&once), once);
    assert_eq!(sanitize_project_name(&sanitize_project_name("!!")), "mod");
}

#[test]
fn game_folder_from_running_processes() {
    let none: Vec<String> = vec![];
    assert_eq!(gd_path_from_processes(&none, TargetOs::Windows), Err(GdPathError::NotRunning));
    let two = vec!["/a/GeometryDash.exe".to_string(), "/b/GeometryDash.exe".to_string()];
    assert_eq!(gd_path_from_processes(&two, TargetOs::Windows), Err(GdPathError::SeveralRunning));
    let one = vec!["/games/GD/GeometryDash.exe".to_string()];
    assert_eq!(gd_path_from_processes(&one, TargetOs::Windows), Ok("/games/GD".to_string()));
    let mac = vec!["/Applications/GD.app/Contents/MacOS/Geometry Dash".to_string()];
    assert_eq!(gd_path_from_processes(&mac, TargetOs::MacOS), Ok("/Applications/GD.app/Contents".to_string()));
    assert_eq!(gd_path_from_processes(&vec!["/".to_string()], TargetOs::Linux), Err(GdPathError::NoParent));
}

#[test]
fn older_configuration_working_installation() {
    let inst = |p: &str| OldConfigInstallation { path: p.to_string(), executable: "GD.exe".to_string() };
    let mut c = OldConfig {
        default_installation: 1,
        working_installation: None,
        installations: Some(vec![inst("/a"), inst("/b")]),
        default_developer: None,
    };
    assert!(c.work_inst().is_none());
    c.init_working();
    assert_eq!(c.working_installation, Some(1));
    assert_eq!(c.work_inst().map(|i| i.path.clone()), Some("/b".to_string()));

    let mut empty = OldConfig { default_installation: 0, working_installation: None, installations: None, default_developer: None };
    empty.init_working();
    assert_eq!(empty.working_installation, None);
    assert!(empty.work_inst().is_none());
}
