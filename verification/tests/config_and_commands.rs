use geode::profiles::{Config, Profile, ProfileError, RunBackground, default_index_url, migrate_location};
use geode::platform::{TargetOs, TargetArch};
use geode::info::{set_field, get_field, InfoError, configurables, setup_platform};
use geode::commands::{link_for_choice, Shell, database_entry_name};

fn profile(name: &str, path: &str, platform: &str) -> Profile {
    Profile { name: name.to_string(), gd_path: path.to_string(), platform: platform.to_string() }
}

fn config_with(ps: Vec<Profile>) -> Config {
    let mut c = Config::default_fallback();
    c.profiles = ps;
    c
}

#[test]
fn fallback_config() {
    let c = Config::default_fallback();
    assert!(c.profiles.is_empty());
    assert!(c.current_profile.is_none());
    assert!(!c.sdk_nightly);
    assert_eq!(c.index_url, "https://api.geode-sdk.org");
    assert_eq!(default_index_url(), "https://api.geode-sdk.org");
}

#[test]
fn normalize_fixes_mac_and_current() {
    let mut c = config_with(vec![profile("a", "/gd", "mac"), profile("b", "C:/gd/GeometryDash.exe", "win")]);
    c.current_profile = Some("missing".to_string());
    c.normalize(TargetOs::MacOS, TargetArch::Aarch64);
    assert_eq!(c.profiles[0].platform, "mac-arm");
    assert_eq!(c.profiles[1].platform, "win");
    assert_eq!(c.current_profile.as_deref(), Some("a"));
    let mut d = config_with(vec![profile("a", "/gd", "mac")]);
    d.current_profile = Some("a".to_string());
    d.normalize(TargetOs::MacOS, TargetArch::X86_64);
    assert_eq!(d.profiles[0].platform, "mac-intel");
    assert_eq!(d.current_profile.as_deref(), Some("a"));
}

#[test]
fn normalize_twice_is_normalize_once() {
    let mut c = config_with(vec![profile("a", "/gd", "mac"), profile("b", "/gd2", "win")]);
    c.current_profile = None;
    c.normalize(TargetOs::MacOS, TargetArch::X86_64);
    let once: Vec<(String, String, String)> = c.profiles.iter().map(|p| (p.name.clone(), p.gd_path.clone(), p.platform.clone())).collect();
    let current = c.current_profile.clone();
    c.normalize(TargetOs::MacOS, TargetArch::X86_64);
    let twice: Vec<(String, String, String)> = c.profiles.iter().map(|p| (p.name.clone(), p.gd_path.clone(), p.platform.clone())).collect();
    assert_eq!(once, twice);
    assert_eq!(c.current_profile, current);
    assert_eq!(current.as_deref(), Some("a"));
    assert_eq!(twice[0].2, "mac-intel");
}

#[test]
fn launch_plans() {
    let win = profile("w", "/games/GD/GeometryDash.exe", "win");
    let plan = win.launch_plan(false).unwrap();
    assert_eq!(plan.program, "/games/GD/GeometryDash.exe");
    assert_eq!(plan.working_dir.as_deref(), Some("/games/GD"));
    assert!(plan.preload.is_none());
    assert!(profile("w", "", "win").launch_plan(false).is_none());

    let mac = profile("m", "/Users/me/Library/Application Support/Steam/steamapps/common/Geometry Dash/Geometry Dash.app", "mac-arm");
    assert_eq!(mac.platform_str(), "mac-arm");
    assert_eq!(mac.steam_marker(), "/Users/me/Library/Application Support/Steam/steamapps/common/Geometry Dash/Geometry Dash.app/Contents/MacOS/steam_appid.txt");
    let plain = mac.launch_plan(false).unwrap();
    assert_eq!(plain.program, "/Users/me/Library/Application Support/Steam/steamapps/common/Geometry Dash/Geometry Dash.app/Contents/MacOS/Geometry Dash");
    assert!(plain.working_dir.is_none());
    assert!(plain.preload.is_none());
    let steam = mac.launch_plan(true).unwrap();
    assert_eq!(steam.preload.as_deref(), Some("/Users/me/Library/Application Support/Steam/Steam.AppBundle/Steam/Contents/MacOS/steamloader.dylib"));
    assert!(profile("m", "/a/b", "mac-arm").launch_plan(true).is_none());
}

#[test]
fn switch_profile_outcomes() {
    let mut c = config_with(vec![profile("a", "/a", "win"), profile("b", "/b", "win")]);
    c.current_profile = Some("a".to_string());
    assert_eq!(c.switch_profile("c".to_string()), Err(ProfileError::NotFound));
    assert_eq!(c.switch_profile("a".to_string()), Err(ProfileError::AlreadyCurrent));
    assert_eq!(c.switch_profile("b".to_string()), Ok(()));
    assert_eq!(c.current_profile.as_deref(), Some("b"));
}

#[test]
fn switch_then_current_profile() {
    let mut c = config_with(vec![profile("a", "/a", "win"), profile("b", "/b", "win"), profile("b", "/b2", "win")]);
    c.current_profile = Some("a".to_string());
    assert_eq!(c.switch_profile("b".to_string()), Ok(()));
    assert_eq!(c.get_current_profile(), Ok(1));
    assert_eq!(c.select_profile(&None), Ok(1));
}

#[test]
fn add_profile_maps_platform() {
    let mut c = config_with(vec![]);
    assert_eq!(c.add_profile("w".to_string(), "/games/gd".to_string(), true, Some("Windows".to_string()), TargetOs::Linux), Ok(false));
    assert_eq!(c.profiles[0].platform, "");
    assert_eq!(c.add_profile("x".to_string(), "/games/gd".to_string(), true, Some("windows".to_string()), TargetOs::Linux), Ok(true));
    assert_eq!(c.profiles[1].platform, "win");
    assert_eq!(c.profiles[1].gd_path, "/games/gd/GeometryDash.exe");
    assert_eq!(c.add_profile("m".to_string(), "/Apps/GD.app/Contents".to_string(), false, None, TargetOs::MacOS), Ok(true));
    assert_eq!(c.profiles[2].platform, "mac");
    assert_eq!(c.profiles[2].gd_path, "/Apps/GD.app");
    assert_eq!(c.add_profile("m".to_string(), "/x".to_string(), false, None, TargetOs::MacOS), Err(ProfileError::NameTaken));
    assert_eq!(c.add_profile("r".to_string(), "/".to_string(), false, Some("android64".to_string()), TargetOs::Linux), Err(ProfileError::BadLocation));
    assert_eq!(c.profiles.len(), 3);
}

#[test]
fn profile_law_add_then_remove_restores() {
    let mut c = config_with(vec![profile("a", "/a", "win"), profile("b", "/b", "android64")]);
    assert_eq!(c.add_profile("n".to_string(), "/n".to_string(), false, Some("android32".to_string()), TargetOs::Windows), Ok(true));
    assert_eq!(c.remove_profile(&"n".to_string()), Ok(()));
    let names: Vec<&str> = c.profiles.iter().map(|p| p.name.as_str()).collect();
    assert_eq!(names, vec!["a", "b"]);
    assert_eq!(c.remove_profile(&"n".to_string()), Err(ProfileError::NotFound));
}

#[test]
fn rename_profile_outcomes() {
    let mut c = config_with(vec![profile("a", "/a", "win"), profile("b", "/b", "win")]);
    assert_eq!(c.rename_profile(&"z".to_string(), "y".to_string()), Err(ProfileError::NotFound));
    assert_eq!(c.rename_profile(&"a".to_string(), "b".to_string()), Err(ProfileError::NameTaken));
    assert_eq!(c.rename_profile(&"a".to_string(), "c".to_string()), Ok(()));
    assert_eq!(c.profiles[0].name, "c");
    assert_eq!(c.profiles[0].gd_path, "/a");
}

#[test]
fn profile_dirs_per_platform() {
    let w = profile("w", "C/gd/GeometryDash.exe", "win");
    assert_eq!(w.gd_dir(), "C/gd");
    assert_eq!(w.geode_dir(), "C/gd/geode");
    assert_eq!(w.mods_dir(), "C/gd/geode/mods");
    let a = profile("a", "/data/gd", "android64");
    assert_eq!(a.gd_dir(), "/data/gd");
    assert_eq!(a.geode_dir(), "/data/gd/game/geode");
    let m = profile("m", "/Apps/GD.app", "mac-arm");
    assert_eq!(m.geode_dir(), "/Apps/GD.app/Contents/geode");
}

#[test]
fn profile_path_and_install_path() {
    let mut c = config_with(vec![profile("w", "C/gd/GeometryDash.exe", "win"), profile("a", "/data/gd", "android32")]);
    assert_eq!(c.profile_path(&None, false), Err(ProfileError::NoCurrent));
    c.current_profile = Some("w".to_string());
    assert_eq!(c.profile_path(&None, true), Ok("C/gd".to_string()));
    assert_eq!(c.profile_path(&Some("a".to_string()), false), Ok("/data/gd".to_string()));
    assert_eq!(c.profile_path(&Some("q".to_string()), false), Err(ProfileError::NotFound));
    assert_eq!(c.mod_install_path("geode.node-ids"), Ok("C/gd/geode/mods/geode.node-ids.geode".to_string()));
    let mut d = config_with(vec![profile("w", "GeometryDash.exe", "win")]);
    d.current_profile = Some("w".to_string());
    assert_eq!(d.profile_path(&None, true), Ok("".to_string()));
    let mut e = config_with(vec![profile("w", "/", "win")]);
    e.current_profile = Some("w".to_string());
    assert_eq!(e.profile_path(&None, true), Err(ProfileError::NoGameFolder));
}

#[test]
fn migrate_location_cases() {
    assert_eq!(migrate_location("/gd".to_string(), true, "win"), "/gd/GeometryDash.exe");
    assert_eq!(migrate_location("/gd/GD.exe".to_string(), false, "win"), "/gd/GD.exe");
    assert_eq!(migrate_location("/x/GD.app/Contents".to_string(), true, "mac"), "/x/GD.app");
}

#[test]
fn run_modes() {
    assert_eq!(RunBackground::from_flags(false, false), RunBackground::Foreground);
    assert_eq!(RunBackground::from_flags(true, false), RunBackground::Background);
    assert_eq!(RunBackground::from_flags(false, true), RunBackground::ForegroundStay);
    assert!(!RunBackground::Background.waits());
    assert!(RunBackground::ForegroundStay.waits());
}

#[test]
fn index_url_setting_drops_login() {
    let mut c = Config::default_fallback();
    c.index_token = Some("t".to_string());
    c.set_index_url("https://my.index".to_string());
    assert_eq!(c.index_url, "https://my.index");
    assert!(c.index_token.is_none());
    c.set_index_url("default".to_string());
    assert_eq!(c.index_url, "https://api.geode-sdk.org");
}

#[test]
fn sdk_branch_selection() {
    let mut c = Config::default_fallback();
    c.select_sdk_branch(Some("nightly".to_string()));
    assert!(c.sdk_nightly);
    assert!(c.sdk_version.is_none());
    c.select_sdk_branch(None);
    assert!(c.sdk_nightly);
    c.select_sdk_branch(Some("v3.0.0".to_string()));
    assert!(!c.sdk_nightly);
    assert_eq!(c.sdk_version.as_deref(), Some("v3.0.0"));
    c.select_sdk_branch(None);
    assert!(!c.sdk_nightly);
    assert!(c.sdk_version.is_none());
}

#[test]
fn config_fields() {
    let mut c = Config::default_fallback();
    assert_eq!(set_field(&mut c, "default-developer", "me".to_string()), Ok(()));
    assert_eq!(c.default_developer.as_deref(), Some("me"));
    assert_eq!(set_field(&mut c, "sdk-nightly", "yes".to_string()), Ok(()));
    assert!(c.sdk_nightly);
    assert_eq!(set_field(&mut c, "sdk-nightly", "sure".to_string()), Err(InfoError::NotABool));
    assert!(c.sdk_nightly);
    assert_eq!(set_field(&mut c, "sdk-path", "/x".to_string()), Err(InfoError::SdkPathReadOnly));
    assert_eq!(set_field(&mut c, "color", "red".to_string()), Err(InfoError::UnknownField));
    assert_eq!(get_field(&c, "default-developer", &None), Ok("me".to_string()));
    assert_eq!(get_field(&c, "sdk-nightly", &None), Ok("true".to_string()));
    assert_eq!(get_field(&c, "sdk-path", &None), Err(InfoError::NoSdk));
    assert_eq!(get_field(&c, "sdk-path", &Some("/sdk".to_string())), Ok("/sdk".to_string()));
    assert_eq!(get_field(&c, "nope", &None), Err(InfoError::UnknownField));
    assert_eq!(configurables(), vec!["default-developer", "sdk-path", "sdk-nightly"]);
}

#[test]
fn setup_platform_answers() {
    assert_eq!(setup_platform("  Mac ", "mac-arm".to_string()), ("mac-arm".to_string(), true));
    assert_eq!(setup_platform("WIN", "mac-arm".to_string()), ("win".to_string(), true));
    assert_eq!(setup_platform("linux", "win".to_string()), ("linux".to_string(), false));
}

#[test]
fn links_menu() {
    assert_eq!(link_for_choice(" 1\n"), Some(("Geode Website".to_string(), "https://geode-sdk.org/".to_string())));
    assert_eq!(link_for_choice("4"), Some(("Geode Discord".to_string(), "https://discord.gg/9e43WMKzhp".to_string())));
    assert_eq!(link_for_choice("5"), None);
}

#[test]
fn completion_file_names() {
    assert_eq!(Shell::Bash.file_name("geode"), "geode.bash");
    assert_eq!(Shell::Elvish.file_name("geode"), "geode.elv");
    assert_eq!(Shell::Fish.file_name("geode"), "geode.fish");
    assert_eq!(Shell::PowerShell.file_name("geode"), "_geode.ps1");
    assert_eq!(Shell::Zsh.file_name("geode"), "_geode");
    assert_eq!(Shell::NuShell.file_name("geode"), "geode.nu");
}

#[test]
fn database_entries() {
    assert_eq!(database_entry_name("geode.node-ids", "v1.2.3"), "geode.node-ids@1");
    assert_eq!(database_entry_name("a", "v2"), "a@2");
    assert_eq!(database_entry_name("a", "vv3.0.v"), "a@3");
}
