use geode::fonts::{font_charset, create_bitmap_font_from_ttf, plan_bitmap_font};
use geode::sheets::{sprite_key, sheet_frame, FrameRect, pack_sprites_in_dir, create_variants_of_sprite};
use geode::resources::{ResourceType, merge_resources, GameSheet, BMFont};
use geode::packaging::{packaged_binary_name, root_binary_name, check_merge, MergeError, merges_file, new_mod_id};
use geode::update::{update_tag, needs_checkout, geode_library, library_paths, check_update, injector_file};
use geode::platform::TargetOs;
use geode::modfile::{Developers, DevelopersError, Requirement, ToGeodeString};
use geode::project_build::{build_project, BuildError, android_toolchain};

#[test]
fn charset_ranges() {
    let cs = font_charset(&Some("65-67,97".to_string())).unwrap();
    assert_eq!(cs, vec!['A', 'B', 'C', 'a']);
    let default = font_charset(&None).unwrap();
    assert_eq!(default.len(), 95 + 1);
    assert_eq!(default[0], ' ');
    assert_eq!(default[94], '~');
    assert_eq!(default[95], '\u{2022}');
    assert_eq!(font_charset(&Some("70-65".to_string())).unwrap(), Vec::<char>::new());
    assert_eq!(font_charset(&Some("+66".to_string())).unwrap(), vec!['B']);
}

#[test]
fn charset_refusals() {
    assert_eq!(font_charset(&Some("1-2-3".to_string())), None);
    assert_eq!(font_charset(&Some("a-z".to_string())), None);
    assert_eq!(font_charset(&Some("65,".to_string())), None);
    assert_eq!(font_charset(&Some("55296".to_string())), None);
    assert_eq!(font_charset(&Some("4294967295".to_string())), None);
    assert_eq!(font_charset(&Some("4294967296".to_string())), None);
}

#[test]
fn font_variant_plan() {
    let v = create_bitmap_font_from_ttf(&"fonts/Comic.ttf".to_string(), &None, 64, &Some("mod_".to_string()), true, 6);
    let got: Vec<(String, u32, u32)> = v.into_iter().map(|f| (f.name, f.size, f.outline)).collect();
    assert_eq!(got, vec![
        ("mod_Comic.ttf-uhd".to_string(), 64, 6),
        ("mod_Comic.ttf-hd".to_string(), 32, 3),
        ("mod_Comic.ttf".to_string(), 16, 1),
    ]);
    let single = create_bitmap_font_from_ttf(&"x.ttf".to_string(), &Some("big".to_string()), 30, &None, false, 0);
    assert_eq!(single.len(), 1);
    assert_eq!(single[0].name, "big-uhd");
    assert!(plan_bitmap_font(&"/".to_string(), &None, 1, &None, false, 0).is_none());
}

#[test]
fn sheet_frame_entries() {
    assert_eq!(sprite_key("me.mod", "button-uhd"), "me.mod/button.png");
    assert_eq!(sprite_key("me.mod", "icon-hd"), "me.mod/icon.png");
    assert_eq!(sprite_key("me.mod", "plain"), "me.mod/plain.png");
    let f = sheet_frame(
        "me.mod",
        "b-uhd",
        false,
        FrameRect { x: 10, y: 20, w: 30, h: 40 },
        FrameRect { x: 2, y: 3, w: 34, h: 46 },
    );
    assert_eq!(f.key, "me.mod/b.png");
    assert_eq!(f.sprite_size, "{30,40}");
    assert_eq!(f.sprite_source_size, "{34,46}");
    assert_eq!(f.texture_rect, "{{10,20},{30,40}}");
    assert_eq!(f.sprite_offset, "{0,0}");
    assert!(!f.texture_rotated);
    let r = sheet_frame("m", "s", true, FrameRect { x: 0, y: 0, w: 8, h: 4 }, FrameRect { x: 0, y: 5, w: 10, h: 20 });
    assert_eq!(r.sprite_size, "{4,8}");
    assert_eq!(r.sprite_offset, "{-3,1}");
    assert_eq!(r.texture_rect, "{{0,0},{4,8}}");
}

#[test]
fn sprite_pack_stages() {
    let s = pack_sprites_in_dir(&"out".to_string(), true, &None);
    let got: Vec<(String, u32, String, String)> =
        s.into_iter().map(|x| (x.work_dir, x.downscale, x.sprite_suffix, x.sheet_name)).collect();
    assert_eq!(got, vec![
        ("out/tmp_uhd".to_string(), 1, "-uhd".to_string(), "spritesheet-uhd".to_string()),
        ("out/tmp_hd".to_string(), 2, "-hd".to_string(), "spritesheet-hd".to_string()),
        ("out/tmp_low".to_string(), 4, "".to_string(), "spritesheet".to_string()),
    ]);
    let one = pack_sprites_in_dir(&"o".to_string(), false, &Some("s".to_string()));
    assert_eq!(one.len(), 1);
    assert_eq!(one[0].sheet_name, "s");
    assert_eq!(one[0].sprite_suffix, "-uhd");
    let jobs = create_variants_of_sprite(&"art/logo-uhd.png".to_string(), &"o".to_string());
    let d: Vec<(u32, String, String)> = jobs.into_iter().map(|j| (j.downscale, j.suffix, j.out_file)).collect();
    assert_eq!(
        d,
        vec![
            (1, "-uhd".to_string(), "o/logo-uhd.png".to_string()),
            (2, "-hd".to_string(), "o/logo-hd.png".to_string()),
            (4, "".to_string(), "o/logo.png".to_string()),
        ]
    );
    let plain = create_variants_of_sprite(&"icon.png".to_string(), &"out".to_string());
    assert_eq!(plain[1].out_file, "out/icon-hd.png");
}

#[test]
fn resource_merging() {
    let existing = vec!["a.png".to_string(), "b.png".to_string()];
    let added = vec!["b.png".to_string(), "b.png".to_string(), "c.png".to_string(), "a.png".to_string()];
    let (merged, dups) = merge_resources(&existing, &added);
    assert_eq!(merged, vec!["a.png", "b.png", "c.png", "a.png"]);
    assert_eq!(dups, vec!["a.png", "b.png", "a.png"]);
    let (m2, d2) = merge_resources(&vec![], &vec!["x".to_string()]);
    assert_eq!(m2, vec!["x"]);
    assert!(d2.is_empty());
}

#[test]
fn resource_keys_and_names() {
    assert_eq!(ResourceType::Sprite.key(), ("sprites", "Sprite"));
    assert_eq!(ResourceType::File.key(), ("files", "File"));
    assert_eq!(ResourceType::Font.key(), ("fonts", "Font"));
    let s = GameSheet { name: "icons".to_string(), files: vec![] };
    assert_eq!(s.packed_name("me.mod"), "me.mod_icons");
    let f = BMFont { name: "title".to_string(), ttf_src: "f.ttf".to_string(), charset: None, fontsize: 40, outline: 4 };
    let r = f.renderings("me.mod");
    assert_eq!(r[0].name, "me.mod_title-uhd");
    assert_eq!(r[2].size, 10);
}

#[test]
fn binary_naming_in_packages() {
    assert_eq!(packaged_binary_name("build/libThing.android64.so", "me.mod"), "me.mod.android64.so");
    assert_eq!(packaged_binary_name("out/Thing.ios.dylib", "me.mod"), "me.mod.ios.dylib");
    assert_eq!(packaged_binary_name("x.dll", "me.mod"), "me.mod.dll");
    assert_eq!(packaged_binary_name("notes.txt", "me.mod"), "notes.txt");
    assert_eq!(root_binary_name("me.mod", "dll", "me.mod"), Some("me.mod.dll".to_string()));
    assert_eq!(root_binary_name("me.mod", "android32.so", "me.mod"), Some("me.mod.android32.so".to_string()));
    assert_eq!(root_binary_name("other", "dll", "me.mod"), None);
    assert_eq!(root_binary_name("me.mod", "exe", "me.mod"), None);
}

#[test]
fn merging_packages() {
    assert_eq!(check_merge(&vec!["a".to_string()]), Err(MergeError::TooFew));
    assert_eq!(check_merge(&vec!["a".to_string(), "a".to_string()]), Ok(()));
    assert_eq!(check_merge(&vec!["a".to_string(), "a".to_string(), "b".to_string()]), Err(MergeError::DifferentMod(2)));
    assert!(merges_file("me.mod.dylib"));
    assert!(merges_file("x.android64.so"));
    assert!(!merges_file("mod.json"));
}

#[test]
fn new_project_ids() {
    assert_eq!(new_mod_id("John Doe", "My \"Great\" Mod"), "john-doe.my-great-mod");
    assert_eq!(new_mod_id("ÄB", "x"), "äb.x");
}

#[test]
fn update_decisions() {
    assert_eq!(update_tag(&Some("v1.0.0".to_string()), &vec!["a".to_string()]), "v1.0.0");
    assert_eq!(update_tag(&None, &vec!["a".to_string(), "b".to_string()]), "b");
    assert_eq!(update_tag(&None, &vec![]), "");
    assert!(!needs_checkout("latest"));
    assert!(needs_checkout("v2.0.0"));
    assert_eq!(geode_library(&"/GD".to_string(), TargetOs::MacOS), "/GD/Frameworks");
    assert_eq!(geode_library(&"/GD".to_string(), TargetOs::Windows), "/GD");
    assert_eq!(
        library_paths(&"/bin".to_string(), &"/GD".to_string(), TargetOs::MacOS),
        ("/bin/macos/geode.dylib".to_string(), "/GD/Frameworks/geode.dylib".to_string())
    );
    assert!(check_update(false, &"a".to_string(), &"a".to_string()));
    assert!(check_update(true, &"a".to_string(), &"b".to_string()));
    assert!(!check_update(true, &"a".to_string(), &"a".to_string()));
    assert_eq!(injector_file(TargetOs::MacOS), Some("libfmod.dylib"));
    assert_eq!(injector_file(TargetOs::Windows), Some("XInput9_1_0.dll"));
    assert_eq!(injector_file(TargetOs::Linux), None);
}

#[test]
fn developer_fields() {
    assert_eq!(Developers::from_fields(Some("a".to_string()), Some(vec!["b".to_string()])).err(), Some(DevelopersError::Both));
    assert_eq!(Developers::from_fields(None, None).err(), Some(DevelopersError::Missing));
    assert_eq!(Developers::from_fields(None, Some(vec![])).err(), Some(DevelopersError::Empty));
    let one = Developers::from_fields(Some("a".to_string()), None).ok().unwrap();
    assert_eq!(one.list(), &vec!["a".to_string()]);
    let two = Developers::from_fields(None, Some(vec!["a".to_string(), "b".to_string()])).ok().unwrap();
    assert_eq!(two.list().len(), 2);
}

#[test]
fn requirements_in_geode_notation() {
    let r = Requirement::parse("^1.2.3".to_string()).unwrap();
    assert_eq!(r.to_geode_string(), "=1.2.3");
    let s = Requirement::parse(">=1.0.0, <2.0.0".to_string()).unwrap();
    assert_eq!(s.to_geode_string(), ">=1.0.0, <2.0.0");
    assert!(Requirement::parse("nope".to_string()).is_none());
}

#[test]
fn build_plans() {
    let p = build_project(&None, false, false, &None, false, &None, &vec![], TargetOs::Windows).ok().unwrap();
    assert_eq!(p.build_folder, "build");
    assert_eq!(p.build_type, "RelWithDebInfo");
    assert_eq!(p.configure.unwrap(), vec!["-B", "build", "-DCMAKE_BUILD_TYPE=RelWithDebInfo", "-A", "x64"]);
    assert_eq!(p.build.unwrap(), vec!["--build", "build", "--config", "RelWithDebInfo"]);
    let m = build_project(&Some("MacOS".to_string()), true, false, &None, false, &Some("Release".to_string()), &vec!["-DX=1".to_string()], TargetOs::MacOS).ok().unwrap();
    assert_eq!(m.configure.unwrap(), vec!["-B", "build", "-DCMAKE_BUILD_TYPE=Release", "-DCMAKE_OSX_DEPLOYMENT_TARGET=10.15", "-DX=1"]);
    assert!(m.build.is_none());
    let a = build_project(&Some("android64".to_string()), false, false, &Some("/ndk".to_string()), true, &None, &vec![], TargetOs::Windows).ok().unwrap();
    assert_eq!(a.build_folder, "build-android64");
    assert_eq!(a.configure.unwrap(), vec![
        "-B", "build-android64", "-DCMAKE_BUILD_TYPE=Debug",
        "-DCMAKE_TOOLCHAIN_FILE=/ndk/build/cmake/android.toolchain.cmake",
        "-DANDROID_ABI=arm64-v8a", "-DANDROID_PLATFORM=23", "-G", "Ninja",
        "-DCMAKE_EXPORT_COMPILE_COMMANDS=1", "-DGEODE_DONT_INSTALL_MODS=1",
    ]);
    let b = build_project(&Some("android32".to_string()), false, true, &None, false, &None, &vec![], TargetOs::Linux).ok().unwrap();
    assert!(b.configure.is_none());
    assert_eq!(b.build.unwrap(), vec!["--build", "build-android32", "--config", "Debug"]);
    assert_eq!(android_toolchain(&"/ndk".to_string()), "/ndk/build/cmake/android.toolchain.cmake");
}

#[test]
fn build_refusals() {
    assert_eq!(build_project(&Some("ps5".to_string()), false, false, &None, false, &None, &vec![], TargetOs::Windows).err(), Some(BuildError::UnknownPlatform));
    assert_eq!(build_project(&None, false, false, &None, false, &None, &vec![], TargetOs::Linux).err(), Some(BuildError::NoCrossToWindows));
    assert_eq!(build_project(&Some("mac".to_string()), false, false, &None, false, &None, &vec![], TargetOs::Windows).err(), Some(BuildError::NoCrossToMac));
    assert_eq!(build_project(&Some("android32".to_string()), false, false, &None, false, &None, &vec![], TargetOs::Linux).err(), Some(BuildError::NoNdk));
    assert_eq!(build_project(&Some("android32".to_string()), false, false, &Some("/n".to_string()), false, &None, &vec![], TargetOs::Linux).err(), Some(BuildError::NoToolchain));
}

#[test]
fn variants_need_a_file_stem() {
    let jobs = geode::sheets::try_create_variants_of_sprite(&"a/b.png".to_string(), &"o".to_string()).unwrap();
    assert_eq!(jobs[2].out_file, "o/b.png");
    assert!(geode::sheets::try_create_variants_of_sprite(&"/".to_string(), &"o".to_string()).is_none());
}
