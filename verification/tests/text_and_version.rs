use geode::version::{VersionInfo, InstallInfo, geode_target_version};
use geode::platform::{
    TargetOs, TargetArch, PlatformName, get_extension, platform_string, platform_extension,
    profile_platform_default, all_platforms,
};
use geode::color::{Color, RGBA4444};

#[test]
fn version_to_string_prefixes_v() {
    let v = VersionInfo { major: 1, minor: 2, patch: 3 };
    assert_eq!(v.to_string(), "v1.2.3");
    let n = VersionInfo { major: -4, minor: 0, patch: 2147483647 };
    assert_eq!(n.to_string(), "v-4.0.2147483647");
}

#[test]
fn version_from_string_reads_fields() {
    let v = VersionInfo::from_string(&"10.20.30".to_string());
    assert_eq!(v, VersionInfo { major: 10, minor: 20, patch: 30 });
    let w = VersionInfo::from_string(&"+7.-8.9".to_string());
    assert_eq!(w, VersionInfo { major: 7, minor: -8, patch: 9 });
}

#[test]
fn version_roundtrip_law_on_values() {
    for (a, b, c) in [(0, 0, 0), (1, 2, 3), (-5, 17, 2147483647), (-2147483648, 0, 1)] {
        let v = VersionInfo { major: a, minor: b, patch: c };
        let text = v.to_string();
        let back = VersionInfo::from_string(&text[1..].to_string());
        assert_eq!(back, v);
    }
}

#[test]
fn target_version_is_zero_one_zero() {
    assert_eq!(geode_target_version(), VersionInfo { major: 0, minor: 1, patch: 0 });
    let i = InstallInfo { loader_version: geode_target_version(), api_version: geode_target_version() };
    assert_eq!(i.api_version.minor, 1);
}

#[test]
fn extensions_per_platform() {
    assert_eq!(get_extension("windows"), ".dll");
    assert_eq!(get_extension("macos"), ".dylib");
    assert_eq!(get_extension("ios"), ".dylib");
    assert_eq!(get_extension("android"), ".so");
}

#[test]
fn platform_strings_per_os() {
    assert_eq!(platform_string(TargetOs::Windows), "windows");
    assert_eq!(platform_string(TargetOs::Linux), "windows");
    assert_eq!(platform_string(TargetOs::MacOS), "macos");
    assert_eq!(platform_string(TargetOs::IOS), "ios");
    assert_eq!(platform_string(TargetOs::Android), "android");
    assert_eq!(platform_extension(TargetOs::Linux), ".dll");
    assert_eq!(platform_extension(TargetOs::MacOS), ".dylib");
    assert_eq!(platform_extension(TargetOs::Android), ".so");
}

#[test]
fn profile_platform_defaults() {
    assert_eq!(profile_platform_default(TargetOs::Windows, TargetArch::X86_64), "win");
    assert_eq!(profile_platform_default(TargetOs::MacOS, TargetArch::X86_64), "mac-intel");
    assert_eq!(profile_platform_default(TargetOs::MacOS, TargetArch::Aarch64), "mac-arm");
    assert_eq!(profile_platform_default(TargetOs::Linux, TargetArch::Aarch64), "win");
}

#[test]
fn platform_names_and_current() {
    assert_eq!(PlatformName::current(TargetOs::Windows), Some(PlatformName::Windows));
    assert_eq!(PlatformName::current(TargetOs::Linux), Some(PlatformName::Windows));
    assert_eq!(PlatformName::current(TargetOs::Android), Some(PlatformName::Android64));
    assert_eq!(PlatformName::current(TargetOs::MacOS), Some(PlatformName::MacOS));
    assert_eq!(PlatformName::current(TargetOs::Other), None);
    assert_eq!(PlatformName::MacIntel.name(), "mac-intel");
    assert_eq!(PlatformName::Android32.name(), "android32");
    let all = all_platforms();
    assert_eq!(all.len(), 7);
    assert!(all.contains(&PlatformName::MacArm));
}

#[test]
fn color_parse_long_and_short() {
    assert_eq!(Color::parse_hex("#ff8000"), Ok(Color { red: 255, green: 128, blue: 0 }));
    assert_eq!(Color::parse_hex("0a0B0c"), Ok(Color { red: 10, green: 11, blue: 12 }));
    assert_eq!(Color::parse_hex("f80"), Ok(Color { red: 255, green: 136, blue: 0 }));
    assert_eq!(Color::parse_hex("#fff"), Ok(Color { red: 255, green: 255, blue: 255 }));
}

#[test]
fn color_parse_errors() {
    assert_eq!(Color::parse_hex("zz0000"), Err("Invalid red value".to_string()));
    assert_eq!(Color::parse_hex("00zz00"), Err("Invalid green value".to_string()));
    assert_eq!(Color::parse_hex("0000zz"), Err("Invalid blue value".to_string()));
    assert_eq!(Color::parse_hex("#ab"), Err("Invalid length for hex string, expected RGB or RRGGBB".to_string()));
    assert_eq!(Color::parse_hex("g00"), Err("Invalid red value".to_string()));
}

#[test]
fn color_white_is_all_255() {
    assert_eq!(Color::white(), Color { red: 255, green: 255, blue: 255 });
}

#[test]
fn rgba4444_cuts_channels() {
    let map = RGBA4444;
    let mut c = [0u8, 16, 17, 255];
    map.map_color(&mut c);
    assert_eq!(c, [0, 0, 17, 255]);
    let mut d = [100u8, 200, 254, 34];
    map.map_color(&mut d);
    assert_eq!(d, [85, 187, 238, 34]);
    assert_eq!(map.index_of(&d), 0);
}

#[test]
fn rgba4444_agrees_with_float_rounding() {
    let convert = |x: u8| (x as f32 / 255.0 * 15.0) as u8 * (255 / 15);
    for x in 0..=255u8 {
        let mut c = [x, x, x, x];
        RGBA4444.map_color(&mut c);
        assert_eq!(c[0], convert(x), "channel value {}", x);
        assert_eq!(c, [convert(x); 4]);
    }
}
