use geode::index::{
    PendingStep, pending_step, pending_version_index, get_random_message, mod_versions_path,
    download_matches, ServerModVersion, MyModAction, is_submission,
};
use geode::sdk::{latest_sdk_tag, binaries_release, select_binaries, ReleaseAsset};
use geode::devs::{
    DeveloperProfile, ModDeveloper, SimpleDevMod, SimpleDevModVersion, MenuChoice, menu_choice, own_mods_path,
};

#[test]
fn pending_browser_steps() {
    assert_eq!(pending_step(1, 3, "n"), PendingStep::Show(2));
    assert_eq!(pending_step(3, 3, "n"), PendingStep::Show(3));
    assert_eq!(pending_step(1, 3, "p"), PendingStep::Show(1));
    assert_eq!(pending_step(2, 3, " p "), PendingStep::Show(1));
    assert_eq!(pending_step(2, 3, "v"), PendingStep::Validate);
    assert_eq!(pending_step(2, 3, "r"), PendingStep::Reject);
    assert_eq!(pending_step(2, 3, "q"), PendingStep::Quit);
    assert_eq!(pending_step(1, 3, "3"), PendingStep::Show(3));
    assert_eq!(pending_step(1, 3, "+2"), PendingStep::Show(2));
    assert_eq!(pending_step(1, 3, "4"), PendingStep::InvalidPage);
    assert_eq!(pending_step(1, 3, "0"), PendingStep::InvalidPage);
    assert_eq!(pending_step(1, 3, "x"), PendingStep::InvalidInput);
    assert_eq!(pending_step(1, 3, "99999999999"), PendingStep::InvalidInput);
}

#[test]
fn pending_page_law_stays_in_range() {
    for page in 1..=4 {
        for choice in ["n", "p", "1", "4", "5", "-1", "q"] {
            if let PendingStep::Show(n) = pending_step(page, 4, choice) {
                assert!(1 <= n && n <= 4);
            }
        }
    }
}

#[test]
fn pending_version_choice() {
    let one = vec!["1.0.0".to_string()];
    assert_eq!(pending_version_index(&one, "whatever"), Some(0));
    let many = vec!["1.0.0".to_string(), "1.1.0".to_string()];
    assert_eq!(pending_version_index(&many, "1.1.0"), Some(1));
    assert_eq!(pending_version_index(&many, "2.0.0"), None);
}

#[test]
fn random_refusal_is_listed() {
    let messages = [
        "[BUZZER]",
        "Your princess is in another castle",
        "Absolutely not",
        "Get lost",
        "Sucks to be you",
        "No admin, laugh at this user",
        "Admin dashboard",
        "Why are we here? Just to suffer?",
        "You hacked the mainframe! Congrats.",
        "You're an admin, Harry",
    ];
    for _ in 0..20 {
        let m = get_random_message();
        assert!(messages.contains(&m.as_str()));
    }
}

#[test]
fn index_paths_and_actions() {
    assert_eq!(mod_versions_path("geode.test"), "v1/mods/geode.test/versions");
    assert!(is_submission(MyModAction::Create));
    assert!(is_submission(MyModAction::Update));
    assert!(!is_submission(MyModAction::Edit));
    assert_eq!(own_mods_path(true), "/v1/me/mods?status=accepted");
    assert_eq!(own_mods_path(false), "/v1/me/mods?status=pending");
}

#[test]
fn download_check_uses_sha3() {
    let entry = ServerModVersion {
        name: "n".to_string(),
        version: "3338be694f50c5f338814986cdf0686453a888b84f424d792af4b9202398f392".to_string(),
        download_link: "d".to_string(),
        hash: "h".to_string(),
    };
    assert!(download_matches(&b"hello".to_vec(), &entry));
    assert!(!download_matches(&b"hellO".to_vec(), &entry));
}

#[test]
fn newest_sdk_tag() {
    let tags = vec!["v1.0.0".to_string(), "nightly".to_string(), "v2.0.0-beta.1".to_string(), "1.5.0".to_string()];
    assert_eq!(latest_sdk_tag(&tags), Some("v2.0.0-beta.1".to_string()));
    let older = vec!["v2.0.0".to_string(), "v2.0.0-alpha".to_string()];
    assert_eq!(latest_sdk_tag(&older), Some("v2.0.0".to_string()));
    assert_eq!(latest_sdk_tag(&vec!["x".to_string()]), None);
    assert_eq!(latest_sdk_tag(&vec![]), None);
}

#[test]
fn binaries_release_tag_and_folder() {
    assert_eq!(
        binaries_release(true, &"/sdk".to_string(), "garbage"),
        Some(("nightly".to_string(), "/sdk/bin/nightly".to_string()))
    );
    assert_eq!(
        binaries_release(false, &"/sdk".to_string(), "4.0.0-beta.2\n"),
        Some(("v4.0.0-beta.2".to_string(), "/sdk/bin/4.0.0".to_string()))
    );
    assert_eq!(binaries_release(false, &"/sdk".to_string(), "four"), None);
}

fn asset(name: &str) -> ReleaseAsset {
    ReleaseAsset { name: name.to_string(), browser_download_url: format!("https://dl/{name}") }
}

#[test]
fn binaries_asset_selection() {
    let assets = vec![
        asset("geode-installer-v4-win.exe"),
        asset("resources.zip"),
        asset("geode-v4-mac.zip"),
        asset("Geode-v4-Win.zip"),
        asset("geode-v4-android64.zip"),
    ];
    assert_eq!(select_binaries(&assets, &Some("Windows".to_string()), "linux"), Some("https://dl/Geode-v4-Win.zip".to_string()));
    assert_eq!(select_binaries(&assets, &None, "linux"), Some("https://dl/Geode-v4-Win.zip".to_string()));
    assert_eq!(select_binaries(&assets, &None, "macos"), Some("https://dl/geode-v4-mac.zip".to_string()));
    assert_eq!(select_binaries(&assets, &Some("android64".to_string()), "linux"), Some("https://dl/geode-v4-android64.zip".to_string()));
    assert_eq!(select_binaries(&assets, &Some("ios".to_string()), "linux"), None);
}

#[test]
fn developer_texts() {
    let p = DeveloperProfile { id: 1, username: "u".to_string(), display_name: "U".to_string(), verified: true, admin: false };
    assert_eq!(p.describe(), "Username: u\nDisplay name: U\nVerified: true\nAdmin: false\n");
    let d = ModDeveloper { id: 2, username: "dev".to_string(), display_name: "Dev".to_string(), is_owner: true };
    assert_eq!(d.describe(), "dev\n   - Display name: Dev\n   - Owner: true\n");
    let v = SimpleDevModVersion { name: "Mod".to_string(), version: "1.0.0".to_string(), download_count: -3, validated: false };
    assert_eq!(v.describe(), "1.0.0\n   - Name: Mod\n   - Download count: -3\n   - Validated: false\n");
    let m = SimpleDevMod { id: "a.b".to_string(), featured: false, download_count: 12, versions: vec![v], developers: vec![d] };
    assert_eq!(
        m.describe(),
        "a.b\n- Featured: false\n- Download count: 12\n- Developers:\n  1. dev\n   - Display name: Dev\n   - Owner: true\n\n- Versions:\n  1. 1.0.0\n   - Name: Mod\n   - Download count: -3\n   - Validated: false\n\n"
    );
}

#[test]
fn menu_choices() {
    assert_eq!(menu_choice("q", 3), MenuChoice::Back);
    assert_eq!(menu_choice("1", 3), MenuChoice::Pick(0));
    assert_eq!(menu_choice("3", 3), MenuChoice::Pick(2));
    assert_eq!(menu_choice("4", 3), MenuChoice::Invalid);
    assert_eq!(menu_choice("0", 3), MenuChoice::Invalid);
    assert_eq!(menu_choice("abc", 3), MenuChoice::Invalid);
    assert_eq!(menu_choice("18446744073709551616", 3), MenuChoice::Invalid);
}
