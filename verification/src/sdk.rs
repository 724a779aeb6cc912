//! The SDK commands' decisions: which release tag is the newest, which
//! release and folder prebuilt binaries come from, and which asset of a
//! release holds the binaries for a platform.

use vstd::prelude::*;
use crate::deps::{is_semver_version, semver_greater, version_is_valid};
use crate::paths::{path_join, join};
use crate::text::{
    chars_of, string_from_chars, push_all, str_equals, concat3, contains_chars, contains_seq,
    to_lowercase, lowercased, trim, trimmed,
};
use crate::templates::opt_view;
use crate::version::{nat_digits, push_nat_digits};

verus! {

/// The `geode sdk` command.
#[allow(inconsistent_fields)]
pub enum Sdk {
    /// Clone the SDK (again, with `reinstall`), at `path` or the default place.
    Install { reinstall: bool, force: bool, path: Option<String> },
    /// Download the prebuilt binaries, for `platform` or the host.
    InstallBinaries { platform: Option<String> },
    /// Remove the SDK.
    Uninstall,
    /// Update to the newest commit or release of a channel.
    Update { branch: Option<String> },
    /// Point the SDK variable at `path`, moving the SDK there with `move_sdk`.
    SetPath { move_sdk: bool, path: String },
    /// Print the SDK's version.
    Version,
}

/// The parts `semver::Version::parse` reads from a version text: major,
/// minor and patch numbers, the pre-release and the build metadata.
pub uninterp spec fn semver_parts(text: Seq<char>) -> (u64, u64, u64, Seq<char>, Seq<char>);

/// `Version::parse`, its parts handed out as plain values.
#[verifier::external_body]
fn version_parts(text: &str) -> (r: (u64, u64, u64, String, String))
    requires
        is_semver_version(text@),
    ensures
        (r.0, r.1, r.2, r.3@, r.4@) == semver_parts(text@),
{
    let v = semver::Version::parse(text).unwrap();
    (v.major, v.minor, v.patch, v.pre.as_str().to_string(), v.build.as_str().to_string())
}

/// A version's text as `semver` prints it: `major.minor.patch`, then
/// `-pre-release` when there is one (and `with_pre` asks for it), then
/// `+build` when there is build metadata.
pub open spec fn semver_text(p: (u64, u64, u64, Seq<char>, Seq<char>), with_pre: bool) -> Seq<char> {
    nat_digits(p.0 as nat) + seq!['.'] + nat_digits(p.1 as nat) + seq!['.'] + nat_digits(p.2 as nat)
        + (if with_pre && p.3.len() > 0 { seq!['-'] + p.3 } else { Seq::empty() })
        + (if p.4.len() > 0 { seq!['+'] + p.4 } else { Seq::empty() })
}

/// A version text parsed and printed back.
pub open spec fn semver_display(text: Seq<char>) -> Seq<char> {
    semver_text(semver_parts(text), true)
}

/// A version text parsed and printed back without its pre-release part
/// (Geode's build does not tell `-beta` or `-alpha` releases apart).
pub open spec fn semver_release_display(text: Seq<char>) -> Seq<char> {
    semver_text(semver_parts(text), false)
}

/// The version's text (see `semver_text`).
fn parts_text(p: &(u64, u64, u64, String, String), with_pre: bool) -> (r: String)
    ensures
        r@ == semver_text((p.0, p.1, p.2, p.3@, p.4@), with_pre),
{
    let mut out: Vec<char> = Vec::new();
    push_nat_digits(p.0, &mut out);
    out.push('.');
    push_nat_digits(p.1, &mut out);
    out.push('.');
    push_nat_digits(p.2, &mut out);
    let pre = chars_of(p.3.as_str());
    if with_pre && pre.len() > 0 {
        out.push('-');
        push_all(&mut out, &pre);
    }
    let build = chars_of(p.4.as_str());
    if build.len() > 0 {
        out.push('+');
        push_all(&mut out, &build);
    }
    proof {
        let v = (p.0, p.1, p.2, p.3@, p.4@);
        assert(out@ =~= semver_text(v, with_pre));
    }
    string_from_chars(&out)
}

/// A version parsed and printed back (see `semver_display`).
fn version_display(text: &str) -> (r: String)
    requires
        is_semver_version(text@),
    ensures
        r@ == semver_display(text@),
{
    let p = version_parts(text);
    parts_text(&p, true)
}

/// A version parsed and printed back without its pre-release part (see
/// `semver_release_display`).
fn release_display(text: &str) -> (r: String)
    requires
        is_semver_version(text@),
    ensures
        r@ == semver_release_display(text@),
{
    let p = version_parts(text);
    parts_text(&p, false)
}

/// A tag's version text: the tag without one leading `v`.
pub open spec fn tag_version(tag: Seq<char>) -> Seq<char> {
    if tag.len() > 0 && tag[0] == 'v' { tag.skip(1) } else { tag }
}

/// Index of the newest tag among the first `k`: a tag replaces the one
/// kept so far when its version parses and is greater.
pub open spec fn newest_tag_among(tags: Seq<Seq<char>>, k: int) -> Option<int>
    decreases k,
{
    if k <= 0 {
        None
    } else {
        let prev = newest_tag_among(tags, k - 1);
        let v = tag_version(tags[k - 1]);
        if is_semver_version(v) && (prev is None || semver_greater(v, tag_version(tags[prev->0]))) {
            Some(k - 1)
        } else {
            prev
        }
    }
}

/// The kept index always names a tag whose version parses.
proof fn lemma_newest_parses(tags: Seq<Seq<char>>, k: int)
    requires
        0 <= k <= tags.len(),
    ensures
        newest_tag_among(tags, k) matches Some(i) ==> 0 <= i < k && is_semver_version(tag_version(tags[i])),
        newest_tag_among(tags, k) is None <==> forall|j: int| 0 <= j < k ==> !is_semver_version(#[trigger] tag_version(tags[j])),
    decreases k,
{
    if k > 0 {
        lemma_newest_parses(tags, k - 1);
    }
}

/// The version text of a tag (see `tag_version`).
fn strip_v(tag: &str) -> (r: String)
    ensures
        r@ == tag_version(tag@),
{
    let cs = chars_of(tag);
    if cs.len() > 0 && cs[0] == 'v' {
        let mut out: Vec<char> = Vec::new();
        let mut i: usize = 1;
        while i < cs.len()
            invariant
                1 <= i <= cs.len(),
                out@ == cs@.subrange(1, i as int),
            decreases cs.len() - i,
        {
            out.push(cs[i]);
            i = i + 1;
            assert(out@ =~= cs@.subrange(1, i as int));
        }
        assert(cs@.subrange(1, cs@.len() as int) =~= cs@.skip(1));
        string_from_chars(&out)
    } else {
        string_from_chars(&cs)
    }
}

/// The tag `geode sdk update` switches to on the stable channel: `v`
/// followed by the printed version of the newest tag (see
/// `newest_tag_among`); none when no tag holds a version.
pub fn latest_sdk_tag(tags: &Vec<String>) -> (r: Option<String>)
    ensures
        ({
            let ts = tags@.map_values(|t: String| t@);
            match newest_tag_among(ts, ts.len() as int) {
                None => r is None,
                Some(i) => r is Some && r->0@ == "v"@ + semver_display(tag_version(ts[i])),
            }
        }),
{
    let ghost ts = tags@.map_values(|t: String| t@);
    let mut best: Option<String> = None;
    let mut i: usize = 0;
    while i < tags.len()
        invariant
            i <= tags@.len(),
            ts == tags@.map_values(|t: String| t@),
            match newest_tag_among(ts, i as int) {
                None => best is None,
                Some(k) => best is Some && best->0@ == tag_version(ts[k]),
            },
        decreases tags@.len() - i,
    {
        proof { lemma_newest_parses(ts, i as int); }
        let v = strip_v(tags[i].as_str());
        if version_is_valid(v.as_str()) {
            let replace = match &best {
                None => true,
                Some(b) => crate::deps::version_greater(v.as_str(), b.as_str()),
            };
            if replace {
                best = Some(v);
            }
        }
        i = i + 1;
    }
    proof { lemma_newest_parses(ts, tags@.len() as int); }
    match best {
        None => None,
        Some(b) => {
            let d = version_display(b.as_str());
            let r = concat3("v", d.as_str(), "");
            proof {
                reveal_strlit("");
                assert(("v"@ + d@) + ""@ =~= "v"@ + d@);
            }
            Some(r)
        },
    }
}

/// Where `geode sdk install-binaries` gets binaries from: the release tag,
/// and the folder under the SDK they are unpacked to. Nightly builds come
/// from the `nightly` release into `bin/nightly`; otherwise the SDK's
/// version (the trimmed `VERSION` file) names the release `v<version>` and
/// the folder `bin/<version without pre-release>`. `None` when the
/// version does not parse.
pub open spec fn spec_binaries_release(nightly: bool, sdk_path: Seq<char>, version_file: Seq<char>) -> Option<(Seq<char>, Seq<char>)> {
    if nightly {
        Some(("nightly"@, path_join(sdk_path, "bin/nightly"@)))
    } else if is_semver_version(trimmed(version_file)) {
        Some((
            "v"@ + semver_display(trimmed(version_file)),
            path_join(sdk_path, "bin/"@ + semver_release_display(trimmed(version_file))),
        ))
    } else {
        None
    }
}

/// The release and folder of the prebuilt binaries (see `spec_binaries_release`).
pub fn binaries_release(nightly: bool, sdk_path: &String, version_file: &str) -> (r: Option<(String, String)>)
    ensures
        match spec_binaries_release(nightly, sdk_path@, version_file@) {
            None => r is None,
            Some((tag, dir)) => match r {
                Some(p) => p.0@ == tag && p.1@ == dir,
                None => false,
            },
        },
{
    proof {
        reveal_strlit("nightly");
        reveal_strlit("bin/nightly");
        reveal_strlit("");
        assert(forall|s: Seq<char>| s + ""@ =~= s);
    }
    if nightly {
        return Some(("nightly".to_string(), join(sdk_path, "bin/nightly")));
    }
    let text = trim(version_file);
    if !version_is_valid(text.as_str()) {
        return None;
    }
    let tag = version_display(text.as_str());
    let rel = release_display(text.as_str());
    let tag = concat3("v", tag.as_str(), "");
    let sub = concat3("bin/", rel.as_str(), "");
    Some((tag, join(sdk_path, sub.as_str())))
}

/// A file attached to a release.
pub struct ReleaseAsset {
    pub name: String,
    pub browser_download_url: String,
}

/// The lower-cased asset name carries binaries for `platform`: `-win` for
/// Windows (also asked for as `windows` or `linux`), `-mac` for macOS (also
/// `macos`), `-<platform>` for anything else.
pub open spec fn names_platform(name: Seq<char>, platform: Seq<char>) -> bool {
    if platform == "windows"@ || platform == "linux"@ || platform == "win"@ {
        contains_seq(name, "-win"@)
    } else if platform == "macos"@ || platform == "mac"@ {
        contains_seq(name, "-mac"@)
    } else {
        contains_seq(name, "-"@ + platform)
    }
}

/// An asset holds the binaries for `platform`: its lower-cased name is not
/// an installer's, mentions `geode`, and names the platform.
pub open spec fn asset_fits(name: Seq<char>, platform: Seq<char>) -> bool {
    let l = lowercased(name);
    &&& !contains_seq(l, "installer"@)
    &&& contains_seq(l, "geode"@)
    &&& names_platform(l, platform)
}

/// The platform binaries are looked for: the one asked for, else the host
/// system's name, lower-cased.
pub open spec fn binaries_platform(platform: Option<Seq<char>>, host_os: Seq<char>) -> Seq<char> {
    lowercased(match platform { Some(p) => p, None => host_os })
}

/// Whether `name` carries binaries for the (lower-case) `platform`.
fn fits(name: &String, platform: &Vec<char>) -> (r: bool)
    ensures
        r == asset_fits(name@, platform@),
{
    proof {
        reveal_strlit("installer");
        reveal_strlit("geode");
        reveal_strlit("windows");
        reveal_strlit("linux");
        reveal_strlit("win");
        reveal_strlit("macos");
        reveal_strlit("mac");
        reveal_strlit("-win");
        reveal_strlit("-mac");
        reveal_strlit("-");
    }
    let l = to_lowercase(name.as_str());
    let lc = chars_of(l.as_str());
    if contains_chars(&lc, &chars_of("installer")) {
        return false;
    }
    if !contains_chars(&lc, &chars_of("geode")) {
        return false;
    }
    let p = string_from_chars(platform);
    let ps = p.as_str();
    if str_equals(ps, "windows") || str_equals(ps, "linux") || str_equals(ps, "win") {
        contains_chars(&lc, &chars_of("-win"))
    } else if str_equals(ps, "macos") || str_equals(ps, "mac") {
        contains_chars(&lc, &chars_of("-mac"))
    } else {
        let mut pat = chars_of("-");
        push_all(&mut pat, platform);
        contains_chars(&lc, &pat)
    }
}

/// The download address of the first asset with the binaries for the
/// platform asked for (or the host's, `host_os`); none when no asset fits.
pub fn select_binaries(assets: &Vec<ReleaseAsset>, platform: &Option<String>, host_os: &str) -> (r: Option<String>)
    ensures
        ({
            let p = binaries_platform(opt_view(*platform), host_os@);
            match r {
                None => forall|i: int| 0 <= i < assets@.len() ==> !asset_fits(#[trigger] assets@[i].name@, p),
                Some(u) => exists|i: int| 0 <= i < assets@.len() && #[trigger] asset_fits(assets@[i].name@, p)
                    && u@ == assets@[i].browser_download_url@
                    && forall|j: int| 0 <= j < i ==> !asset_fits(#[trigger] assets@[j].name@, p),
            }
        }),
{
    let chosen = match platform {
        Some(p) => to_lowercase(p.as_str()),
        None => to_lowercase(host_os),
    };
    let pc = chars_of(chosen.as_str());
    let ghost p = binaries_platform(opt_view(*platform), host_os@);
    let mut i: usize = 0;
    while i < assets.len()
        invariant
            i <= assets@.len(),
            pc@ == p,
            p == binaries_platform(opt_view(*platform), host_os@),
            forall|j: int| 0 <= j < i ==> !asset_fits(#[trigger] assets@[j].name@, p),
        decreases assets@.len() - i,
    {
        if fits(&assets[i].name, &pc) {
            return Some(assets[i].browser_download_url.clone());
        }
        i = i + 1;
    }
    None
}

/// What comes before the SDK's path in the launch agent that sets the SDK
/// variable at login on macOS.
pub open spec fn env_plist_head() -> Seq<char> {
    "\n\t\t<?xml version=\"1.0\" encoding=\"UTF-8\"?>\n\n\t\t<!DOCTYPE plist PUBLIC \"-//Apple//DTD PLIST 1.0//EN\" \"http://www.apple.com/DTDs/PropertyList-1.0.dtd\">\n\n\t\t<plist version=\"1.0\">\n\t\t<dict>\n\t\t    <key>Label</key>\n\t\t    <string>com.geode-sdk.env</string>\n\t\t    <key>ProgramArguments</key>\n\t\t    <array>\n\t\t    <string>sh</string>\n\t\t    <string>-c</string>\n\t\t    <string>launchctl setenv GEODE_SDK "@
}

/// What comes after the SDK's path in that launch agent.
pub open spec fn env_plist_tail() -> Seq<char> {
    "</string>\n\t\t    </array>\n\t\t    <key>RunAtLoad</key>\n\t\t    <true/>\n\t\t</dict>\n\t\t</plist>\n\t\t"@
}

/// The launch agent (a property list) that runs
/// `launchctl setenv GEODE_SDK <path>` at login on macOS.
pub fn format_env(path: &str) -> (r: String)
    ensures
        r@ == env_plist_head() + path@ + env_plist_tail(),
{
    concat3(
        "\n\t\t<?xml version=\"1.0\" encoding=\"UTF-8\"?>\n\n\t\t<!DOCTYPE plist PUBLIC \"-//Apple//DTD PLIST 1.0//EN\" \"http://www.apple.com/DTDs/PropertyList-1.0.dtd\">\n\n\t\t<plist version=\"1.0\">\n\t\t<dict>\n\t\t    <key>Label</key>\n\t\t    <string>com.geode-sdk.env</string>\n\t\t    <key>ProgramArguments</key>\n\t\t    <array>\n\t\t    <string>sh</string>\n\t\t    <string>-c</string>\n\t\t    <string>launchctl setenv GEODE_SDK ",
        path,
        "</string>\n\t\t    </array>\n\t\t    <key>RunAtLoad</key>\n\t\t    <true/>\n\t\t</dict>\n\t\t</plist>\n\t\t",
    )
}

} // verus!
