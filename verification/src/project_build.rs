//! `geode build`: the platform a project is built for, whether that is
//! cross-compiling, and the CMake invocations that configure and build it.

use vstd::prelude::*;
use crate::paths::{path_join, join};
use crate::platform::TargetOs;
use crate::templates::opt_view;
use crate::text::{str_equals, to_lowercase, lowercased, concat3};

verus! {

/// Why a build cannot start.
#[derive(PartialEq, Eq, Structural, Clone, Copy, Debug)]
pub enum BuildError {
    /// The platform named is none of `win`, `windows`, `mac`, `macos`,
    /// `android32`, `android64` (in any case).
    UnknownPlatform,
    /// Windows builds cannot be cross-compiled.
    NoCrossToWindows,
    /// macOS builds cannot be cross-compiled.
    NoCrossToMac,
    /// An Android build needs the NDK's location.
    NoNdk,
    /// The NDK has no CMake toolchain file where one is expected.
    NoToolchain,
}

/// What `geode build` runs: the build folder and type, the arguments of the
/// configuring `cmake` call (unless only building) and of the building one
/// (unless only configuring).
pub struct BuildPlan {
    pub build_folder: String,
    pub build_type: String,
    pub configure: Option<Vec<String>>,
    pub build: Option<Vec<String>>,
}

/// The platform built for: the one named, lower-cased and with `windows` and
/// `macos` shortened; `win` when none is named.
pub open spec fn build_platform(platform: Option<Seq<char>>) -> Option<Seq<char>> {
    match platform {
        None => Some("win"@),
        Some(p) => {
            let l = lowercased(p);
            if l == "win"@ || l == "windows"@ {
                Some("win"@)
            } else if l == "mac"@ || l == "macos"@ {
                Some("mac"@)
            } else if l == "android32"@ || l == "android64"@ {
                Some(l)
            } else {
                None
            }
        },
    }
}

/// Whether building for `platform` on `host` is cross-compiling: on Windows
/// for anything but `win`, on macOS for anything but `mac`, and always on
/// other systems.
pub open spec fn is_cross(platform: Seq<char>, host: TargetOs) -> bool {
    match host {
        TargetOs::Windows => platform != "win"@,
        TargetOs::MacOS => platform != "mac"@,
        _ => true,
    }
}

/// Where the NDK keeps its CMake toolchain file.
pub open spec fn toolchain_path(ndk: Seq<char>) -> Seq<char> {
    path_join(ndk, "build/cmake/android.toolchain.cmake"@)
}

/// The platform-specific configure arguments for Android.
pub open spec fn android_args(platform: Seq<char>, ndk: Seq<char>, host: TargetOs, extra: Seq<Seq<char>>) -> Seq<Seq<char>> {
    seq!["-DCMAKE_TOOLCHAIN_FILE="@ + toolchain_path(ndk)]
        + seq![if platform == "android32"@ { "-DANDROID_ABI=armeabi-v7a"@ } else { "-DANDROID_ABI=arm64-v8a"@ }]
        + seq!["-DANDROID_PLATFORM=23"@]
        + (if host == TargetOs::Windows && !extra.contains("-G"@) { seq!["-G"@, "Ninja"@] } else { Seq::empty() })
        + seq!["-DCMAKE_EXPORT_COMPILE_COMMANDS=1"@, "-DGEODE_DONT_INSTALL_MODS=1"@]
}

/// The plan of `geode build` (folder, type, configure and build arguments),
/// or why it cannot start. An Android build that configures needs the NDK
/// (`ndk`) and its toolchain file (`toolchain_exists` tells whether the file
/// at `toolchain_path(ndk)` exists).
pub open spec fn spec_build_plan(
    platform: Option<Seq<char>>,
    configure_only: bool,
    build_only: bool,
    ndk: Option<Seq<char>>,
    toolchain_exists: bool,
    config_type: Option<Seq<char>>,
    extra: Seq<Seq<char>>,
    host: TargetOs,
) -> Result<(Seq<char>, Seq<char>, Option<Seq<Seq<char>>>, Option<Seq<Seq<char>>>), BuildError> {
    match build_platform(platform) {
        None => Err(BuildError::UnknownPlatform),
        Some(p) => {
            let cross = is_cross(p, host);
            let folder = if cross { "build-"@ + p } else { "build"@ };
            let platform_args: Result<Seq<Seq<char>>, BuildError> = if p == "win"@ {
                if cross { Err(BuildError::NoCrossToWindows) } else { Ok(seq!["-A"@, "x64"@]) }
            } else if p == "mac"@ {
                if cross { Err(BuildError::NoCrossToMac) } else { Ok(seq!["-DCMAKE_OSX_DEPLOYMENT_TARGET=10.15"@]) }
            } else if build_only {
                Ok(Seq::empty())
            } else {
                match ndk {
                    None => Err(BuildError::NoNdk),
                    Some(n) => if !toolchain_exists { Err(BuildError::NoToolchain) } else { Ok(android_args(p, n, host, extra)) },
                }
            };
            match platform_args {
                Err(e) => Err(e),
                Ok(args) => {
                    let build_type = match config_type {
                        Some(t) => t,
                        None => if p == "win"@ { "RelWithDebInfo"@ } else { "Debug"@ },
                    };
                    let configure = if build_only {
                        None
                    } else {
                        Some(seq!["-B"@, folder, "-DCMAKE_BUILD_TYPE="@ + build_type] + args + extra)
                    };
                    let build = if configure_only {
                        None
                    } else {
                        Some(seq!["--build"@, folder, "--config"@, build_type])
                    };
                    Ok((folder, build_type, configure, build))
                },
            }
        },
    }
}

/// The views of a list of strings.
pub open spec fn views(v: Seq<String>) -> Seq<Seq<char>> {
    v.map_values(|s: String| s@)
}

/// The location of the NDK's CMake toolchain file.
pub fn android_toolchain(ndk: &String) -> (r: String)
    ensures
        r@ == toolchain_path(ndk@),
{
    join(ndk, "build/cmake/android.toolchain.cmake")
}

/// The platform to build for (see `build_platform`).
fn normalize_platform(platform: &Option<String>) -> (r: Option<String>)
    ensures
        match build_platform(opt_view(*platform)) {
            None => r is None,
            Some(p) => r is Some && r->0@ == p,
        },
{
    proof {
        reveal_strlit("win");
        reveal_strlit("windows");
        reveal_strlit("mac");
        reveal_strlit("macos");
        reveal_strlit("android32");
        reveal_strlit("android64");
    }
    match platform {
        None => Some("win".to_string()),
        Some(p) => {
            let l = to_lowercase(p.as_str());
            let s = l.as_str();
            if str_equals(s, "win") || str_equals(s, "windows") {
                Some("win".to_string())
            } else if str_equals(s, "mac") || str_equals(s, "macos") {
                Some("mac".to_string())
            } else if str_equals(s, "android32") || str_equals(s, "android64") {
                Some(l)
            } else {
                None
            }
        },
    }
}

/// Whether the list holds the text.
fn holds(v: &Vec<String>, x: &str) -> (r: bool)
    ensures
        r == views(v@).contains(x@),
{
    let mut i: usize = 0;
    while i < v.len()
        invariant
            i <= v@.len(),
            forall|j: int| 0 <= j < i ==> v@[j]@ != x@,
        decreases v@.len() - i,
    {
        if str_equals(v[i].as_str(), x) {
            proof { assert(views(v@)[i as int] == x@); }
            return true;
        }
        i = i + 1;
    }
    proof {
        if views(v@).contains(x@) {
            let k = choose|k: int| 0 <= k < views(v@).len() && views(v@)[k] == x@;
            assert(v@[k]@ == x@);
        }
    }
    false
}

/// Appends a copy of every string of `src`.
fn append_all(dst: &mut Vec<String>, src: &Vec<String>)
    ensures
        views(final(dst)@) == views(old(dst)@) + views(src@),
{
    let mut i: usize = 0;
    while i < src.len()
        invariant
            i <= src@.len(),
            dst@ == old(dst)@ + src@.take(i as int),
        decreases src@.len() - i,
    {
        dst.push(src[i].clone());
        i = i + 1;
        assert(dst@ =~= old(dst)@ + src@.take(i as int));
    }
    assert(src@.take(src@.len() as int) =~= src@);
    assert(views(dst@) =~= views(old(dst)@) + views(src@));
}

/// The plan of `geode build` (see `spec_build_plan`).
pub fn build_project(
    platform: &Option<String>,
    configure_only: bool,
    build_only: bool,
    ndk_path: &Option<String>,
    toolchain_exists: bool,
    config_type: &Option<String>,
    extra_conf_args: &Vec<String>,
    host: TargetOs,
) -> (r: Result<BuildPlan, BuildError>)
    ensures
        match spec_build_plan(opt_view(*platform), configure_only, build_only, opt_view(*ndk_path),
            toolchain_exists, opt_view(*config_type), views(extra_conf_args@), host) {
            Err(e) => r == Err::<BuildPlan, BuildError>(e),
            Ok((folder, build_type, configure, build)) => match r {
                Ok(plan) => {
                    &&& plan.build_folder@ == folder
                    &&& plan.build_type@ == build_type
                    &&& match plan.configure {
                        Some(c) => configure == Some(views(c@)),
                        None => configure is None,
                    }
                    &&& match plan.build {
                        Some(b) => build == Some(views(b@)),
                        None => build is None,
                    }
                },
                Err(_) => false,
            },
        },
{
    proof {
        reveal_strlit("win");
        reveal_strlit("mac");
        reveal_strlit("android32");
        reveal_strlit("build");
        reveal_strlit("build-");
        reveal_strlit("");
        reveal_strlit("-A");
        reveal_strlit("x64");
        reveal_strlit("-DCMAKE_OSX_DEPLOYMENT_TARGET=10.15");
        reveal_strlit("-DCMAKE_TOOLCHAIN_FILE=");
        reveal_strlit("-DANDROID_ABI=armeabi-v7a");
        reveal_strlit("-DANDROID_ABI=arm64-v8a");
        reveal_strlit("-DANDROID_PLATFORM=23");
        reveal_strlit("-G");
        reveal_strlit("Ninja");
        reveal_strlit("-DCMAKE_EXPORT_COMPILE_COMMANDS=1");
        reveal_strlit("-DGEODE_DONT_INSTALL_MODS=1");
        reveal_strlit("RelWithDebInfo");
        reveal_strlit("Debug");
        reveal_strlit("-B");
        reveal_strlit("-DCMAKE_BUILD_TYPE=");
        reveal_strlit("--build");
        reveal_strlit("--config");
        assert(forall|s: Seq<char>| s + ""@ =~= s);
    }
    let p = match normalize_platform(platform) {
        Some(p) => p,
        None => { return Err(BuildError::UnknownPlatform); },
    };
    let is_win = str_equals(p.as_str(), "win");
    let is_mac = str_equals(p.as_str(), "mac");
    let cross = match host {
        TargetOs::Windows => !is_win,
        TargetOs::MacOS => !is_mac,
        _ => true,
    };
    let folder = if cross { concat3("build-", p.as_str(), "") } else { "build".to_string() };
    let mut args: Vec<String> = Vec::new();
    if is_win {
        if cross {
            return Err(BuildError::NoCrossToWindows);
        }
        args.push("-A".to_string());
        args.push("x64".to_string());
        proof { assert(views(args@) =~= seq!["-A"@, "x64"@]); }
    } else if is_mac {
        if cross {
            return Err(BuildError::NoCrossToMac);
        }
        args.push("-DCMAKE_OSX_DEPLOYMENT_TARGET=10.15".to_string());
        proof { assert(views(args@) =~= seq!["-DCMAKE_OSX_DEPLOYMENT_TARGET=10.15"@]); }
    } else if !build_only {
        let ndk = match ndk_path {
            Some(n) => n,
            None => { return Err(BuildError::NoNdk); },
        };
        if !toolchain_exists {
            return Err(BuildError::NoToolchain);
        }
        let tc = android_toolchain(ndk);
        args.push(concat3("-DCMAKE_TOOLCHAIN_FILE=", tc.as_str(), ""));
        if str_equals(p.as_str(), "android32") {
            args.push("-DANDROID_ABI=armeabi-v7a".to_string());
        } else {
            args.push("-DANDROID_ABI=arm64-v8a".to_string());
        }
        args.push("-DANDROID_PLATFORM=23".to_string());
        let ninja = host == TargetOs::Windows && !holds(extra_conf_args, "-G");
        if ninja {
            args.push("-G".to_string());
            args.push("Ninja".to_string());
        }
        args.push("-DCMAKE_EXPORT_COMPILE_COMMANDS=1".to_string());
        args.push("-DGEODE_DONT_INSTALL_MODS=1".to_string());
        proof {
            assert(views(args@) =~= android_args(p@, ndk@, host, views(extra_conf_args@)));
        }
    } else {
        proof { assert(views(args@) =~= Seq::<Seq<char>>::empty()); }
    }
    let build_type = match config_type {
        Some(t) => t.clone(),
        None => if is_win { "RelWithDebInfo".to_string() } else { "Debug".to_string() },
    };
    let configure = if build_only {
        None
    } else {
        let mut c: Vec<String> = Vec::new();
        c.push("-B".to_string());
        c.push(folder.clone());
        c.push(concat3("-DCMAKE_BUILD_TYPE=", build_type.as_str(), ""));
        let ghost head = views(c@);
        append_all(&mut c, &args);
        append_all(&mut c, extra_conf_args);
        proof {
            assert(head =~= seq!["-B"@, folder@, "-DCMAKE_BUILD_TYPE="@ + build_type@]);
        }
        Some(c)
    };
    let build = if configure_only {
        None
    } else {
        let mut b: Vec<String> = Vec::new();
        b.push("--build".to_string());
        b.push(folder.clone());
        b.push("--config".to_string());
        b.push(build_type.clone());
        proof { assert(views(b@) =~= seq!["--build"@, folder@, "--config"@, build_type@]); }
        Some(b)
    };
    Ok(BuildPlan { build_folder: folder, build_type, configure, build })
}


/// An Android build is configured for the ABI of its platform, whatever the
/// NDK, build type, extra arguments and host: `android32` for 32-bit ARM
/// (`armeabi-v7a`), `android64` for 64-bit ARM (`arm64-v8a`). The ABI is
/// the argument right after the folder, build type and toolchain file, so
/// the two platforms are never configured alike.
pub proof fn lemma_android_abi(
    platform: Seq<char>,
    configure_only: bool,
    ndk: Seq<char>,
    config_type: Option<Seq<char>>,
    extra: Seq<Seq<char>>,
    host: TargetOs,
)
    requires
        lowercased(platform) == "android32"@ || lowercased(platform) == "android64"@,
    ensures
        spec_build_plan(Some(platform), configure_only, false, Some(ndk), true, config_type, extra, host)
            matches Ok((_, _, Some(c), _)) && c.len() > 4
            && (lowercased(platform) == "android32"@ ==> c[4] == "-DANDROID_ABI=armeabi-v7a"@
                && c.contains("-DANDROID_ABI=armeabi-v7a"@))
            && (lowercased(platform) == "android64"@ ==> c[4] == "-DANDROID_ABI=arm64-v8a"@
                && c.contains("-DANDROID_ABI=arm64-v8a"@)),
{
    reveal_strlit("win");
    reveal_strlit("windows");
    reveal_strlit("mac");
    reveal_strlit("macos");
    reveal_strlit("android32");
    reveal_strlit("android64");
    reveal_strlit("-DANDROID_ABI=armeabi-v7a");
    reveal_strlit("-DANDROID_ABI=arm64-v8a");
    let l = lowercased(platform);
    assert(l.len() == 9);
    assert(l != "win"@ && l != "windows"@ && l != "mac"@ && l != "macos"@);
    assert(build_platform(Some(platform)) == Some(l));
    let plan = spec_build_plan(Some(platform), configure_only, false, Some(ndk), true, config_type, extra, host);
    let args = android_args(l, ndk, host, extra);
    assert(args[1] == if l == "android32"@ { "-DANDROID_ABI=armeabi-v7a"@ } else { "-DANDROID_ABI=arm64-v8a"@ });
    let cross = is_cross(l, host);
    let folder = if cross { "build-"@ + l } else { "build"@ };
    let build_type = match config_type {
        Some(t) => t,
        None => "Debug"@,
    };
    let c = seq!["-B"@, folder, "-DCMAKE_BUILD_TYPE="@ + build_type] + args + extra;
    assert(plan == Ok::<_, BuildError>((folder, build_type, Some(c),
        if configure_only { None } else { Some(seq!["--build"@, folder, "--config"@, build_type]) })));
    assert(args.len() >= 5);
    assert(c.len() > 4);
    assert(c[4] == args[1]);
    if l == "android32"@ {
        assert(c[4] == "-DANDROID_ABI=armeabi-v7a"@);
        assert(c.contains("-DANDROID_ABI=armeabi-v7a"@));
    } else {
        assert(c[4] == "-DANDROID_ABI=arm64-v8a"@);
        assert(c.contains("-DANDROID_ABI=arm64-v8a"@));
    }
    assert("-DANDROID_ABI=armeabi-v7a"@ != "-DANDROID_ABI=arm64-v8a"@);
    assert("android32"@[7] != "android64"@[7]);
    assert(l == "android32"@ ==> l != "android64"@);
}
} // verus!
