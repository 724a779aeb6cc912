//! Platform naming: the operating system a build targets, the binary
//! extension that goes with it, and the platform names used in `mod.json`.

use vstd::prelude::*;
use crate::text::str_equals;

verus! {

/// The operating system the utilities were built for.
#[derive(PartialEq, Eq, Structural, Clone, Copy, Debug)]
pub enum TargetOs {
    Windows,
    Linux,
    MacOS,
    IOS,
    Android,
    Other,
}

/// The processor architecture the utilities were built for.
#[derive(PartialEq, Eq, Structural, Clone, Copy, Debug)]
pub enum TargetArch {
    X86_64,
    Aarch64,
    Other,
}

/// The platform name packages use for `os` (Linux builds package for Windows).
pub open spec fn spec_platform_string(os: TargetOs) -> Seq<char> {
    match os {
        TargetOs::Windows | TargetOs::Linux => "windows"@,
        TargetOs::MacOS => "macos"@,
        TargetOs::IOS => "ios"@,
        TargetOs::Android => "android"@,
        TargetOs::Other => Seq::empty(),
    }
}

/// The platforms packages know a binary extension for.
pub open spec fn is_known_platform(p: Seq<char>) -> bool {
    p == "windows"@ || p == "macos"@ || p == "ios"@ || p == "android"@
}

/// The file extension of a binary for the named platform.
pub open spec fn spec_extension(p: Seq<char>) -> Seq<char> {
    if p == "windows"@ {
        ".dll"@
    } else if p == "macos"@ || p == "ios"@ {
        ".dylib"@
    } else {
        ".so"@
    }
}

/// The binary extension of a named platform: `.dll` for `windows`,
/// `.dylib` for `macos` and `ios`, `.so` for `android`.
pub fn get_extension(platform: &str) -> (r: &'static str)
    requires
        is_known_platform(platform@),
    ensures
        r@ == spec_extension(platform@),
{
    if str_equals(platform, "windows") {
        ".dll"
    } else if str_equals(platform, "macos") || str_equals(platform, "ios") {
        ".dylib"
    } else {
        ".so"
    }
}

/// The platform name for the operating system the utilities run on; there is
/// none for an operating system outside the supported ones.
pub fn platform_string(os: TargetOs) -> (r: &'static str)
    requires
        os != TargetOs::Other,
    ensures
        r@ == spec_platform_string(os),
        is_known_platform(r@),
{
    match os {
        TargetOs::Windows | TargetOs::Linux => "windows",
        TargetOs::MacOS => "macos",
        TargetOs::IOS => "ios",
        TargetOs::Android => "android",
        TargetOs::Other => "",
    }
}

/// The binary extension of the platform the utilities run on.
pub fn platform_extension(os: TargetOs) -> (r: &'static str)
    requires
        os != TargetOs::Other,
    ensures
        r@ == spec_extension(spec_platform_string(os)),
{
    get_extension(platform_string(os))
}

/// The profile platform assumed when a profile does not name one.
pub open spec fn spec_profile_platform_default(os: TargetOs, arch: TargetArch) -> Seq<char> {
    if os == TargetOs::MacOS && arch == TargetArch::X86_64 {
        "mac-intel"@
    } else if os == TargetOs::MacOS && arch == TargetArch::Aarch64 {
        "mac-arm"@
    } else {
        "win"@
    }
}

/// `win` on Windows, `mac-intel` or `mac-arm` on macOS by processor, and
/// `win` everywhere else.
pub fn profile_platform_default(os: TargetOs, arch: TargetArch) -> (r: String)
    ensures
        r@ == spec_profile_platform_default(os, arch),
{
    if os == TargetOs::Windows {
        "win".to_string()
    } else if os == TargetOs::MacOS && arch == TargetArch::X86_64 {
        "mac-intel".to_string()
    } else if os == TargetOs::MacOS && arch == TargetArch::Aarch64 {
        "mac-arm".to_string()
    } else {
        "win".to_string()
    }
}

/// A platform a mod or a dependency can be built for.
#[derive(PartialEq, Eq, Structural, Clone, Copy, Debug, Hash)]
pub enum PlatformName {
    Windows,
    MacOS,
    MacIntel,
    MacArm,
    Android,
    Android32,
    Android64,
}

/// The display name of a platform.
pub open spec fn spec_platform_name(p: PlatformName) -> Seq<char> {
    match p {
        PlatformName::Windows => "win"@,
        PlatformName::MacOS => "mac"@,
        PlatformName::MacIntel => "mac-intel"@,
        PlatformName::MacArm => "mac-arm"@,
        PlatformName::Android => "android"@,
        PlatformName::Android32 => "android32"@,
        PlatformName::Android64 => "android64"@,
    }
}

/// The platform name of the host operating system, if it has one.
pub open spec fn spec_current_platform(os: TargetOs) -> Option<PlatformName> {
    match os {
        TargetOs::Windows | TargetOs::Linux => Some(PlatformName::Windows),
        TargetOs::Android => Some(PlatformName::Android64),
        TargetOs::MacOS => Some(PlatformName::MacOS),
        _ => None,
    }
}

impl PlatformName {
    /// The platform of the host: Windows (also for Linux hosts), 64-bit
    /// Android, macOS, or none.
    pub fn current(os: TargetOs) -> (r: Option<PlatformName>)
        ensures
            r == spec_current_platform(os),
    {
        match os {
            TargetOs::Windows => Some(PlatformName::Windows),
            TargetOs::Android => Some(PlatformName::Android64),
            TargetOs::Linux => Some(PlatformName::Windows),
            TargetOs::MacOS => Some(PlatformName::MacOS),
            _ => None,
        }
    }

    /// The name the platform is displayed with.
    pub fn name(&self) -> (r: &'static str)
        ensures
            r@ == spec_platform_name(*self),
    {
        match self {
            PlatformName::Windows => "win",
            PlatformName::MacOS => "mac",
            PlatformName::MacIntel => "mac-intel",
            PlatformName::MacArm => "mac-arm",
            PlatformName::Android => "android",
            PlatformName::Android32 => "android32",
            PlatformName::Android64 => "android64",
        }
    }
}

/// All seven platforms, each once.
pub fn all_platforms() -> (r: Vec<PlatformName>)
    ensures
        r.len() == 7,
        forall|p: PlatformName| #[trigger] r@.contains(p),
        forall|i: int, j: int| 0 <= i < j < r.len() ==> r@[i] != r@[j],
{
    let r = vec![
        PlatformName::Windows,
        PlatformName::MacOS,
        PlatformName::MacIntel,
        PlatformName::MacArm,
        PlatformName::Android,
        PlatformName::Android32,
        PlatformName::Android64,
    ];
    assert forall|p: PlatformName| #[trigger] r@.contains(p) by {
        match p {
            PlatformName::Windows => assert(r@[0] == p),
            PlatformName::MacOS => assert(r@[1] == p),
            PlatformName::MacIntel => assert(r@[2] == p),
            PlatformName::MacArm => assert(r@[3] == p),
            PlatformName::Android => assert(r@[4] == p),
            PlatformName::Android32 => assert(r@[5] == p),
            PlatformName::Android64 => assert(r@[6] == p),
        }
    }
    r
}

/// How strongly a mod depends on another.
#[derive(PartialEq, Eq, Structural, Clone, Copy, Debug)]
pub enum DependencyImportance {
    Required,
    Recommended,
    Suggested,
}

} // verus!
