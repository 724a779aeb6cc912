//! Installing Geode into a Geometry Dash installation: where the suite is
//! downloaded from, which of its folders holds the host's files, and where
//! the loader and the mods go.

use vstd::prelude::*;
use crate::paths::{path_join, path_parent, join, parent};
use crate::platform::TargetOs;

verus! {

/// The archive of the Geode suite: the `nightly` branch or the `main` one.
pub open spec fn spec_suite_url(nightly: bool) -> Seq<char> {
    if nightly {
        "https://github.com/geode-sdk/suite/archive/refs/heads/nightly.zip"@
    } else {
        "https://github.com/geode-sdk/suite/archive/refs/heads/main.zip"@
    }
}

/// Where the Geode suite is downloaded from.
pub fn suite_url(nightly: bool) -> (r: &'static str)
    ensures
        r@ == spec_suite_url(nightly),
{
    if nightly {
        "https://github.com/geode-sdk/suite/archive/refs/heads/nightly.zip"
    } else {
        "https://github.com/geode-sdk/suite/archive/refs/heads/main.zip"
    }
}

/// The folder of the unpacked suite that holds the files for the system:
/// `windows` or `macos`; there are none for other systems.
pub fn suite_platform_folder(os: TargetOs) -> (r: Option<&'static str>)
    ensures
        os == TargetOs::Windows ==> r is Some && r->0@ == "windows"@,
        os == TargetOs::MacOS ==> r is Some && r->0@ == "macos"@,
        os != TargetOs::Windows && os != TargetOs::MacOS ==> r is None,
{
    match os {
        TargetOs::Windows => Some("windows"),
        TargetOs::MacOS => Some("macos"),
        _ => None,
    }
}

/// The folder the game's files are next to: on Windows the folder of the
/// executable, elsewhere the app bundle's `Contents`.
pub open spec fn game_root(exe: Seq<char>, os: TargetOs) -> Seq<char> {
    if os == TargetOs::Windows {
        path_parent(exe).unwrap()
    } else {
        path_join(exe, "Contents"@)
    }
}

/// Where mods are installed: `geode/mods` under the game's root.
pub open spec fn spec_mods_dir(exe: Seq<char>, os: TargetOs) -> Seq<char> {
    path_join(path_join(game_root(exe, os), "geode"@), "mods"@)
}

/// Where the loader is installed: the game's root on Windows, the bundle's
/// `Contents/Frameworks` elsewhere.
pub open spec fn spec_loader_dir(exe: Seq<char>, os: TargetOs) -> Seq<char> {
    if os == TargetOs::Windows {
        path_parent(exe).unwrap()
    } else {
        path_join(path_join(exe, "Contents"@), "Frameworks"@)
    }
}

/// The mods folder and the loader folder of the installation at `exe`
/// (the game's executable on Windows, its app bundle elsewhere); `None`
/// when a Windows executable has no parent folder.
pub fn install_dirs(exe: &String, os: TargetOs) -> (r: Option<(String, String)>)
    ensures
        r is None <==> os == TargetOs::Windows && path_parent(exe@) is None,
        r matches Some((mods, loader)) ==> mods@ == spec_mods_dir(exe@, os) && loader@ == spec_loader_dir(exe@, os),
{
    if os == TargetOs::Windows {
        let root = match parent(exe) {
            Some(p) => p,
            None => { return None; },
        };
        let mods = join(&join(&root, "geode"), "mods");
        Some((mods, root))
    } else {
        let contents = join(exe, "Contents");
        let mods = join(&join(&contents, "geode"), "mods");
        let loader = join(&contents, "Frameworks");
        Some((mods, loader))
    }
}

/// Why the game's folder could not be found from its running processes.
#[derive(PartialEq, Eq, Structural, Clone, Copy, Debug)]
pub enum GdPathError {
    /// No game process is running.
    NotRunning,
    /// More than one game process is running.
    SeveralRunning,
    /// The running executable's path has no folder above it.
    NoParent,
}

/// The game's folder found from the executables of the running game
/// processes: the folder of the only one (on macOS, the folder above that,
/// the app bundle's `Contents`).
pub open spec fn spec_gd_path(exes: Seq<Seq<char>>, os: TargetOs) -> Result<Seq<char>, GdPathError> {
    if exes.len() == 0 {
        Err(GdPathError::NotRunning)
    } else if exes.len() > 1 {
        Err(GdPathError::SeveralRunning)
    } else {
        match path_parent(exes[0]) {
            None => Err(GdPathError::NoParent),
            Some(p) => if os == TargetOs::MacOS {
                match path_parent(p) {
                    None => Err(GdPathError::NoParent),
                    Some(q) => Ok(q),
                }
            } else {
                Ok(p)
            },
        }
    }
}

/// The game's folder from the executables of the running game processes
/// (see `spec_gd_path`).
pub fn gd_path_from_processes(exes: &Vec<String>, os: TargetOs) -> (r: Result<String, GdPathError>)
    ensures
        match spec_gd_path(exes@.map_values(|e: String| e@), os) {
            Ok(p) => r is Ok && r->Ok_0@ == p,
            Err(e) => r == Err::<String, GdPathError>(e),
        },
{
    let ghost views = exes@.map_values(|e: String| e@);
    if exes.len() == 0 {
        return Err(GdPathError::NotRunning);
    }
    if exes.len() > 1 {
        return Err(GdPathError::SeveralRunning);
    }
    assert(views[0] == exes@[0]@);
    let p = match parent(&exes[0]) {
        Some(p) => p,
        None => { return Err(GdPathError::NoParent); },
    };
    if os == TargetOs::MacOS {
        match parent(&p) {
            Some(q) => Ok(q),
            None => Err(GdPathError::NoParent),
        }
    } else {
        Ok(p)
    }
}

} // verus!
