//! Updating an installed Geode loader from the binary repository: which tag
//! to take, which library files to compare, and whether an update is due.

use vstd::prelude::*;
use crate::paths::{path_join, join};
use crate::platform::{TargetOs, spec_platform_string, spec_extension, platform_string, platform_extension};
use crate::text::{chars_of, string_from_chars, push_all, str_equals};

verus! {

/// The tag an update checks out: the version asked for, else the last tag
/// the repository lists, else nothing (empty).
pub open spec fn spec_update_tag(requested: Option<Seq<char>>, tags: Seq<Seq<char>>) -> Seq<char> {
    match requested {
        Some(v) => v,
        None => if tags.len() > 0 { tags.last() } else { Seq::empty() },
    }
}

/// The tag an update checks out (see `spec_update_tag`).
pub fn update_tag(requested: &Option<String>, tags: &Vec<String>) -> (r: String)
    ensures
        r@ == spec_update_tag(crate::templates::opt_view(*requested), tags@.map_values(|t: String| t@)),
{
    match requested {
        Some(v) => v.clone(),
        None => if tags.len() > 0 { tags[tags.len() - 1].clone() } else { String::new() },
    }
}

/// Whether the tag has to be checked out: every tag but `latest`, which the
/// repository's head already is.
pub fn needs_checkout(tag: &str) -> (r: bool)
    ensures
        r == (tag@ != "latest"@),
{
    proof { reveal_strlit("latest"); }
    !str_equals(tag, "latest")
}

/// The folder of an installation that holds the loader library: `Frameworks`
/// inside it on macOS, the installation itself elsewhere.
pub open spec fn spec_geode_library(install_path: Seq<char>, os: TargetOs) -> Seq<char> {
    if os == TargetOs::MacOS { path_join(install_path, "Frameworks"@) } else { install_path }
}

/// The loader library's folder in an installation (see `spec_geode_library`).
pub fn geode_library(install_path: &String, os: TargetOs) -> (r: String)
    ensures
        r@ == spec_geode_library(install_path@, os),
{
    if os == TargetOs::MacOS { join(install_path, "Frameworks") } else { install_path.clone() }
}

/// The library file name: `geode` and the platform's binary extension.
pub open spec fn library_file(os: TargetOs) -> Seq<char> {
    "geode"@ + spec_extension(spec_platform_string(os))
}

/// The two library files an update compares: the one in the binary
/// repository (under the platform's folder) and the installed one.
pub fn library_paths(bin_dir: &String, install_path: &String, os: TargetOs) -> (r: (String, String))
    requires
        os != TargetOs::Other,
    ensures
        r.0@ == path_join(path_join(bin_dir@, spec_platform_string(os)), library_file(os)),
        r.1@ == path_join(spec_geode_library(install_path@, os), library_file(os)),
{
    let mut file = chars_of("geode");
    push_all(&mut file, &chars_of(platform_extension(os)));
    let file = string_from_chars(&file);
    let platform_dir = join(bin_dir, platform_string(os));
    let new_lib = join(&platform_dir, file.as_str());
    let lib_dir = geode_library(install_path, os);
    let old_lib = join(&lib_dir, file.as_str());
    (new_lib, old_lib)
}

/// Whether an update is due: the installed library is missing, or its
/// SHA-256 digest differs from the repository's.
pub fn check_update(installed_exists: bool, new_digest: &String, installed_digest: &String) -> (r: bool)
    ensures
        r == (!installed_exists || new_digest@ != installed_digest@),
{
    !installed_exists || *new_digest != *installed_digest
}

/// The file that loads Geode into the game, copied along with the library:
/// `libfmod.dylib` on macOS and `XInput9_1_0.dll` on Windows; there is
/// none elsewhere.
pub fn injector_file(os: TargetOs) -> (r: Option<&'static str>)
    ensures
        os == TargetOs::MacOS ==> r is Some && r->0@ == "libfmod.dylib"@,
        os == TargetOs::Windows ==> r is Some && r->0@ == "XInput9_1_0.dll"@,
        os != TargetOs::MacOS && os != TargetOs::Windows ==> r is None,
{
    match os {
        TargetOs::MacOS => Some("libfmod.dylib"),
        TargetOs::Windows => Some("XInput9_1_0.dll"),
        _ => None,
    }
}

} // verus!
