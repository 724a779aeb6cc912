//! The CLI's configuration: the Geometry Dash installations it knows
//! (profiles), which one is current, and the index and SDK settings; and
//! the bookkeeping that the `profile`, `config` and `index url` commands do
//! on it.

use vstd::prelude::*;
use crate::paths::{path_join, path_parent, path_file_name, join, parent, file_name};
use crate::platform::{TargetOs, TargetArch, spec_profile_platform_default, profile_platform_default};
use crate::text::str_equals;
use crate::templates::opt_view;

verus! {

/// One Geometry Dash installation: its name, the path of the game (the
/// executable on Windows, the app bundle on macOS, the data folder on
/// Android) and the platform it runs on (`win`, `mac-intel`, `mac-arm`,
/// `android32` or `android64`).
pub struct Profile {
    pub name: String,
    pub gd_path: String,
    pub platform: String,
}

/// The stored configuration.
pub struct Config {
    pub current_profile: Option<String>,
    pub profiles: Vec<Profile>,
    pub default_developer: Option<String>,
    pub sdk_nightly: bool,
    pub sdk_version: Option<String>,
    pub index_token: Option<String>,
    pub index_url: String,
}

/// An installation as the configuration of older CLI versions recorded it.
pub struct OldConfigInstallation {
    pub path: String,
    pub executable: String,
}

/// The configuration of older CLI versions.
pub struct OldConfig {
    pub default_installation: usize,
    pub working_installation: Option<usize>,
    pub installations: Option<Vec<OldConfigInstallation>>,
    pub default_developer: Option<String>,
}

/// Why a profile command was refused.
#[derive(PartialEq, Eq, Structural, Clone, Copy, Debug)]
pub enum ProfileError {
    /// No profile has the given name.
    NotFound,
    /// A profile with the new name exists already.
    NameTaken,
    /// The profile is the current one already.
    AlreadyCurrent,
    /// No profile was asked for and the current one does not exist.
    NoCurrent,
    /// The path given for a profile has no final component (or ends in a
    /// `Contents` with nothing before it), so no game path follows from it.
    BadLocation,
    /// A Windows profile's game path has no parent folder.
    NoGameFolder,
}

/// How Geometry Dash is started by `geode run`.
#[derive(PartialEq, Eq, Structural, Clone, Copy, Debug)]
pub enum RunBackground {
    /// Wait for the game to exit.
    Foreground,
    /// Start the game and return at once.
    Background,
    /// Wait for the game, then for a key press.
    ForegroundStay,
}

/// The address of the official mod index.
pub open spec fn official_index_url() -> Seq<char> {
    "https://api.geode-sdk.org"@
}

/// Some profile in `ps` is named `name`.
pub open spec fn has_profile(ps: Seq<Profile>, name: Seq<char>) -> bool {
    exists|i: int| 0 <= i < ps.len() && #[trigger] ps[i].name@ == name
}

/// `i` is the index of the first profile named `name`.
pub open spec fn is_first_named(ps: Seq<Profile>, name: Seq<char>, i: int) -> bool {
    &&& 0 <= i < ps.len()
    &&& ps[i].name@ == name
    &&& forall|j: int| 0 <= j < i ==> ps[j].name@ != name
}

/// The profiles other than those named `name`, in their order.
pub open spec fn without_profile(ps: Seq<Profile>, name: Seq<char>) -> Seq<Profile> {
    ps.filter(|p: Profile| p.name@ != name)
}

/// The platform name that `profile add` records for what the user typed,
/// or for the host when nothing was typed; empty when there is none.
pub open spec fn spec_add_platform(platform: Option<Seq<char>>, os: TargetOs) -> Seq<char> {
    match platform {
        Some(p) => if p == "win"@ || p == "windows"@ {
            "win"@
        } else if p == "mac"@ || p == "macos"@ {
            "mac"@
        } else if p == "android32"@ {
            "android32"@
        } else if p == "android64"@ {
            "android64"@
        } else {
            Seq::empty()
        },
        None => match os {
            TargetOs::Windows => "win"@,
            TargetOs::MacOS => "mac"@,
            _ => Seq::empty(),
        },
    }
}

/// The game path recorded for a new profile: on Windows a folder is
/// completed with `GeometryDash.exe`; elsewhere a path that ends in
/// `Contents` (inside an app bundle) is taken back to the bundle.
pub open spec fn spec_migrate_location(location: Seq<char>, is_dir: bool, platform: Seq<char>) -> Seq<char> {
    if platform == "win"@ && is_dir {
        path_join(location, "GeometryDash.exe"@)
    } else if path_file_name(location) == Some("Contents"@) {
        path_parent(location).unwrap()
    } else {
        location
    }
}

/// `spec_migrate_location` is defined on these inputs: outside the Windows
/// folder case the path has a final component, and a `Contents` one has a
/// parent.
pub open spec fn migrate_defined(location: Seq<char>, is_dir: bool, platform: Seq<char>) -> bool {
    (platform == "win"@ && is_dir) || (path_file_name(location) is Some && (path_file_name(location)
        == Some("Contents"@) ==> path_parent(location) is Some))
}

/// Whether a profile with this platform keeps the game's executable in
/// `gd_path` (Windows), so that the game's folder is its parent.
pub open spec fn points_to_executable(platform: Seq<char>) -> bool {
    platform == "win"@
}

/// The folder the game lives in.
pub open spec fn spec_gd_dir(p: Profile) -> Seq<char> {
    if points_to_executable(p.platform@) {
        path_parent(p.gd_path@).unwrap()
    } else {
        p.gd_path@
    }
}

/// The folder Geode keeps its files in, inside the game's installation.
pub open spec fn spec_geode_dir(p: Profile) -> Seq<char> {
    if points_to_executable(p.platform@) {
        path_join(path_parent(p.gd_path@).unwrap(), "geode"@)
    } else if p.platform@ == "android32"@ || p.platform@ == "android64"@ {
        path_join(p.gd_path@, "game/geode"@)
    } else {
        path_join(p.gd_path@, "Contents/geode"@)
    }
}

/// The launch mode for the `--background` and `--stay` flags.
pub open spec fn spec_run_mode(background: bool, stay: bool) -> RunBackground {
    if background {
        RunBackground::Background
    } else if stay {
        RunBackground::ForegroundStay
    } else {
        RunBackground::Foreground
    }
}

/// The address of the official mod index.
pub fn default_index_url() -> (r: String)
    ensures
        r@ == official_index_url(),
{
    proof { reveal_strlit("https://api.geode-sdk.org"); }
    "https://api.geode-sdk.org".to_string()
}

/// The path of the game for a new profile (see `spec_migrate_location`).
pub fn migrate_location(location: String, location_is_dir: bool, platform: &str) -> (r: String)
    requires
        migrate_defined(location@, location_is_dir, platform@),
    ensures
        r@ == spec_migrate_location(location@, location_is_dir, platform@),
{
    proof {
        reveal_strlit("win");
        reveal_strlit("Contents");
    }
    if str_equals(platform, "win") && location_is_dir {
        return join(&location, "GeometryDash.exe");
    }
    let last = file_name(&location).unwrap();
    if str_equals(last.as_str(), "Contents") {
        parent(&location).unwrap()
    } else {
        location
    }
}

impl RunBackground {
    /// The launch mode for the flags; the two cannot be given together.
    pub fn from_flags(background: bool, stay: bool) -> (r: RunBackground)
        requires
            !(background && stay),
        ensures
            r == spec_run_mode(background, stay),
    {
        if background {
            RunBackground::Background
        } else if stay {
            RunBackground::ForegroundStay
        } else {
            RunBackground::Foreground
        }
    }

    /// Whether the CLI waits for the game to exit.
    pub fn waits(&self) -> (r: bool)
        ensures
            r == (*self != RunBackground::Background),
    {
        !matches!(self, RunBackground::Background)
    }
}

impl Profile {
    /// A profile for the installation at `location` (see `migrate_location`).
    pub fn new(name: String, location: String, location_is_dir: bool, platform: String) -> (p: Profile)
        requires
            migrate_defined(location@, location_is_dir, platform@),
        ensures
            p.name == name,
            p.platform == platform,
            p.gd_path@ == spec_migrate_location(location@, location_is_dir, platform@),
    {
        let gd_path = migrate_location(location, location_is_dir, platform.as_str());
        Profile { name, gd_path, platform }
    }

    /// The folder the game lives in.
    pub fn gd_dir(&self) -> (r: String)
        requires
            points_to_executable(self.platform@) ==> path_parent(self.gd_path@) is Some,
        ensures
            r@ == spec_gd_dir(*self),
    {
        proof { reveal_strlit("win"); }
        if str_equals(self.platform.as_str(), "win") {
            parent(&self.gd_path).unwrap()
        } else {
            self.gd_path.clone()
        }
    }

    /// The folder Geode keeps its files in.
    pub fn geode_dir(&self) -> (r: String)
        requires
            points_to_executable(self.platform@) ==> path_parent(self.gd_path@) is Some,
        ensures
            r@ == spec_geode_dir(*self),
    {
        proof {
            reveal_strlit("win");
            reveal_strlit("android32");
            reveal_strlit("android64");
        }
        if str_equals(self.platform.as_str(), "win") {
            let dir = parent(&self.gd_path).unwrap();
            join(&dir, "geode")
        } else if str_equals(self.platform.as_str(), "android32") || str_equals(self.platform.as_str(), "android64") {
            join(&self.gd_path, "game/geode")
        } else {
            join(&self.gd_path, "Contents/geode")
        }
    }

    /// The folder installed mods go to.
    pub fn mods_dir(&self) -> (r: String)
        requires
            points_to_executable(self.platform@) ==> path_parent(self.gd_path@) is Some,
        ensures
            r@ == path_join(spec_geode_dir(*self), "mods"@),
    {
        let dir = self.geode_dir();
        join(&dir, "mods")
    }
}

/// The `n`-th ancestor of a path (the path itself for `n == 0`), if it has one.
pub open spec fn ancestor(path: Seq<char>, n: nat) -> Option<Seq<char>>
    decreases n,
{
    if n == 0 {
        Some(path)
    } else {
        match ancestor(path, (n - 1) as nat) {
            Some(p) => path_parent(p),
            None => None,
        }
    }
}

/// Steam's loader library inside a Steam installation folder.
pub open spec fn steam_loader(root: Seq<char>) -> Seq<char> {
    path_join(path_join(path_join(path_join(path_join(root, "Steam.AppBundle"@), "Steam"@), "Contents"@), "MacOS"@), "steamloader.dylib"@)
}

/// How `geode run` starts a profile's game: the program, the folder to run
/// it in (if any) and a library to preload (if any); `None` where the path
/// lacks the folders this needs. On Windows the executable runs in its
/// folder; elsewhere the app's `Contents/MacOS/Geometry Dash` runs, with
/// Steam's loader (four folders above the app) preloaded for Steam copies.
pub open spec fn spec_launch_plan(p: Profile, steam: bool) -> Option<(Seq<char>, Option<Seq<char>>, Option<Seq<char>>)> {
    if p.platform@ == "win"@ {
        match path_parent(p.gd_path@) {
            Some(dir) => Some((p.gd_path@, Some(dir), None)),
            None => None,
        }
    } else {
        let program = path_join(p.gd_path@, "Contents/MacOS/Geometry Dash"@);
        if steam {
            match ancestor(p.gd_path@, 4) {
                Some(root) => Some((program, None, Some(steam_loader(root)))),
                None => None,
            }
        } else {
            Some((program, None, None))
        }
    }
}

/// What starts a game (see `spec_launch_plan`).
pub struct LaunchPlan {
    pub program: String,
    pub working_dir: Option<String>,
    pub preload: Option<String>,
}

impl Profile {
    /// The platform's name as stored.
    pub fn platform_str(&self) -> (r: &str)
        ensures
            r@ == self.platform@,
    {
        self.platform.as_str()
    }

    /// The file whose presence marks a Steam copy of the game on macOS.
    pub fn steam_marker(&self) -> (r: String)
        ensures
            r@ == path_join(self.gd_path@, "Contents/MacOS/steam_appid.txt"@),
    {
        join(&self.gd_path, "Contents/MacOS/steam_appid.txt")
    }

    /// How to start the game (see `spec_launch_plan`); `steam` says whether
    /// the Steam marker file exists.
    pub fn launch_plan(&self, steam: bool) -> (r: Option<LaunchPlan>)
        ensures
            match r {
                Some(l) => spec_launch_plan(*self, steam) == Some((l.program@, opt_view(l.working_dir), opt_view(l.preload))),
                None => spec_launch_plan(*self, steam) is None,
            },
    {
        proof { reveal_strlit("win"); }
        if str_equals(self.platform.as_str(), "win") {
            match parent(&self.gd_path) {
                Some(dir) => Some(LaunchPlan { program: self.gd_path.clone(), working_dir: Some(dir), preload: None }),
                None => None,
            }
        } else {
            let program = join(&self.gd_path, "Contents/MacOS/Geometry Dash");
            if steam {
                let mut root = self.gd_path.clone();
                let mut n: usize = 0;
                while n < 4
                    invariant
                        n <= 4,
                        steam,
                        self.platform@ != "win"@,
                        ancestor(self.gd_path@, n as nat) == Some(root@),
                    decreases 4 - n,
                {
                    match parent(&root) {
                        Some(up) => {
                            root = up;
                        },
                        None => {
                            proof {
                                assert(ancestor(self.gd_path@, (n + 1) as nat) is None);
                                lemma_no_ancestor_beyond(self.gd_path@, (n + 1) as nat, 4);
                                assert(spec_launch_plan(*self, steam) is None);
                            }
                            return None;
                        },
                    }
                    n = n + 1;
                }
                let a = join(&root, "Steam.AppBundle");
                let b = join(&a, "Steam");
                let c = join(&b, "Contents");
                let d = join(&c, "MacOS");
                let loader = join(&d, "steamloader.dylib");
                Some(LaunchPlan { program, working_dir: None, preload: Some(loader) })
            } else {
                Some(LaunchPlan { program, working_dir: None, preload: None })
            }
        }
    }
}

/// A path without an `n`-th ancestor has none further up either.
proof fn lemma_no_ancestor_beyond(path: Seq<char>, n: nat, m: nat)
    requires
        n <= m,
        ancestor(path, n) is None,
    ensures
        ancestor(path, m) is None,
    decreases m - n,
{
    if n < m {
        lemma_no_ancestor_beyond(path, (n + 1) as nat, m);
    }
}

/// Two profile lists with the same names at the same places have the same
/// names.
proof fn lemma_same_names(a: Seq<Profile>, b: Seq<Profile>, name: Seq<char>)
    requires
        a.len() == b.len(),
        forall|i: int| 0 <= i < a.len() ==> (#[trigger] a[i]).name@ == b[i].name@,
    ensures
        has_profile(a, name) == has_profile(b, name),
{
    if has_profile(a, name) {
        let k = choose|k: int| 0 <= k < a.len() && #[trigger] a[k].name@ == name;
        assert(b[k].name@ == name);
    }
    if has_profile(b, name) {
        let k = choose|k: int| 0 <= k < b.len() && #[trigger] b[k].name@ == name;
        assert(a[k].name@ == name);
    }
}

/// The optional profile name `current` is `name`.
pub open spec fn is_current(current: Option<String>, name: Seq<char>) -> bool {
    current is Some && current->0@ == name
}

/// The platform a stored profile has once brought up to date: the old
/// `mac` becomes the host's macOS platform, anything else stays.
pub open spec fn normalized_platform(platform: Seq<char>, os: TargetOs, arch: TargetArch) -> Seq<char> {
    if platform == "mac"@ {
        spec_profile_platform_default(os, arch)
    } else {
        platform
    }
}

/// The current profile needs replacing: there are profiles and it names
/// none of them.
pub open spec fn current_is_stale(c: Config) -> bool {
    c.profiles@.len() > 0 && (c.current_profile is None || !has_profile(c.profiles@, c.current_profile->0@))
}

/// `after` is `before` brought up to date (see `Config::normalize`): the same
/// profiles with their platforms normalized, the first profile current when
/// the current one was stale, everything else as it was.
pub open spec fn normalizes_to(before: Config, after: Config, os: TargetOs, arch: TargetArch) -> bool {
    &&& after.profiles@.len() == before.profiles@.len()
    &&& forall|i: int| 0 <= i < before.profiles@.len() ==> {
        let b = #[trigger] before.profiles@[i];
        let a = after.profiles@[i];
        &&& a.name == b.name
        &&& a.gd_path == b.gd_path
        &&& a.platform@ == normalized_platform(b.platform@, os, arch)
    }
    &&& current_is_stale(before) ==> after.current_profile == Some(before.profiles@[0].name)
    &&& !current_is_stale(before) ==> after.current_profile == before.current_profile
    &&& after.default_developer == before.default_developer
    &&& after.sdk_nightly == before.sdk_nightly
    &&& after.sdk_version == before.sdk_version
    &&& after.index_token == before.index_token
    &&& after.index_url == before.index_url
}

/// Bringing a configuration up to date twice does no more than once: the
/// second time keeps every profile, the current profile and the settings.
pub proof fn lemma_normalize_idempotent(a: Config, b: Config, c: Config, os: TargetOs, arch: TargetArch)
    requires
        normalizes_to(a, b, os, arch),
        normalizes_to(b, c, os, arch),
    ensures
        c.profiles@.len() == b.profiles@.len(),
        forall|i: int| 0 <= i < b.profiles@.len() ==> {
            let x = #[trigger] c.profiles@[i];
            let y = b.profiles@[i];
            &&& x.name == y.name
            &&& x.gd_path == y.gd_path
            &&& x.platform@ == y.platform@
        },
        c.current_profile == b.current_profile,
        c.index_url == b.index_url,
        c.index_token == b.index_token,
        c.sdk_version == b.sdk_version,
        c.sdk_nightly == b.sdk_nightly,
        c.default_developer == b.default_developer,
{
    reveal_strlit("mac");
    reveal_strlit("mac-intel");
    reveal_strlit("mac-arm");
    reveal_strlit("win");
    assert forall|i: int| 0 <= i < b.profiles@.len() implies #[trigger] c.profiles@[i].platform@ == b.profiles@[i].platform@ by {
        let p = a.profiles@[i].platform@;
        if p == "mac"@ {
            assert(spec_profile_platform_default(os, arch) != "mac"@) by {
                let d = spec_profile_platform_default(os, arch);
                assert(d.len() != 3 || d[0] != 'm');
            }
        }
    }
    if current_is_stale(a) {
        assert(b.profiles@[0].name@ == a.profiles@[0].name@);
        assert(has_profile(b.profiles@, b.current_profile->0@));
    } else if b.profiles@.len() > 0 {
        let n = a.current_profile->0@;
        let k = choose|k: int| 0 <= k < a.profiles@.len() && #[trigger] a.profiles@[k].name@ == n;
        assert(b.profiles@[k].name@ == n);
    }
}

/// Index of the first profile named `name`, if any.
fn find_profile(profiles: &Vec<Profile>, name: &str) -> (r: Option<usize>)
    ensures
        match r {
            Some(i) => is_first_named(profiles@, name@, i as int),
            None => !has_profile(profiles@, name@),
        },
{
    let mut i: usize = 0;
    while i < profiles.len()
        invariant
            i <= profiles.len(),
            forall|j: int| 0 <= j < i ==> profiles@[j].name@ != name@,
        decreases profiles.len() - i,
    {
        if str_equals(profiles[i].name.as_str(), name) {
            return Some(i);
        }
        i = i + 1;
    }
    None
}

impl Config {
    /// The configuration used while none is stored: no profiles, stable SDK
    /// releases, not logged in, the official index.
    pub fn default_fallback() -> (c: Config)
        ensures
            c.current_profile is None,
            c.profiles@.len() == 0,
            c.default_developer is None,
            !c.sdk_nightly,
            c.sdk_version is None,
            c.index_token is None,
            c.index_url@ == official_index_url(),
    {
        Config {
            current_profile: None,
            profiles: Vec::new(),
            default_developer: None,
            sdk_nightly: false,
            sdk_version: None,
            index_token: None,
            index_url: default_index_url(),
        }
    }

    /// Index of the first profile with the given name; none when no name is given.
    pub fn get_profile(&self, name: &Option<String>) -> (r: Option<usize>)
        ensures
            match name {
                None => r is None,
                Some(n) => match r {
                    Some(i) => is_first_named(self.profiles@, n@, i as int),
                    None => !has_profile(self.profiles@, n@),
                },
            },
    {
        match name {
            Some(n) => find_profile(&self.profiles, n.as_str()),
            None => None,
        }
    }

    /// Index of the current profile.
    pub fn get_current_profile(&self) -> (r: Result<usize, ProfileError>)
        ensures
            match r {
                Ok(i) => self.current_profile is Some && is_first_named(self.profiles@, self.current_profile->0@, i as int),
                Err(e) => e == ProfileError::NoCurrent
                    && (self.current_profile is None || !has_profile(self.profiles@, self.current_profile->0@)),
            },
    {
        match self.get_profile(&self.current_profile) {
            Some(i) => Ok(i),
            None => Err(ProfileError::NoCurrent),
        }
    }

    /// The profile `geode run` or `geode profile path` acts on: the one
    /// named, or the current one when none is named.
    pub fn select_profile(&self, requested: &Option<String>) -> (r: Result<usize, ProfileError>)
        ensures
            match requested {
                Some(n) => match r {
                    Ok(i) => is_first_named(self.profiles@, n@, i as int),
                    Err(e) => e == ProfileError::NotFound && !has_profile(self.profiles@, n@),
                },
                None => match r {
                    Ok(i) => self.current_profile is Some && is_first_named(self.profiles@, self.current_profile->0@, i as int),
                    Err(e) => e == ProfileError::NoCurrent
                        && (self.current_profile is None || !has_profile(self.profiles@, self.current_profile->0@)),
                },
            },
    {
        match requested {
            Some(_) => match self.get_profile(requested) {
                Some(i) => Ok(i),
                None => Err(ProfileError::NotFound),
            },
            None => self.get_current_profile(),
        }
    }

    /// Brings a configuration just read up to date: profiles of the old
    /// platform `mac` get the host's macOS platform, and when the current
    /// profile names none of the profiles (and there are some), the first
    /// becomes current.
    pub fn normalize(&mut self, os: TargetOs, arch: TargetArch)
        ensures
            normalizes_to(*old(self), *final(self), os, arch),
    {
        proof { reveal_strlit("mac"); }
        let ghost orig = self.profiles@;
        let mut i: usize = 0;
        while i < self.profiles.len()
            invariant
                i <= self.profiles@.len(),
                self.profiles@.len() == orig.len(),
                orig == old(self).profiles@,
                self.current_profile == old(self).current_profile,
                self.default_developer == old(self).default_developer,
                self.sdk_nightly == old(self).sdk_nightly,
                self.sdk_version == old(self).sdk_version,
                self.index_token == old(self).index_token,
                self.index_url == old(self).index_url,
                forall|j: int| 0 <= j < orig.len() ==> {
                    let before = #[trigger] orig[j];
                    let now = self.profiles@[j];
                    &&& now.name == before.name
                    &&& now.gd_path == before.gd_path
                    &&& j < i ==> now.platform@ == (if before.platform@ == "mac"@ {
                        spec_profile_platform_default(os, arch)
                    } else {
                        before.platform@
                    })
                    &&& j >= i ==> now.platform == before.platform
                },
            decreases self.profiles@.len() - i,
        {
            if str_equals(self.profiles[i].platform.as_str(), "mac") {
                let p = profile_platform_default(os, arch);
                self.profiles[i].platform = p;
            }
            i = i + 1;
        }
        proof {
            if self.current_profile is Some {
                lemma_same_names(orig, self.profiles@, self.current_profile->0@);
            }
        }
        if self.profiles.len() > 0 && self.get_profile(&self.current_profile).is_none() {
            let first = self.profiles[0].name.clone();
            self.current_profile = Some(first);
        }
    }

    /// Makes `name` the current profile.
    pub fn switch_profile(&mut self, name: String) -> (r: Result<(), ProfileError>)
        ensures
            !has_profile(old(self).profiles@, name@) ==> r == Err::<(), ProfileError>(ProfileError::NotFound),
            has_profile(old(self).profiles@, name@) && is_current(old(self).current_profile, name@)
                ==> r == Err::<(), ProfileError>(ProfileError::AlreadyCurrent),
            r is Ok <==> has_profile(old(self).profiles@, name@) && !is_current(old(self).current_profile, name@),
            r is Ok ==> final(self).current_profile == Some(name),
            r is Err ==> final(self).current_profile == old(self).current_profile,
            final(self).profiles == old(self).profiles,
            final(self).default_developer == old(self).default_developer,
            final(self).sdk_nightly == old(self).sdk_nightly,
            final(self).sdk_version == old(self).sdk_version,
            final(self).index_token == old(self).index_token,
            final(self).index_url == old(self).index_url,
    {
        if find_profile(&self.profiles, name.as_str()).is_none() {
            return Err(ProfileError::NotFound);
        }
        let same = match &self.current_profile {
            Some(c) => *c == name,
            None => false,
        };
        if same {
            proof {
                assert(self.current_profile->0@ == name@);
            }
            return Err(ProfileError::AlreadyCurrent);
        }
        self.current_profile = Some(name);
        Ok(())
    }

    /// Records a new profile (`geode profile add`). The platform given is
    /// mapped as `spec_add_platform` says; when none follows, the profile is
    /// still recorded, with an empty platform, and the result is `Ok(false)`.
    pub fn add_profile(
        &mut self,
        name: String,
        location: String,
        location_is_dir: bool,
        platform: Option<String>,
        os: TargetOs,
    ) -> (r: Result<bool, ProfileError>)
        ensures
            ({
                let plat = spec_add_platform(opt_view(platform), os);
                &&& has_profile(old(self).profiles@, name@) ==> r == Err::<bool, ProfileError>(ProfileError::NameTaken)
                &&& !has_profile(old(self).profiles@, name@) && !migrate_defined(location@, location_is_dir, plat)
                    ==> r == Err::<bool, ProfileError>(ProfileError::BadLocation)
                &&& r is Err ==> final(self).profiles@ == old(self).profiles@
                &&& r is Ok <==> !has_profile(old(self).profiles@, name@) && migrate_defined(location@, location_is_dir, plat)
                &&& r is Ok ==> {
                    let added = final(self).profiles@.last();
                    &&& r == Ok::<bool, ProfileError>(plat.len() > 0)
                    &&& final(self).profiles@.len() == old(self).profiles@.len() + 1
                    &&& final(self).profiles@.drop_last() == old(self).profiles@
                    &&& added.name == name
                    &&& added.platform@ == plat
                    &&& added.gd_path@ == spec_migrate_location(location@, location_is_dir, plat)
                }
            }),
            final(self).current_profile == old(self).current_profile,
            final(self).default_developer == old(self).default_developer,
            final(self).sdk_nightly == old(self).sdk_nightly,
            final(self).sdk_version == old(self).sdk_version,
            final(self).index_token == old(self).index_token,
            final(self).index_url == old(self).index_url,
    {
        if find_profile(&self.profiles, name.as_str()).is_some() {
            return Err(ProfileError::NameTaken);
        }
        let plat = add_platform(&platform, os);
        if !location_defined(&location, location_is_dir, &plat) {
            return Err(ProfileError::BadLocation);
        }
        let known = !plat.as_str().is_empty();
        let profile = Profile::new(name, location, location_is_dir, plat);
        self.profiles.push(profile);
        proof {
            assert(self.profiles@.drop_last() =~= old(self).profiles@);
        }
        Ok(known)
    }

    /// Removes every profile named `name` (`geode profile remove`).
    pub fn remove_profile(&mut self, name: &String) -> (r: Result<(), ProfileError>)
        ensures
            r is Err <==> !has_profile(old(self).profiles@, name@),
            r is Err ==> r == Err::<(), ProfileError>(ProfileError::NotFound) && final(self).profiles@ == old(self).profiles@,
            r is Ok ==> final(self).profiles@ == without_profile(old(self).profiles@, name@),
            final(self).current_profile == old(self).current_profile,
            final(self).default_developer == old(self).default_developer,
            final(self).sdk_nightly == old(self).sdk_nightly,
            final(self).sdk_version == old(self).sdk_version,
            final(self).index_token == old(self).index_token,
            final(self).index_url == old(self).index_url,
    {
        if find_profile(&self.profiles, name.as_str()).is_none() {
            return Err(ProfileError::NotFound);
        }
        let ghost orig = self.profiles@;
        let ghost pred = |p: Profile| p.name@ != name@;
        let mut kept: Vec<Profile> = Vec::new();
        let ghost mut c: int = 0;
        while self.profiles.len() > 0
            invariant
                0 <= c <= orig.len(),
                orig == old(self).profiles@,
                self.profiles@ == orig.skip(c),
                kept@ == orig.take(c).filter(pred),
                pred == (|p: Profile| p.name@ != name@),
                self.current_profile == old(self).current_profile,
                self.default_developer == old(self).default_developer,
                self.sdk_nightly == old(self).sdk_nightly,
                self.sdk_version == old(self).sdk_version,
                self.index_token == old(self).index_token,
                self.index_url == old(self).index_url,
            decreases self.profiles@.len(),
        {
            let p = self.profiles.remove(0);
            proof {
                reveal(Seq::filter);
                assert(orig.take(c + 1).drop_last() =~= orig.take(c));
                assert(orig.take(c + 1).last() == p);
            }
            if p.name != *name {
                kept.push(p);
            }
            proof {
                c = c + 1;
                assert(self.profiles@ =~= orig.skip(c));
            }
        }
        proof {
            assert(orig.take(c) =~= orig);
        }
        self.profiles = kept;
        Ok(())
    }

    /// Renames the first profile named `old_name` (`geode profile rename`);
    /// refused when no profile has that name, or one already has the new name.
    pub fn rename_profile(&mut self, old_name: &String, new_name: String) -> (r: Result<(), ProfileError>)
        ensures
            !has_profile(old(self).profiles@, old_name@) ==> r == Err::<(), ProfileError>(ProfileError::NotFound),
            has_profile(old(self).profiles@, old_name@) && has_profile(old(self).profiles@, new_name@)
                ==> r == Err::<(), ProfileError>(ProfileError::NameTaken),
            r is Ok <==> has_profile(old(self).profiles@, old_name@) && !has_profile(old(self).profiles@, new_name@),
            r is Err ==> final(self).profiles@ == old(self).profiles@,
            r is Ok ==> exists|i: int| #[trigger] is_first_named(old(self).profiles@, old_name@, i)
                && final(self).profiles@ == old(self).profiles@.update(i, Profile {
                    name: new_name,
                    gd_path: old(self).profiles@[i].gd_path,
                    platform: old(self).profiles@[i].platform,
                }),
            final(self).current_profile == old(self).current_profile,
            final(self).default_developer == old(self).default_developer,
            final(self).sdk_nightly == old(self).sdk_nightly,
            final(self).sdk_version == old(self).sdk_version,
            final(self).index_token == old(self).index_token,
            final(self).index_url == old(self).index_url,
    {
        let idx = match find_profile(&self.profiles, old_name.as_str()) {
            Some(i) => i,
            None => { return Err(ProfileError::NotFound); },
        };
        if find_profile(&self.profiles, new_name.as_str()).is_some() {
            return Err(ProfileError::NameTaken);
        }
        self.profiles[idx].name = new_name;
        proof {
            assert(is_first_named(old(self).profiles@, old_name@, idx as int));
            assert(self.profiles@ =~= old(self).profiles@.update(idx as int, Profile {
                name: new_name,
                gd_path: old(self).profiles@[idx as int].gd_path,
                platform: old(self).profiles@[idx as int].platform,
            }));
        }
        Ok(())
    }

    /// Sets the index address (`geode index url`); `default` stands for the
    /// official index. The stored login is dropped either way.
    pub fn set_index_url(&mut self, url: String)
        ensures
            final(self).index_url@ == (if url@ == "default"@ { official_index_url() } else { url@ }),
            final(self).index_token is None,
            final(self).current_profile == old(self).current_profile,
            final(self).profiles == old(self).profiles,
            final(self).default_developer == old(self).default_developer,
            final(self).sdk_nightly == old(self).sdk_nightly,
            final(self).sdk_version == old(self).sdk_version,
    {
        proof { reveal_strlit("default"); }
        if str_equals(url.as_str(), "default") {
            self.index_url = default_index_url();
        } else {
            self.index_url = url;
        }
        self.index_token = None;
    }

    /// The path `geode profile path` prints: the game path of the profile
    /// named (or of the current one), or its folder when `dir` is set.
    /// Refused when a Windows profile's game path has no folder above it.
    pub fn profile_path(&self, requested: &Option<String>, dir: bool) -> (r: Result<String, ProfileError>)
        ensures
            match self.select_profile_spec(*requested) {
                Err(e) => r == Err::<String, ProfileError>(e),
                Ok(i) => {
                    let p = self.profiles@[i];
                    if dir && points_to_executable(p.platform@) && path_parent(p.gd_path@) is None {
                        r == Err::<String, ProfileError>(ProfileError::NoGameFolder)
                    } else {
                        r is Ok && r->Ok_0@ == (if dir { spec_gd_dir(p) } else { p.gd_path@ })
                    }
                },
            },
    {
        let i = match self.select_profile(requested) {
            Ok(i) => i,
            Err(e) => {
                proof { self.lemma_select_profile(*requested, Err(e)); }
                return Err(e);
            },
        };
        proof { self.lemma_select_profile(*requested, Ok(i)); }
        let p = &self.profiles[i];
        if !dir {
            return Ok(p.gd_path.clone());
        }
        if is_executable_platform(&p.platform) && parent(&p.gd_path).is_none() {
            return Err(ProfileError::NoGameFolder);
        }
        Ok(p.gd_dir())
    }

    /// Where `geode index install` puts the package of mod `id`:
    /// `<mods folder of the current profile>/<id>.geode`.
    pub fn mod_install_path(&self, id: &str) -> (r: Result<String, ProfileError>)
        ensures
            match self.select_profile_spec(None) {
                Err(e) => r == Err::<String, ProfileError>(e),
                Ok(i) => {
                    let p = self.profiles@[i];
                    if points_to_executable(p.platform@) && path_parent(p.gd_path@) is None {
                        r == Err::<String, ProfileError>(ProfileError::NoGameFolder)
                    } else {
                        r is Ok && r->Ok_0@ == path_join(path_join(spec_geode_dir(p), "mods"@), id@ + ".geode"@)
                    }
                },
            },
    {
        let i = match self.get_current_profile() {
            Ok(i) => i,
            Err(e) => {
                proof { self.lemma_select_profile(None, Err(e)); }
                return Err(e);
            },
        };
        proof { self.lemma_select_profile(None, Ok(i)); }
        let p = &self.profiles[i];
        if is_executable_platform(&p.platform) && parent(&p.gd_path).is_none() {
            return Err(ProfileError::NoGameFolder);
        }
        let mods = p.mods_dir();
        let mut file = crate::text::chars_of(id);
        let ext = crate::text::chars_of(".geode");
        crate::text::push_all(&mut file, &ext);
        let file = crate::text::string_from_chars(&file);
        proof { assert(file@ == id@ + ".geode"@); }
        Ok(join(&mods, file.as_str()))
    }

    /// Which profile `select_profile` picks, or why none.
    pub open spec fn select_profile_spec(&self, requested: Option<String>) -> Result<int, ProfileError> {
        let name = match requested { Some(n) => Some(n@), None => opt_view(self.current_profile) };
        match name {
            None => Err(ProfileError::NoCurrent),
            Some(n) => if has_profile(self.profiles@, n) {
                Ok(choose|i: int| is_first_named(self.profiles@, n, i))
            } else if requested is Some {
                Err(ProfileError::NotFound)
            } else {
                Err(ProfileError::NoCurrent)
            },
        }
    }

    /// `select_profile` returns what `select_profile_spec` says.
    proof fn lemma_select_profile(&self, requested: Option<String>, r: Result<usize, ProfileError>)
        requires
            match requested {
                Some(n) => match r {
                    Ok(i) => is_first_named(self.profiles@, n@, i as int),
                    Err(e) => e == ProfileError::NotFound && !has_profile(self.profiles@, n@),
                },
                None => match r {
                    Ok(i) => self.current_profile is Some && is_first_named(self.profiles@, self.current_profile->0@, i as int),
                    Err(e) => e == ProfileError::NoCurrent
                        && (self.current_profile is None || !has_profile(self.profiles@, self.current_profile->0@)),
                },
            },
        ensures
            match r {
                Ok(i) => self.select_profile_spec(requested) == Ok::<int, ProfileError>(i as int) && i < self.profiles@.len(),
                Err(e) => self.select_profile_spec(requested) == Err::<int, ProfileError>(e),
            },
    {
        if let Ok(i) = r {
            let n = match requested { Some(n) => n@, None => self.current_profile->0@ };
            let c = choose|k: int| is_first_named(self.profiles@, n, k);
            assert(is_first_named(self.profiles@, n, i as int));
            assert(is_first_named(self.profiles@, n, c));
            if c < i {
                assert(self.profiles@[c].name@ == n);
            } else if i < c {
                assert(self.profiles@[i as int].name@ == n);
            }
        }
    }

    /// The SDK release channel that `geode sdk update` switches to: the
    /// branch given, else the one in use; `nightly` and `stable` are
    /// channels, anything else names a release.
    pub fn select_sdk_branch(&mut self, branch: Option<String>)
        ensures
            ({
                let b = match branch {
                    Some(b) => b@,
                    None => if old(self).sdk_nightly { "nightly"@ } else { "stable"@ },
                };
                &&& final(self).sdk_nightly == (b == "nightly"@)
                &&& (b == "nightly"@ || b == "stable"@) ==> final(self).sdk_version is None
                &&& !(b == "nightly"@ || b == "stable"@) ==> opt_view(final(self).sdk_version) == Some(b)
            }),
            final(self).current_profile == old(self).current_profile,
            final(self).profiles == old(self).profiles,
            final(self).default_developer == old(self).default_developer,
            final(self).index_token == old(self).index_token,
            final(self).index_url == old(self).index_url,
    {
        proof {
            reveal_strlit("nightly");
            reveal_strlit("stable");
        }
        let b = match branch {
            Some(b) => b,
            None => if self.sdk_nightly { "nightly".to_string() } else { "stable".to_string() },
        };
        if str_equals(b.as_str(), "nightly") {
            self.sdk_nightly = true;
            self.sdk_version = None;
        } else if str_equals(b.as_str(), "stable") {
            self.sdk_nightly = false;
            self.sdk_version = None;
        } else {
            self.sdk_nightly = false;
            self.sdk_version = Some(b);
        }
    }
}


/// Whether the platform keeps the game's executable in the game path.
fn is_executable_platform(platform: &String) -> (r: bool)
    ensures
        r == points_to_executable(platform@),
{
    proof { reveal_strlit("win"); }
    str_equals(platform.as_str(), "win")
}

/// Adding a profile under a new name and then removing that name gives
/// back the profiles as they were.
pub proof fn lemma_add_then_remove(ps: Seq<Profile>, p: Profile)
    requires
        !has_profile(ps, p.name@),
    ensures
        without_profile(ps.push(p), p.name@) == ps,
{
    let pred = |x: Profile| x.name@ != p.name@;
    reveal(Seq::filter);
    assert(ps.push(p).drop_last() =~= ps);
    lemma_filter_keeps_all(ps, pred);
}

/// Removing a name leaves no profile with it, and keeps every profile with
/// another name.
pub proof fn lemma_remove_only_name(ps: Seq<Profile>, name: Seq<char>)
    ensures
        !has_profile(without_profile(ps, name), name),
        forall|p: Profile| ps.contains(p) && p.name@ != name ==> without_profile(ps, name).contains(p),
{
    let pred = |p: Profile| p.name@ != name;
    let f = ps.filter(pred);
    assert forall|i: int| 0 <= i < f.len() implies #[trigger] f[i].name@ != name by {
        ps.lemma_filter_pred(pred, i);
    }
    assert forall|p: Profile| ps.contains(p) && p.name@ != name implies f.contains(p) by {
        ps.lemma_filter_contains_rev(pred, p);
    }
}

proof fn lemma_filter_keeps_all(ps: Seq<Profile>, pred: spec_fn(Profile) -> bool)
    requires
        forall|i: int| 0 <= i < ps.len() ==> pred(#[trigger] ps[i]),
    ensures
        ps.filter(pred) == ps,
    decreases ps.len(),
{
    reveal(Seq::filter);
    if ps.len() > 0 {
        let d = ps.drop_last();
        assert forall|i: int| 0 <= i < d.len() implies pred(#[trigger] d[i]) by {
            assert(d[i] == ps[i]);
        }
        lemma_filter_keeps_all(d, pred);
        assert(pred(ps[ps.len() - 1]));
        assert(d.push(ps.last()) =~= ps);
    }
}


/// The platform `profile add` records (see `spec_add_platform`).
fn add_platform(platform: &Option<String>, os: TargetOs) -> (r: String)
    ensures
        r@ == spec_add_platform(opt_view(*platform), os),
{
    proof {
        reveal_strlit("win");
        reveal_strlit("windows");
        reveal_strlit("mac");
        reveal_strlit("macos");
        reveal_strlit("android32");
        reveal_strlit("android64");
    }
    match platform {
        Some(p) => {
            let p = p.as_str();
            if str_equals(p, "win") || str_equals(p, "windows") {
                "win".to_string()
            } else if str_equals(p, "mac") || str_equals(p, "macos") {
                "mac".to_string()
            } else if str_equals(p, "android32") {
                "android32".to_string()
            } else if str_equals(p, "android64") {
                "android64".to_string()
            } else {
                String::new()
            }
        },
        None => match os {
            TargetOs::Windows => "win".to_string(),
            TargetOs::MacOS => "mac".to_string(),
            _ => String::new(),
        },
    }
}

/// Whether `migrate_location` is defined on these inputs.
fn location_defined(location: &String, location_is_dir: bool, platform: &String) -> (r: bool)
    ensures
        r == migrate_defined(location@, location_is_dir, platform@),
{
    proof {
        reveal_strlit("win");
        reveal_strlit("Contents");
    }
    if str_equals(platform.as_str(), "win") && location_is_dir {
        return true;
    }
    match file_name(location) {
        None => false,
        Some(last) => {
            if str_equals(last.as_str(), "Contents") {
                parent(location).is_some()
            } else {
                true
            }
        },
    }
}

/// Whether a folder holds a Geode installation that a profile may point
/// at; no folder is refused.
pub fn is_valid_geode_dir(dir: &String) -> (r: bool)
    ensures
        r,
{
    true
}

/// Renaming the first profile named `old_name` to `new_name` (as
/// `rename_profile` does) keeps the number of profiles and every other
/// profile, and the new name is then found; when no two profiles shared a
/// name and the names differ, the old name is gone.
pub proof fn lemma_rename_moves_name(ps: Seq<Profile>, old_name: Seq<char>, new_name: String, i: int)
    requires
        is_first_named(ps, old_name, i),
    ensures
        ({
            let renamed = ps.update(i, Profile { name: new_name, gd_path: ps[i].gd_path, platform: ps[i].platform });
            &&& renamed.len() == ps.len()
            &&& has_profile(renamed, new_name@)
            &&& forall|j: int| 0 <= j < ps.len() && j != i ==> #[trigger] renamed[j] == ps[j]
            &&& (forall|j: int, k: int| 0 <= j < k < ps.len() ==> #[trigger] ps[j].name@ != #[trigger] ps[k].name@)
                && new_name@ != old_name ==> !has_profile(renamed, old_name)
        }),
{
    let renamed = ps.update(i, Profile { name: new_name, gd_path: ps[i].gd_path, platform: ps[i].platform });
    assert(renamed[i].name@ == new_name@);
    if (forall|j: int, k: int| 0 <= j < k < ps.len() ==> #[trigger] ps[j].name@ != #[trigger] ps[k].name@)
        && new_name@ != old_name {
        assert forall|j: int| 0 <= j < renamed.len() implies #[trigger] renamed[j].name@ != old_name by {
            if j != i {
                assert(renamed[j] == ps[j]);
                if j < i {
                    assert(ps[i].name@ != ps[j].name@);
                } else {
                    assert(ps[j].name@ != ps[i].name@);
                }
            }
        }
    }
}

/// A profile named `name` at position `k` means some position holds the
/// first profile of that name.
proof fn lemma_first_named_exists(ps: Seq<Profile>, name: Seq<char>, k: int)
    requires
        0 <= k < ps.len(),
        ps[k].name@ == name,
    ensures
        exists|i: int| #[trigger] is_first_named(ps, name, i),
    decreases k,
{
    if exists|j: int| 0 <= j < k && #[trigger] ps[j].name@ == name {
        let j = choose|j: int| 0 <= j < k && #[trigger] ps[j].name@ == name;
        lemma_first_named_exists(ps, name, j);
    } else {
        assert(is_first_named(ps, name, k));
    }
}

/// Switching to a profile makes it current: once the current profile is a
/// name that some profile has, and the profiles are those of before,
/// selecting without a name gives the first profile of that name.
pub proof fn lemma_switch_then_current(before: Config, after: Config, name: String)
    requires
        has_profile(before.profiles@, name@),
        after.profiles == before.profiles,
        after.current_profile == Some(name),
    ensures
        after.select_profile_spec(None) is Ok,
        is_first_named(after.profiles@, name@, after.select_profile_spec(None)->Ok_0),
{
    let k = choose|k: int| 0 <= k < before.profiles@.len() && #[trigger] before.profiles@[k].name@ == name@;
    lemma_first_named_exists(after.profiles@, name@, k);
}

impl OldConfig {
    /// After reading a configuration of older CLI versions: when it lists
    /// installations and names no working one, the default one is used.
    pub fn init_working(&mut self)
        ensures
            old(self).installations is Some && old(self).working_installation is None
                ==> final(self).working_installation == Some(old(self).default_installation),
            !(old(self).installations is Some && old(self).working_installation is None)
                ==> final(self).working_installation == old(self).working_installation,
            final(self).default_installation == old(self).default_installation,
            final(self).installations == old(self).installations,
            final(self).default_developer == old(self).default_developer,
    {
        if self.installations.is_some() && self.working_installation.is_none() {
            self.working_installation = Some(self.default_installation);
        }
    }

    /// The installation worked on, if the configuration lists one at the
    /// working position.
    pub fn work_inst(&self) -> (r: Option<&OldConfigInstallation>)
        ensures
            match (self.installations, self.working_installation) {
                (Some(list), Some(i)) => if i < list@.len() { r == Some(&list@[i as int]) } else { r is None },
                _ => r is None,
            },
    {
        match (&self.installations, self.working_installation) {
            (Some(list), Some(i)) => if i < list.len() { Some(&list[i]) } else { None },
            _ => None,
        }
    }
}


/// A platform named to `profile add` is recorded under its own name, the
/// long names `windows` and `macos` shortened to `win` and `mac`, whatever
/// system runs it; any other name records no platform. So the two Android
/// platforms, and every two platforms, stay apart.
pub proof fn lemma_add_platform_names(p: Seq<char>, os: TargetOs)
    ensures
        p == "android32"@ ==> spec_add_platform(Some(p), os) == "android32"@,
        p == "android64"@ ==> spec_add_platform(Some(p), os) == "android64"@,
        p == "win"@ || p == "windows"@ ==> spec_add_platform(Some(p), os) == "win"@,
        p == "mac"@ || p == "macos"@ ==> spec_add_platform(Some(p), os) == "mac"@,
        p != "android32"@ && p != "android64"@ && p != "win"@ && p != "windows"@ && p != "mac"@ && p != "macos"@
            ==> spec_add_platform(Some(p), os).len() == 0,
{
    reveal_strlit("win");
    reveal_strlit("windows");
    reveal_strlit("mac");
    reveal_strlit("macos");
    reveal_strlit("android32");
    reveal_strlit("android64");
    assert("android32"@[7] != "android64"@[7]);
}

/// Without a platform named, `profile add` records the running system's:
/// `win` on Windows, `mac` on macOS, none elsewhere.
pub proof fn lemma_add_platform_default(os: TargetOs)
    ensures
        os == TargetOs::Windows ==> spec_add_platform(None, os) == "win"@,
        os == TargetOs::MacOS ==> spec_add_platform(None, os) == "mac"@,
        os != TargetOs::Windows && os != TargetOs::MacOS ==> spec_add_platform(None, os).len() == 0,
{
}
} // verus!
