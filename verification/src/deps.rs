//! Dependency checking: which installed or indexed package satisfies a
//! dependency, and what to do about each dependency of a mod.

use vstd::prelude::*;
use crate::platform::{PlatformName, DependencyImportance};
use crate::text::{chars_of, string_from_chars};

verus! {

/// `semver::Version::parse` accepts the text.
pub uninterp spec fn is_semver_version(text: Seq<char>) -> bool;

/// `semver::VersionReq::parse` accepts the text.
pub uninterp spec fn is_semver_req(text: Seq<char>) -> bool;

/// `VersionReq::matches`: the parsed requirement admits the parsed version.
pub uninterp spec fn semver_matches(req: Seq<char>, version: Seq<char>) -> bool;

/// `Version`'s ordering: the first parsed version is greater than the second.
pub uninterp spec fn semver_greater(a: Seq<char>, b: Seq<char>) -> bool;

/// The Levenshtein distance between two texts, counted in characters: the
/// fewest insertions, deletions and replacements of single characters that
/// turn one into the other (what `edit_distance::edit_distance` computes).
pub open spec fn levenshtein(a: Seq<char>, b: Seq<char>) -> nat
    decreases a.len() + b.len(),
{
    if a.len() == 0 {
        b.len()
    } else if b.len() == 0 {
        a.len()
    } else {
        let del = levenshtein(a.drop_last(), b) + 1;
        let ins = levenshtein(a, b.drop_last()) + 1;
        let rep = levenshtein(a.drop_last(), b.drop_last()) + if a.last() == b.last() { 0nat } else { 1nat };
        if del <= ins && del <= rep { del } else if ins <= rep { ins } else { rep }
    }
}

/// Whether `semver::Version::parse` accepts `text`.
#[verifier::external_body]
pub(crate) fn version_is_valid(text: &str) -> (r: bool)
    ensures
        r == is_semver_version(text@),
{
    semver::Version::parse(text).is_ok()
}

/// Whether `semver::VersionReq::parse` accepts `text`.
#[verifier::external_body]
pub(crate) fn requirement_is_valid(text: &str) -> (r: bool)
    ensures
        r == is_semver_req(text@),
{
    semver::VersionReq::parse(text).is_ok()
}

/// `semver::VersionReq::matches` on the parsed requirement and version.
#[verifier::external_body]
fn requirement_matches(req: &str, version: &str) -> (r: bool)
    requires
        is_semver_req(req@),
        is_semver_version(version@),
    ensures
        r == semver_matches(req@, version@),
{
    semver::VersionReq::parse(req).unwrap().matches(&semver::Version::parse(version).unwrap())
}

/// `>` on the parsed versions (`semver::Version`'s `Ord`).
#[verifier::external_body]
pub(crate) fn version_greater(a: &str, b: &str) -> (r: bool)
    requires
        is_semver_version(a@),
        is_semver_version(b@),
    ensures
        r == semver_greater(a@, b@),
{
    semver::Version::parse(a).unwrap() > semver::Version::parse(b).unwrap()
}

/// `edit_distance::edit_distance`.
#[verifier::external_body]
fn edit_distance_of(a: &str, b: &str) -> (d: usize)
    ensures
        d as nat == levenshtein(a@, b@),
{
    edit_distance::edit_distance(a, b)
}

/// The id and version a package's `mod.json` declares; the version is
/// text that `semver::Version::parse` accepts.
pub struct ModSummary {
    pub id: String,
    pub version: String,
}

/// What a search for a dependency found, from least to most useful.
pub enum Found {
    /// Nothing matching.
    NotFound,
    /// Nothing matching, but a package with a similar id.
    Similar(String),
    /// The package, but in a version the requirement does not admit.
    WrongVersion(String),
    /// The package in an admitted version, at the given path.
    Match(String, ModSummary),
}

/// How useful a search result is: 0 for nothing, 1 for a similar id, 2 for a
/// wrong version, 3 for a match.
pub open spec fn found_rank(f: Found) -> int {
    match f {
        Found::NotFound => 0,
        Found::Similar(_) => 1,
        Found::WrongVersion(_) => 2,
        Found::Match(_, _) => 3,
    }
}

impl Found {
    pub fn promote_value(&self) -> (r: usize)
        ensures
            r == found_rank(*self),
    {
        match self {
            Found::NotFound => 0,
            Found::Similar(_) => 1,
            Found::WrongVersion(_) => 2,
            Found::Match(_, _) => 3,
        }
    }

    /// Takes `value` if it is strictly more useful.
    pub fn promote(&mut self, value: Found)
        ensures
            *final(self) == (if found_rank(*old(self)) < found_rank(value) { value } else { *old(self) }),
    {
        if self.promote_value() < value.promote_value() {
            *self = value;
        }
    }

    /// Takes `value` if it is at least as useful.
    pub fn promote_eq(&mut self, value: Found)
        ensures
            *final(self) == (if found_rank(*old(self)) <= found_rank(value) { value } else { *old(self) }),
    {
        if self.promote_value() <= value.promote_value() {
            *self = value;
        }
    }
}

/// Promoting never makes a search result less useful, and the result is the
/// more useful of the two (the old one on a tie).
pub proof fn lemma_promote_monotone(old_f: Found, value: Found)
    ensures
        ({
            let new_f = if found_rank(old_f) < found_rank(value) { value } else { old_f };
            &&& found_rank(new_f) >= found_rank(old_f)
            &&& found_rank(new_f) >= found_rank(value)
            &&& (new_f == old_f || new_f == value)
        }),
{
}

/// A directory entry looked at while searching for a dependency: its path
/// and, when it holds a readable `mod.json`, what that declares.
pub struct Candidate {
    pub path: String,
    pub info: Option<ModSummary>,
}

/// The search state after scanning some candidates: the best result so far,
/// the distance of the closest similar id seen, and whether a match ended
/// the search.
pub open spec fn scan_step(
    dep_id: Seq<char>,
    req: Seq<char>,
    c: Candidate,
    found: Found,
    closest: nat,
) -> (Found, nat, bool) {
    match c.info {
        None => (found, closest, false),
        Some(info) => if info.id@ == dep_id {
            if semver_matches(req, info.version@) {
                let v = Found::Match(c.path, info);
                (if found_rank(found) < found_rank(v) { v } else { found }, closest, true)
            } else {
                let v = Found::WrongVersion(info.version);
                (if found_rank(found) < found_rank(v) { v } else { found }, closest, false)
            }
        } else {
            let d = levenshtein(dep_id, info.id@);
            if d < closest {
                let v = Found::Similar(info.id);
                (if found_rank(found) <= found_rank(v) { v } else { found }, d, false)
            } else {
                (found, closest, false)
            }
        },
    }
}

/// The result of scanning `cs` in order from the given state, stopping at
/// the first match.
pub open spec fn scan(dep_id: Seq<char>, req: Seq<char>, cs: Seq<Candidate>, found: Found, closest: nat) -> Found
    decreases cs.len(),
{
    if cs.len() == 0 {
        found
    } else {
        let (f, d, stop) = scan_step(dep_id, req, cs[0], found, closest);
        if stop {
            f
        } else {
            scan(dep_id, req, cs.skip(1), f, d)
        }
    }
}

/// Every readable candidate declares a version `semver` accepts.
pub open spec fn candidates_valid(cs: Seq<Candidate>) -> bool {
    forall|i: int| 0 <= i < cs.len() && (#[trigger] cs[i]).info is Some ==> is_semver_version(cs[i].info->0.version@)
}

/// Scans the candidates for the dependency `dep_id` with requirement `req`:
/// the first package with the id whose version the requirement admits wins;
/// otherwise the first one with the id but a wrong version is reported;
/// otherwise the id closest to `dep_id` (at most 3 edits away, the earliest
/// among equally close ones) is offered as a possible misspelling.
pub fn find_dependency(dep_id: &String, req: &String, candidates: Vec<Candidate>) -> (r: Found)
    requires
        is_semver_req(req@),
        candidates_valid(candidates@),
    ensures
        r == scan(dep_id@, req@, candidates@, Found::NotFound, 4),
{
    let ghost all = candidates@;
    let mut rest = candidates;
    let mut found = Found::NotFound;
    let mut closest: usize = 4;
    while rest.len() > 0
        invariant
            is_semver_req(req@),
            all == candidates@,
            candidates_valid(rest@),
            scan(dep_id@, req@, all, Found::NotFound, 4) == scan(dep_id@, req@, rest@, found, closest as nat),
        decreases rest.len(),
    {
        let ghost before = rest@;
        let ghost f0 = found;
        let ghost d0 = closest as nat;
        let c = rest.remove(0);
        assert(before[0] == c);
        assert(rest@ =~= before.skip(1));
        assert(candidates_valid(rest@)) by {
            assert forall|i: int| 0 <= i < rest@.len() && (#[trigger] rest@[i]).info is Some implies is_semver_version(rest@[i].info->0.version@) by {
                assert(rest@[i] == before[i + 1]);
            }
        }
        match c.info {
            None => {},
            Some(info) => {
                if info.id == *dep_id {
                    if requirement_matches(req.as_str(), info.version.as_str()) {
                        found.promote(Found::Match(c.path, info));
                        assert(scan(dep_id@, req@, before, f0, d0) == found);
                        return found;
                    } else {
                        found.promote(Found::WrongVersion(info.version));
                    }
                } else {
                    let d = edit_distance_of(dep_id.as_str(), info.id.as_str());
                    if d < closest {
                        found.promote_eq(Found::Similar(info.id));
                        closest = d;
                    }
                }
            },
        }
    }
    found
}

/// Whether every readable candidate declares a version `semver` accepts.
fn all_candidates_valid(candidates: &Vec<Candidate>) -> (r: bool)
    ensures
        r == candidates_valid(candidates@),
{
    let mut i: usize = 0;
    while i < candidates.len()
        invariant
            i <= candidates@.len(),
            forall|j: int| 0 <= j < i && (#[trigger] candidates@[j]).info is Some
                ==> is_semver_version(candidates@[j].info->0.version@),
        decreases candidates@.len() - i,
    {
        match &candidates[i].info {
            Some(info) => {
                if !version_is_valid(info.version.as_str()) {
                    return false;
                }
            },
            None => {},
        }
        i = i + 1;
    }
    true
}

/// `find_dependency` where the requirement and every readable candidate's
/// version are ones `semver` accepts; `None` otherwise.
pub fn search_dependency(dep_id: &String, req: &String, candidates: Vec<Candidate>) -> (r: Option<Found>)
    ensures
        r is Some <==> is_semver_req(req@) && candidates_valid(candidates@),
        r matches Some(f) ==> f == scan(dep_id@, req@, candidates@, Found::NotFound, 4),
{
    if !requirement_is_valid(req.as_str()) || !all_candidates_valid(&candidates) {
        return None;
    }
    Some(find_dependency(dep_id, req, candidates))
}

/// An external dependency given on the command line as `id` or `id:version`.
pub struct External {
    pub id: String,
    pub version: Option<String>,
}

/// Why an external dependency could not be read.
#[derive(PartialEq, Eq, Structural, Clone, Copy, Debug)]
pub enum ExternalError {
    /// The part after `:` is not a version `semver` accepts.
    InvalidVersion,
}

/// The part of `s` before the first `:`.
pub open spec fn before_colon(s: Seq<char>) -> Seq<char> {
    match crate::version::find_char(s, ':') {
        Some(i) => s.take(i),
        None => s,
    }
}

/// The second `:`-separated field of `s` with one leading `v` removed.
pub open spec fn external_version_text(s: Seq<char>) -> Seq<char> {
    let f = crate::version::split_field(s, ':', 1).unwrap();
    if f.len() > 0 && f[0] == 'v' { f.skip(1) } else { f }
}

/// Reads an external dependency: without `:` it is only an id; with `:`,
/// the text before the first `:` is the id and the next field, less a
/// leading `v`, is its version.
pub fn parse_external(ext: &str) -> (r: Result<External, ExternalError>)
    ensures
        crate::version::find_char(ext@, ':') is None ==> (r matches Ok(e) && e.id@ == ext@ && e.version is None),
        crate::version::find_char(ext@, ':') is Some ==> ({
            let v = external_version_text(ext@);
            &&& r is Ok <==> is_semver_version(v)
            &&& r matches Ok(e) ==> (e.id@ == before_colon(ext@) && (e.version matches Some(ver) && ver@ == v))
            &&& r is Err ==> r == Err::<External, ExternalError>(ExternalError::InvalidVersion)
        }),
{
    let cs = chars_of(ext);
    let mut i: usize = 0;
    while i < cs.len() && cs[i] != ':'
        invariant
            i <= cs.len(),
            forall|j: int| 0 <= j < i ==> cs@[j] != ':',
        decreases cs.len() - i,
    {
        i = i + 1;
    }
    proof {
        let s = cs@;
        if i < cs.len() {
            let c = choose|c: int| 0 <= c < s.len() && s[c] == ':' && (forall|j: int| 0 <= j < c ==> s[j] != ':');
            if c < i {
            }
            if i < c {
                assert(s[i as int] == ':');
            }
            assert(crate::version::find_char(s, ':') == Some(i as int));
        }
    }
    if i == cs.len() {
        return Ok(External { id: string_from_chars(&cs), version: None });
    }
    let mut id: Vec<char> = Vec::new();
    let mut k: usize = 0;
    while k < i
        invariant
            i < cs.len(),
            k <= i,
            id@ == cs@.take(k as int),
        decreases i - k,
    {
        id.push(cs[k]);
        k = k + 1;
        assert(id@ =~= cs@.take(k as int));
    }
    // the second field runs to the next ':' or the end
    let mut e = i + 1;
    while e < cs.len() && cs[e] != ':'
        invariant
            i < e <= cs.len(),
            forall|j: int| i < j < e ==> cs@[j] != ':',
        decreases cs.len() - e,
    {
        e = e + 1;
    }
    let ghost tail = cs@.skip(i + 1);
    proof {
        assert(cs@.skip(i + 1).skip(0) =~= tail);
        if e < cs.len() {
            let w = (e - i - 1) as int;
            assert(tail[w] == ':');
            let c = choose|c: int| 0 <= c < tail.len() && tail[c] == ':' && (forall|j: int| 0 <= j < c ==> tail[j] != ':');
            if c < w {
                assert(tail[c] == cs@[i + 1 + c]);
            }
            if w < c {
            }
            assert(crate::version::find_char(tail, ':') == Some(w));
            assert(crate::version::split_field(tail, ':', 0) == Some(tail.take(w)));
        } else {
            assert forall|j: int| 0 <= j < tail.len() implies tail[j] != ':' by {
                assert(tail[j] == cs@[i + 1 + j]);
            }
            assert(crate::version::split_field(tail, ':', 0) == Some(tail));
            assert(tail =~= tail.take((e - i - 1) as int));
        }
        assert(cs@.take(i as int) == id@);
        assert(crate::version::split_field(cs@, ':', 1) == crate::version::split_field(tail, ':', 0));
    }
    let start = if e > i + 1 && cs[i + 1] == 'v' { i + 2 } else { i + 1 };
    let mut ver: Vec<char> = Vec::new();
    let mut k2 = start;
    while k2 < e
        invariant
            start <= k2 <= e <= cs.len(),
            ver@ == cs@.subrange(start as int, k2 as int),
        decreases e - k2,
    {
        ver.push(cs[k2]);
        k2 = k2 + 1;
        assert(ver@ =~= cs@.subrange(start as int, k2 as int));
    }
    proof {
        let f = tail.take((e - i - 1) as int);
        assert(f =~= cs@.subrange(i + 1, e as int));
        if e > i + 1 && cs@[i + 1] == 'v' {
            assert(f.skip(1) =~= ver@);
        } else {
            assert(f =~= ver@);
        }
    }
    let ver_s = string_from_chars(&ver);
    if !version_is_valid(ver_s.as_str()) {
        return Err(ExternalError::InvalidVersion);
    }
    Ok(External { id: string_from_chars(&id), version: Some(ver_s) })
}


/// Index of the last external entry for `id` (later entries override
/// earlier ones, as when they are collected into a map).
pub fn find_external(externals: &Vec<External>, id: &String) -> (r: Option<usize>)
    ensures
        match r {
            Some(i) => i < externals.len() && externals@[i as int].id@ == id@
                && forall|j: int| i < j < externals.len() ==> externals@[j].id@ != id@,
            None => forall|j: int| 0 <= j < externals.len() ==> externals@[j].id@ != id@,
        },
{
    let mut i = externals.len();
    while i > 0
        invariant
            i <= externals.len(),
            forall|j: int| i <= j < externals.len() ==> externals@[j].id@ != id@,
        decreases i,
    {
        if externals[i - 1].id == *id {
            return Some(i - 1);
        }
        i = i - 1;
    }
    None
}

/// What an external dependency means for the check.
#[derive(PartialEq, Eq, Structural, Clone, Copy, Debug)]
pub enum ExternalOutcome {
    /// Its version satisfies the requirement.
    Satisfied,
    /// Its version does not satisfy the requirement (an error, whatever the importance).
    VersionMismatch,
    /// No version was given; accepted with a warning.
    Unversioned,
}

/// Judges an external dependency against the requirement `req`.
pub fn check_external(req: &String, ext: &External) -> (r: ExternalOutcome)
    requires
        is_semver_req(req@),
        ext.version matches Some(v) ==> is_semver_version(v@),
    ensures
        r == (match ext.version {
            Some(v) => if semver_matches(req@, v@) { ExternalOutcome::Satisfied } else { ExternalOutcome::VersionMismatch },
            None => ExternalOutcome::Unversioned,
        }),
{
    match &ext.version {
        Some(v) => if requirement_matches(req.as_str(), v.as_str()) {
            ExternalOutcome::Satisfied
        } else {
            ExternalOutcome::VersionMismatch
        },
        None => ExternalOutcome::Unversioned,
    }
}

/// `check_external` where `semver` accepts the requirement and the version
/// given, if any; `None` otherwise.
pub fn judge_external(req: &String, ext: &External) -> (r: Option<ExternalOutcome>)
    ensures
        r is Some <==> is_semver_req(req@) && (ext.version matches Some(v) ==> is_semver_version(v@)),
        r matches Some(o) ==> o == (match ext.version {
            Some(v) => if semver_matches(req@, v@) { ExternalOutcome::Satisfied } else { ExternalOutcome::VersionMismatch },
            None => ExternalOutcome::Unversioned,
        }),
{
    if !requirement_is_valid(req.as_str()) {
        return None;
    }
    match &ext.version {
        Some(v) => if !version_is_valid(v.as_str()) {
            return None;
        },
        None => {},
    }
    Some(check_external(req, ext))
}

/// Where a hint about a near miss was found.
#[derive(PartialEq, Eq, Structural, Clone, Copy, Debug)]
pub enum Source {
    Index,
    Installed,
}

/// What to do about a dependency once the index and the installed mods have
/// been searched.
pub enum Resolution {
    /// Found in neither place. `required` tells whether this fails the check;
    /// the hints name a rejected version and a similar id, preferring what
    /// the index found.
    Missing {
        required: bool,
        wrong_version: Option<(Source, String)>,
        similar: Option<(Source, String)>,
    },
    /// Use the installed package at `path`; `on_index` tells whether the
    /// index has it too (when not, the user is warned).
    UseInstalled { path: String, on_index: bool },
    /// The installed version is newer than the index's admitted one; leave
    /// the dependency alone and warn.
    KeepNewerInstalled { installed: String, index: String },
    /// Install the package downloaded from the index at `path` as `id`,
    /// replacing an installed version that the requirement rejects, if any.
    InstallFromIndex { path: String, id: String, replacing: Option<String> },
}

/// A rejected version found by either search, the index's first.
pub open spec fn wrong_hint(index: Found, installed: Found) -> Option<(Source, String)> {
    match index {
        Found::WrongVersion(v) => Some((Source::Index, v)),
        _ => match installed {
            Found::WrongVersion(v) => Some((Source::Installed, v)),
            _ => None,
        },
    }
}

/// A similar id found by either search, the index's first.
pub open spec fn similar_hint(index: Found, installed: Found) -> Option<(Source, String)> {
    match index {
        Found::Similar(m) => Some((Source::Index, m)),
        _ => match installed {
            Found::Similar(m) => Some((Source::Installed, m)),
            _ => None,
        },
    }
}

/// The decision for a dependency given both search results.
pub open spec fn spec_resolve(importance: DependencyImportance, index: Found, installed: Found) -> Resolution {
    if !(index is Match) && !(installed is Match) {
        Resolution::Missing {
            required: importance == DependencyImportance::Required,
            wrong_version: wrong_hint(index, installed),
            similar: similar_hint(index, installed),
        }
    } else {
        match installed {
            Found::Match(p, _) => Resolution::UseInstalled { path: p, on_index: index is Match },
            Found::WrongVersion(v) => match index {
                Found::Match(path, info) => if semver_greater(v@, info.version@) {
                    Resolution::KeepNewerInstalled { installed: v, index: info.version }
                } else {
                    Resolution::InstallFromIndex { path, id: info.id, replacing: Some(v) }
                },
                _ => Resolution::Missing { required: false, wrong_version: None, similar: None },
            },
            _ => match index {
                Found::Match(path, info) => Resolution::InstallFromIndex { path, id: info.id, replacing: None },
                _ => Resolution::Missing { required: false, wrong_version: None, similar: None },
            },
        }
    }
}

/// The versions a search result carries are ones `semver` accepts.
pub open spec fn found_valid(f: Found) -> bool {
    match f {
        Found::WrongVersion(v) => is_semver_version(v@),
        Found::Match(_, info) => is_semver_version(info.version@),
        _ => true,
    }
}

/// Decides what to do about a dependency from what the index and the
/// installed mods hold.
pub fn resolve(importance: DependencyImportance, index: Found, installed: Found) -> (r: Resolution)
    requires
        found_valid(index),
        found_valid(installed),
    ensures
        r == spec_resolve(importance, index, installed),
{
    let index_match = matches!(index, Found::Match(_, _));
    let installed_match = matches!(installed, Found::Match(_, _));
    if !index_match && !installed_match {
        let wrong_version = match &index {
            Found::WrongVersion(v) => Some((Source::Index, v.clone())),
            _ => match &installed {
                Found::WrongVersion(v) => Some((Source::Installed, v.clone())),
                _ => None,
            },
        };
        let similar = match &index {
            Found::Similar(m) => Some((Source::Index, m.clone())),
            _ => match &installed {
                Found::Similar(m) => Some((Source::Installed, m.clone())),
                _ => None,
            },
        };
        return Resolution::Missing {
            required: importance == DependencyImportance::Required,
            wrong_version,
            similar,
        };
    }
    match installed {
        Found::Match(p, _) => Resolution::UseInstalled { path: p, on_index: index_match },
        Found::WrongVersion(v) => match index {
            Found::Match(path, info) => if version_greater(v.as_str(), info.version.as_str()) {
                Resolution::KeepNewerInstalled { installed: v, index: info.version }
            } else {
                Resolution::InstallFromIndex { path, id: info.id, replacing: Some(v) }
            },
            _ => Resolution::Missing { required: false, wrong_version: None, similar: None },
        },
        _ => match index {
            Found::Match(path, info) => Resolution::InstallFromIndex { path, id: info.id, replacing: None },
            _ => Resolution::Missing { required: false, wrong_version: None, similar: None },
        },
    }
}

/// Whether the versions the search result carries are ones `semver` accepts.
fn found_is_valid(f: &Found) -> (r: bool)
    ensures
        r == found_valid(*f),
{
    match f {
        Found::WrongVersion(v) => version_is_valid(v.as_str()),
        Found::Match(_, info) => version_is_valid(info.version.as_str()),
        _ => true,
    }
}

/// `resolve` where the versions both search results carry are ones
/// `semver` accepts; `None` otherwise.
pub fn try_resolve(importance: DependencyImportance, index: Found, installed: Found) -> (r: Option<Resolution>)
    ensures
        r is Some <==> found_valid(index) && found_valid(installed),
        r matches Some(x) ==> x == spec_resolve(importance, index, installed),
{
    if !found_is_valid(&index) || !found_is_valid(&installed) {
        return None;
    }
    Some(resolve(importance, index, installed))
}

/// Whether a resolution fails the dependency check.
pub open spec fn is_failure(r: Resolution) -> bool {
    r matches Resolution::Missing { required, .. } && required
}

/// A dependency that neither search found fails the check exactly when it
/// is required; one that either search found never fails it.
pub proof fn lemma_resolution_failure(importance: DependencyImportance, index: Found, installed: Found)
    ensures
        is_failure(spec_resolve(importance, index, installed)) <==> (
            !(index is Match) && !(installed is Match) && importance == DependencyImportance::Required),
{
}

/// Whether the dependency applies to `platform`.
pub fn applies_to(platforms: &Vec<PlatformName>, platform: PlatformName) -> (r: bool)
    ensures
        r == platforms@.contains(platform),
{
    let mut i: usize = 0;
    while i < platforms.len()
        invariant
            i <= platforms.len(),
            forall|j: int| 0 <= j < i ==> platforms@[j] != platform,
        decreases platforms.len() - i,
    {
        if platforms[i] == platform {
            return true;
        }
        i = i + 1;
    }
    false
}

/// The options file written next to an installed dependency, which tells
/// the build whether the dependency is required.
pub fn dep_options_json(importance: DependencyImportance) -> (r: String)
    ensures
        r@ == (if importance == DependencyImportance::Required {
            "{ \"required\": true }"@
        } else {
            "{ \"required\": false }"@
        }),
{
    if importance == DependencyImportance::Required {
        "{ \"required\": true }".to_string()
    } else {
        "{ \"required\": false }".to_string()
    }
}

} // verus!
