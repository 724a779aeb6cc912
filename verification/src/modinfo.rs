//! Reading a mod's `mod.json` for packaging: the binaries to pack, the mod's
//! id, and the resources it declares, as the file patterns to collect and
//! the fonts to render. Every malformed part is reported with where it is.

use vstd::prelude::*;
use crate::json::{Json, member, find_member, has_member};
use crate::paths::{path_join, path_is_relative, join, is_relative};
use crate::platform::{TargetOs, spec_extension, spec_platform_string, platform_extension, get_extension};
use crate::text::{chars_of, string_from_chars, push_all, str_equals, ends_with_chars, has_suffix};

verus! {

/// What is wrong with a `mod.json`.
#[derive(PartialEq, Eq, Structural, Clone, Copy, Debug)]
pub enum ModInfoErrorKind {
    /// The text of `mod.json` is not JSON.
    NotJson,
    /// `binary` is neither a string nor an object.
    BinaryNotStringOrObject,
    /// The platform entry `subject` of `binary` is not a string.
    BinaryEntryNotString,
    /// The `*` entry of `binary` names a file other than `*`, for which no
    /// platform extension is known.
    BinaryForAnyPlatform,
    /// An object-valued `binary` lacks the platform entry `subject` (each of
    /// `windows`, `macos`, `android`, `ios` and `*` must be there, if only
    /// as `null`).
    BinaryKeyMissing,
    /// `binary` names no file.
    BinaryEmpty,
    NameMissing,
    NameNotString,
    IdMissing,
    IdNotString,
    /// The resource list `subject` (`raw` or `files`) is not an array.
    ListNotArray,
    /// An item of the resource list `subject` is not a string.
    ListItemNotString,
    /// `resources.spritesheets` is not an object.
    SpritesheetsNotObject,
    /// The sheet `subject` is not an array.
    SheetNotArray,
    /// An item of the sheet `subject` is not a string.
    SheetItemNotString,
    /// `resources.fonts` is not an object.
    FontsNotObject,
    /// The font `subject` is not an object.
    FontNotObject,
    FontPathMissing,
    FontPathNotString,
    FontSizeMissing,
    FontSizeNotInt,
    /// The font's size is a number but no whole number from 0 to `u64::MAX`.
    FontSizeNotWhole,
    FontCharsetNotString,
    FontOutlineNotInt,
    /// The font `subject` has the member `key`, which fonts do not have.
    FontUnknownKey,
    /// `resources` has the member `key`, which it does not have.
    UnknownResourceKey,
}

/// A problem in a `mod.json`: what, where (`subject`), and which member
/// (`key`) when that matters; unused parts are empty.
pub struct ModInfoError {
    pub kind: ModInfoErrorKind,
    pub subject: String,
    pub key: String,
}

/// An error as its kind and the texts of its parts.
pub type ErrorView = (ModInfoErrorKind, Seq<char>, Seq<char>);

/// The view of an error.
pub open spec fn error_view(e: ModInfoError) -> ErrorView {
    (e.kind, e.subject@, e.key@)
}

/// An error with no subject and no key.
pub open spec fn plain(kind: ModInfoErrorKind) -> ErrorView {
    (kind, Seq::empty(), Seq::empty())
}

/// An error about `subject`.
pub open spec fn about(kind: ModInfoErrorKind, subject: Seq<char>) -> ErrorView {
    (kind, subject, Seq::empty())
}

fn error(kind: ModInfoErrorKind, subject: &str, key: &str) -> (e: ModInfoError)
    ensures
        error_view(e) == (kind, subject@, key@),
{
    ModInfoError { kind, subject: subject.to_string(), key: key.to_string() }
}

fn error_plain(kind: ModInfoErrorKind) -> (e: ModInfoError)
    ensures
        error_view(e) == plain(kind),
{
    ModInfoError { kind, subject: String::new(), key: String::new() }
}

fn error_about(kind: ModInfoErrorKind, subject: &str) -> (e: ModInfoError)
    ensures
        error_view(e) == about(kind, subject@),
{
    ModInfoError { kind, subject: subject.to_string(), key: String::new() }
}

/// The file name with the extension appended unless it ends with it already.
pub open spec fn with_ext(name: Seq<char>, ext: Seq<char>) -> Seq<char> {
    if has_suffix(name, ext) { name } else { name + ext }
}

/// Adding one platform entry of an object-valued `binary` to the names found
/// so far: a missing entry is refused; `null` or `*` adds nothing; a string
/// gets the platform's extension; anything else is an error.
pub open spec fn binary_step(acc: Result<Seq<Seq<char>>, ErrorView>, o: Seq<(String, Json)>, key: Seq<char>) -> Result<Seq<Seq<char>>, ErrorView> {
    match acc {
        Err(e) => Err(e),
        Ok(l) => if !has_member(o, key) {
            Err(about(ModInfoErrorKind::BinaryKeyMissing, key))
        } else {
            match member(o, key) {
            Json::Null => Ok(l),
            Json::Str(s) => if s@ == "*"@ {
                Ok(l)
            } else if key == "*"@ {
                Err(about(ModInfoErrorKind::BinaryForAnyPlatform, key))
            } else {
                Ok(l.push(with_ext(s@, spec_extension(key))))
            },
            _ => Err(about(ModInfoErrorKind::BinaryEntryNotString, key)),
            }
        },
    }
}

/// The binaries `binary` names for a host running `os`: a string names one
/// (with the host's extension); an object, which must have all five
/// entries, names one per platform entry (`windows`, `macos`, `android`,
/// `ios`, each with its extension), or, when those name none, the `*` entry
/// with the host's extension.
pub open spec fn binary_names(binary: Json, os: TargetOs) -> Result<Seq<Seq<char>>, ErrorView> {
    let ext = spec_extension(spec_platform_string(os));
    let found = match binary {
        Json::Str(s) => Ok(seq![with_ext(s@, ext)]),
        Json::Object(o) => {
            let r = binary_step(binary_step(binary_step(binary_step(binary_step(
                Ok(Seq::empty()), o@, "windows"@), o@, "macos"@), o@, "android"@), o@, "ios"@), o@, "*"@);
            match r {
                Ok(l) => if l.len() == 0 && !(member(o@, "*"@) is Null) {
                    match member(o@, "*"@) {
                        Json::Str(s) => Ok(seq![with_ext(s@, ext)]),
                        _ => Err(about(ModInfoErrorKind::BinaryEntryNotString, "*"@)),
                    }
                } else {
                    Ok(l)
                },
                Err(e) => Err(e),
            }
        },
        _ => Err(plain(ModInfoErrorKind::BinaryNotStringOrObject)),
    };
    match found {
        Ok(l) => if l.len() == 0 { Err(plain(ModInfoErrorKind::BinaryEmpty)) } else { Ok(l) },
        Err(e) => Err(e),
    }
}

/// The views of a list of strings.
pub open spec fn string_views(v: Seq<String>) -> Seq<Seq<char>> {
    v.map_values(|s: String| s@)
}

/// The name with the extension appended unless it ends with it already.
fn append_ext(name: &str, ext: &str) -> (r: String)
    ensures
        r@ == with_ext(name@, ext@),
{
    let mut n = chars_of(name);
    let e = chars_of(ext);
    if !ends_with_chars(&n, &e) {
        push_all(&mut n, &e);
    }
    string_from_chars(&n)
}

/// One platform entry of an object-valued `binary` (see `binary_step`).
fn add_binary(o: &Vec<(String, Json)>, key: &str, names: &mut Vec<String>) -> (r: Result<(), ModInfoError>)
    requires
        key@ == "windows"@ || key@ == "macos"@ || key@ == "android"@ || key@ == "ios"@ || key@ == "*"@,
    ensures
        match binary_step(Ok(string_views(old(names)@)), o@, key@) {
            Ok(l) => r is Ok && string_views(final(names)@) == l,
            Err(e) => r matches Err(x) && error_view(x) == e,
        },
{
    proof {
        reveal_strlit("*");
        reveal_strlit("windows");
        reveal_strlit("macos");
        reveal_strlit("android");
        reveal_strlit("ios");
    }
    match find_member(o, key) {
        None => Err(error_about(ModInfoErrorKind::BinaryKeyMissing, key)),
        Some(i) => match &o[i].1 {
            Json::Null => Ok(()),
            Json::Str(s) => {
                if str_equals(s.as_str(), "*") {
                    Ok(())
                } else if str_equals(key, "*") {
                    Err(error_about(ModInfoErrorKind::BinaryForAnyPlatform, key))
                } else {
                    let f = append_ext(s.as_str(), get_extension(key));
                    names.push(f);
                    proof {
                        assert(string_views(names@) =~= string_views(old(names)@).push(with_ext(s@, spec_extension(key@))));
                    }
                    Ok(())
                }
            },
            _ => Err(error_about(ModInfoErrorKind::BinaryEntryNotString, key)),
        },
    }
}

/// The binaries `binary` names (see `binary_names`).
pub fn binary_list(binary: &Json, os: TargetOs) -> (r: Result<Vec<String>, ModInfoError>)
    requires
        os != TargetOs::Other,
    ensures
        match binary_names(*binary, os) {
            Ok(l) => r is Ok && string_views(r->Ok_0@) == l,
            Err(e) => r matches Err(x) && error_view(x) == e,
        },
{
    proof {
        reveal_strlit("*");
        reveal_strlit("windows");
        reveal_strlit("macos");
        reveal_strlit("android");
        reveal_strlit("ios");
    }
    let ext = platform_extension(os);
    let mut names: Vec<String> = Vec::new();
    match binary {
        Json::Str(s) => {
            names.push(append_ext(s.as_str(), ext));
            proof { assert(string_views(names@) =~= seq![with_ext(s@, ext@)]); }
        },
        Json::Object(o) => {
            proof { assert(string_views(names@) =~= Seq::<Seq<char>>::empty()); }
            add_binary(o, "windows", &mut names)?;
            add_binary(o, "macos", &mut names)?;
            add_binary(o, "android", &mut names)?;
            add_binary(o, "ios", &mut names)?;
            add_binary(o, "*", &mut names)?;
            if names.len() == 0 {
                match find_member(o, "*") {
                    None => {},
                    Some(i) => match &o[i].1 {
                        Json::Null => {},
                        Json::Str(s) => {
                            names.push(append_ext(s.as_str(), ext));
                            proof { assert(string_views(names@) =~= seq![with_ext(s@, ext@)]); }
                        },
                        _ => { return Err(error_about(ModInfoErrorKind::BinaryEntryNotString, "*")); },
                    },
                }
            }
        },
        _ => { return Err(error_plain(ModInfoErrorKind::BinaryNotStringOrObject)); },
    }
    if names.len() == 0 {
        return Err(error_plain(ModInfoErrorKind::BinaryEmpty));
    }
    Ok(names)
}

/// Where a resource path points: relative ones are taken from the folder
/// of `mod.json`.
pub open spec fn pattern(location: Seq<char>, p: Seq<char>) -> Seq<char> {
    if path_is_relative(p) { path_join(location, p) } else { p }
}

/// The patterns of a list of resource paths; an item that is not a string
/// is the error `kind` about `subject`.
pub open spec fn list_patterns(items: Seq<Json>, location: Seq<char>, kind: ModInfoErrorKind, subject: Seq<char>) -> Result<Seq<Seq<char>>, ErrorView>
    decreases items.len(),
{
    if items.len() == 0 {
        Ok(Seq::empty())
    } else {
        match list_patterns(items.drop_last(), location, kind, subject) {
            Err(e) => Err(e),
            Ok(l) => match items.last() {
                Json::Str(s) => Ok(l.push(pattern(location, s@))),
                _ => Err(about(kind, subject)),
            },
        }
    }
}

/// A refused prefix of the list refuses the whole list, with the same error.
proof fn lemma_list_refused(items: Seq<Json>, location: Seq<char>, kind: ModInfoErrorKind, subject: Seq<char>, k: int)
    requires
        0 <= k <= items.len(),
        list_patterns(items.take(k), location, kind, subject) is Err,
    ensures
        list_patterns(items, location, kind, subject) == list_patterns(items.take(k), location, kind, subject),
    decreases items.len() - k,
{
    if k < items.len() {
        assert(items.take(k + 1).drop_last() =~= items.take(k));
        lemma_list_refused(items, location, kind, subject, k + 1);
    } else {
        assert(items.take(k) =~= items);
    }
}

/// The pattern of one resource path (see `pattern`).
fn path_pattern(location: &String, p: &String) -> (r: String)
    ensures
        r@ == pattern(location@, p@),
{
    if is_relative(p) { join(location, p.as_str()) } else { p.clone() }
}

/// The patterns of a list of resource paths (see `list_patterns`).
fn collect_patterns(items: &Vec<Json>, location: &String, kind: ModInfoErrorKind, subject: &str) -> (r: Result<Vec<String>, ModInfoError>)
    ensures
        match list_patterns(items@, location@, kind, subject@) {
            Ok(l) => r is Ok && string_views(r->Ok_0@) == l,
            Err(e) => r matches Err(x) && error_view(x) == e,
        },
{
    let mut out: Vec<String> = Vec::new();
    let mut i: usize = 0;
    proof {
        assert(items@.take(0).len() == 0);
        assert(string_views(out@) =~= Seq::<Seq<char>>::empty());
    }
    while i < items.len()
        invariant
            i <= items@.len(),
            list_patterns(items@.take(i as int), location@, kind, subject@) == Ok::<Seq<Seq<char>>, ErrorView>(string_views(out@)),
        decreases items@.len() - i,
    {
        proof {
            assert(items@.take(i + 1).drop_last() =~= items@.take(i as int));
            assert(items@.take(i + 1).last() == items@[i as int]);
        }
        match &items[i] {
            Json::Str(s) => {
                let ghost before = string_views(out@);
                out.push(path_pattern(location, s));
                proof {
                    assert(string_views(out@) =~= before.push(pattern(location@, s@)));
                }
            },
            _ => {
                proof { lemma_list_refused(items@, location@, kind, subject@, i + 1); }
                return Err(error_about(kind, subject));
            },
        }
        i = i + 1;
    }
    proof { assert(items@.take(items@.len() as int) =~= items@); }
    Ok(out)
}

/// A sprite sheet's name and file patterns.
pub type SheetView = (Seq<char>, Seq<Seq<char>>);

/// A font's name, path pattern, charset, size and outline.
pub type FontView = (Seq<char>, Seq<char>, Option<Seq<char>>, u32, u32);

/// The raw-file patterns, the prefixed-file patterns, the sheets and the fonts.
pub type ResourcesView = (Seq<Seq<char>>, Seq<Seq<char>>, Seq<SheetView>, Seq<FontView>);

/// The sheets of `resources.spritesheets`, in order.
pub open spec fn sheets_of(entries: Seq<(String, Json)>, location: Seq<char>) -> Result<Seq<SheetView>, ErrorView>
    decreases entries.len(),
{
    if entries.len() == 0 {
        Ok(Seq::empty())
    } else {
        match sheets_of(entries.drop_last(), location) {
            Err(e) => Err(e),
            Ok(l) => {
                let name = entries.last().0@;
                match entries.last().1 {
                    Json::Array(a) => match list_patterns(a@, location, ModInfoErrorKind::SheetItemNotString, name) {
                        Ok(p) => Ok(l.push((name, p))),
                        Err(e) => Err(e),
                    },
                    _ => Err(about(ModInfoErrorKind::SheetNotArray, name)),
                }
            },
        }
    }
}

/// A font's optional members, read in order: `charset` (a string) and
/// `outline` (a whole number, kept modulo 2^32); `size` and `path` are read
/// elsewhere; any other member is an error.
pub open spec fn font_options(entries: Seq<(String, Json)>, name: Seq<char>) -> Result<(Option<Seq<char>>, u32), ErrorView>
    decreases entries.len(),
{
    if entries.len() == 0 {
        Ok((None, 0u32))
    } else {
        match font_options(entries.drop_last(), name) {
            Err(e) => Err(e),
            Ok((c, o)) => {
                let k = entries.last().0@;
                let v = entries.last().1;
                if k == "charset"@ {
                    match v {
                        Json::Str(s) => Ok((Some(s@), o)),
                        _ => Err(about(ModInfoErrorKind::FontCharsetNotString, name)),
                    }
                } else if k == "outline"@ {
                    match v {
                        Json::Number(Some(n)) => Ok((c, n as u32)),
                        _ => Err(about(ModInfoErrorKind::FontOutlineNotInt, name)),
                    }
                } else if k == "size"@ || k == "path"@ {
                    Ok((c, o))
                } else {
                    Err((ModInfoErrorKind::FontUnknownKey, name, k))
                }
            },
        }
    }
}

/// A font declared as `name`: its `path` (a string, as a pattern), its
/// `size` (a whole number, kept modulo 2^32) and its optional members.
pub open spec fn font_of(name: Seq<char>, fo: Seq<(String, Json)>, location: Seq<char>) -> Result<FontView, ErrorView> {
    let path = match member(fo, "path"@) {
        Json::Str(p) => Ok(pattern(location, p@)),
        Json::Null => Err(about(ModInfoErrorKind::FontPathMissing, name)),
        _ => Err(about(ModInfoErrorKind::FontPathNotString, name)),
    };
    match path {
        Err(e) => Err(e),
        Ok(p) => {
            let size = match member(fo, "size"@) {
                Json::Number(Some(n)) => Ok(n as u32),
                Json::Number(None) => Err(about(ModInfoErrorKind::FontSizeNotWhole, name)),
                Json::Null => Err(about(ModInfoErrorKind::FontSizeMissing, name)),
                _ => Err(about(ModInfoErrorKind::FontSizeNotInt, name)),
            };
            match size {
                Err(e) => Err(e),
                Ok(sz) => match font_options(fo, name) {
                    Err(e) => Err(e),
                    Ok((c, o)) => Ok((name, p, c, sz, o)),
                },
            }
        },
    }
}

/// The fonts of `resources.fonts`, in order.
pub open spec fn fonts_of(entries: Seq<(String, Json)>, location: Seq<char>) -> Result<Seq<FontView>, ErrorView>
    decreases entries.len(),
{
    if entries.len() == 0 {
        Ok(Seq::empty())
    } else {
        match fonts_of(entries.drop_last(), location) {
            Err(e) => Err(e),
            Ok(l) => {
                let name = entries.last().0@;
                match entries.last().1 {
                    Json::Object(fo) => match font_of(name, fo@, location) {
                        Ok(f) => Ok(l.push(f)),
                        Err(e) => Err(e),
                    },
                    _ => Err(about(ModInfoErrorKind::FontNotObject, name)),
                }
            },
        }
    }
}

/// The resources of the members of `resources`, read in order: `raw` and
/// `files` add patterns, `spritesheets` sheets, `fonts` fonts; any other
/// member is an error.
pub open spec fn resources_of(entries: Seq<(String, Json)>, location: Seq<char>) -> Result<ResourcesView, ErrorView>
    decreases entries.len(),
{
    if entries.len() == 0 {
        Ok((Seq::empty(), Seq::empty(), Seq::empty(), Seq::empty()))
    } else {
        match resources_of(entries.drop_last(), location) {
            Err(e) => Err(e),
            Ok((raw, files, sheets, fonts)) => {
                let k = entries.last().0@;
                let v = entries.last().1;
                if k == "raw"@ {
                    match v {
                        Json::Array(a) => match list_patterns(a@, location, ModInfoErrorKind::ListItemNotString, "raw"@) {
                            Ok(p) => Ok((raw + p, files, sheets, fonts)),
                            Err(e) => Err(e),
                        },
                        _ => Err(about(ModInfoErrorKind::ListNotArray, "raw"@)),
                    }
                } else if k == "files"@ {
                    match v {
                        Json::Array(a) => match list_patterns(a@, location, ModInfoErrorKind::ListItemNotString, "files"@) {
                            Ok(p) => Ok((raw, files + p, sheets, fonts)),
                            Err(e) => Err(e),
                        },
                        _ => Err(about(ModInfoErrorKind::ListNotArray, "files"@)),
                    }
                } else if k == "spritesheets"@ {
                    match v {
                        Json::Object(o) => match sheets_of(o@, location) {
                            Ok(s) => Ok((raw, files, sheets + s, fonts)),
                            Err(e) => Err(e),
                        },
                        _ => Err(plain(ModInfoErrorKind::SpritesheetsNotObject)),
                    }
                } else if k == "fonts"@ {
                    match v {
                        Json::Object(o) => match fonts_of(o@, location) {
                            Ok(fs) => Ok((raw, files, sheets, fonts + fs)),
                            Err(e) => Err(e),
                        },
                        _ => Err(plain(ModInfoErrorKind::FontsNotObject)),
                    }
                } else {
                    Err((ModInfoErrorKind::UnknownResourceKey, Seq::empty(), k))
                }
            },
        }
    }
}

/// The resources `mod.json` declares: none unless `resources` is an object.
pub open spec fn resources_view(resources: Json, location: Seq<char>) -> Result<ResourcesView, ErrorView> {
    match resources {
        Json::Object(o) => resources_of(o@, location),
        _ => Ok((Seq::empty(), Seq::empty(), Seq::empty(), Seq::empty())),
    }
}

/// A text member: a string, else missing (`Null`) or of the wrong kind.
pub open spec fn text_member(v: Json, missing: ModInfoErrorKind, wrong: ModInfoErrorKind) -> Result<Seq<char>, ErrorView> {
    match v {
        Json::Str(s) => Ok(s@),
        Json::Null => Err(plain(missing)),
        _ => Err(plain(wrong)),
    }
}

/// What packaging reads from `mod.json` (with `location` its folder, on a
/// host running `os`): the binaries, the id and the resources, checked in
/// that order (the `name` must be a string too).
pub open spec fn mod_info_of(json: Json, location: Seq<char>, os: TargetOs) -> Result<(Seq<Seq<char>>, Seq<char>, ResourcesView), ErrorView> {
    match binary_names(crate::json::at(json, "binary"@), os) {
        Err(e) => Err(e),
        Ok(b) => match text_member(crate::json::at(json, "name"@), ModInfoErrorKind::NameMissing, ModInfoErrorKind::NameNotString) {
            Err(e) => Err(e),
            Ok(_) => match text_member(crate::json::at(json, "id"@), ModInfoErrorKind::IdMissing, ModInfoErrorKind::IdNotString) {
                Err(e) => Err(e),
                Ok(id) => match resources_view(crate::json::at(json, "resources"@), location) {
                    Err(e) => Err(e),
                    Ok(r) => Ok((b, id, r)),
                },
            },
        },
    }
}

/// A sprite sheet: its name and file patterns.
pub struct SheetPatterns {
    pub name: String,
    pub patterns: Vec<String>,
}

/// A font to render.
pub struct FontEntry {
    pub name: String,
    pub path: String,
    pub charset: Option<String>,
    pub size: u32,
    pub outline: u32,
}

/// The resources `mod.json` declares.
pub struct ResourcePatterns {
    /// Files copied as they are.
    pub raw: Vec<String>,
    /// Files copied under the mod's prefix.
    pub files: Vec<String>,
    pub sheets: Vec<SheetPatterns>,
    pub fonts: Vec<FontEntry>,
}

/// What packaging reads from `mod.json`.
pub struct ModInfo {
    pub bin_list: Vec<String>,
    pub id: String,
    pub resources: ResourcePatterns,
}

pub open spec fn sheet_view(s: SheetPatterns) -> SheetView {
    (s.name@, string_views(s.patterns@))
}

pub open spec fn font_view(f: FontEntry) -> FontView {
    (f.name@, f.path@, crate::templates::opt_view(f.charset), f.size, f.outline)
}

pub open spec fn resources_view_of(r: ResourcePatterns) -> ResourcesView {
    (
        string_views(r.raw@),
        string_views(r.files@),
        r.sheets@.map_values(|s: SheetPatterns| sheet_view(s)),
        r.fonts@.map_values(|f: FontEntry| font_view(f)),
    )
}

proof fn lemma_sheets_refused(entries: Seq<(String, Json)>, location: Seq<char>, k: int)
    requires
        0 <= k <= entries.len(),
        sheets_of(entries.take(k), location) is Err,
    ensures
        sheets_of(entries, location) == sheets_of(entries.take(k), location),
    decreases entries.len() - k,
{
    if k < entries.len() {
        assert(entries.take(k + 1).drop_last() =~= entries.take(k));
        lemma_sheets_refused(entries, location, k + 1);
    } else {
        assert(entries.take(k) =~= entries);
    }
}

proof fn lemma_options_refused(entries: Seq<(String, Json)>, name: Seq<char>, k: int)
    requires
        0 <= k <= entries.len(),
        font_options(entries.take(k), name) is Err,
    ensures
        font_options(entries, name) == font_options(entries.take(k), name),
    decreases entries.len() - k,
{
    if k < entries.len() {
        assert(entries.take(k + 1).drop_last() =~= entries.take(k));
        lemma_options_refused(entries, name, k + 1);
    } else {
        assert(entries.take(k) =~= entries);
    }
}

proof fn lemma_fonts_refused(entries: Seq<(String, Json)>, location: Seq<char>, k: int)
    requires
        0 <= k <= entries.len(),
        fonts_of(entries.take(k), location) is Err,
    ensures
        fonts_of(entries, location) == fonts_of(entries.take(k), location),
    decreases entries.len() - k,
{
    if k < entries.len() {
        assert(entries.take(k + 1).drop_last() =~= entries.take(k));
        lemma_fonts_refused(entries, location, k + 1);
    } else {
        assert(entries.take(k) =~= entries);
    }
}

proof fn lemma_resources_refused(entries: Seq<(String, Json)>, location: Seq<char>, k: int)
    requires
        0 <= k <= entries.len(),
        resources_of(entries.take(k), location) is Err,
    ensures
        resources_of(entries, location) == resources_of(entries.take(k), location),
    decreases entries.len() - k,
{
    if k < entries.len() {
        assert(entries.take(k + 1).drop_last() =~= entries.take(k));
        lemma_resources_refused(entries, location, k + 1);
    } else {
        assert(entries.take(k) =~= entries);
    }
}

/// The sheets of `resources.spritesheets` (see `sheets_of`).
fn collect_sheets(entries: &Vec<(String, Json)>, location: &String) -> (r: Result<Vec<SheetPatterns>, ModInfoError>)
    ensures
        match sheets_of(entries@, location@) {
            Ok(l) => r is Ok && r->Ok_0@.map_values(|s: SheetPatterns| sheet_view(s)) == l,
            Err(e) => r matches Err(x) && error_view(x) == e,
        },
{
    let mut out: Vec<SheetPatterns> = Vec::new();
    let mut i: usize = 0;
    proof { assert(out@.map_values(|s: SheetPatterns| sheet_view(s)) =~= Seq::<SheetView>::empty()); }
    while i < entries.len()
        invariant
            i <= entries@.len(),
            sheets_of(entries@.take(i as int), location@) == Ok::<Seq<SheetView>, ErrorView>(out@.map_values(|s: SheetPatterns| sheet_view(s))),
        decreases entries@.len() - i,
    {
        proof {
            assert(entries@.take(i + 1).drop_last() =~= entries@.take(i as int));
            assert(entries@.take(i + 1).last() == entries@[i as int]);
        }
        let name = &entries[i].0;
        match &entries[i].1 {
            Json::Array(a) => {
                match collect_patterns(a, location, ModInfoErrorKind::SheetItemNotString, name.as_str()) {
                    Ok(p) => {
                        let ghost before = out@.map_values(|s: SheetPatterns| sheet_view(s));
                        out.push(SheetPatterns { name: name.clone(), patterns: p });
                        proof {
                            assert(out@.map_values(|s: SheetPatterns| sheet_view(s)) =~= before.push(sheet_view(out@.last())));
                        }
                    },
                    Err(e) => {
                        proof { lemma_sheets_refused(entries@, location@, i + 1); }
                        return Err(e);
                    },
                }
            },
            _ => {
                proof { lemma_sheets_refused(entries@, location@, i + 1); }
                return Err(error_about(ModInfoErrorKind::SheetNotArray, name.as_str()));
            },
        }
        i = i + 1;
    }
    proof { assert(entries@.take(entries@.len() as int) =~= entries@); }
    Ok(out)
}

/// A font's optional members (see `font_options`).
fn read_font_options(entries: &Vec<(String, Json)>, name: &String) -> (r: Result<(Option<String>, u32), ModInfoError>)
    ensures
        match font_options(entries@, name@) {
            Ok((c, o)) => r is Ok && crate::templates::opt_view(r->Ok_0.0) == c && r->Ok_0.1 == o,
            Err(e) => r matches Err(x) && error_view(x) == e,
        },
{
    proof {
        reveal_strlit("charset");
        reveal_strlit("outline");
        reveal_strlit("size");
        reveal_strlit("path");
    }
    let mut charset: Option<String> = None;
    let mut outline: u32 = 0;
    let mut i: usize = 0;
    while i < entries.len()
        invariant
            i <= entries@.len(),
            font_options(entries@.take(i as int), name@) == Ok::<(Option<Seq<char>>, u32), ErrorView>((crate::templates::opt_view(charset), outline)),
        decreases entries@.len() - i,
    {
        proof {
            assert(entries@.take(i + 1).drop_last() =~= entries@.take(i as int));
            assert(entries@.take(i + 1).last() == entries@[i as int]);
        }
        let k = entries[i].0.as_str();
        let v = &entries[i].1;
        if str_equals(k, "charset") {
            match v {
                Json::Str(s) => { charset = Some(s.clone()); },
                _ => {
                    proof { lemma_options_refused(entries@, name@, i + 1); }
                    return Err(error_about(ModInfoErrorKind::FontCharsetNotString, name.as_str()));
                },
            }
        } else if str_equals(k, "outline") {
            match v {
                Json::Number(Some(n)) => { outline = *n as u32; },
                _ => {
                    proof { lemma_options_refused(entries@, name@, i + 1); }
                    return Err(error_about(ModInfoErrorKind::FontOutlineNotInt, name.as_str()));
                },
            }
        } else if str_equals(k, "size") || str_equals(k, "path") {
        } else {
            proof { lemma_options_refused(entries@, name@, i + 1); }
            return Err(error(ModInfoErrorKind::FontUnknownKey, name.as_str(), k));
        }
        i = i + 1;
    }
    proof { assert(entries@.take(entries@.len() as int) =~= entries@); }
    Ok((charset, outline))
}

/// The font declared as `name` (see `font_of`).
fn read_font(name: &String, fo: &Vec<(String, Json)>, location: &String) -> (r: Result<FontEntry, ModInfoError>)
    ensures
        match font_of(name@, fo@, location@) {
            Ok(f) => r is Ok && font_view(r->Ok_0) == f,
            Err(e) => r matches Err(x) && error_view(x) == e,
        },
{
    proof {
        reveal_strlit("path");
        reveal_strlit("size");
    }
    let path = match find_member(fo, "path") {
        Some(i) => match &fo[i].1 {
            Json::Str(p) => path_pattern(location, p),
            Json::Null => { return Err(error_about(ModInfoErrorKind::FontPathMissing, name.as_str())); },
            _ => { return Err(error_about(ModInfoErrorKind::FontPathNotString, name.as_str())); },
        },
        None => { return Err(error_about(ModInfoErrorKind::FontPathMissing, name.as_str())); },
    };
    let size: u32 = match find_member(fo, "size") {
        Some(i) => match &fo[i].1 {
            Json::Number(Some(n)) => *n as u32,
            Json::Number(None) => { return Err(error_about(ModInfoErrorKind::FontSizeNotWhole, name.as_str())); },
            Json::Null => { return Err(error_about(ModInfoErrorKind::FontSizeMissing, name.as_str())); },
            _ => { return Err(error_about(ModInfoErrorKind::FontSizeNotInt, name.as_str())); },
        },
        None => { return Err(error_about(ModInfoErrorKind::FontSizeMissing, name.as_str())); },
    };
    let (charset, outline) = read_font_options(fo, name)?;
    Ok(FontEntry { name: name.clone(), path, charset, size, outline })
}

/// The fonts of `resources.fonts` (see `fonts_of`).
fn collect_fonts(entries: &Vec<(String, Json)>, location: &String) -> (r: Result<Vec<FontEntry>, ModInfoError>)
    ensures
        match fonts_of(entries@, location@) {
            Ok(l) => r is Ok && r->Ok_0@.map_values(|f: FontEntry| font_view(f)) == l,
            Err(e) => r matches Err(x) && error_view(x) == e,
        },
{
    let mut out: Vec<FontEntry> = Vec::new();
    let mut i: usize = 0;
    proof { assert(out@.map_values(|f: FontEntry| font_view(f)) =~= Seq::<FontView>::empty()); }
    while i < entries.len()
        invariant
            i <= entries@.len(),
            fonts_of(entries@.take(i as int), location@) == Ok::<Seq<FontView>, ErrorView>(out@.map_values(|f: FontEntry| font_view(f))),
        decreases entries@.len() - i,
    {
        proof {
            assert(entries@.take(i + 1).drop_last() =~= entries@.take(i as int));
            assert(entries@.take(i + 1).last() == entries@[i as int]);
        }
        let name = &entries[i].0;
        match &entries[i].1 {
            Json::Object(fo) => {
                match read_font(name, fo, location) {
                    Ok(font) => {
                        let ghost before = out@.map_values(|f: FontEntry| font_view(f));
                        out.push(font);
                        proof {
                            assert(out@.map_values(|f: FontEntry| font_view(f)) =~= before.push(font_view(out@.last())));
                        }
                    },
                    Err(e) => {
                        proof { lemma_fonts_refused(entries@, location@, i + 1); }
                        return Err(e);
                    },
                }
            },
            _ => {
                proof { lemma_fonts_refused(entries@, location@, i + 1); }
                return Err(error_about(ModInfoErrorKind::FontNotObject, name.as_str()));
            },
        }
        i = i + 1;
    }
    proof { assert(entries@.take(entries@.len() as int) =~= entries@); }
    Ok(out)
}

/// Appends the strings of `src` to `dst`.
fn extend_strings(dst: &mut Vec<String>, src: Vec<String>)
    ensures
        string_views(final(dst)@) == string_views(old(dst)@) + string_views(src@),
{
    let mut src = src;
    let ghost all = src@;
    dst.append(&mut src);
    proof {
        assert(string_views(dst@) =~= string_views(old(dst)@) + string_views(all));
    }
}

/// The resources of `mod.json` (its `resources` member, see
/// `resources_view`): the patterns of the files to collect, relative ones
/// taken from the folder of `mod.json`, and the fonts to render.
pub fn parse_resources(resources: &Json, location: &String) -> (r: Result<ResourcePatterns, ModInfoError>)
    ensures
        match resources_view(*resources, location@) {
            Ok(v) => r is Ok && resources_view_of(r->Ok_0) == v,
            Err(e) => r matches Err(x) && error_view(x) == e,
        },
{
    proof {
        reveal_strlit("raw");
        reveal_strlit("files");
        reveal_strlit("spritesheets");
        reveal_strlit("fonts");
        reveal_strlit("");
    }
    let mut res = ResourcePatterns { raw: Vec::new(), files: Vec::new(), sheets: Vec::new(), fonts: Vec::new() };
    proof {
        assert(resources_view_of(res) =~~= (Seq::<Seq<char>>::empty(), Seq::<Seq<char>>::empty(), Seq::<SheetView>::empty(), Seq::<FontView>::empty()));
    }
    let entries = match resources {
        Json::Object(o) => o,
        _ => { return Ok(res); },
    };
    let mut i: usize = 0;
    while i < entries.len()
        invariant
            i <= entries@.len(),
            *resources == Json::Object(*entries),
            resources_of(entries@.take(i as int), location@) == Ok::<ResourcesView, ErrorView>(resources_view_of(res)),
        decreases entries@.len() - i,
    {
        proof {
            assert(entries@.take(i + 1).drop_last() =~= entries@.take(i as int));
            assert(entries@.take(i + 1).last() == entries@[i as int]);
        }
        let k = entries[i].0.as_str();
        let v = &entries[i].1;
        let ghost before = resources_view_of(res);
        if str_equals(k, "raw") || str_equals(k, "files") {
            let is_raw = str_equals(k, "raw");
            let list = if is_raw { "raw" } else { "files" };
            match v {
                Json::Array(a) => match collect_patterns(a, location, ModInfoErrorKind::ListItemNotString, list) {
                    Ok(p) => {
                        if is_raw {
                            extend_strings(&mut res.raw, p);
                        } else {
                            extend_strings(&mut res.files, p);
                        }
                        proof {
                            let after = resources_view_of(res);
                            assert(after.2 == before.2 && after.3 == before.3);
                        }
                    },
                    Err(e) => {
                        proof { lemma_resources_refused(entries@, location@, i + 1); }
                        return Err(e);
                    },
                },
                _ => {
                    proof { lemma_resources_refused(entries@, location@, i + 1); }
                    return Err(error_about(ModInfoErrorKind::ListNotArray, list));
                },
            }
        } else if str_equals(k, "spritesheets") {
            match v {
                Json::Object(o) => match collect_sheets(o, location) {
                    Ok(s) => {
                        let mut s = s;
                        let ghost sv = s@.map_values(|x: SheetPatterns| sheet_view(x));
                        res.sheets.append(&mut s);
                        proof {
                            assert(resources_view_of(res).2 =~= before.2 + sv);
                        }
                    },
                    Err(e) => {
                        proof { lemma_resources_refused(entries@, location@, i + 1); }
                        return Err(e);
                    },
                },
                _ => {
                    proof { lemma_resources_refused(entries@, location@, i + 1); }
                    return Err(error_plain(ModInfoErrorKind::SpritesheetsNotObject));
                },
            }
        } else if str_equals(k, "fonts") {
            match v {
                Json::Object(o) => match collect_fonts(o, location) {
                    Ok(fs) => {
                        let mut fs = fs;
                        let ghost fv = fs@.map_values(|x: FontEntry| font_view(x));
                        res.fonts.append(&mut fs);
                        proof {
                            assert(resources_view_of(res).3 =~= before.3 + fv);
                        }
                    },
                    Err(e) => {
                        proof { lemma_resources_refused(entries@, location@, i + 1); }
                        return Err(e);
                    },
                },
                _ => {
                    proof { lemma_resources_refused(entries@, location@, i + 1); }
                    return Err(error_plain(ModInfoErrorKind::FontsNotObject));
                },
            }
        } else {
            proof {
                reveal_strlit("");
                lemma_resources_refused(entries@, location@, i + 1);
            }
            return Err(error(ModInfoErrorKind::UnknownResourceKey, "", k));
        }
        i = i + 1;
    }
    proof { assert(entries@.take(entries@.len() as int) =~= entries@); }
    Ok(res)
}

/// A member of an object (`Null` when absent or not an object), by reference.
fn member_of<'a>(json: &'a Json, key: &str) -> (r: Option<&'a Json>)
    ensures
        match r {
            Some(v) => *v == crate::json::at(*json, key@),
            None => crate::json::at(*json, key@) == Json::Null,
        },
{
    match json {
        Json::Object(o) => match find_member(o, key) {
            Some(i) => Some(&o[i].1),
            None => None,
        },
        _ => None,
    }
}

/// What packaging reads from `mod.json` (see `mod_info_of`): `location` is
/// the folder `mod.json` is in, `os` the system packaging runs on.
pub fn extract_mod_info(mod_json: &Json, location: &String, os: TargetOs) -> (r: Result<ModInfo, ModInfoError>)
    requires
        os != TargetOs::Other,
    ensures
        match mod_info_of(*mod_json, location@, os) {
            Ok((b, id, res)) => match r {
                Ok(info) => string_views(info.bin_list@) == b && info.id@ == id
                    && resources_view_of(info.resources) == res,
                Err(_) => false,
            },
            Err(e) => r matches Err(x) && error_view(x) == e,
        },
{
    proof {
        reveal_strlit("binary");
        reveal_strlit("name");
        reveal_strlit("id");
        reveal_strlit("resources");
    }
    let null = Json::Null;
    let binary = match member_of(mod_json, "binary") { Some(v) => v, None => &null };
    let bin_list = binary_list(binary, os)?;
    match member_of(mod_json, "name") {
        Some(Json::Str(_)) => {},
        Some(Json::Null) | None => { return Err(error_plain(ModInfoErrorKind::NameMissing)); },
        Some(_) => { return Err(error_plain(ModInfoErrorKind::NameNotString)); },
    }
    let id = match member_of(mod_json, "id") {
        Some(Json::Str(s)) => s.clone(),
        Some(Json::Null) | None => { return Err(error_plain(ModInfoErrorKind::IdMissing)); },
        Some(_) => { return Err(error_plain(ModInfoErrorKind::IdNotString)); },
    };
    let res_json = match member_of(mod_json, "resources") { Some(v) => v, None => &null };
    let resources = parse_resources(res_json, location)?;
    Ok(ModInfo { bin_list, id, resources })
}

/// What packaging reads from a `mod.json` given as the result of parsing
/// its text (`None` when the text is not JSON): a `NotJson` error for text
/// that is not JSON, otherwise what `extract_mod_info` reads from the value.
pub fn package_mod_info(parsed: Option<Json>, location: &String, os: TargetOs) -> (r: Result<ModInfo, ModInfoError>)
    requires
        os != TargetOs::Other,
    ensures
        match parsed {
            None => r matches Err(x) && error_view(x) == plain(ModInfoErrorKind::NotJson),
            Some(v) => match mod_info_of(v, location@, os) {
                Ok((b, id, res)) => match r {
                    Ok(info) => string_views(info.bin_list@) == b && info.id@ == id
                        && resources_view_of(info.resources) == res,
                    Err(_) => false,
                },
                Err(e) => r matches Err(x) && error_view(x) == e,
            },
        },
{
    match parsed {
        None => Err(error_plain(ModInfoErrorKind::NotJson)),
        Some(v) => extract_mod_info(&v, location, os),
    }
}

/// The settings of the font declared as `name` in `resources`, as written in
/// `mod.json` (`resources.fonts.<name>`), which a rebuild check compares
/// with those of the last build; `None` when no such member is there.
pub fn font_settings<'a>(resources: &'a Json, name: &str) -> (r: Option<&'a Json>)
    ensures
        match r {
            Some(v) => *v == crate::json::at(crate::json::at(*resources, "fonts"@), name@),
            None => crate::json::at(crate::json::at(*resources, "fonts"@), name@) == Json::Null,
        },
{
    proof { reveal_strlit("fonts"); }
    match member_of(resources, "fonts") {
        Some(fonts) => member_of(fonts, name),
        None => {
            assert(crate::json::at(Json::Null, name@) == Json::Null);
            None
        },
    }
}

/// What packaging reads from the text of a `mod.json` (see
/// `package_mod_info`): the text parsed as JSON, then read.
pub fn mod_info_from_text(text: &str, location: &String, os: TargetOs) -> (r: Result<ModInfo, ModInfoError>)
    requires
        os != TargetOs::Other,
    ensures
        match crate::json::json_of(text@) {
            None => r matches Err(x) && error_view(x) == plain(ModInfoErrorKind::NotJson),
            Some(v) => match mod_info_of(v, location@, os) {
                Ok((b, id, res)) => match r {
                    Ok(info) => string_views(info.bin_list@) == b && info.id@ == id
                        && resources_view_of(info.resources) == res,
                    Err(_) => false,
                },
                Err(e) => r matches Err(x) && error_view(x) == e,
            },
        },
{
    let parsed = crate::json::parse_json(text);
    package_mod_info(parsed, location, os)
}


/// `value[key]`, taken out of `value`.
fn take_member(value: Json, key: &str) -> (r: Json)
    ensures
        r == crate::json::at(value, key@),
{
    match value {
        Json::Object(mut o) => match find_member(&o, key) {
            Some(i) => {
                let (_, v) = o.remove(i);
                v
            },
            None => Json::Null,
        },
        _ => Json::Null,
    }
}

/// The settings of the font declared as `name` in the text of a `mod.json`
/// (`resources.fonts.<name>`, see `font_settings`), which a rebuild check
/// compares with those kept from the last build; `None` when the text is
/// not JSON or holds no such member.
pub fn font_settings_in_text(text: &str, name: &str) -> (r: Option<Json>)
    ensures
        match crate::json::json_of(text@) {
            None => r is None,
            Some(v) => {
                let s = crate::json::at(crate::json::at(crate::json::at(v, "resources"@), "fonts"@), name@);
                if s == Json::Null { r is None } else { r == Some(s) }
            },
        },
{
    proof {
        reveal_strlit("resources");
        reveal_strlit("fonts");
    }
    match crate::json::parse_json(text) {
        None => None,
        Some(v) => {
            let s = take_member(take_member(take_member(v, "resources"), "fonts"), name);
            if let Json::Null = s {
                None
            } else {
                Some(s)
            }
        },
    }
}

} // verus!
