//! The file names of the three resolutions of a built sprite sheet or font:
//! `name.png`, `name-hd.png` and `name-uhd.png`, each with its companion
//! (`.plist` for sheets, `.fnt` for fonts).

use vstd::prelude::*;
use crate::text::{chars_of, string_from_chars, push_all};
use crate::paths::{
    path_with_extension, path_file_stem, path_with_file_name, path_is_relative, path_strip_prefix,
    set_extension, file_stem, with_file_name, is_relative, strip_prefix,
};

verus! {

/// A built sheet image and its frame list.
pub struct SheetBundle {
    pub png: String,
    pub plist: String,
}

/// The three resolutions of a built sheet.
pub struct SheetBundles {
    pub sd: SheetBundle,
    pub hd: SheetBundle,
    pub uhd: SheetBundle,
}

/// A built font image and its glyph table.
pub struct FontBundle {
    pub png: String,
    pub fnt: String,
}

/// The three resolutions of a built font.
pub struct FontBundles {
    pub sd: FontBundle,
    pub hd: FontBundle,
    pub uhd: FontBundle,
}

/// The base path with its extension set to `png`.
pub open spec fn png_base(base: Seq<char>) -> Seq<char> {
    path_with_extension(base, "png"@)
}

/// The images of the three resolutions: `base.png`, `base-hd.png`, `base-uhd.png`.
pub open spec fn resolution_pngs(base: Seq<char>) -> (Seq<char>, Seq<char>, Seq<char>) {
    let sd = png_base(base);
    let stem = path_file_stem(sd).unwrap();
    (sd, path_with_file_name(sd, stem + "-hd.png"@), path_with_file_name(sd, stem + "-uhd.png"@))
}

/// The base path names a file once its extension is set to `png`.
pub open spec fn has_stem(base: Seq<char>) -> bool {
    path_file_stem(png_base(base)) is Some
}

/// The three image paths for `base`.
fn resolution_paths(base: String) -> (r: (String, String, String))
    requires
        has_stem(base@),
    ensures
        (r.0@, r.1@, r.2@) == resolution_pngs(base@),
{
    proof { reveal_strlit("png"); }
    let sd = set_extension(&base, "png");
    let stem = file_stem(&sd).unwrap();
    let mut hd_name = chars_of(stem.as_str());
    let mut uhd_name = chars_of(stem.as_str());
    let hd_sfx = chars_of("-hd.png");
    let uhd_sfx = chars_of("-uhd.png");
    push_all(&mut hd_name, &hd_sfx);
    push_all(&mut uhd_name, &uhd_sfx);
    let hd = with_file_name(&sd, &string_from_chars(&hd_name));
    let uhd = with_file_name(&sd, &string_from_chars(&uhd_name));
    (sd, hd, uhd)
}

impl SheetBundles {
    fn new_file(base: String) -> (b: SheetBundle)
        ensures
            b.png@ == base@,
            b.plist@ == path_with_extension(base@, "plist"@),
    {
        proof { reveal_strlit("plist"); }
        let plist = set_extension(&base, "plist");
        SheetBundle { png: base, plist }
    }

    /// The sheet files for the base path: the path set to `.png`, and the
    /// same name with `-hd` and `-uhd` appended, each with a `.plist`.
    pub fn new(base: String) -> (r: SheetBundles)
        requires
            has_stem(base@),
        ensures
            (r.sd.png@, r.hd.png@, r.uhd.png@) == resolution_pngs(base@),
            r.sd.plist@ == path_with_extension(r.sd.png@, "plist"@),
            r.hd.plist@ == path_with_extension(r.hd.png@, "plist"@),
            r.uhd.plist@ == path_with_extension(r.uhd.png@, "plist"@),
    {
        let (sd, hd, uhd) = resolution_paths(base);
        SheetBundles { sd: Self::new_file(sd), hd: Self::new_file(hd), uhd: Self::new_file(uhd) }
    }

    /// The path the cache records for this sheet: the image path itself
    /// when relative, else relative to `working_dir`.
    pub fn cache_name(&self, working_dir: &String) -> (r: String)
        requires
            !path_is_relative(self.sd.png@) ==> path_strip_prefix(self.sd.png@, working_dir@) is Some,
        ensures
            r@ == (if path_is_relative(self.sd.png@) { self.sd.png@ } else {
                path_strip_prefix(self.sd.png@, working_dir@).unwrap()
            }),
    {
        cache_name_of(&self.sd.png, working_dir)
    }
}

fn cache_name_of(png: &String, working_dir: &String) -> (r: String)
    requires
        !path_is_relative(png@) ==> path_strip_prefix(png@, working_dir@) is Some,
    ensures
        r@ == (if path_is_relative(png@) { png@ } else { path_strip_prefix(png@, working_dir@).unwrap() }),
{
    if is_relative(png) {
        png.clone()
    } else {
        strip_prefix(png, working_dir).unwrap()
    }
}

impl FontBundles {
    fn new_file(base: String) -> (b: FontBundle)
        ensures
            b.png@ == base@,
            b.fnt@ == path_with_extension(base@, "fnt"@),
    {
        proof { reveal_strlit("fnt"); }
        let fnt = set_extension(&base, "fnt");
        FontBundle { png: base, fnt }
    }

    /// The font files for the base path: the path set to `.png`, and the
    /// same name with `-hd` and `-uhd` appended, each with a `.fnt`.
    pub fn new(base: String) -> (r: FontBundles)
        requires
            has_stem(base@),
        ensures
            (r.sd.png@, r.hd.png@, r.uhd.png@) == resolution_pngs(base@),
            r.sd.fnt@ == path_with_extension(r.sd.png@, "fnt"@),
            r.hd.fnt@ == path_with_extension(r.hd.png@, "fnt"@),
            r.uhd.fnt@ == path_with_extension(r.uhd.png@, "fnt"@),
    {
        let (sd, hd, uhd) = resolution_paths(base);
        FontBundles { sd: Self::new_file(sd), hd: Self::new_file(hd), uhd: Self::new_file(uhd) }
    }

    /// The path the cache records for this font: the image path itself
    /// when relative, else relative to `working_dir`.
    pub fn cache_name(&self, working_dir: &String) -> (r: String)
        requires
            !path_is_relative(self.sd.png@) ==> path_strip_prefix(self.sd.png@, working_dir@) is Some,
        ensures
            r@ == (if path_is_relative(self.sd.png@) { self.sd.png@ } else {
                path_strip_prefix(self.sd.png@, working_dir@).unwrap()
            }),
    {
        cache_name_of(&self.sd.png, working_dir)
    }
}

/// Whether the base path names a file once its extension is `png`.
fn stem_exists(base: &String) -> (r: bool)
    ensures
        r == has_stem(base@),
{
    proof { reveal_strlit("png"); }
    let png = set_extension(base, "png");
    proof { reveal_strlit("png"); }
    file_stem(&png).is_some()
}

/// Whether the recorded path can be made relative to `working_dir`: it is
/// relative already, or `working_dir` is a prefix of it.
pub open spec fn cache_name_defined(png: Seq<char>, working_dir: Seq<char>) -> bool {
    !path_is_relative(png) ==> path_strip_prefix(png, working_dir) is Some
}

/// Whether `cache_name_of` is defined on these paths.
fn cache_name_exists(png: &String, working_dir: &String) -> (r: bool)
    ensures
        r == cache_name_defined(png@, working_dir@),
{
    is_relative(png) || strip_prefix(png, working_dir).is_some()
}

impl SheetBundles {
    /// `SheetBundles::new` where the base path has a file name; `None` otherwise.
    pub fn try_new(base: String) -> (r: Option<SheetBundles>)
        ensures
            r is Some <==> has_stem(base@),
            r matches Some(b) ==> (b.sd.png@, b.hd.png@, b.uhd.png@) == resolution_pngs(base@)
                && b.sd.plist@ == path_with_extension(b.sd.png@, "plist"@)
                && b.hd.plist@ == path_with_extension(b.hd.png@, "plist"@)
                && b.uhd.plist@ == path_with_extension(b.uhd.png@, "plist"@),
    {
        if !stem_exists(&base) {
            return None;
        }
        Some(SheetBundles::new(base))
    }

    /// `cache_name` where the image path can be made relative to
    /// `working_dir`; `None` otherwise.
    pub fn try_cache_name(&self, working_dir: &String) -> (r: Option<String>)
        ensures
            r is Some <==> cache_name_defined(self.sd.png@, working_dir@),
            r matches Some(s) ==> s@ == (if path_is_relative(self.sd.png@) { self.sd.png@ } else {
                path_strip_prefix(self.sd.png@, working_dir@).unwrap()
            }),
    {
        if !cache_name_exists(&self.sd.png, working_dir) {
            return None;
        }
        Some(self.cache_name(working_dir))
    }
}

impl FontBundles {
    /// `FontBundles::new` where the base path has a file name; `None` otherwise.
    pub fn try_new(base: String) -> (r: Option<FontBundles>)
        ensures
            r is Some <==> has_stem(base@),
            r matches Some(b) ==> (b.sd.png@, b.hd.png@, b.uhd.png@) == resolution_pngs(base@)
                && b.sd.fnt@ == path_with_extension(b.sd.png@, "fnt"@)
                && b.hd.fnt@ == path_with_extension(b.hd.png@, "fnt"@)
                && b.uhd.fnt@ == path_with_extension(b.uhd.png@, "fnt"@),
    {
        if !stem_exists(&base) {
            return None;
        }
        Some(FontBundles::new(base))
    }

    /// `cache_name` where the image path can be made relative to
    /// `working_dir`; `None` otherwise.
    pub fn try_cache_name(&self, working_dir: &String) -> (r: Option<String>)
        ensures
            r is Some <==> cache_name_defined(self.sd.png@, working_dir@),
            r matches Some(s) ==> s@ == (if path_is_relative(self.sd.png@) { self.sd.png@ } else {
                path_strip_prefix(self.sd.png@, working_dir@).unwrap()
            }),
    {
        if !cache_name_exists(&self.sd.png, working_dir) {
            return None;
        }
        Some(self.cache_name(working_dir))
    }
}

} // verus!
