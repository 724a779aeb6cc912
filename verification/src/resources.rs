//! A mod's resources: the sheets and fonts it declares, and the merging that
//! `geode project add` does when files are added to its `mod.json`.

use vstd::prelude::*;
use crate::platform::PlatformName;
use crate::text::{chars_of, string_from_chars, push_all};
use crate::fonts::{FontVariant, font_variants, font_base_name, create_bitmap_font_from_ttf};
use crate::paths::{path_file_name, path_join, join};

verus! {

/// A kind of resource `geode project add` can add.
#[derive(PartialEq, Eq, Structural, Clone, Copy, Debug)]
pub enum ResourceType {
    Sprite,
    Font,
    File,
}

/// The `geode project` command.
pub enum Project {
    /// Create a new project in `path` (or the current folder).
    New { path: Option<String> },
    /// Remove the project's cached resources and package.
    ClearCache,
    /// Check and install the project's dependencies.
    Check { install_dir: Option<String>, platform: Option<PlatformName>, externals: Vec<String> },
    /// Add resource files to `mod.json`.
    Add { resource: ResourceType, files: Vec<String> },
}

/// A sprite sheet declared in `mod.json`: its name and the sprite files.
pub struct GameSheet {
    pub name: String,
    pub files: Vec<String>,
}

/// A bitmap font declared in `mod.json`.
pub struct BMFont {
    pub name: String,
    pub ttf_src: String,
    pub charset: Option<String>,
    pub fontsize: u32,
    pub outline: u32,
}

/// The key a resource type's list has under `resources` in `mod.json`, and
/// the word warnings use for one such resource.
pub open spec fn resource_key(t: ResourceType) -> (Seq<char>, Seq<char>) {
    match t {
        ResourceType::Sprite => ("sprites"@, "Sprite"@),
        ResourceType::File => ("files"@, "File"@),
        ResourceType::Font => ("fonts"@, "Font"@),
    }
}

impl ResourceType {
    /// The `mod.json` key and the warning word (see `resource_key`).
    pub fn key(&self) -> (r: (&'static str, &'static str))
        ensures
            r.0@ == resource_key(*self).0,
            r.1@ == resource_key(*self).1,
    {
        proof {
            reveal_strlit("sprites");
            reveal_strlit("Sprite");
            reveal_strlit("files");
            reveal_strlit("File");
            reveal_strlit("fonts");
            reveal_strlit("Font");
        }
        match self {
            ResourceType::Sprite => ("sprites", "Sprite"),
            ResourceType::File => ("files", "File"),
            ResourceType::Font => ("fonts", "Font"),
        }
    }
}

/// `s` with each run of equal neighbours kept once (`Vec::dedup`).
pub open spec fn dedup_runs<A>(s: Seq<A>) -> Seq<A>
    decreases s.len(),
{
    if s.len() == 0 {
        s
    } else if s.len() >= 2 && s[s.len() - 2] == s.last() {
        dedup_runs(s.drop_last())
    } else {
        dedup_runs(s.drop_last()).push(s.last())
    }
}

/// How many times `x` occurs in `s`.
pub open spec fn occurrences<A>(s: Seq<A>, x: A) -> nat {
    s.filter(|y: A| y == x).len()
}

/// What adding files to a resource list gives: the list with the files
/// appended and runs of equal neighbours kept once; and the entries that
/// occur more than once, in order, runs kept once, for the warnings.
pub open spec fn merged_resources(existing: Seq<Seq<char>>, added: Seq<Seq<char>>) -> (Seq<Seq<char>>, Seq<Seq<char>>) {
    let all = existing + added;
    (dedup_runs(all), dedup_runs(all.filter(|x: Seq<char>| occurrences(all, x) > 1)))
}

/// `Vec::dedup` on views: runs of equal neighbours kept once.
fn dedup_strings(v: &Vec<String>) -> (r: Vec<String>)
    ensures
        r@.map_values(|s: String| s@) == dedup_runs(v@.map_values(|s: String| s@)),
{
    let ghost vs = v@.map_values(|s: String| s@);
    let mut out: Vec<String> = Vec::new();
    let mut i: usize = 0;
    while i < v.len()
        invariant
            i <= v@.len(),
            vs == v@.map_values(|s: String| s@),
            out@.map_values(|s: String| s@) == dedup_runs(vs.take(i as int)),
            i > 0 ==> out@.len() > 0 && out@.last()@ == vs[i - 1],
        decreases v@.len() - i,
    {
        let ghost t = vs.take(i + 1);
        proof {
            assert(t.drop_last() =~= vs.take(i as int));
            assert(t.last() == vs[i as int]);
            if i >= 1 {
                assert(t[t.len() - 2] == vs[i - 1]);
            }
        }
        let repeat = i > 0 && v[i - 1] == v[i];
        if !repeat {
            out.push(v[i].clone());
            proof {
                assert(out@.map_values(|s: String| s@) =~= dedup_runs(vs.take(i as int)).push(vs[i as int]));
            }
        }
        proof {
            lemma_dedup_last(t);
        }
        i = i + 1;
    }
    proof { assert(vs.take(v@.len() as int) =~= vs); }
    out
}

/// The last element survives `dedup_runs`.
proof fn lemma_dedup_last<A>(s: Seq<A>)
    requires
        s.len() > 0,
    ensures
        dedup_runs(s).len() > 0,
        dedup_runs(s).last() == s.last(),
    decreases s.len(),
{
    if s.len() >= 2 && s[s.len() - 2] == s.last() {
        lemma_dedup_last(s.drop_last());
    }
}

/// How many entries of `v` have the view `x`.
fn count_of(v: &Vec<String>, x: &String) -> (r: usize)
    ensures
        r == occurrences(v@.map_values(|s: String| s@), x@),
{
    let ghost vs = v@.map_values(|s: String| s@);
    let ghost pred = |y: Seq<char>| y == x@;
    let mut n: usize = 0;
    let mut i: usize = 0;
    while i < v.len()
        invariant
            i <= v@.len(),
            vs == v@.map_values(|s: String| s@),
            pred == (|y: Seq<char>| y == x@),
            n == vs.take(i as int).filter(pred).len(),
            n <= i,
        decreases v@.len() - i,
    {
        proof {
            reveal(Seq::filter);
            assert(vs.take(i + 1).drop_last() =~= vs.take(i as int));
            assert(vs.take(i + 1).last() == v@[i as int]@);
        }
        if v[i] == *x {
            n = n + 1;
        }
        i = i + 1;
    }
    proof { assert(vs.take(v@.len() as int) =~= vs); }
    n
}

/// Adds files to a resource list (see `merged_resources`): the merged list,
/// and the entries to warn about as duplicates.
pub fn merge_resources(existing: &Vec<String>, added: &Vec<String>) -> (r: (Vec<String>, Vec<String>))
    ensures
        ({
            let want = merged_resources(existing@.map_values(|s: String| s@), added@.map_values(|s: String| s@));
            &&& r.0@.map_values(|s: String| s@) == want.0
            &&& r.1@.map_values(|s: String| s@) == want.1
        }),
{
    let mut all: Vec<String> = Vec::new();
    let mut i: usize = 0;
    while i < existing.len()
        invariant
            i <= existing@.len(),
            all@ == existing@.take(i as int),
        decreases existing@.len() - i,
    {
        all.push(existing[i].clone());
        i = i + 1;
        assert(all@ =~= existing@.take(i as int));
    }
    let mut j: usize = 0;
    while j < added.len()
        invariant
            j <= added@.len(),
            all@ == existing@ + added@.take(j as int),
        decreases added@.len() - j,
    {
        all.push(added[j].clone());
        j = j + 1;
        assert(all@ =~= existing@ + added@.take(j as int));
    }
    let ghost av = all@.map_values(|s: String| s@);
    proof {
        assert(existing@.take(existing@.len() as int) =~= existing@);
        assert(added@.take(added@.len() as int) =~= added@);
        assert(av =~= existing@.map_values(|s: String| s@) + added@.map_values(|s: String| s@));
    }
    let ghost pred = |x: Seq<char>| occurrences(av, x) > 1;
    let mut repeated: Vec<String> = Vec::new();
    let mut k: usize = 0;
    while k < all.len()
        invariant
            k <= all@.len(),
            av == all@.map_values(|s: String| s@),
            pred == (|x: Seq<char>| occurrences(av, x) > 1),
            repeated@.map_values(|s: String| s@) == av.take(k as int).filter(pred),
        decreases all@.len() - k,
    {
        proof {
            reveal(Seq::filter);
            assert(av.take(k + 1).drop_last() =~= av.take(k as int));
            assert(av.take(k + 1).last() == all@[k as int]@);
        }
        let c = count_of(&all, &all[k]);
        if c > 1 {
            repeated.push(all[k].clone());
            proof {
                assert(repeated@.map_values(|s: String| s@) =~= av.take(k as int).filter(pred).push(all@[k as int]@));
            }
        }
        k = k + 1;
    }
    proof { assert(av.take(all@.len() as int) =~= av); }
    let merged = dedup_strings(&all);
    let dups = dedup_strings(&repeated);
    (merged, dups)
}

/// No two neighbours are equal after `dedup_runs`.
pub proof fn lemma_dedup_no_neighbours<A>(s: Seq<A>)
    ensures
        forall|i: int| 0 <= i < dedup_runs(s).len() - 1 ==> #[trigger] dedup_runs(s)[i] != dedup_runs(s)[i + 1],
    decreases s.len(),
{
    if s.len() > 0 {
        let d = s.drop_last();
        lemma_dedup_no_neighbours(d);
        if !(s.len() >= 2 && s[s.len() - 2] == s.last()) {
            if d.len() > 0 {
                lemma_dedup_last(d);
                assert(d.last() == s[s.len() - 2]);
            }
            let r = dedup_runs(d).push(s.last());
            assert forall|i: int| 0 <= i < r.len() - 1 implies #[trigger] r[i] != r[i + 1] by {
                if i < dedup_runs(d).len() - 1 {
                    assert(r[i] == dedup_runs(d)[i] && r[i + 1] == dedup_runs(d)[i + 1]);
                }
            }
        }
    }
}

/// The sheet name a mod's sheet is packed under: the mod's id, `_`, and the
/// sheet's name.
pub open spec fn prefixed_name(mod_id: Seq<char>, name: Seq<char>) -> Seq<char> {
    mod_id + "_"@ + name
}

impl BMFont {
    /// The renderings of the font for mod `mod_id`: its name prefixed with
    /// `<mod_id>_`, in all three resolutions.
    pub fn renderings(&self, mod_id: &str) -> (r: Vec<FontVariant>)
        ensures
            ({
                let want = font_variants(
                    font_base_name(path_file_name(self.ttf_src@), Some(self.name@), Some(mod_id@ + "_"@)),
                    self.fontsize,
                    self.outline,
                    true,
                );
                &&& r@.len() == want.len()
                &&& forall|i: int| 0 <= i < r@.len() ==> (#[trigger] r@[i]).name@ == want[i].0
                    && r@[i].size == want[i].1 && r@[i].outline == want[i].2
            }),
    {
        let mut prefix = chars_of(mod_id);
        push_all(&mut prefix, &chars_of("_"));
        let prefix = Some(string_from_chars(&prefix));
        let name = Some(self.name.clone());
        create_bitmap_font_from_ttf(&self.ttf_src, &name, self.fontsize, &prefix, true, self.outline)
    }
}

impl GameSheet {
    /// The name the sheet is packed under (see `prefixed_name`).
    pub fn packed_name(&self, mod_id: &str) -> (r: String)
        ensures
            r@ == prefixed_name(mod_id@, self.name@),
    {
        let mut v = chars_of(mod_id);
        push_all(&mut v, &chars_of("_"));
        push_all(&mut v, &chars_of(self.name.as_str()));
        string_from_chars(&v)
    }
}

/// Where a project's build folder is: `build` inside the project, when
/// that folder exists (`build_exists`).
pub fn find_build_directory(root: &String, build_exists: bool) -> (r: Option<String>)
    ensures
        build_exists ==> r is Some && r->0@ == path_join(root@, "build"@),
        !build_exists ==> r is None,
{
    if build_exists {
        Some(join(root, "build"))
    } else {
        None
    }
}

/// Appending one element adds exactly that element to the members.
proof fn lemma_push_members<A>(d: Seq<A>, a: A, x: A)
    ensures
        d.push(a).contains(x) <==> (d.contains(x) || x == a),
{
    let s = d.push(a);
    if d.contains(x) {
        let i = choose|i: int| 0 <= i < d.len() && d[i] == x;
        assert(s[i] == x);
    }
    if x == a {
        assert(s[d.len() as int] == x);
    }
    if s.contains(x) {
        let i = choose|i: int| 0 <= i < s.len() && s[i] == x;
        if i < d.len() {
            assert(d[i] == x);
        }
    }
}

/// Keeping each run of equal neighbours once keeps every element.
proof fn lemma_dedup_members<A>(s: Seq<A>, x: A)
    ensures
        dedup_runs(s).contains(x) <==> s.contains(x),
    decreases s.len(),
{
    if s.len() > 0 {
        let d = s.drop_last();
        assert(d.push(s.last()) =~= s);
        lemma_dedup_members(d, x);
        lemma_push_members(d, s.last(), x);
        if s.len() >= 2 && s[s.len() - 2] == s.last() {
            assert(d[d.len() - 1] == s.last());
            assert(d.contains(s.last()));
        } else {
            lemma_push_members(dedup_runs(d), s.last(), x);
        }
    }
}

/// Adding files to a resource list loses nothing: an entry is in the new
/// list exactly when it was in the old list or among the files added.
pub proof fn lemma_merge_keeps_entries(existing: Seq<Seq<char>>, added: Seq<Seq<char>>, x: Seq<char>)
    ensures
        merged_resources(existing, added).0.contains(x) <==> (existing.contains(x) || added.contains(x)),
{
    let all = existing + added;
    lemma_dedup_members(all, x);
    if existing.contains(x) {
        let i = choose|i: int| 0 <= i < existing.len() && existing[i] == x;
        assert(all[i] == x);
    }
    if added.contains(x) {
        let i = choose|i: int| 0 <= i < added.len() && added[i] == x;
        assert(all[existing.len() + i] == x);
    }
    if all.contains(x) {
        let i = choose|i: int| 0 <= i < all.len() && all[i] == x;
        if i < existing.len() {
            assert(existing[i] == x);
        } else {
            assert(added[i - existing.len()] == x);
        }
    }
}

} // verus!
