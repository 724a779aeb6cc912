//! `.geode` packages: which binaries go into a package and under what name,
//! when packages may be merged and what a merge copies, and the id a new
//! project gets.

use vstd::prelude::*;
use crate::text::{
    chars_of, string_from_chars, push_all, str_equals, ends_with_chars, has_suffix, to_lowercase,
    lowercased,
};

verus! {

/// The `geode package` command.
#[allow(inconsistent_fields)]
pub enum Package {
    /// Install the package at `path` into the current profile.
    Install { path: String },
    /// Build a package from the mod folder `root_path`.
    New { root_path: String, binary: Vec<String>, output: Option<String>, install: bool },
    /// Merge the binaries of several packages of one mod into the first.
    Merge { packages: Vec<String> },
    /// Check a project's dependencies (the older name of `geode project check`).
    Setup { input: String, output: String, externals: Vec<String> },
    /// Build only the resources of the mod folder `root_path` into `output`.
    Resources { root_path: String, output: String, shut_up: bool },
}

/// The endings of binary files a package names after its mod, in the order
/// they are tried.
pub open spec fn binary_endings() -> Seq<Seq<char>> {
    seq![".ios.dylib"@, ".dylib"@, ".dll"@, ".lib"@, ".android32.so"@, ".android64.so"@, ".so"@]
}

/// Index of the first ending among the first `k` of `binary_endings` that
/// `name` ends with.
pub open spec fn first_ending(name: Seq<char>, k: int) -> Option<int>
    decreases k,
{
    if k <= 0 {
        None
    } else {
        match first_ending(name, k - 1) {
            Some(i) => Some(i),
            None => if has_suffix(name, binary_endings()[k - 1]) { Some(k - 1) } else { None },
        }
    }
}

/// The name an extra binary gets in the package: a binary ending (the first
/// that fits) keeps its ending behind the mod's id; other files keep their name.
pub open spec fn spec_packaged_binary_name(file_name: Seq<char>, mod_id: Seq<char>) -> Seq<char> {
    match first_ending(file_name, 7) {
        Some(i) => mod_id + binary_endings()[i],
        None => file_name,
    }
}

/// The name an extra binary is packaged under (see `spec_packaged_binary_name`).
pub fn packaged_binary_name(file_name: &str, mod_id: &str) -> (r: String)
    ensures
        r@ == spec_packaged_binary_name(file_name@, mod_id@),
{
    let endings: Vec<&str> = vec![".ios.dylib", ".dylib", ".dll", ".lib", ".android32.so", ".android64.so", ".so"];
    proof {
        reveal_strlit(".ios.dylib");
        reveal_strlit(".dylib");
        reveal_strlit(".dll");
        reveal_strlit(".lib");
        reveal_strlit(".android32.so");
        reveal_strlit(".android64.so");
        reveal_strlit(".so");
        assert forall|j: int| 0 <= j < 7 implies #[trigger] endings@[j]@ == binary_endings()[j] by {}
    }
    let name = chars_of(file_name);
    let mut i: usize = 0;
    while i < endings.len()
        invariant
            i <= 7,
            endings@.len() == 7,
            name@ == file_name@,
            forall|j: int| 0 <= j < 7 ==> #[trigger] endings@[j]@ == binary_endings()[j],
            first_ending(file_name@, i as int) is None,
        decreases 7 - i,
    {
        let e = chars_of(endings[i]);
        if ends_with_chars(&name, &e) {
            proof {
                assert(first_ending(file_name@, i + 1) == Some(i as int));
                lemma_first_ending_stays(file_name@, i + 1, 7);
            }
            let mut out = chars_of(mod_id);
            push_all(&mut out, &e);
            return string_from_chars(&out);
        }
        i = i + 1;
    }
    string_from_chars(&name)
}

/// Once an ending is found, looking at more endings does not change it.
proof fn lemma_first_ending_stays(name: Seq<char>, k: int, m: int)
    requires
        0 <= k <= m,
        first_ending(name, k) is Some,
    ensures
        first_ending(name, m) == first_ending(name, k),
    decreases m - k,
{
    if k < m {
        lemma_first_ending_stays(name, k, m - 1);
    }
}

/// The extensions a mod's own binary can have in its folder.
pub open spec fn binary_extensions() -> Seq<Seq<char>> {
    seq!["ios.dylib"@, "dylib"@, "dll"@, "lib"@, "so"@, "android32.so"@, "android64.so"@]
}

/// The package name of a file in the mod's folder that is one of its
/// binaries: the file's stem is the mod's id and its extension one of
/// `binary_extensions`; the name is then `<stem>.<extension>`.
pub fn root_binary_name(stem: &str, extension: &str, mod_id: &str) -> (r: Option<String>)
    ensures
        (stem@ == mod_id@ && binary_extensions().contains(extension@)) ==> r is Some && r->0@ == stem@ + "."@ + extension@,
        !(stem@ == mod_id@ && binary_extensions().contains(extension@)) ==> r is None,
{
    proof {
        reveal_strlit("ios.dylib");
        reveal_strlit("dylib");
        reveal_strlit("dll");
        reveal_strlit("lib");
        reveal_strlit("so");
        reveal_strlit("android32.so");
        reveal_strlit("android64.so");
    }
    if !str_equals(stem, mod_id) {
        return None;
    }
    let known = str_equals(extension, "ios.dylib") || str_equals(extension, "dylib")
        || str_equals(extension, "dll") || str_equals(extension, "lib") || str_equals(extension, "so")
        || str_equals(extension, "android32.so") || str_equals(extension, "android64.so");
    proof {
        let l = binary_extensions();
        assert(l[0] == "ios.dylib"@ && l[1] == "dylib"@ && l[2] == "dll"@ && l[3] == "lib"@
            && l[4] == "so"@ && l[5] == "android32.so"@ && l[6] == "android64.so"@);
        if l.contains(extension@) {
            let k = choose|k: int| 0 <= k < l.len() && l[k] == extension@;
            assert(known);
        }
    }
    if !known {
        return None;
    }
    let mut out = chars_of(stem);
    push_all(&mut out, &chars_of("."));
    push_all(&mut out, &chars_of(extension));
    Some(string_from_chars(&out))
}

/// Why packages could not be merged.
#[derive(PartialEq, Eq, Structural, Clone, Copy, Debug)]
pub enum MergeError {
    /// Fewer than two packages were given.
    TooFew,
    /// The package at this position is of another mod than the first.
    DifferentMod(usize),
}

/// Whether packages with these mod ids can be merged: at least two, all of
/// the first one's mod; otherwise the first package of another mod.
pub fn check_merge(ids: &Vec<String>) -> (r: Result<(), MergeError>)
    ensures
        ids@.len() < 2 ==> r == Err::<(), MergeError>(MergeError::TooFew),
        ids@.len() >= 2 ==> match r {
            Ok(()) => forall|j: int| 0 <= j < ids@.len() ==> #[trigger] ids@[j]@ == ids@[0]@,
            Err(MergeError::DifferentMod(i)) => 0 < i < ids@.len() && ids@[i as int]@ != ids@[0]@
                && forall|j: int| 0 <= j < i ==> #[trigger] ids@[j]@ == ids@[0]@,
            Err(MergeError::TooFew) => false,
        },
{
    if ids.len() < 2 {
        return Err(MergeError::TooFew);
    }
    let mut i: usize = 1;
    while i < ids.len()
        invariant
            1 <= i <= ids@.len(),
            forall|j: int| 0 <= j < i ==> #[trigger] ids@[j]@ == ids@[0]@,
        decreases ids@.len() - i,
    {
        if ids[i] != ids[0] {
            return Err(MergeError::DifferentMod(i));
        }
        i = i + 1;
    }
    Ok(())
}

/// Whether a merge copies a file of a later package: its name ends in
/// `.dylib`, `.so`, `.dll` or `.lib`.
pub open spec fn is_merged_file(name: Seq<char>) -> bool {
    has_suffix(name, ".dylib"@) || has_suffix(name, ".so"@) || has_suffix(name, ".dll"@) || has_suffix(name, ".lib"@)
}

/// Whether a merge copies the file (see `is_merged_file`).
pub fn merges_file(name: &str) -> (r: bool)
    ensures
        r == is_merged_file(name@),
{
    proof {
        reveal_strlit(".dylib");
        reveal_strlit(".so");
        reveal_strlit(".dll");
        reveal_strlit(".lib");
    }
    let n = chars_of(name);
    ends_with_chars(&n, &chars_of(".dylib")) || ends_with_chars(&n, &chars_of(".so"))
        || ends_with_chars(&n, &chars_of(".dll")) || ends_with_chars(&n, &chars_of(".lib"))
}

/// One half of a new project's id: lower-cased, spaces become `-`, double
/// quotes are dropped.
pub open spec fn id_part(s: Seq<char>) -> Seq<char> {
    lowercased(s).map_values(|c: char| if c == ' ' { '-' } else { c }).filter(|c: char| c != '"')
}

/// The id of a new project: the developer's part, `.`, the name's part.
pub open spec fn spec_new_mod_id(developer: Seq<char>, name: Seq<char>) -> Seq<char> {
    id_part(developer) + "."@ + id_part(name)
}

/// `id_part` of the text.
fn id_part_of(s: &str) -> (r: Vec<char>)
    ensures
        r@ == id_part(s@),
{
    let l = to_lowercase(s);
    let cs = chars_of(l.as_str());
    let ghost mapped = cs@.map_values(|c: char| if c == ' ' { '-' } else { c });
    let ghost pred = |c: char| c != '"';
    let mut out: Vec<char> = Vec::new();
    let mut i: usize = 0;
    while i < cs.len()
        invariant
            i <= cs@.len(),
            mapped == cs@.map_values(|c: char| if c == ' ' { '-' } else { c }),
            pred == (|c: char| c != '"'),
            out@ == mapped.take(i as int).filter(pred),
        decreases cs@.len() - i,
    {
        proof {
            reveal(Seq::filter);
            assert(mapped.take(i + 1).drop_last() =~= mapped.take(i as int));
        }
        let c = cs[i];
        let d = if c == ' ' { '-' } else { c };
        proof { assert(mapped.take(i + 1).last() == d); }
        if d != '"' {
            out.push(d);
        }
        i = i + 1;
    }
    proof { assert(mapped.take(cs@.len() as int) =~= mapped); }
    out
}

/// The id `geode new` gives a project (see `spec_new_mod_id`).
pub fn new_mod_id(developer: &str, name: &str) -> (r: String)
    ensures
        r@ == spec_new_mod_id(developer@, name@),
{
    let mut out = id_part_of(developer);
    push_all(&mut out, &chars_of("."));
    let n = id_part_of(name);
    push_all(&mut out, &n);
    string_from_chars(&out)
}

/// One part of a project id made by the interactive project creator:
/// lower-cased, with spaces turned into `_`.
pub open spec fn underscored_part(s: Seq<char>) -> Seq<char> {
    lowercased(s).map_values(|c: char| if c == ' ' { '_' } else { c })
}

/// `underscored_part` of the text.
fn underscored_part_of(s: &str) -> (r: Vec<char>)
    ensures
        r@ == underscored_part(s@),
{
    let l = to_lowercase(s);
    let cs = chars_of(l.as_str());
    let mut out: Vec<char> = Vec::new();
    let mut i: usize = 0;
    while i < cs.len()
        invariant
            i <= cs@.len(),
            out@ == cs@.take(i as int).map_values(|c: char| if c == ' ' { '_' } else { c }),
        decreases cs@.len() - i,
    {
        let c = cs[i];
        out.push(if c == ' ' { '_' } else { c });
        i = i + 1;
        assert(out@ =~= cs@.take(i as int).map_values(|c: char| if c == ' ' { '_' } else { c }));
    }
    assert(cs@.take(cs@.len() as int) =~= cs@);
    out
}

/// The id the interactive project creator gives a mod:
/// `com.<developer>.<name>`, each part lower-cased with spaces turned into `_`.
pub fn com_mod_id(developer: &str, name: &str) -> (r: String)
    ensures
        r@ == "com."@ + underscored_part(developer@) + "."@ + underscored_part(name@),
{
    let mut out = chars_of("com.");
    push_all(&mut out, &underscored_part_of(developer));
    push_all(&mut out, &chars_of("."));
    push_all(&mut out, &underscored_part_of(name));
    string_from_chars(&out)
}


/// A text that ends with `p` has `p`'s characters at its end.
proof fn lemma_suffix_char(s: Seq<char>, p: Seq<char>, i: int)
    requires
        has_suffix(s, p),
        0 <= i < p.len(),
    ensures
        s[s.len() - p.len() + i] == p[i],
{
    assert(s.skip(s.len() - p.len())[i] == p[i]);
}

/// A text that ends with `p` ends with every ending of `p`.
proof fn lemma_suffix_trans(s: Seq<char>, p: Seq<char>, q: Seq<char>)
    requires
        has_suffix(s, p),
        has_suffix(p, q),
    ensures
        has_suffix(s, q),
{
    assert forall|i: int| 0 <= i < q.len() implies #[trigger] s.skip(s.len() - q.len())[i] == q[i] by {
        lemma_suffix_char(s, p, p.len() - q.len() + i);
        lemma_suffix_char(p, q, i);
    }
    assert(s.skip(s.len() - q.len()) =~= q);
}

/// A binary packed for an Android platform is named after the mod with that
/// platform's whole ending: `<id>.android32.so` or `<id>.android64.so`, not
/// the shorter `.so`.
pub proof fn lemma_android_binary_keeps_platform(file_name: Seq<char>, mod_id: Seq<char>)
    ensures
        has_suffix(file_name, ".android32.so"@) ==> spec_packaged_binary_name(file_name, mod_id) == mod_id + ".android32.so"@,
        has_suffix(file_name, ".android64.so"@) ==> spec_packaged_binary_name(file_name, mod_id) == mod_id + ".android64.so"@,
{
    reveal_strlit(".ios.dylib");
    reveal_strlit(".dylib");
    reveal_strlit(".dll");
    reveal_strlit(".lib");
    reveal_strlit(".android32.so");
    reveal_strlit(".android64.so");
    reveal_strlit(".so");
    reveal_with_fuel(first_ending, 8);
    let n = file_name.len();
    if has_suffix(file_name, ".android32.so"@) || has_suffix(file_name, ".android64.so"@) {
        let e = if has_suffix(file_name, ".android32.so"@) { ".android32.so"@ } else { ".android64.so"@ };
        lemma_suffix_char(file_name, e, 12);
        assert(file_name[n - 1] == 'o');
        if has_suffix(file_name, ".ios.dylib"@) { lemma_suffix_char(file_name, ".ios.dylib"@, 9); }
        if has_suffix(file_name, ".dylib"@) { lemma_suffix_char(file_name, ".dylib"@, 5); }
        if has_suffix(file_name, ".dll"@) { lemma_suffix_char(file_name, ".dll"@, 3); }
        if has_suffix(file_name, ".lib"@) { lemma_suffix_char(file_name, ".lib"@, 3); }
        assert(!has_suffix(file_name, binary_endings()[0]));
        assert(!has_suffix(file_name, binary_endings()[1]));
        assert(!has_suffix(file_name, binary_endings()[2]));
        assert(!has_suffix(file_name, binary_endings()[3]));
        lemma_suffix_char(file_name, e, 9);
        if e == ".android64.so"@ {
            if has_suffix(file_name, ".android32.so"@) {
                lemma_suffix_char(file_name, ".android32.so"@, 9);
                assert(false);
            }
            assert(first_ending(file_name, 5) is None);
            assert(first_ending(file_name, 6) == Some(5int));
            lemma_first_ending_stays(file_name, 6, 7);
        } else {
            assert(first_ending(file_name, 5) == Some(4int));
            lemma_first_ending_stays(file_name, 5, 7);
            if has_suffix(file_name, ".android64.so"@) {
                lemma_suffix_char(file_name, ".android64.so"@, 9);
                assert(false);
            }
        }
    }
}

/// An iOS library is packed as `<id>.ios.dylib`, and any other `.dylib` as
/// `<id>.dylib`; a `.so` that is for neither Android platform as `<id>.so`;
/// `.dll` and `.lib` files as `<id>.dll` and `<id>.lib`; a file with none of
/// these endings keeps its name.
pub proof fn lemma_binary_endings_kept(file_name: Seq<char>, mod_id: Seq<char>)
    ensures
        has_suffix(file_name, ".ios.dylib"@) ==> spec_packaged_binary_name(file_name, mod_id) == mod_id + ".ios.dylib"@,
        has_suffix(file_name, ".dylib"@) && !has_suffix(file_name, ".ios.dylib"@)
            ==> spec_packaged_binary_name(file_name, mod_id) == mod_id + ".dylib"@,
        has_suffix(file_name, ".dll"@) ==> spec_packaged_binary_name(file_name, mod_id) == mod_id + ".dll"@,
        has_suffix(file_name, ".lib"@) ==> spec_packaged_binary_name(file_name, mod_id) == mod_id + ".lib"@,
        has_suffix(file_name, ".so"@) && !has_suffix(file_name, ".android32.so"@) && !has_suffix(file_name, ".android64.so"@)
            ==> spec_packaged_binary_name(file_name, mod_id) == mod_id + ".so"@,
        !has_suffix(file_name, ".dylib"@) && !has_suffix(file_name, ".dll"@) && !has_suffix(file_name, ".lib"@)
            && !has_suffix(file_name, ".so"@) ==> spec_packaged_binary_name(file_name, mod_id) == file_name,
{
    reveal_strlit(".ios.dylib");
    reveal_strlit(".dylib");
    reveal_strlit(".dll");
    reveal_strlit(".lib");
    reveal_strlit(".android32.so");
    reveal_strlit(".android64.so");
    reveal_strlit(".so");
    reveal_with_fuel(first_ending, 8);
    let n = file_name.len();
    let ends = binary_endings();
    // The last two characters tell the endings apart, except `.ios.dylib`
    // from `.dylib` and the `.so` family.
    if n >= 1 {
        if has_suffix(file_name, ".ios.dylib"@) { lemma_suffix_char(file_name, ".ios.dylib"@, 9); lemma_suffix_char(file_name, ".ios.dylib"@, 8); }
        if has_suffix(file_name, ".dylib"@) { lemma_suffix_char(file_name, ".dylib"@, 5); lemma_suffix_char(file_name, ".dylib"@, 4); }
        if has_suffix(file_name, ".dll"@) { lemma_suffix_char(file_name, ".dll"@, 3); lemma_suffix_char(file_name, ".dll"@, 2); }
        if has_suffix(file_name, ".lib"@) { lemma_suffix_char(file_name, ".lib"@, 3); lemma_suffix_char(file_name, ".lib"@, 2); }
        if has_suffix(file_name, ".android32.so"@) { lemma_suffix_char(file_name, ".android32.so"@, 12); }
        if has_suffix(file_name, ".android64.so"@) { lemma_suffix_char(file_name, ".android64.so"@, 12); }
        if has_suffix(file_name, ".so"@) { lemma_suffix_char(file_name, ".so"@, 2); lemma_suffix_char(file_name, ".so"@, 1); }
    }
    if has_suffix(file_name, ".lib"@) {
        lemma_suffix_char(file_name, ".lib"@, 0);
        if has_suffix(file_name, ".dylib"@) { lemma_suffix_char(file_name, ".dylib"@, 2); }
        if has_suffix(file_name, ".ios.dylib"@) { lemma_suffix_char(file_name, ".ios.dylib"@, 6); }
    }
    if has_suffix(file_name, ".ios.dylib"@) {
        assert(".ios.dylib"@.skip(4) =~= ".dylib"@);
        lemma_suffix_trans(file_name, ".ios.dylib"@, ".dylib"@);
    }
    if has_suffix(file_name, ".android32.so"@) {
        assert(".android32.so"@.skip(10) =~= ".so"@);
        lemma_suffix_trans(file_name, ".android32.so"@, ".so"@);
    }
    if has_suffix(file_name, ".android64.so"@) {
        assert(".android64.so"@.skip(10) =~= ".so"@);
        lemma_suffix_trans(file_name, ".android64.so"@, ".so"@);
    }
    if has_suffix(file_name, ".ios.dylib"@) {
        assert(first_ending(file_name, 1) == Some(0int));
        lemma_first_ending_stays(file_name, 1, 7);
    } else if has_suffix(file_name, ".dylib"@) {
        assert(first_ending(file_name, 2) == Some(1int));
        lemma_first_ending_stays(file_name, 2, 7);
    } else if has_suffix(file_name, ".dll"@) {
        assert(first_ending(file_name, 3) == Some(2int));
        lemma_first_ending_stays(file_name, 3, 7);
    } else if has_suffix(file_name, ".lib"@) {
        assert(first_ending(file_name, 4) == Some(3int));
        lemma_first_ending_stays(file_name, 4, 7);
    } else if has_suffix(file_name, ".so"@) && !has_suffix(file_name, ".android32.so"@) && !has_suffix(file_name, ".android64.so"@) {
        assert(first_ending(file_name, 6) is None);
        assert(first_ending(file_name, 7) == Some(6int));
    } else if !has_suffix(file_name, ".so"@) {
        assert(first_ending(file_name, 7) is None);
    }
}

} // verus!
