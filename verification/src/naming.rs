//! Names derived from user input: sprite frame names, sheet names, project
//! names, yes/no answers and index URLs.

use vstd::prelude::*;
use crate::text::{chars_of, string_from_chars, push_all, ends_with_chars, has_suffix};

verus! {

/// The frame name with a resolution suffix (`-uhd` or `-hd`) replaced by
/// `suffix`, followed by `.png`.
pub open spec fn spec_update_suffix(name: Seq<char>, suffix: Seq<char>) -> Seq<char> {
    if has_suffix(name, "-uhd"@) {
        name.take(name.len() - 4) + suffix + ".png"@
    } else if has_suffix(name, "-hd"@) {
        name.take(name.len() - 3) + suffix + ".png"@
    } else {
        name + suffix + ".png"@
    }
}

/// Replaces a trailing `-uhd` or `-hd` of a frame name with `suffix` and
/// appends `.png`; tells whether a resolution suffix was removed.
pub fn update_suffix(name: &mut String, suffix: &str) -> (removed: bool)
    ensures
        final(name)@ == spec_update_suffix(old(name)@, suffix@),
        removed == (has_suffix(old(name)@, "-uhd"@) || has_suffix(old(name)@, "-hd"@)),
{
    let cs = chars_of(name.as_str());
    let sfx = chars_of(suffix);
    let uhd = chars_of("-uhd");
    let hd = chars_of("-hd");
    let png = chars_of(".png");
    let keep: usize;
    let removed: bool;
    if ends_with_chars(&cs, &uhd) {
        proof { reveal_strlit("-uhd"); }
        keep = cs.len() - 4;
        removed = true;
    } else if ends_with_chars(&cs, &hd) {
        proof { reveal_strlit("-hd"); }
        keep = cs.len() - 3;
        removed = true;
    } else {
        keep = cs.len();
        removed = false;
    }
    let mut out: Vec<char> = Vec::new();
    let mut i: usize = 0;
    while i < keep
        invariant
            keep <= cs.len(),
            i <= keep,
            out@ == cs@.take(i as int),
        decreases keep - i,
    {
        out.push(cs[i]);
        i = i + 1;
        assert(out@ =~= cs@.take(i as int));
    }
    push_all(&mut out, &sfx);
    push_all(&mut out, &png);
    proof {
        reveal_strlit("-uhd");
        reveal_strlit("-hd");
        if !removed {
            assert(cs@.take(keep as int) =~= cs@);
        }
    }
    *name = string_from_chars(&out);
    removed
}

/// Base name of a packed sprite sheet: the given name or `spritesheet`,
/// followed by the resolution suffix.
pub open spec fn spec_sheet_name(name: Option<Seq<char>>, suffix: Seq<char>) -> Seq<char> {
    match name {
        Some(n) => n + suffix,
        None => "spritesheet"@ + suffix,
    }
}

/// The file name that a sheet packed with `suffix` gets.
pub fn sheet_name(name: &Option<String>, suffix: &str) -> (r: String)
    ensures
        r@ == spec_sheet_name(
            match name {
                Some(n) => Some(n@),
                None => None,
            },
            suffix@,
        ),
{
    let mut out = match name {
        Some(n) => chars_of(n.as_str()),
        None => chars_of("spritesheet"),
    };
    let sfx = chars_of(suffix);
    push_all(&mut out, &sfx);
    string_from_chars(&out)
}

/// The outcome of packing sprites into sheets.
pub struct PackResult {
    pub suffix_removals: u32,
    pub created_files: Vec<String>,
}

impl PackResult {
    /// Adds the files that `other` created to this result.
    pub fn merge(&mut self, other: &PackResult)
        ensures
            final(self).created_files@ == old(self).created_files@ + other.created_files@,
            final(self).suffix_removals == old(self).suffix_removals,
    {
        let mut i: usize = 0;
        let ghost start = self.created_files@;
        while i < other.created_files.len()
            invariant
                i <= other.created_files.len(),
                self.created_files@ == start + other.created_files@.take(i as int),
                self.suffix_removals == old(self).suffix_removals,
                start == old(self).created_files@,
            decreases other.created_files.len() - i,
        {
            self.created_files.push(other.created_files[i].clone());
            i = i + 1;
            assert(self.created_files@ =~= start + other.created_files@.take(i as int));
        }
        assert(other.created_files@.take(i as int) =~= other.created_files@);
    }
}

/// ASCII letters and digits.
pub open spec fn is_ascii_alnum(c: char) -> bool {
    ('a' <= c <= 'z') || ('A' <= c <= 'Z') || ('0' <= c <= '9')
}

/// `s` with the leading characters that are not ASCII letters or digits removed.
pub open spec fn trim_start_non_alnum(s: Seq<char>) -> Seq<char>
    decreases s.len(),
{
    if s.len() > 0 && !is_ascii_alnum(s[0]) {
        trim_start_non_alnum(s.skip(1))
    } else {
        s
    }
}

/// `s` with the trailing characters that are not ASCII letters or digits removed.
pub open spec fn trim_end_non_alnum(s: Seq<char>) -> Seq<char>
    decreases s.len(),
{
    if s.len() > 0 && !is_ascii_alnum(s.last()) {
        trim_end_non_alnum(s.drop_last())
    } else {
        s
    }
}

/// The character a project name keeps in its escaped form.
pub open spec fn sanitize_char(c: char) -> char {
    if is_ascii_alnum(c) || c == '_' || c == '-' || c == '.' { c } else { '_' }
}

/// The escaped project name: outer non-alphanumeric characters trimmed,
/// every remaining character outside `[A-Za-z0-9_.-]` turned into `_`, and
/// `mod` when nothing is left.
pub open spec fn spec_sanitize_project_name(s: Seq<char>) -> Seq<char> {
    let t = trim_end_non_alnum(trim_start_non_alnum(s));
    if t.len() == 0 {
        "mod"@
    } else {
        t.map_values(|c: char| sanitize_char(c))
    }
}

fn is_ascii_alnum_exec(c: char) -> (r: bool)
    ensures
        r == is_ascii_alnum(c),
{
    ('a' <= c && c <= 'z') || ('A' <= c && c <= 'Z') || ('0' <= c && c <= '9')
}

proof fn lemma_trim_start(s: Seq<char>, i: int)
    requires
        0 <= i <= s.len(),
        forall|j: int| 0 <= j < i ==> !is_ascii_alnum(#[trigger] s[j]),
        i == s.len() || is_ascii_alnum(s[i]),
    ensures
        trim_start_non_alnum(s) == s.skip(i),
    decreases i,
{
    if i > 0 {
        assert forall|j: int| 0 <= j < i - 1 implies !is_ascii_alnum(#[trigger] s.skip(1)[j]) by {
            assert(s.skip(1)[j] == s[j + 1]);
        }
        if i < s.len() {
            assert(s.skip(1)[i - 1] == s[i]);
        }
        lemma_trim_start(s.skip(1), i - 1);
        assert(s.skip(1).skip(i - 1) =~= s.skip(i));
    } else {
        assert(s.skip(0) =~= s);
    }
}

proof fn lemma_trim_end(s: Seq<char>, e: int)
    requires
        0 <= e <= s.len(),
        forall|j: int| e <= j < s.len() ==> !is_ascii_alnum(#[trigger] s[j]),
        e == 0 || is_ascii_alnum(s[e - 1]),
    ensures
        trim_end_non_alnum(s) == s.take(e),
    decreases s.len() - e,
{
    if e < s.len() {
        let t = s.drop_last();
        assert forall|j: int| e <= j < t.len() implies !is_ascii_alnum(#[trigger] t[j]) by {
            assert(t[j] == s[j]);
        }
        if e > 0 {
            assert(t[e - 1] == s[e - 1]);
        }
        lemma_trim_end(t, e);
        assert(t.take(e) =~= s.take(e));
    } else {
        assert(s.take(e) =~= s);
    }
}

/// The project name escaped for use in identifiers and file names.
pub fn sanitize_project_name(name: &str) -> (r: String)
    ensures
        r@ == spec_sanitize_project_name(name@),
{
    let cs = chars_of(name);
    let n = cs.len();
    let mut start: usize = 0;
    while start < n && !is_ascii_alnum_exec(cs[start])
        invariant
            n == cs.len(),
            start <= n,
            forall|j: int| 0 <= j < start ==> !is_ascii_alnum(#[trigger] cs@[j]),
        decreases n - start,
    {
        start = start + 1;
    }
    proof { lemma_trim_start(cs@, start as int); }
    let ghost s1 = cs@.skip(start as int);
    let mut end: usize = n;
    while end > start && !is_ascii_alnum_exec(cs[end - 1])
        invariant
            n == cs.len(),
            start <= end <= n,
            forall|j: int| end <= j < n ==> !is_ascii_alnum(#[trigger] cs@[j]),
        decreases end - start,
    {
        end = end - 1;
    }
    proof {
        assert forall|j: int| (end - start) <= j < s1.len() implies !is_ascii_alnum(#[trigger] s1[j]) by {
            assert(s1[j] == cs@[start + j]);
        }
        if end > start {
            assert(s1[end - start - 1] == cs@[end - 1]);
        }
        lemma_trim_end(s1, (end - start) as int);
    }
    let ghost t = s1.take((end - start) as int);
    if start == end {
        proof { reveal_strlit("mod"); }
        return "mod".to_string();
    }
    let mut out: Vec<char> = Vec::new();
    let mut i = start;
    while i < end
        invariant
            start <= i <= end <= n,
            n == cs.len(),
            t == cs@.subrange(start as int, end as int),
            out@ == t.take(i - start).map_values(|c: char| sanitize_char(c)),
        decreases end - i,
    {
        let c = cs[i];
        let d = if is_ascii_alnum_exec(c) || c == '_' || c == '-' || c == '.' { c } else { '_' };
        out.push(d);
        i = i + 1;
        assert(out@ =~= t.take(i - start).map_values(|c: char| sanitize_char(c)));
    }
    assert(t.take(end - start) =~= t);
    string_from_chars(&out)
}

/// ASCII lower-casing of one character.
pub open spec fn ascii_lower(c: char) -> char {
    if 'A' <= c <= 'Z' { ((c as u32) + 32) as char } else { c }
}

/// What a yes/no answer means: `true`, `yes`, `y` and `false`, `no`, `n`
/// in any ASCII case; anything else means nothing.
pub open spec fn spec_get_bool(s: Seq<char>) -> Option<bool> {
    let l = s.map_values(|c: char| ascii_lower(c));
    if l == "true"@ || l == "yes"@ || l == "y"@ {
        Some(true)
    } else if l == "false"@ || l == "no"@ || l == "n"@ {
        Some(false)
    } else {
        None
    }
}

fn to_ascii_lowercase_chars(s: &str) -> (r: Vec<char>)
    ensures
        r@ == s@.map_values(|c: char| ascii_lower(c)),
{
    let cs = chars_of(s);
    let mut out: Vec<char> = Vec::new();
    let mut i: usize = 0;
    while i < cs.len()
        invariant
            i <= cs.len(),
            out@ == cs@.take(i as int).map_values(|c: char| ascii_lower(c)),
        decreases cs.len() - i,
    {
        let c = cs[i];
        let d = if 'A' <= c && c <= 'Z' { ((c as u32) + 32) as u8 as char } else { c };
        proof {
            if 'A' <= c && c <= 'Z' {
                assert(d == ascii_lower(c));
            }
        }
        out.push(d);
        i = i + 1;
        assert(out@ =~= cs@.take(i as int).map_values(|c: char| ascii_lower(c)));
    }
    assert(cs@.take(cs.len() as int) =~= cs@);
    out
}

/// Reads a yes/no configuration value.
pub fn get_bool(value: &str) -> (r: Option<bool>)
    ensures
        r == spec_get_bool(value@),
{
    let lower = to_ascii_lowercase_chars(value);
    let t = chars_of("true");
    let yes = chars_of("yes");
    let y = chars_of("y");
    let f = chars_of("false");
    let no = chars_of("no");
    let n = chars_of("n");
    if crate::text::chars_equal(&lower, &t) || crate::text::chars_equal(&lower, &yes)
        || crate::text::chars_equal(&lower, &y) {
        Some(true)
    } else if crate::text::chars_equal(&lower, &f) || crate::text::chars_equal(&lower, &no)
        || crate::text::chars_equal(&lower, &n) {
        Some(false)
    } else {
        None
    }
}

/// `s` without its trailing `/` characters.
pub open spec fn trim_end_slashes(s: Seq<char>) -> Seq<char>
    decreases s.len(),
{
    if s.len() > 0 && s.last() == '/' { trim_end_slashes(s.drop_last()) } else { s }
}

/// `s` without its leading `/` characters.
pub open spec fn trim_start_slashes(s: Seq<char>) -> Seq<char>
    decreases s.len(),
{
    if s.len() > 0 && s[0] == '/' { trim_start_slashes(s.skip(1)) } else { s }
}

/// The index base URL and the endpoint path joined by exactly one `/`.
pub open spec fn spec_index_url(base: Seq<char>, path: Seq<char>) -> Seq<char> {
    trim_end_slashes(base) + seq!['/'] + trim_start_slashes(path)
}

proof fn lemma_trim_start_slashes(s: Seq<char>, i: int)
    requires
        0 <= i <= s.len(),
        forall|j: int| 0 <= j < i ==> #[trigger] s[j] == '/',
        i == s.len() || s[i] != '/',
    ensures
        trim_start_slashes(s) == s.skip(i),
    decreases i,
{
    if i > 0 {
        assert forall|j: int| 0 <= j < i - 1 implies #[trigger] s.skip(1)[j] == '/' by {
            assert(s.skip(1)[j] == s[j + 1]);
        }
        if i < s.len() {
            assert(s.skip(1)[i - 1] == s[i]);
        }
        lemma_trim_start_slashes(s.skip(1), i - 1);
        assert(s.skip(1).skip(i - 1) =~= s.skip(i));
    } else {
        assert(s.skip(0) =~= s);
    }
}

proof fn lemma_trim_end_slashes(s: Seq<char>, e: int)
    requires
        0 <= e <= s.len(),
        forall|j: int| e <= j < s.len() ==> #[trigger] s[j] == '/',
        e == 0 || s[e - 1] != '/',
    ensures
        trim_end_slashes(s) == s.take(e),
    decreases s.len() - e,
{
    if e < s.len() {
        let t = s.drop_last();
        assert forall|j: int| e <= j < t.len() implies #[trigger] t[j] == '/' by {
            assert(t[j] == s[j]);
        }
        if e > 0 {
            assert(t[e - 1] == s[e - 1]);
        }
        lemma_trim_end_slashes(t, e);
        assert(t.take(e) =~= s.take(e));
    } else {
        assert(s.take(e) =~= s);
    }
}

/// The URL of an index endpoint: the configured index URL without trailing
/// slashes, one `/`, and the path without leading slashes.
pub fn get_index_url(path: &str, index_url: &str) -> (r: String)
    ensures
        r@ == spec_index_url(index_url@, path@),
{
    let base = chars_of(index_url);
    let p = chars_of(path);
    let mut end = base.len();
    while end > 0 && base[end - 1] == '/'
        invariant
            end <= base.len(),
            forall|j: int| end <= j < base.len() ==> #[trigger] base@[j] == '/',
        decreases end,
    {
        end = end - 1;
    }
    proof { lemma_trim_end_slashes(base@, end as int); }
    let mut start: usize = 0;
    while start < p.len() && p[start] == '/'
        invariant
            start <= p.len(),
            forall|j: int| 0 <= j < start ==> #[trigger] p@[j] == '/',
        decreases p.len() - start,
    {
        start = start + 1;
    }
    proof { lemma_trim_start_slashes(p@, start as int); }
    let mut out: Vec<char> = Vec::new();
    let mut i: usize = 0;
    while i < end
        invariant
            end <= base.len(),
            i <= end,
            out@ == base@.take(i as int),
        decreases end - i,
    {
        out.push(base[i]);
        i = i + 1;
        assert(out@ =~= base@.take(i as int));
    }
    out.push('/');
    let ghost mid = out@;
    let mut k = start;
    while k < p.len()
        invariant
            start <= k <= p.len(),
            out@ == mid + p@.subrange(start as int, k as int),
        decreases p.len() - k,
    {
        out.push(p[k]);
        k = k + 1;
        assert(out@ =~= mid + p@.subrange(start as int, k as int));
    }
    assert(p@.subrange(start as int, p.len() as int) =~= p@.skip(start as int));
    string_from_chars(&out)
}

/// Extra slashes at the join do not change an endpoint's URL: a configured
/// URL ending in `/` and a path starting with `/` give the same address.
pub proof fn lemma_index_url_slashes(base: Seq<char>, path: Seq<char>)
    ensures
        spec_index_url(base.push('/'), path) == spec_index_url(base, path),
        spec_index_url(base, seq!['/'] + path) == spec_index_url(base, path),
{
    assert(base.push('/').drop_last() =~= base);
    assert((seq!['/'] + path).skip(1) =~= path);
}

/// What is left after trimming the start begins with a letter or digit.
proof fn lemma_trim_start_alnum(s: Seq<char>)
    ensures
        trim_start_non_alnum(s).len() > 0 ==> is_ascii_alnum(trim_start_non_alnum(s)[0]),
    decreases s.len(),
{
    if s.len() > 0 && !is_ascii_alnum(s[0]) {
        lemma_trim_start_alnum(s.skip(1));
    }
}

/// Trimming the end keeps a prefix, which ends in a letter or digit.
proof fn lemma_trim_end_prefix(s: Seq<char>)
    ensures
        trim_end_non_alnum(s).len() <= s.len(),
        trim_end_non_alnum(s) == s.take(trim_end_non_alnum(s).len() as int),
        trim_end_non_alnum(s).len() > 0 ==> is_ascii_alnum(trim_end_non_alnum(s).last()),
    decreases s.len(),
{
    if s.len() > 0 && !is_ascii_alnum(s.last()) {
        let d = s.drop_last();
        lemma_trim_end_prefix(d);
        let k = trim_end_non_alnum(d).len() as int;
        assert(d.take(k) =~= s.take(k));
    } else {
        assert(s.take(s.len() as int) =~= s);
    }
}

/// Escaping a project name that is already escaped changes nothing.
pub proof fn lemma_sanitize_idempotent(name: Seq<char>)
    ensures
        spec_sanitize_project_name(spec_sanitize_project_name(name)) == spec_sanitize_project_name(name),
{
    let a = trim_start_non_alnum(name);
    let t = trim_end_non_alnum(a);
    lemma_trim_start_alnum(name);
    lemma_trim_end_prefix(a);
    let r = spec_sanitize_project_name(name);
    if t.len() == 0 {
        reveal_strlit("mod");
        assert(r == "mod"@);
        assert(is_ascii_alnum(r[0]) && is_ascii_alnum(r.last()));
    } else {
        assert(t[0] == a[0]);
        assert(r == t.map_values(|c: char| sanitize_char(c)));
        assert(r[0] == sanitize_char(t[0]));
        assert(r.last() == sanitize_char(t.last()));
    }
    assert(r.len() > 0);
    assert(trim_start_non_alnum(r) == r);
    assert(trim_end_non_alnum(r) == r);
    assert(r.map_values(|c: char| sanitize_char(c)) =~= r);
}

} // verus!
