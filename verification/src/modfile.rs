//! Parts of a mod's `mod.json`: who develops it, which headers it exports,
//! which game versions it targets, and how version requirements are written
//! for Geode.

use vstd::prelude::*;
use crate::text::{chars_of, push_all, string_from_chars};

verus! {

/// The developers of a mod: one or more names.
pub struct Developers {
    list: Vec<String>,
}

/// Why the developer fields of a `mod.json` were refused.
#[derive(PartialEq, Eq, Structural, Clone, Copy, Debug)]
pub enum DevelopersError {
    /// Both `developer` and `developers` are given.
    Both,
    /// Neither is given.
    Missing,
    /// `developers` is an empty list.
    Empty,
}

impl Developers {
    #[verifier::type_invariant]
    spec fn nonempty(self) -> bool {
        self.list@.len() > 0
    }

    /// The names, in order.
    pub closed spec fn names(&self) -> Seq<String> {
        self.list@
    }

    /// The developers from the `developer` field (one name) or the
    /// `developers` field (a non-empty list); exactly one must be given.
    pub fn from_fields(developer: Option<String>, developers: Option<Vec<String>>) -> (r: Result<Developers, DevelopersError>)
        ensures
            match (developer, developers) {
                (Some(_), Some(_)) => r == Err::<Developers, DevelopersError>(DevelopersError::Both),
                (None, None) => r == Err::<Developers, DevelopersError>(DevelopersError::Missing),
                (Some(d), None) => r is Ok && r->Ok_0.names() == seq![d],
                (None, Some(l)) => if l@.len() == 0 {
                    r == Err::<Developers, DevelopersError>(DevelopersError::Empty)
                } else {
                    r is Ok && r->Ok_0.names() == l@
                },
            },
    {
        match (developer, developers) {
            (Some(_), Some(_)) => Err(DevelopersError::Both),
            (None, None) => Err(DevelopersError::Missing),
            (Some(d), None) => {
                let mut list: Vec<String> = Vec::new();
                list.push(d);
                proof { assert(list@ =~= seq![d]); }
                Ok(Developers { list })
            },
            (None, Some(l)) => {
                if l.len() == 0 {
                    Err(DevelopersError::Empty)
                } else {
                    Ok(Developers { list: l })
                }
            },
        }
    }

    /// The names, in order; there is at least one.
    pub fn list(&self) -> (r: &Vec<String>)
        ensures
            r@ == self.names(),
            r@.len() > 0,
    {
        proof { use_type_invariant(self); }
        &self.list
    }
}

/// The headers a mod exports to mods that depend on it.
pub struct ModApi {
    pub headers: Vec<String>,
}

/// The game version a mod targets on each platform.
pub struct DetailedGDVersion {
    pub android: Option<String>,
    pub win: Option<String>,
    pub mac: Option<String>,
    pub ios: Option<String>,
}

/// The game version a mod targets: one for all platforms, or one per platform.
pub enum GDVersion {
    Simple(String),
    Detailed(DetailedGDVersion),
}

/// `semver::VersionReq`'s text: the requirement parsed and printed back.
pub uninterp spec fn semver_req_display(text: Seq<char>) -> Seq<char>;

/// `VersionReq::parse` followed by `to_string`.
#[verifier::external_body]
fn requirement_display(text: &str) -> (r: String)
    requires
        crate::deps::is_semver_req(text@),
    ensures
        r@ == semver_req_display(text@),
{
    semver::VersionReq::parse(text).unwrap().to_string()
}

/// The comparators of a requirement as `semver` prints them, in order:
/// `VersionReq::parse`, then each comparator's `to_string`.
pub uninterp spec fn semver_comparator_texts(text: Seq<char>) -> Seq<Seq<char>>;

/// `VersionReq::parse`, each comparator then printed.
#[verifier::external_body]
fn comparator_texts(text: &str) -> (r: Vec<String>)
    requires
        crate::deps::is_semver_req(text@),
    ensures
        r@.map_values(|c: String| c@) == semver_comparator_texts(text@),
{
    semver::VersionReq::parse(text).unwrap().comparators.iter().map(|c| c.to_string()).collect()
}

/// A requirement's text with every `v` taken out (Geode accepts `v1.2.3`).
pub open spec fn spec_without_v(text: Seq<char>) -> Seq<char> {
    text.filter(|c: char| c != 'v')
}

/// A comparator as Geode reads it: `semver`'s default `^` (compatible
/// with) becomes `>=` (at least), unless the requirement began with `=`.
pub open spec fn geode_comparator(c: Seq<char>, exact: bool) -> Seq<char> {
    if !exact && c.len() > 0 && c[0] == '^' {
        seq!['>', '='] + c.skip(1)
    } else {
        c
    }
}

/// Comparators joined by `, `, as `semver` writes a requirement; `*` when
/// there are none.
pub open spec fn comparators_text(cs: Seq<Seq<char>>) -> Seq<char> {
    if cs.len() == 0 { seq!['*'] } else { joined_comparators(cs) }
}

/// Comparators joined by `, `.
pub open spec fn joined_comparators(cs: Seq<Seq<char>>) -> Seq<char>
    decreases cs.len(),
{
    if cs.len() <= 1 {
        if cs.len() == 1 { cs[0] } else { Seq::empty() }
    } else {
        joined_comparators(cs.drop_last()) + seq![',', ' '] + cs.last()
    }
}

/// The requirement Geode means by `text`: the `v`s taken out, then each
/// comparator as `geode_comparator` reads it.
pub open spec fn spec_comparable_requirement(text: Seq<char>) -> Seq<char> {
    let t = spec_without_v(text);
    let exact = t.len() > 0 && t[0] == '=';
    comparators_text(semver_comparator_texts(t).map_values(|c: Seq<char>| geode_comparator(c, exact)))
}

/// The text with every `v` taken out (see `spec_without_v`).
pub fn without_v(text: &str) -> (r: String)
    ensures
        r@ == spec_without_v(text@),
{
    let cs = chars_of(text);
    let mut out: Vec<char> = Vec::new();
    let mut i: usize = 0;
    while i < cs.len()
        invariant
            i <= cs@.len(),
            cs@ == text@,
            out@ == cs@.take(i as int).filter(|c: char| c != 'v'),
        decreases cs@.len() - i,
    {
        proof {
            reveal(Seq::filter);
            assert(cs@.take(i + 1).drop_last() =~= cs@.take(i as int));
            assert(cs@.take(i + 1).last() == cs@[i as int]);
        }
        if cs[i] != 'v' {
            out.push(cs[i]);
        }
        i = i + 1;
    }
    proof {
        assert(cs@.take(cs@.len() as int) =~= cs@);
    }
    string_from_chars(&out)
}

/// The requirement Geode means by `text` (see `spec_comparable_requirement`),
/// when `semver` accepts the text without its `v`s.
pub fn comparable_requirement(text: &str) -> (r: Option<String>)
    ensures
        r is Some <==> crate::deps::is_semver_req(spec_without_v(text@)),
        r matches Some(t) ==> t@ == spec_comparable_requirement(text@),
{
    let t = without_v(text);
    if !crate::deps::requirement_is_valid(t.as_str()) {
        return None;
    }
    let tc = chars_of(t.as_str());
    let exact = tc.len() > 0 && tc[0] == '=';
    let cs = comparator_texts(t.as_str());
    let ghost want = semver_comparator_texts(t@).map_values(|c: Seq<char>| geode_comparator(c, exact));
    if cs.len() == 0 {
        let r = string_from_chars(&vec!['*']);
        proof {
            assert(want.len() == 0);
            assert(r@ =~= spec_comparable_requirement(text@));
        }
        return Some(r);
    }
    let mut out: Vec<char> = Vec::new();
    let mut i: usize = 0;
    while i < cs.len()
        invariant
            i <= cs@.len(),
            0 < cs@.len(),
            want.len() == cs@.len(),
            forall|k: int| 0 <= k < cs@.len() ==> #[trigger] want[k] == geode_comparator(cs@[k]@, exact),
            i > 0 ==> out@ == joined_comparators(want.take(i as int)),
            i == 0 ==> out@.len() == 0,
        decreases cs@.len() - i,
    {
        let ghost before = out@;
        if i > 0 {
            out.push(',');
            out.push(' ');
        }
        let c = chars_of(cs[i].as_str());
        if !exact && c.len() > 0 && c[0] == '^' {
            out.push('>');
            out.push('=');
            let mut j: usize = 1;
            let ghost mid = out@;
            while j < c.len()
                invariant
                    1 <= j <= c@.len(),
                    out@ == mid + c@.subrange(1, j as int),
                decreases c@.len() - j,
            {
                out.push(c[j]);
                j = j + 1;
                proof { assert(out@ =~= mid + c@.subrange(1, j as int)); }
            }
            proof { assert(c@.subrange(1, c@.len() as int) =~= c@.skip(1)); }
        } else {
            push_all(&mut out, &c);
        }
        proof {
            let t2 = want.take(i + 1);
            assert(t2.last() == want[i as int]);
            assert(want[i as int] == geode_comparator(cs@[i as int]@, exact));
            if i == 0 {
                assert(t2.len() == 1);
                assert(out@ =~= joined_comparators(t2));
            } else {
                assert(t2.drop_last() =~= want.take(i as int));
                assert(out@ =~= before + seq![',', ' '] + want[i as int]);
                assert(out@ =~= joined_comparators(t2));
            }
        }
        i = i + 1;
    }
    proof {
        assert(want.take(cs@.len() as int) =~= want);
    }
    Some(string_from_chars(&out))
}

/// A version requirement that `semver` accepts, kept as its text.
pub struct Requirement {
    text: String,
}

impl Requirement {
    #[verifier::type_invariant]
    spec fn parses(self) -> bool {
        crate::deps::is_semver_req(self.text@)
    }

    /// The requirement's text.
    pub closed spec fn text(&self) -> Seq<char> {
        self.text@
    }

    /// The requirement written as `text`, if `semver` accepts it.
    pub fn parse(text: String) -> (r: Option<Requirement>)
        ensures
            r is Some <==> crate::deps::is_semver_req(text@),
            r matches Some(q) ==> q.text() == text@,
    {
        if crate::deps::requirement_is_valid(text.as_str()) {
            Some(Requirement { text })
        } else {
            None
        }
    }
}

/// A requirement in the notation Geode reads.
pub trait ToGeodeString {
    fn to_geode_string(&self) -> String;
}

/// Geode writes an exact version with `=` where `semver` writes `^`.
pub open spec fn geode_notation(s: Seq<char>) -> Seq<char> {
    s.map_values(|c: char| if c == '^' { '=' } else { c })
}

impl ToGeodeString for Requirement {
    /// `semver`'s text of the requirement with each `^` turned into `=`.
    fn to_geode_string(&self) -> (r: String)
        ensures
            r@ == geode_notation(semver_req_display(self.text())),
    {
        proof { use_type_invariant(self); }
        let shown = requirement_display(self.text.as_str());
        let cs = crate::text::chars_of(shown.as_str());
        let mut out: Vec<char> = Vec::new();
        let mut i: usize = 0;
        while i < cs.len()
            invariant
                i <= cs@.len(),
                out@ == geode_notation(cs@.take(i as int)),
            decreases cs@.len() - i,
        {
            let c = cs[i];
            out.push(if c == '^' { '=' } else { c });
            i = i + 1;
            assert(out@ =~= geode_notation(cs@.take(i as int)));
        }
        assert(cs@.take(cs@.len() as int) =~= cs@);
        crate::text::string_from_chars(&out)
    }
}

} // verus!
