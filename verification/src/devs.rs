//! A developer's side of the mod index: their profile and mods as the index
//! reports them, how the CLI prints them, and what the answers in the
//! editing menus lead to.

use vstd::prelude::*;
use crate::text::{chars_of, string_from_chars, push_all, str_equals};
use crate::version::{int_to_dec, nat_digits, push_int_dec, push_nat_digits, parse_natural, parse_bounded};

verus! {

/// A version of one of the developer's mods.
pub struct SimpleDevModVersion {
    pub name: String,
    pub version: String,
    pub download_count: i32,
    pub validated: bool,
}

/// A developer of a mod.
pub struct ModDeveloper {
    pub id: i32,
    pub username: String,
    pub display_name: String,
    pub is_owner: bool,
}

/// One of the developer's mods.
pub struct SimpleDevMod {
    pub id: String,
    pub featured: bool,
    pub download_count: i32,
    pub versions: Vec<SimpleDevModVersion>,
    pub developers: Vec<ModDeveloper>,
}

/// The logged-in developer.
pub struct DeveloperProfile {
    pub id: i32,
    pub username: String,
    pub display_name: String,
    pub verified: bool,
    pub admin: bool,
}

/// `true` or `false`, as `bool` prints.
pub open spec fn bool_text(b: bool) -> Seq<char> {
    if b { "true"@ } else { "false"@ }
}

/// How a profile prints: one `Field: value` line each for the username,
/// display name, verified and admin flags.
pub open spec fn profile_text(p: DeveloperProfile) -> Seq<char> {
    "Username: "@ + p.username@ + "\n"@
        + "Display name: "@ + p.display_name@ + "\n"@
        + "Verified: "@ + bool_text(p.verified) + "\n"@
        + "Admin: "@ + bool_text(p.admin) + "\n"@
}

/// How a mod developer prints: the username, then the display name and the
/// owner flag as indented items.
pub open spec fn developer_text(d: ModDeveloper) -> Seq<char> {
    d.username@ + "\n"@
        + "   - Display name: "@ + d.display_name@ + "\n"@
        + "   - Owner: "@ + bool_text(d.is_owner) + "\n"@
}

/// How a mod version prints: the version, then its name, download count
/// and validation flag as indented items.
pub open spec fn version_entry_text(v: SimpleDevModVersion) -> Seq<char> {
    v.version@ + "\n"@
        + "   - Name: "@ + v.name@ + "\n"@
        + "   - Download count: "@ + int_to_dec(v.download_count as int) + "\n"@
        + "   - Validated: "@ + bool_text(v.validated) + "\n"@
}

/// Printed items as a numbered list: `  <n>. <item>` and a line break each.
pub open spec fn numbered(items: Seq<Seq<char>>) -> Seq<char>
    decreases items.len(),
{
    if items.len() == 0 {
        Seq::empty()
    } else {
        numbered(items.drop_last()) + "  "@ + nat_digits(items.len()) + ". "@ + items.last() + "\n"@
    }
}

/// How a mod prints: its id, featured flag and download count, then its
/// developers and versions as numbered lists.
pub open spec fn dev_mod_text(m: SimpleDevMod) -> Seq<char> {
    m.id@ + "\n"@
        + "- Featured: "@ + bool_text(m.featured) + "\n"@
        + "- Download count: "@ + int_to_dec(m.download_count as int) + "\n"@
        + "- Developers:\n"@ + numbered(m.developers@.map_values(|d: ModDeveloper| developer_text(d)))
        + "- Versions:\n"@ + numbered(m.versions@.map_values(|v: SimpleDevModVersion| version_entry_text(v)))
}

/// Appends the text of a `bool`.
fn push_bool(b: bool, out: &mut Vec<char>)
    ensures
        final(out)@ == old(out)@ + bool_text(b),
{
    proof {
        reveal_strlit("true");
        reveal_strlit("false");
    }
    if b {
        push_all(out, &chars_of("true"));
    } else {
        push_all(out, &chars_of("false"));
    }
}

/// Appends the characters of `s`.
fn push_str(out: &mut Vec<char>, s: &str)
    ensures
        final(out)@ == old(out)@ + s@,
{
    push_all(out, &chars_of(s));
}

impl DeveloperProfile {
    /// The profile as `geode index profile` prints it (see `profile_text`).
    pub fn describe(&self) -> (r: String)
        ensures
            r@ == profile_text(*self),
    {
        let mut out: Vec<char> = Vec::new();
        push_str(&mut out, "Username: ");
        push_str(&mut out, self.username.as_str());
        push_str(&mut out, "\n");
        push_str(&mut out, "Display name: ");
        push_str(&mut out, self.display_name.as_str());
        push_str(&mut out, "\n");
        push_str(&mut out, "Verified: ");
        push_bool(self.verified, &mut out);
        push_str(&mut out, "\n");
        push_str(&mut out, "Admin: ");
        push_bool(self.admin, &mut out);
        push_str(&mut out, "\n");
        proof { assert(out@ =~= profile_text(*self)); }
        string_from_chars(&out)
    }
}

/// Appends `developer_text(d)`.
fn push_developer(d: &ModDeveloper, out: &mut Vec<char>)
    ensures
        final(out)@ == old(out)@ + developer_text(*d),
{
    push_str(out, d.username.as_str());
    push_str(out, "\n");
    push_str(out, "   - Display name: ");
    push_str(out, d.display_name.as_str());
    push_str(out, "\n");
    push_str(out, "   - Owner: ");
    push_bool(d.is_owner, out);
    push_str(out, "\n");
    proof { assert(out@ =~= old(out)@ + developer_text(*d)); }
}

/// Appends `version_entry_text(v)`.
fn push_version(v: &SimpleDevModVersion, out: &mut Vec<char>)
    ensures
        final(out)@ == old(out)@ + version_entry_text(*v),
{
    push_str(out, v.version.as_str());
    push_str(out, "\n");
    push_str(out, "   - Name: ");
    push_str(out, v.name.as_str());
    push_str(out, "\n");
    push_str(out, "   - Download count: ");
    push_int_dec(v.download_count as i64, out);
    push_str(out, "\n");
    push_str(out, "   - Validated: ");
    push_bool(v.validated, out);
    push_str(out, "\n");
    proof { assert(out@ =~= old(out)@ + version_entry_text(*v)); }
}

impl ModDeveloper {
    /// The developer as the CLI prints it (see `developer_text`).
    pub fn describe(&self) -> (r: String)
        ensures
            r@ == developer_text(*self),
    {
        let mut out: Vec<char> = Vec::new();
        push_developer(self, &mut out);
        proof { assert(out@ =~= developer_text(*self)); }
        string_from_chars(&out)
    }
}

impl SimpleDevModVersion {
    /// The version as the CLI prints it (see `version_entry_text`).
    pub fn describe(&self) -> (r: String)
        ensures
            r@ == version_entry_text(*self),
    {
        let mut out: Vec<char> = Vec::new();
        push_version(self, &mut out);
        proof { assert(out@ =~= version_entry_text(*self)); }
        string_from_chars(&out)
    }
}

/// Appends the numbered list item `  <n>. ` for item number `n`.
fn push_number(n: usize, out: &mut Vec<char>)
    ensures
        final(out)@ == old(out)@ + "  "@ + nat_digits(n as nat) + ". "@,
{
    push_str(out, "  ");
    push_nat_digits(n as u64, out);
    push_str(out, ". ");
    proof { assert(out@ =~= old(out)@ + "  "@ + nat_digits(n as nat) + ". "@); }
}

impl SimpleDevMod {
    /// The mod as `geode index mods` prints it (see `dev_mod_text`).
    pub fn describe(&self) -> (r: String)
        ensures
            r@ == dev_mod_text(*self),
    {
        let mut out: Vec<char> = Vec::new();
        push_str(&mut out, self.id.as_str());
        push_str(&mut out, "\n");
        push_str(&mut out, "- Featured: ");
        push_bool(self.featured, &mut out);
        push_str(&mut out, "\n");
        push_str(&mut out, "- Download count: ");
        push_int_dec(self.download_count as i64, &mut out);
        push_str(&mut out, "\n");
        push_str(&mut out, "- Developers:\n");
        let ghost head = out@;
        let ghost ds = self.developers@.map_values(|d: ModDeveloper| developer_text(d));
        let mut i: usize = 0;
        while i < self.developers.len()
            invariant
                i <= self.developers@.len(),
                ds == self.developers@.map_values(|d: ModDeveloper| developer_text(d)),
                out@ == head + numbered(ds.take(i as int)),
            decreases self.developers@.len() - i,
        {
            push_number(i + 1, &mut out);
            push_developer(&self.developers[i], &mut out);
            push_str(&mut out, "\n");
            proof {
                let t = ds.take(i + 1);
                assert(t.drop_last() =~= ds.take(i as int));
                assert(t.last() == developer_text(self.developers@[i as int]));
                assert(out@ =~= head + numbered(t));
            }
            i = i + 1;
        }
        proof { assert(ds.take(self.developers@.len() as int) =~= ds); }
        push_str(&mut out, "- Versions:\n");
        let ghost mid = out@;
        let ghost vs = self.versions@.map_values(|v: SimpleDevModVersion| version_entry_text(v));
        let mut j: usize = 0;
        while j < self.versions.len()
            invariant
                j <= self.versions@.len(),
                vs == self.versions@.map_values(|v: SimpleDevModVersion| version_entry_text(v)),
                out@ == mid + numbered(vs.take(j as int)),
            decreases self.versions@.len() - j,
        {
            push_number(j + 1, &mut out);
            push_version(&self.versions[j], &mut out);
            push_str(&mut out, "\n");
            proof {
                let t = vs.take(j + 1);
                assert(t.drop_last() =~= vs.take(j as int));
                assert(t.last() == version_entry_text(self.versions@[j as int]));
                assert(out@ =~= mid + numbered(t));
            }
            j = j + 1;
        }
        proof {
            assert(vs.take(self.versions@.len() as int) =~= vs);
            assert(out@ =~= dev_mod_text(*self));
        }
        string_from_chars(&out)
    }
}

/// Where an answer in a numbered menu leads.
#[derive(PartialEq, Eq, Structural, Clone, Copy, Debug)]
pub enum MenuChoice {
    /// `q`: go back.
    Back,
    /// The entry at this (0-based) position.
    Pick(usize),
    /// Anything else.
    Invalid,
}

/// The answer to a menu of `count` numbered entries: `q` goes back, a
/// number from 1 to `count` picks that entry.
pub open spec fn spec_menu_choice(answer: Seq<char>, count: nat) -> MenuChoice {
    if answer == "q"@ {
        MenuChoice::Back
    } else {
        match parse_natural(answer) {
            Some(n) => if 1 <= n <= count { MenuChoice::Pick((n - 1) as usize) } else { MenuChoice::Invalid },
            None => MenuChoice::Invalid,
        }
    }
}

/// Where the answer in a menu of `count` entries leads (see `spec_menu_choice`).
pub fn menu_choice(answer: &str, count: usize) -> (r: MenuChoice)
    ensures
        r == spec_menu_choice(answer@, count as nat),
{
    proof { reveal_strlit("q"); }
    if str_equals(answer, "q") {
        return MenuChoice::Back;
    }
    let cs = chars_of(answer);
    match parse_bounded(&cs, count as u64) {
        Some(n) => if n >= 1 { MenuChoice::Pick((n - 1) as usize) } else { MenuChoice::Invalid },
        None => MenuChoice::Invalid,
    }
}

/// The index path listing the developer's published (`accepted`) or
/// pending mods.
pub fn own_mods_path(validated: bool) -> (r: String)
    ensures
        r@ == "/v1/me/mods?status="@ + (if validated { "accepted"@ } else { "pending"@ }),
{
    let mut out = chars_of("/v1/me/mods?status=");
    if validated {
        push_str(&mut out, "accepted");
    } else {
        push_str(&mut out, "pending");
    }
    string_from_chars(&out)
}

} // verus!
