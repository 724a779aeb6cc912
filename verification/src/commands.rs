//! Small decisions of the command-line front end: which link a menu choice
//! opens, what a shell-completion script is called, and where the local
//! database stores an exported package.

use vstd::prelude::*;
use crate::text::{chars_of, string_from_chars, push_all, str_equals, trim, trimmed, concat3};
use crate::version::{split_field, field_end};
use crate::paths::{path_join, join};

verus! {

/// The `geode links` command.
pub enum Links {
    /// Offer the project's links and open the one chosen.
    Show,
}

/// The link a menu choice stands for: its title and address.
pub open spec fn spec_link(choice: Seq<char>) -> Option<(Seq<char>, Seq<char>)> {
    let c = trimmed(choice);
    if c == "1"@ {
        Some(("Geode Website"@, "https://geode-sdk.org/"@))
    } else if c == "2"@ {
        Some(("Geode Repository"@, "https://github.com/geode-sdk/geode"@))
    } else if c == "3"@ {
        Some(("Geode Issues"@, "https://github.com/geode-sdk/geode/issues"@))
    } else if c == "4"@ {
        Some(("Geode Discord"@, "https://discord.gg/9e43WMKzhp"@))
    } else {
        None
    }
}

/// The link chosen by the (untrimmed) answer to the links menu, if it is one
/// of `1` to `4`.
pub fn link_for_choice(choice: &str) -> (r: Option<(String, String)>)
    ensures
        match spec_link(choice@) {
            Some((t, u)) => match r {
                Some(p) => p.0@ == t && p.1@ == u,
                None => false,
            },
            None => r is None,
        },
{
    proof {
        reveal_strlit("1");
        reveal_strlit("2");
        reveal_strlit("3");
        reveal_strlit("4");
        reveal_strlit("Geode Website");
        reveal_strlit("https://geode-sdk.org/");
        reveal_strlit("Geode Repository");
        reveal_strlit("https://github.com/geode-sdk/geode");
        reveal_strlit("Geode Issues");
        reveal_strlit("https://github.com/geode-sdk/geode/issues");
        reveal_strlit("Geode Discord");
        reveal_strlit("https://discord.gg/9e43WMKzhp");
    }
    let c = trim(choice);
    let c = c.as_str();
    if str_equals(c, "1") {
        Some(("Geode Website".to_string(), "https://geode-sdk.org/".to_string()))
    } else if str_equals(c, "2") {
        Some(("Geode Repository".to_string(), "https://github.com/geode-sdk/geode".to_string()))
    } else if str_equals(c, "3") {
        Some(("Geode Issues".to_string(), "https://github.com/geode-sdk/geode/issues".to_string()))
    } else if str_equals(c, "4") {
        Some(("Geode Discord".to_string(), "https://discord.gg/9e43WMKzhp".to_string()))
    } else {
        None
    }
}

/// A shell that completion scripts are generated for.
#[derive(PartialEq, Eq, Structural, Clone, Copy, Debug)]
pub enum Shell {
    Bash,
    Elvish,
    Fish,
    PowerShell,
    Zsh,
    NuShell,
}

/// The file name of the completion script for a program called `name`.
pub open spec fn spec_completion_file(shell: Shell, name: Seq<char>) -> Seq<char> {
    match shell {
        Shell::Bash => name + ".bash"@,
        Shell::Elvish => name + ".elv"@,
        Shell::Fish => name + ".fish"@,
        Shell::PowerShell => "_"@ + name + ".ps1"@,
        Shell::Zsh => "_"@ + name,
        Shell::NuShell => name + ".nu"@,
    }
}

/// `Generator::file_name` of `clap_complete_nushell::Nushell`, which
/// appends `.nu` to the program's name.
#[verifier::external_body]
fn nushell_file_name(name: &str) -> (r: String)
    ensures
        r@ == name@ + ".nu"@,
{
    clap_complete::Generator::file_name(&clap_complete_nushell::Nushell, name)
}

impl Shell {
    /// The file name of the completion script for a program called `name`.
    pub fn file_name(&self, name: &str) -> (r: String)
        ensures
            r@ == spec_completion_file(*self, name@),
    {
        proof {
            assert(""@ =~= Seq::<char>::empty()) by { reveal_strlit(""); }
        }
        let r = match self {
            Shell::Bash => concat3("", name, ".bash"),
            Shell::Elvish => concat3("", name, ".elv"),
            Shell::Fish => concat3("", name, ".fish"),
            Shell::PowerShell => concat3("_", name, ".ps1"),
            Shell::Zsh => concat3("_", name, ""),
            Shell::NuShell => nushell_file_name(name),
        };
        proof {
            assert(Seq::<char>::empty() + name@ =~= name@);
            assert(("_"@ + name@) + Seq::<char>::empty() =~= "_"@ + name@);
        }
        r
    }
}

/// The `geode database` command.
pub enum Database {
    /// Clone the user's fork of the database.
    Init,
    /// List the packages in the database.
    List,
    /// Remove the package of a mod.
    Remove { id: String },
    /// Add or update the package at the given path.
    Export { package: String },
}

/// The folder the database keeps an exported package in: the mod's id, `@`,
/// and the major version, which is the version's text up to the first `.`
/// with every `v` left out.
pub open spec fn spec_database_entry(id: Seq<char>, version: Seq<char>) -> Seq<char> {
    id + "@"@ + split_field(version, '.', 0).unwrap().filter(|c: char| c != 'v')
}

/// The database folder for version `version` of mod `id`.
pub fn database_entry_name(id: &str, version: &str) -> (r: String)
    ensures
        r@ == spec_database_entry(id@, version@),
{
    let v = chars_of(version);
    let (end, _) = field_end(&v, 0, '.');
    proof {
        assert(v@.skip(0) =~= v@);
        assert(split_field(v@, '.', 0).unwrap() == v@.take(end as int));
    }
    let ghost first = v@.take(end as int);
    let ghost pred = |c: char| c != 'v';
    let mut major: Vec<char> = Vec::new();
    let mut i: usize = 0;
    while i < end
        invariant
            end <= v.len(),
            i <= end,
            first == v@.take(end as int),
            major@ == first.take(i as int).filter(pred),
            pred == (|c: char| c != 'v'),
        decreases end - i,
    {
        proof {
            reveal(Seq::filter);
            assert(first.take(i + 1).drop_last() =~= first.take(i as int));
            assert(first.take(i + 1).last() == v@[i as int]);
        }
        if v[i] != 'v' {
            major.push(v[i]);
        }
        i = i + 1;
    }
    proof { assert(first.take(end as int) =~= first); }
    let mut out = chars_of(id);
    let at = chars_of("@");
    push_all(&mut out, &at);
    push_all(&mut out, &major);
    string_from_chars(&out)
}

/// The folder the mod indexer keeps its files in: `indexer` inside the
/// CLI's data folder.
pub fn indexer_path(geode_root: &String) -> (r: String)
    ensures
        r@ == path_join(geode_root@, "indexer"@),
{
    join(geode_root, "indexer")
}

} // verus!
