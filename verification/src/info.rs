//! The `geode config` command: reading and changing the configurable
//! settings, and the platform answer of the first-time setup.

use vstd::prelude::*;
use crate::naming::{get_bool, spec_get_bool};
use crate::profiles::Config;
use crate::templates::opt_view;
use crate::text::{str_equals, trim, to_lowercase, trimmed, lowercased};

verus! {

/// A `geode config` command.
pub enum Info {
    /// Set a field to a value.
    SetValue { field: String, value: String },
    /// Print a field, bare when `raw` is set.
    GetValue { field: String, raw: bool },
    /// List the fields that can be set.
    List,
    /// Set up a profile for a manually installed Geode.
    Setup,
}

/// Why a `geode config` command was refused.
#[derive(PartialEq, Eq, Structural, Clone, Copy, Debug)]
pub enum InfoError {
    /// The field is not one of the configurable ones.
    UnknownField,
    /// The SDK path is changed with `geode sdk set-path`, not here.
    SdkPathReadOnly,
    /// The value given for a yes/no field is not a yes or a no.
    NotABool,
    /// The SDK's location is unknown.
    NoSdk,
}

/// The fields `geode config list` names.
pub open spec fn configurable_fields() -> Seq<Seq<char>> {
    seq!["default-developer"@, "sdk-path"@, "sdk-nightly"@]
}

/// The platforms a profile can be set up for.
pub open spec fn setup_platforms() -> Seq<Seq<char>> {
    seq!["win"@, "mac-intel"@, "mac-arm"@, "android32"@, "android64"@]
}

/// The fields `geode config list` names, in order.
pub fn configurables() -> (r: Vec<String>)
    ensures
        r@.len() == 3,
        forall|i: int| 0 <= i < 3 ==> #[trigger] r@[i]@ == configurable_fields()[i],
{
    proof {
        reveal_strlit("default-developer");
        reveal_strlit("sdk-path");
        reveal_strlit("sdk-nightly");
    }
    let mut r: Vec<String> = Vec::new();
    r.push("default-developer".to_string());
    r.push("sdk-path".to_string());
    r.push("sdk-nightly".to_string());
    r
}

/// What `geode config set` makes of a field and a value: the new default
/// developer and nightly flag, or why it refuses. `default-developer` takes
/// the value as it is, `sdk-nightly` takes a yes or a no, `sdk-path` is set
/// elsewhere, and other fields are unknown.
pub open spec fn spec_set_field(config: Config, field: Seq<char>, value: Seq<char>) -> Result<(Option<Seq<char>>, bool), InfoError> {
    if field == "default-developer"@ {
        Ok((Some(value), config.sdk_nightly))
    } else if field == "sdk-nightly"@ {
        match spec_get_bool(value) {
            Some(b) => Ok((opt_view(config.default_developer), b)),
            None => Err(InfoError::NotABool),
        }
    } else if field == "sdk-path"@ {
        Err(InfoError::SdkPathReadOnly)
    } else {
        Err(InfoError::UnknownField)
    }
}

/// What `geode config get` shows for a field; the SDK path is the one
/// found for the SDK, if any.
pub open spec fn spec_get_field(config: Config, field: Seq<char>, sdk_path: Option<Seq<char>>) -> Result<Seq<char>, InfoError> {
    if field == "default-developer"@ {
        Ok(match config.default_developer {
            Some(d) => d@,
            None => Seq::empty(),
        })
    } else if field == "sdk-path"@ {
        match sdk_path {
            Some(p) => Ok(p),
            None => Err(InfoError::NoSdk),
        }
    } else if field == "sdk-nightly"@ {
        Ok(if config.sdk_nightly { "true"@ } else { "false"@ })
    } else {
        Err(InfoError::UnknownField)
    }
}

/// The configurable fields are the ones both commands know.
proof fn lemma_known_fields(field: Seq<char>)
    ensures
        !configurable_fields().contains(field) ==> field != "default-developer"@ && field != "sdk-path"@
            && field != "sdk-nightly"@,
{
    if field == "default-developer"@ {
        assert(configurable_fields()[0] == field);
    }
    if field == "sdk-path"@ {
        assert(configurable_fields()[1] == field);
    }
    if field == "sdk-nightly"@ {
        assert(configurable_fields()[2] == field);
    }
}

/// `geode config set` (see `spec_set_field`); only the default developer
/// and the nightly flag can change.
pub fn set_field(config: &mut Config, field: &str, value: String) -> (r: Result<(), InfoError>)
    ensures
        match spec_set_field(*old(config), field@, value@) {
            Ok((developer, nightly)) => r is Ok && opt_view(final(config).default_developer) == developer
                && final(config).sdk_nightly == nightly,
            Err(e) => r == Err::<(), InfoError>(e)
                && final(config).default_developer == old(config).default_developer
                && final(config).sdk_nightly == old(config).sdk_nightly,
        },
        !configurable_fields().contains(field@) ==> r == Err::<(), InfoError>(InfoError::UnknownField),
        final(config).current_profile == old(config).current_profile,
        final(config).profiles == old(config).profiles,
        final(config).sdk_version == old(config).sdk_version,
        final(config).index_token == old(config).index_token,
        final(config).index_url == old(config).index_url,
{
    proof {
        reveal_strlit("default-developer");
        reveal_strlit("sdk-path");
        reveal_strlit("sdk-nightly");
        assert("sdk-path"@.len() != "sdk-nightly"@.len());
        assert("sdk-path"@ != "sdk-nightly"@);
        lemma_known_fields(field@);
    }
    if str_equals(field, "default-developer") {
        config.default_developer = Some(value);
        Ok(())
    } else if str_equals(field, "sdk-nightly") {
        match get_bool(value.as_str()) {
            Some(b) => {
                config.sdk_nightly = b;
                Ok(())
            },
            None => Err(InfoError::NotABool),
        }
    } else if str_equals(field, "sdk-path") {
        Err(InfoError::SdkPathReadOnly)
    } else {
        Err(InfoError::UnknownField)
    }
}

/// `geode config get`: the value of a field as the command prints it (see
/// `spec_get_field`).
pub fn get_field(config: &Config, field: &str, sdk_path: &Option<String>) -> (r: Result<String, InfoError>)
    ensures
        match spec_get_field(*config, field@, opt_view(*sdk_path)) {
            Ok(v) => r is Ok && r->Ok_0@ == v,
            Err(e) => r == Err::<String, InfoError>(e),
        },
        !configurable_fields().contains(field@) ==> r == Err::<String, InfoError>(InfoError::UnknownField),
{
    proof {
        reveal_strlit("default-developer");
        reveal_strlit("sdk-path");
        reveal_strlit("sdk-nightly");
        reveal_strlit("true");
        reveal_strlit("false");
        assert("sdk-path"@.len() != "sdk-nightly"@.len());
        assert("sdk-path"@ != "sdk-nightly"@);
        lemma_known_fields(field@);
    }
    if str_equals(field, "default-developer") {
        match &config.default_developer {
            Some(d) => Ok(d.clone()),
            None => Ok(String::new()),
        }
    } else if str_equals(field, "sdk-path") {
        match sdk_path {
            Some(p) => Ok(p.clone()),
            None => Err(InfoError::NoSdk),
        }
    } else if str_equals(field, "sdk-nightly") {
        if config.sdk_nightly { Ok("true".to_string()) } else { Ok("false".to_string()) }
    } else {
        Err(InfoError::UnknownField)
    }
}

/// Reading a field back after setting it: the default developer reads as
/// the value set, and the nightly flag as `true` or `false` for the yes or
/// no given; setting one of them leaves the other as it was.
pub proof fn lemma_set_then_get(before: Config, after: Config, field: Seq<char>, value: Seq<char>, sdk_path: Option<Seq<char>>)
    requires
        spec_set_field(before, field, value) is Ok,
        opt_view(after.default_developer) == spec_set_field(before, field, value)->Ok_0.0,
        after.sdk_nightly == spec_set_field(before, field, value)->Ok_0.1,
    ensures
        field == "default-developer"@ ==> spec_get_field(after, field, sdk_path) == Ok::<Seq<char>, InfoError>(value)
            && after.sdk_nightly == before.sdk_nightly,
        field == "sdk-nightly"@ ==> spec_get_field(after, field, sdk_path) == Ok::<Seq<char>, InfoError>(
            if spec_get_bool(value) == Some(true) { "true"@ } else { "false"@ })
            && opt_view(after.default_developer) == opt_view(before.default_developer),
{
    reveal_strlit("default-developer");
    reveal_strlit("sdk-nightly");
    reveal_strlit("sdk-path");
    assert("default-developer"@.len() != "sdk-nightly"@.len());
    assert("sdk-path"@.len() != "sdk-nightly"@.len());
    if field == "default-developer"@ {
        match after.default_developer {
            Some(d) => {},
            None => {},
        }
    }
}

/// The platform the first-time setup records for the user's answer: the
/// answer trimmed and lower-cased, with `mac` standing for the host's
/// default; the flag says whether it is one of `setup_platforms`.
pub open spec fn spec_setup_platform(answer: Seq<char>, default: Seq<char>) -> Seq<char> {
    let p = lowercased(trimmed(answer));
    if p == "mac"@ { default } else { p }
}

/// The platform for the setup answer, and whether it is a known one.
pub fn setup_platform(answer: &str, default: String) -> (r: (String, bool))
    ensures
        r.0@ == spec_setup_platform(answer@, default@),
        r.1 == setup_platforms().contains(spec_setup_platform(answer@, default@)),
{
    proof {
        reveal_strlit("mac");
        reveal_strlit("win");
        reveal_strlit("mac-intel");
        reveal_strlit("mac-arm");
        reveal_strlit("android32");
        reveal_strlit("android64");
    }
    let t = trim(answer);
    let p = to_lowercase(t.as_str());
    let p = if str_equals(p.as_str(), "mac") { default } else { p };
    let s = p.as_str();
    let known = str_equals(s, "win") || str_equals(s, "mac-intel") || str_equals(s, "mac-arm")
        || str_equals(s, "android32") || str_equals(s, "android64");
    proof {
        let l = setup_platforms();
        assert(l[0] == "win"@ && l[1] == "mac-intel"@ && l[2] == "mac-arm"@ && l[3] == "android32"@ && l[4] == "android64"@);
        if l.contains(p@) {
            let k = choose|k: int| 0 <= k < l.len() && l[k] == p@;
            assert(known);
        }
    }
    (p, known)
}

} // verus!
