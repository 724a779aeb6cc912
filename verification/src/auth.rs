//! Logging in to the mod index and out of it: what a login request leads
//! to, how the index's answers are read, and the logout confirmation.

use vstd::prelude::*;
use crate::profiles::Config;
use crate::text::{str_equals, to_lowercase, lowercased};

verus! {

/// How `geode index login` proceeds.
pub enum LoginStep {
    /// The token given on the command line was stored.
    Stored,
    /// A token is stored already; it is shown and nothing else happens.
    AlreadyLoggedIn(String),
    /// The GitHub token given is exchanged for an index token.
    ExchangeGithubToken(String),
    /// The index's device login is started in the browser.
    DeviceLogin,
}

/// The first step of `geode index login` (see `LoginStep`); only a token
/// given on the command line changes the configuration.
pub fn start_login(config: &mut Config, token: Option<String>, github_token: Option<String>) -> (r: LoginStep)
    ensures
        match token {
            Some(t) => r is Stored && final(config).index_token == Some(t),
            None => final(config).index_token == old(config).index_token && match old(config).index_token {
                Some(t) => r matches LoginStep::AlreadyLoggedIn(s) && s@ == t@,
                None => match github_token {
                    Some(g) => r matches LoginStep::ExchangeGithubToken(s) && s == g,
                    None => r is DeviceLogin,
                },
            },
        },
        final(config).current_profile == old(config).current_profile,
        final(config).profiles == old(config).profiles,
        final(config).default_developer == old(config).default_developer,
        final(config).sdk_nightly == old(config).sdk_nightly,
        final(config).sdk_version == old(config).sdk_version,
        final(config).index_url == old(config).index_url,
{
    if let Some(t) = token {
        config.index_token = Some(t);
        return LoginStep::Stored;
    }
    match &config.index_token {
        Some(t) => LoginStep::AlreadyLoggedIn(t.clone()),
        None => match github_token {
            Some(g) => LoginStep::ExchangeGithubToken(g),
            None => LoginStep::DeviceLogin,
        },
    }
}

/// What the index's answer to a GitHub token exchange means.
#[derive(PartialEq, Eq, Structural, Clone, Copy, Debug)]
pub enum ExchangeOutcome {
    /// 200: the body holds the index token.
    Accepted,
    /// 400: GitHub did not accept the token.
    InvalidGithubToken,
    /// Anything else.
    Unreachable,
}

/// The meaning of the HTTP status of a token exchange.
pub fn exchange_outcome(status: u16) -> (r: ExchangeOutcome)
    ensures
        status == 200 ==> r == ExchangeOutcome::Accepted,
        status == 400 ==> r == ExchangeOutcome::InvalidGithubToken,
        status != 200 && status != 400 ==> r == ExchangeOutcome::Unreachable,
{
    if status == 400 {
        ExchangeOutcome::InvalidGithubToken
    } else if status == 200 {
        ExchangeOutcome::Accepted
    } else {
        ExchangeOutcome::Unreachable
    }
}

/// Records the outcome of a finished login: the index token is stored.
pub fn finish_login(config: &mut Config, token: String)
    ensures
        final(config).index_token == Some(token),
        final(config).current_profile == old(config).current_profile,
        final(config).profiles == old(config).profiles,
        final(config).default_developer == old(config).default_developer,
        final(config).sdk_nightly == old(config).sdk_nightly,
        final(config).sdk_version == old(config).sdk_version,
        final(config).index_url == old(config).index_url,
{
    config.index_token = Some(token);
}

/// What the answer to "log out of all devices?" means: `y` yes, `n` no (in
/// any case); anything else asks again.
pub fn logout_answer(answer: &str) -> (r: Option<bool>)
    ensures
        lowercased(answer@) == "y"@ ==> r == Some(true),
        lowercased(answer@) == "n"@ ==> r == Some(false),
        lowercased(answer@) != "y"@ && lowercased(answer@) != "n"@ ==> r is None,
{
    proof {
        reveal_strlit("y");
        reveal_strlit("n");
        assert("y"@ != "n"@) by { assert("y"@[0] != "n"@[0]); }
    }
    let l = to_lowercase(answer);
    if str_equals(l.as_str(), "y") {
        Some(true)
    } else if str_equals(l.as_str(), "n") {
        Some(false)
    } else {
        None
    }
}

/// What an index answer to an authenticated request means for the stored
/// login: 401 means the token is no longer valid and it is forgotten.
pub fn check_token_status(config: &mut Config, status: u16) -> (r: bool)
    ensures
        r == (status != 401),
        status == 401 ==> final(config).index_token is None,
        status != 401 ==> final(config).index_token == old(config).index_token,
        final(config).current_profile == old(config).current_profile,
        final(config).profiles == old(config).profiles,
        final(config).default_developer == old(config).default_developer,
        final(config).sdk_nightly == old(config).sdk_nightly,
        final(config).sdk_version == old(config).sdk_version,
        final(config).index_url == old(config).index_url,
{
    if status == 401 {
        config.index_token = None;
        false
    } else {
        true
    }
}

} // verus!
