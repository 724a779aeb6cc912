//! The mod index client's decisions: browsing the mods that wait for validation,
//! picking the version to validate, the refusal a non-admin gets, the query
//! and paths of index requests, and the check of a downloaded package.

use vstd::prelude::*;
use crate::text::{chars_of, str_equals, trim, trimmed, concat3};
use crate::version::{parse_i32, parse_i32_chars};

verus! {

/// A version of a mod as the index lists it.
pub struct ServerModVersion {
    pub name: String,
    pub version: String,
    pub download_link: String,
    pub hash: String,
}

/// The envelope of every index response.
pub struct ApiResponse<T> {
    pub error: String,
    pub payload: T,
}

/// One page of a listing, with the number of entries in all pages.
pub struct PaginatedData<T> {
    pub data: Vec<T>,
    pub count: i32,
}

/// What a developer does with their own mods (`geode index mods`).
#[derive(PartialEq, Eq, Structural, Clone, Copy, Debug)]
pub enum MyModAction {
    Create,
    Update,
    Published,
    Pending,
    Edit,
}

/// What an admin does (`geode index admin`).
#[derive(PartialEq, Eq, Structural, Clone, Copy, Debug)]
pub enum AdminAction {
    ListPending,
    DevStatus,
}

/// Whether the action uploads a package (creating a mod or a new version).
pub fn is_submission(action: MyModAction) -> (r: bool)
    ensures
        r == (action == MyModAction::Create || action == MyModAction::Update),
{
    matches!(action, MyModAction::Create | MyModAction::Update)
}

/// Where the admin's answer in the pending-mods browser leads.
#[derive(PartialEq, Eq, Structural, Clone, Copy, Debug)]
pub enum PendingStep {
    /// Show the submission with this (1-based) number next.
    Show(i32),
    /// Validate the submission shown.
    Validate,
    /// Reject the submission shown (nothing is sent yet).
    Reject,
    /// Leave the browser.
    Quit,
    /// A number outside `1..=count`.
    InvalidPage,
    /// Neither a command nor a number.
    InvalidInput,
}

/// The step for an answer while submission `page` of `count` is shown: `n`
/// and `p` move one forward or back (staying inside `1..=count`), `v`, `r`
/// and `q` validate, reject and quit, and a number jumps there.
pub open spec fn spec_pending_step(page: i32, count: i32, choice: Seq<char>) -> PendingStep {
    let c = trimmed(choice);
    if c == "n"@ {
        PendingStep::Show(if page < count { (page + 1) as i32 } else { page })
    } else if c == "p"@ {
        PendingStep::Show(if page > 1 { (page - 1) as i32 } else { page })
    } else if c == "v"@ {
        PendingStep::Validate
    } else if c == "r"@ {
        PendingStep::Reject
    } else if c == "q"@ {
        PendingStep::Quit
    } else {
        match parse_i32(choice) {
            Some(n) => if n < 1 || n > count { PendingStep::InvalidPage } else { PendingStep::Show(n) },
            None => PendingStep::InvalidInput,
        }
    }
}

/// The step for the admin's answer (see `spec_pending_step`).
pub fn pending_step(page: i32, count: i32, choice: &str) -> (r: PendingStep)
    ensures
        r == spec_pending_step(page, count, choice@),
{
    proof {
        reveal_strlit("n");
        reveal_strlit("p");
        reveal_strlit("v");
        reveal_strlit("r");
        reveal_strlit("q");
    }
    let t = trim(choice);
    let c = t.as_str();
    if str_equals(c, "n") {
        PendingStep::Show(if page < count { page + 1 } else { page })
    } else if str_equals(c, "p") {
        PendingStep::Show(if page > 1 { page - 1 } else { page })
    } else if str_equals(c, "v") {
        PendingStep::Validate
    } else if str_equals(c, "r") {
        PendingStep::Reject
    } else if str_equals(c, "q") {
        PendingStep::Quit
    } else {
        let cs = chars_of(choice);
        proof { assert(cs@.subrange(0, cs@.len() as int) =~= choice@); }
        match parse_i32_chars(&cs, 0, cs.len()) {
            Some(n) => if n < 1 || n > count { PendingStep::InvalidPage } else { PendingStep::Show(n) },
            None => PendingStep::InvalidInput,
        }
    }
}

/// Browsing keeps the submission number inside `1..=count`.
pub proof fn lemma_pending_page_in_range(page: i32, count: i32, choice: Seq<char>)
    requires
        1 <= page <= count,
    ensures
        spec_pending_step(page, count, choice) matches PendingStep::Show(n) ==> 1 <= n <= count,
{
}

/// The version of a pending submission to validate: the only one, or else
/// the first whose version text is the answer given.
pub fn pending_version_index(versions: &Vec<String>, answer: &str) -> (r: Option<usize>)
    ensures
        versions@.len() == 1 ==> r == Some(0usize),
        versions@.len() != 1 ==> match r {
            Some(i) => i < versions@.len() && versions@[i as int]@ == answer@
                && forall|j: int| 0 <= j < i ==> versions@[j]@ != answer@,
            None => forall|j: int| 0 <= j < versions@.len() ==> versions@[j]@ != answer@,
        },
{
    if versions.len() == 1 {
        return Some(0);
    }
    let mut i: usize = 0;
    while i < versions.len()
        invariant
            i <= versions@.len(),
            forall|j: int| 0 <= j < i ==> versions@[j]@ != answer@,
        decreases versions@.len() - i,
    {
        if str_equals(versions[i].as_str(), answer) {
            return Some(i);
        }
        i = i + 1;
    }
    None
}

/// The replies a user without admin rights gets from `geode index admin`.
pub open spec fn rejection_messages() -> Seq<Seq<char>> {
    seq![
        "[BUZZER]"@,
        "Your princess is in another castle"@,
        "Absolutely not"@,
        "Get lost"@,
        "Sucks to be you"@,
        "No admin, laugh at this user"@,
        "Admin dashboard"@,
        "Why are we here? Just to suffer?"@,
        "You hacked the mainframe! Congrats."@,
        "You're an admin, Harry"@,
    ]
}

/// `rand::Rng::gen_range(0..n)` on the thread's generator: some index
/// below `n` (the range must not be empty).
#[verifier::external_body]
fn random_below(n: usize) -> (r: usize)
    requires
        n > 0,
    ensures
        r < n,
{
    rand::Rng::gen_range(&mut rand::thread_rng(), 0..n)
}

/// The `i`-th of the `rejection_messages`.
pub fn rejection_message(i: usize) -> (r: String)
    requires
        i < 10,
    ensures
        r@ == rejection_messages()[i as int],
{
    let mut messages: Vec<&str> = Vec::new();
    messages.push("[BUZZER]");
    messages.push("Your princess is in another castle");
    messages.push("Absolutely not");
    messages.push("Get lost");
    messages.push("Sucks to be you");
    messages.push("No admin, laugh at this user");
    messages.push("Admin dashboard");
    messages.push("Why are we here? Just to suffer?");
    messages.push("You hacked the mainframe! Congrats.");
    messages.push("You're an admin, Harry");
    proof {
        reveal_strlit("[BUZZER]");
        reveal_strlit("Your princess is in another castle");
        reveal_strlit("Absolutely not");
        reveal_strlit("Get lost");
        reveal_strlit("Sucks to be you");
        reveal_strlit("No admin, laugh at this user");
        reveal_strlit("Admin dashboard");
        reveal_strlit("Why are we here? Just to suffer?");
        reveal_strlit("You hacked the mainframe! Congrats.");
        reveal_strlit("You're an admin, Harry");
        assert forall|k: int| 0 <= k < 10 implies #[trigger] messages@[k]@ == rejection_messages()[k] by {}
    }
    messages[i].to_string()
}

/// One of the `rejection_messages`, picked at random (the pick is the
/// random number generator's; the message for it is `rejection_message`'s).
pub fn get_random_message() -> (r: String)
    ensures
        exists|i: int| 0 <= i < 10 && r@ == rejection_messages()[i],
{
    let i = random_below(10);
    rejection_message(i)
}

/// The index path listing the versions of mod `id`.
pub fn mod_versions_path(id: &str) -> (r: String)
    ensures
        r@ == "v1/mods/"@ + id@ + "/versions"@,
{
    concat3("v1/mods/", id, "/versions")
}

/// The SHA3-256 digest of the bytes (`sha3::Sha3_256`).
pub uninterp spec fn sha3_256(bytes: Seq<u8>) -> Seq<u8>;

/// `sha3::Sha3_256` over the bytes: the 32 bytes of the digest.
#[verifier::external_body]
fn sha3_digest(bytes: &Vec<u8>) -> (r: Vec<u8>)
    ensures
        r@ == sha3_256(bytes@),
{
    let mut hasher = <sha3::Sha3_256 as sha3::Digest>::new();
    sha3::Digest::update(&mut hasher, bytes);
    sha3::Digest::finalize(hasher).to_vec()
}

/// The lower-case hexadecimal digit for `d` (`0 <= d < 16`).
pub open spec fn lower_hex_digit(d: int) -> char {
    if d < 10 { ((d + 48) as u8) as char } else { ((d + 87) as u8) as char }
}

/// Bytes in lower-case hexadecimal, two digits per byte, high half first.
pub open spec fn lower_hex(bytes: Seq<u8>) -> Seq<char>
    decreases bytes.len(),
{
    if bytes.len() == 0 {
        Seq::empty()
    } else {
        lower_hex(bytes.drop_last()) + seq![lower_hex_digit((bytes.last() / 16) as int), lower_hex_digit((bytes.last() % 16) as int)]
    }
}

/// `hex::encode`: the bytes in lower-case hexadecimal.
#[verifier::external_body]
fn hex_encode(bytes: &Vec<u8>) -> (r: String)
    ensures
        r@ == lower_hex(bytes@),
{
    hex::encode(bytes)
}

/// The SHA3-256 digest of the bytes in lower-case hexadecimal.
pub open spec fn sha3_256_hex(bytes: Seq<u8>) -> Seq<char> {
    lower_hex(sha3_256(bytes))
}

/// The check `geode index install` makes on a downloaded package: its
/// SHA3-256 digest in hexadecimal is compared with the `version` field of
/// the index entry it was downloaded for.
pub fn download_matches(bytes: &Vec<u8>, entry: &ServerModVersion) -> (r: bool)
    ensures
        r == (sha3_256_hex(bytes@) == entry.version@),
{
    let digest = sha3_digest(bytes);
    let text = hex_encode(&digest);
    str_equals(text.as_str(), entry.version.as_str())
}

} // verus!
