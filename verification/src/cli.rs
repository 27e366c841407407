//! The commands that the program takes.
use crate::numbers;
use crate::numbers::{decimal_of, parse_unsigned};
use crate::repo::Change;
use crate::text;
use crate::text::{cat2, cat3};
use vstd::prelude::*;

verus! {

/// What the program was called with.
#[derive(Debug)]
pub struct SlamCli {
    pub command: SlamCommand,
}

/// A command of the program.
#[derive(Debug)]
#[allow(inconsistent_fields)]
pub enum SlamCommand {
    /// Sandbox commands for local workspace with every repo checked out
    Sandbox { repo_ptns: Vec<String>, action: SandboxAction },
    /// Create new <change-id> (branches/PRs) with updates
    Create {
        files: Vec<String>,
        change_id: String,
        buffer: usize,
        repo_ptns: Vec<String>,
        action: Option<CreateAction>,
    },
    /// Review <change-id> (PRs per repo) and merge them
    Review { org: String, repo_ptns: Vec<String>, action: ReviewAction },
}

/// What is to be created.
#[derive(Debug)]
pub enum CreateAction {
    /// Add a file with specified contents
    Add { path: String, content: String, commit: Option<String>, simplified: bool },
    /// Delete matching files
    Delete { commit: Option<String>, simplified: bool },
    /// Substring and replacement (requires two arguments)
    Sub { ptn: String, repl: String, commit: Option<String>, simplified: bool },
    /// Regex pattern and replacement (requires two arguments)
    Regex { ptn: String, repl: String, commit: Option<String>, simplified: bool },
}

/// What is to be done with pull requests.
#[derive(Debug)]
pub enum ReviewAction {
    /// List Change IDs matching the given pattern
    Ls { change_id_ptns: Vec<String>, buffer: usize },
    /// Clone all repos that have an open PR for the given Change ID
    Clone { change_id: String, all: bool },
    /// Approve a specific PR & merge it per matched repos, identified by its Change ID
    Approve { change_id: String, admin_override: bool },
    /// Delete a PR & branches per matched repos, identified by its Change ID
    Delete { change_id: String },
    /// Purge: close every PR and delete every remote branch prefixed with SLAM for each matching
    /// repo
    Purge {},
}

/// What is to be done with the sandbox.
#[derive(Debug)]
pub enum SandboxAction {
    /// Set up sandbox environment
    Setup {},
    /// Refresh sandbox by resetting and pulling repositories
    Refresh {},
}

impl CreateAction {
    /// The change, the message to commit it with and whether only the files are
    /// to be listed.
    pub fn decompose(self) -> (r: (Change, Option<String>, bool))
        ensures
            match self {
                CreateAction::Delete { commit, simplified } => r == (
                    Change::Delete,
                    commit,
                    simplified,
                ),
                CreateAction::Add { path, content, commit, simplified } => r == (
                    Change::Add(path, content),
                    commit,
                    simplified,
                ),
                CreateAction::Sub { ptn, repl, commit, simplified } => r == (
                    Change::Sub(ptn, repl),
                    commit,
                    simplified,
                ),
                CreateAction::Regex { ptn, repl, commit, simplified } => r == (
                    Change::Regex(ptn, repl),
                    commit,
                    simplified,
                ),
            },
    {
        match self {
            CreateAction::Delete { commit, simplified } => (Change::Delete, commit, simplified),
            CreateAction::Add { path, content, commit, simplified } => (
                Change::Add(path, content),
                commit,
                simplified,
            ),
            CreateAction::Sub { ptn, repl, commit, simplified } => (
                Change::Sub(ptn, repl),
                commit,
                simplified,
            ),
            CreateAction::Regex { ptn, repl, commit, simplified } => (
                Change::Regex(ptn, repl),
                commit,
                simplified,
            ),
        }
    }
}

/// The number of context lines that a text asks for: 1, 2 or 3.
pub open spec fn buffer_in(s: Seq<char>) -> Result<nat, Seq<char>> {
    match numbers::unsigned(s) {
        Some(v) => if 1 <= v <= 3 {
            Ok(v)
        } else {
            Err("Buffer must be between 1 and 3, but got "@ + numbers::decimal(v))
        },
        None => Err("`"@ + s + "` isn't a valid number"@),
    }
}

/// The number of context lines that a text asks for.
pub fn validate_buffer(s: &str) -> (r: Result<usize, String>)
    ensures
        match (r, buffer_in(s@)) {
            (Ok(v), Ok(n)) => v == n,
            (Err(e), Err(words)) => e@ == words,
            _ => false,
        },
{
    match parse_unsigned(s) {
        Some(v) => if 1 <= v && v <= 3 {
            Ok(v)
        } else {
            Err(cat2("Buffer must be between 1 and 3, but got ", &decimal_of(v as u64)))
        },
        None => Err(cat3("`", s, "` isn't a valid number")),
    }
}

/// Whether every character of `s` is a digit.
pub open spec fn all_digits(s: Seq<char>) -> bool {
    forall|i: int| 0 <= i < s.len() ==> numbers::digit_value(#[trigger] s[i]) is Some
}

/// Whether `s` is two digits whose number lies within bounds.
pub open spec fn is_field(s: Seq<char>, low: nat, high: nat) -> bool {
    &&& s.len() == 2
    &&& numbers::digit_value(s[0]) matches Some(tens)
    &&& numbers::digit_value(s[1]) matches Some(ones)
    &&& low <= 10 * tens + ones <= high
}

/// Whether `s` is a moment, from the month to the second, as in
/// `-06-01T12-30-59`.
pub open spec fn is_moment(s: Seq<char>) -> bool {
    &&& s.len() == 15
    &&& s[0] == '-' && s[3] == '-' && s[6] == 'T' && s[9] == '-' && s[12] == '-'
    &&& is_field(s.subrange(1, 3), 1, 12)
    &&& is_field(s.subrange(4, 6), 1, 31)
    &&& is_field(s.subrange(7, 9), 0, 23)
    &&& is_field(s.subrange(10, 12), 0, 59)
    &&& is_field(s.subrange(13, 15), 0, 60)
}

/// Whether `s` is a year: four digits, or more of them behind a plus sign, or at
/// least four behind a minus sign.
pub open spec fn is_year(s: Seq<char>) -> bool {
    ||| s.len() == 4 && all_digits(s)
    ||| s.len() >= 6 && s[0] == '+' && all_digits(s.skip(1))
    ||| s.len() >= 5 && s[0] == '-' && all_digits(s.skip(1))
}

/// Whether `s` is a point in time: a year, then the moment in it.
pub open spec fn is_timestamp(s: Seq<char>) -> bool {
    &&& s.len() >= 19
    &&& is_year(s.take(s.len() - 15))
    &&& is_moment(s.skip(s.len() - 15))
}

/// `chrono::Local::now`, formatted with `%Y-%m-%dT%H-%M-%S`. What it gives
/// depends on the time and on the place; it is a year of four digits, with a sign
/// where it has more of them or lies before the year 0, and then month, day, hour,
/// minute and second of two digits each. A clock that stands before 1970 is more
/// than `chrono` bears.
#[verifier::external_body]
fn timestamp() -> (r: String)
    ensures
        is_timestamp(r@),
{
    chrono::Local::now().format("%Y-%m-%dT%H-%M-%S").to_string()
}

/// The change ID for a point in time.
pub fn change_id_at(timestamp: &str) -> (r: String)
    ensures
        r@ == "SLAM-"@ + timestamp@,
{
    cat2("SLAM-", timestamp)
}

/// A change ID for now.
pub fn default_change_id() -> (r: String)
    ensures
        text::begins_with(r@, "SLAM-"@),
        is_timestamp(r@.skip(5)),
{
    let now = timestamp();
    let r = change_id_at(&now);
    proof {
        reveal_strlit("SLAM-");
        assert(r@.subrange(0, 5) =~= "SLAM-"@);
        assert(r@.skip(5) =~= now@);
    }
    r
}

} // verus!
