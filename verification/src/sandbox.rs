//! The sandbox: a directory with a clone of every repository.
use crate::command;
use crate::command::{after, Meaning, Reply, Request, Step, Turn, Wish};
use crate::git;
use crate::git::{
    checkout, clone_repo, get_head_branch, get_head_sha, get_repo_slug,
    list_local_branches_with_prefix, pull, remote_branch_exists, remote_prune, reset_hard,
    safe_delete_local_branch,
};
use crate::hooks;
use crate::hooks::install_pre_commit_hooks;
use crate::paint;
use crate::paint::{paint, Tone};
use crate::paths;
use crate::paths::joined_path;
use crate::text;
use crate::text::{cat3, cat4, cat7, chars_of, contains, owned, same, slice_of, trimmed_end};
use vstd::prelude::*;

verus! {

/// The organisation whose repositories the sandbox holds.
pub fn org() -> (r: String)
    ensures
        r@ == "tatari-tv"@,
{
    owned("tatari-tv")
}

// ---------------------------------------------------------------------------
// The line on a repository
// ---------------------------------------------------------------------------

/// How many bytes a character takes in UTF-8.
pub open spec fn width(c: char) -> nat {
    if (c as u32) < 0x80 {
        1
    } else if (c as u32) < 0x800 {
        2
    } else if (c as u32) < 0x10000 {
        3
    } else {
        4
    }
}

/// How many bytes a text takes in UTF-8.
pub open spec fn size(s: Seq<char>) -> nat
    decreases s.len(),
{
    if s.len() == 0 {
        0
    } else {
        size(s.drop_last()) + width(s.last())
    }
}

/// Whether the first `n` characters of a text take 7 bytes.
pub open spec fn cut_at(s: Seq<char>, n: int) -> bool {
    0 <= n <= s.len() && size(s.take(n)) == 7
}

/// The first 7 bytes of a commit hash, if there are so many and they are whole
/// characters.
pub open spec fn short_sha(sha: Seq<char>) -> Option<Seq<char>> {
    if exists|n: int| #[trigger] cut_at(sha, n) {
        Some(sha.take(choose|n: int| #[trigger] cut_at(sha, n)))
    } else {
        None
    }
}

/// What the line on a repository tells.
pub struct Status {
    pub branch: Seq<char>,
    /// The commit, and whether it is new.
    pub sha: Seq<char>,
    pub fresh: bool,
    /// How it stands with the hooks.
    pub hooks: Seq<char>,
    pub reposlug: Seq<char>,
}

/// The tone of a commit.
pub open spec fn sha_tone(fresh: bool) -> Tone {
    if fresh {
        Tone::BoldGreen
    } else {
        Tone::Dimmed
    }
}

/// The line on a repository, from how its branch and its commit are shown.
pub open spec fn status_line(
    branch: Seq<char>,
    sha: Seq<char>,
    hooks: Seq<char>,
    reposlug: Seq<char>,
) -> Seq<char> {
    branch + " "@ + sha + " "@ + hooks + " "@ + reposlug
}

/// Whether `out` is the line on a repository.
pub open spec fn status_shown(out: Seq<char>, s: Status) -> bool {
    exists|a: Seq<char>, b: Seq<char>|
        paint::painting(a, s.branch, Tone::Magenta, 6) && paint::painting(
            b,
            s.sha,
            sha_tone(s.fresh),
            0,
        ) && out == #[trigger] status_line(a, b, s.hooks, s.reposlug)
}

/// The line on a repository, from how its branch and its commit are shown.
pub fn format_status(branch: &str, sha: &str, hooks: &str, reposlug: &str) -> (r: String)
    ensures
        r@ == status_line(branch@, sha@, hooks@, reposlug@),
{
    cat7(branch, " ", sha, " ", hooks, " ", reposlug)
}

/// The line on a repository.
fn draw_status(branch: &str, sha: &str, fresh: bool, hooks: &str, reposlug: &str) -> (r: String)
    ensures
        status_shown(
            r@,
            (Status { branch: branch@, sha: sha@, fresh, hooks: hooks@, reposlug: reposlug@ }),
        ),
{
    let tone = if fresh {
        Tone::BoldGreen
    } else {
        Tone::Dimmed
    };
    let a = paint(branch, Tone::Magenta, 6);
    let b = paint(sha, tone, 0);
    let r = format_status(&a, &b, hooks, reposlug);
    let ghost s = Status {
        branch: branch@,
        sha: sha@,
        fresh,
        hooks: hooks@,
        reposlug: reposlug@,
    };
    assert(paint::painting(b@, s.sha, sha_tone(s.fresh), 0));
    assert(r@ == status_line(a@, b@, s.hooks, s.reposlug));
    r
}

proof fn lemma_size_grows(s: Seq<char>, m: int, n: int)
    requires
        0 <= m <= n <= s.len(),
    ensures
        size(s.take(m)) + (n - m) <= size(s.take(n)),
    decreases n - m,
{
    if m < n {
        assert(s.take(n).drop_last() =~= s.take(n - 1));
        lemma_size_grows(s, m, n - 1);
    }
}

pub proof fn lemma_one_cut(s: Seq<char>, m: int, n: int)
    requires
        cut_at(s, m),
        cut_at(s, n),
    ensures
        m == n,
{
    if m < n {
        lemma_size_grows(s, m, n);
    } else if n < m {
        lemma_size_grows(s, n, m);
    }
}

/// The first 7 bytes of a commit hash.
pub fn shorten(sha: &str) -> (r: Option<String>)
    ensures
        r.meaning() == short_sha(sha@),
{
    let v = chars_of(sha);
    let mut i: usize = 0;
    let mut taken: usize = 0;
    assert(v@.take(0).len() == 0);
    while i < v.len() && taken < 7
        invariant
            v@ == sha@,
            i <= v@.len(),
            taken <= 10,
            taken == size(v@.take(i as int)),
            forall|k: int| 0 <= k < i ==> size(#[trigger] v@.take(k)) < 7,
        decreases v@.len() - i,
    {
        let n = v[i] as u32;
        let wide: usize = if n < 0x80 {
            1
        } else if n < 0x800 {
            2
        } else if n < 0x10000 {
            3
        } else {
            4
        };
        assert(v@.take(i + 1).drop_last() =~= v@.take(i as int));
        taken = taken + wide;
        i = i + 1;
    }
    if taken == 7 {
        proof {
            assert(cut_at(sha@, i as int));
            let n = choose|n: int| #[trigger] cut_at(sha@, n);
            lemma_one_cut(sha@, n, i as int);
        }
        let r = slice_of(&v, 0, i);
        assert(r@ =~= sha@.take(i as int));
        Some(r)
    } else {
        proof {
            assert forall|n: int| !(#[trigger] cut_at(sha@, n)) by {
                if cut_at(sha@, n) {
                    assert(v@.take(n) == sha@.take(n));
                    if n > i {
                        lemma_size_grows(sha@, i as int, n);
                    }
                }
            }
        }
        None
    }
}

// ---------------------------------------------------------------------------
// The state of a clone
// ---------------------------------------------------------------------------

/// The conversation that installs the hooks of a repository that has any.
pub open spec fn hooks_turn(repo: Seq<char>, replies: Seq<Reply>) -> Turn<Seq<char>> {
    command::chain(
        command::once(
            Wish::Look(paths::join(repo, ".pre-commit-config.yaml"@)),
            replies,
            |r: Reply| command::succeeded(r),
        ),
        replies,
        |configured: bool, left: Seq<Reply>|
            if configured {
                command::chain(
                    hooks::install_pre_commit_hooks_turn(repo, left),
                    left,
                    |installed: Result<bool, Seq<char>>, left2: Seq<Reply>|
                        Turn::Done(
                            if installed == Ok::<bool, Seq<char>>(true) {
                                "📥"@
                            } else {
                                "❗"@
                            },
                            0,
                        ),
                )
            } else {
                Turn::Done("❓"@, 0)
            },
    )
}

/// Installs the hooks of a repository that has any.
fn set_up_hooks(repo: &str, replies: &[Reply]) -> (step: Step<String>)
    ensures
        step.meaning() == hooks_turn(repo@, replies@),
        command::heard_enough(step, replies@),
{
    if replies.len() == 0 {
        return Step::Ask(Request::Look(joined_path(repo, ".pre-commit-config.yaml")));
    }
    if !command::success(&replies[0]) {
        return Step::Done(owned("❓"), 1);
    }
    match install_pre_commit_hooks(repo, after(replies, 1)) {
        Step::Ask(r) => Step::Ask(r),
        Step::Done(Ok(true), n) => Step::Done(owned("📥"), 1 + n),
        Step::Done(_, n) => Step::Done(owned("❗"), 1 + n),
    }
}

/// The conversation that finds out what is left to be told of a clone: how it
/// stands with its hooks, and what it is a clone of. Nothing can be told where
/// the hash of its commit is too short.
pub open spec fn status_turn(
    repo: Seq<char>,
    branch: Seq<char>,
    sha: Seq<char>,
    fresh: bool,
    replies: Seq<Reply>,
) -> Turn<Option<Result<Status, Seq<char>>>> {
    match short_sha(sha) {
        None => Turn::Done(None, 0),
        Some(short) => command::chain(
            hooks_turn(repo, replies),
            replies,
            |hooks: Seq<char>, left: Seq<Reply>|
                command::chain(
                    git::get_repo_slug_turn(repo, left),
                    left,
                    |slug: Result<Seq<char>, Seq<char>>, left2: Seq<Reply>|
                        Turn::Done(
                            Some(
                                match slug {
                                    Ok(reposlug) => Ok(
                                        Status { branch, sha: short, fresh, hooks, reposlug },
                                    ),
                                    Err(e) => Err(e),
                                },
                            ),
                            0,
                        ),
                ),
        ),
    }
}

/// Whether a step is one of a conversation about a clone, with its line for what
/// is to be told.
pub open spec fn tells(
    step: Step<Option<Result<String, String>>>,
    turn: Turn<Option<Result<Status, Seq<char>>>>,
) -> bool {
    match (turn, step) {
        (Turn::Ask(wish), Step::Ask(request)) => request@ == wish,
        (Turn::Done(None, n), Step::Done(None, m)) => n == m,
        (Turn::Done(Some(Ok(status)), n), Step::Done(Some(Ok(line)), m)) => n == m && status_shown(
            line@,
            status,
        ),
        (Turn::Done(Some(Err(words)), n), Step::Done(Some(Err(e)), m)) => n == m && e@ == words,
        _ => false,
    }
}

/// The line on a clone.
fn tell_status(repo: &str, branch: &str, sha: &str, fresh: bool, replies: &[Reply]) -> (step: Step<
    Option<Result<String, String>>,
>)
    ensures
        tells(step, status_turn(repo@, branch@, sha@, fresh, replies@)),
        command::heard_enough(step, replies@),
{
    let short = match shorten(sha) {
        Some(short) => short,
        None => {
            return Step::Done(None, 0);
        },
    };
    let (hooks, n): (String, usize) = match set_up_hooks(repo, replies) {
        Step::Ask(r) => {
            return Step::Ask(r);
        },
        Step::Done(hooks, n) => (hooks, n),
    };
    match get_repo_slug(repo, after(replies, n)) {
        Step::Ask(r) => Step::Ask(r),
        Step::Done(Err(e), m) => Step::Done(Some(Err(e)), n + m),
        Step::Done(Ok(slug), m) => {
            let line = draw_status(branch, &short, fresh, &hooks, &slug);
            Step::Done(Some(Ok(line)), n + m)
        },
    }
}

/// A conversation about a clone whose first part fails.
pub open spec fn or_fail<A>(
    first: Turn<Result<A, Seq<char>>>,
    replies: Seq<Reply>,
    rest: spec_fn(A, Seq<Reply>) -> Turn<Option<Result<Status, Seq<char>>>>,
) -> Turn<Option<Result<Status, Seq<char>>>> {
    command::chain(
        first,
        replies,
        |a: Result<A, Seq<char>>, left: Seq<Reply>|
            match a {
                Ok(a) => rest(a, left),
                Err(e) => Turn::Done(Some(Err(e)), 0),
            },
    )
}

/// The conversation of `generate_clone_status`.
pub open spec fn generate_clone_status_turn(repo: Seq<char>, replies: Seq<Reply>) -> Turn<
    Option<Result<Status, Seq<char>>>,
> {
    or_fail(
        git::get_head_branch_turn(repo, replies),
        replies,
        |branch: Seq<char>, left1: Seq<Reply>|
            or_fail(
                git::get_head_sha_turn(repo, left1),
                left1,
                |sha: Seq<char>, left2: Seq<Reply>| status_turn(repo, branch, sha, true, left2),
            ),
    )
}

/// Generates a status line for a newly cloned repository.
/// This provides consistent output format with refresh_repo for new repositories.
/// There is none where the hash of its commit is too short.
pub fn generate_clone_status(repo: &str, replies: &[Reply]) -> (step: Step<
    Option<Result<String, String>>,
>)
    ensures
        tells(step, generate_clone_status_turn(repo@, replies@)),
        command::heard_enough(step, replies@),
{
    let (branch, n1): (String, usize) = match get_head_branch(repo, replies) {
        Step::Ask(r) => {
            return Step::Ask(r);
        },
        Step::Done(Err(e), n) => {
            return Step::Done(Some(Err(e)), n);
        },
        Step::Done(Ok(branch), n) => (branch, n),
    };
    let left1 = after(replies, n1);
    let (sha, n2): (String, usize) = match get_head_sha(repo, left1) {
        Step::Ask(r) => {
            return Step::Ask(r);
        },
        Step::Done(Err(e), n) => {
            return Step::Done(Some(Err(e)), n1 + n);
        },
        Step::Done(Ok(sha), n) => (sha, n),
    };
    match tell_status(repo, &branch, &sha, true, after(left1, n2)) {
        Step::Ask(r) => Step::Ask(r),
        Step::Done(result, n) => Step::Done(result, n1 + n2 + n),
    }
}

// ---------------------------------------------------------------------------
// Refreshing a clone
// ---------------------------------------------------------------------------

/// The conversation that deletes a local branch which the remote does not have.
/// Where the remote does not tell, the branch stays.
pub open spec fn clean_branch_turn(
    repo: Seq<char>,
    branch: Seq<char>,
    replies: Seq<Reply>,
) -> Turn<Result<(), Seq<char>>> {
    command::chain(
        git::remote_branch_exists_turn(repo, branch, replies),
        replies,
        |there: Result<bool, Seq<char>>, left: Seq<Reply>|
            if there == Ok::<bool, Seq<char>>(false) {
                git::safe_delete_local_branch_turn(repo, branch, left)
            } else {
                Turn::Done(Ok(()), 0)
            },
    )
}

/// The conversation that deletes those of the local branches which the remote
/// does not have.
pub open spec fn clean_branches_turn(
    repo: Seq<char>,
    branches: Seq<Seq<char>>,
    replies: Seq<Reply>,
) -> Turn<Result<(), Seq<char>>>
    decreases branches.len(),
{
    if branches.len() == 0 {
        Turn::Done(Ok(()), 0)
    } else {
        command::chain_ok(
            clean_branches_turn(repo, branches.drop_last(), replies),
            replies,
            |done: (), left: Seq<Reply>| clean_branch_turn(repo, branches.last(), left),
        )
    }
}

/// The conversation that deletes the local branches of old changes. Where they
/// cannot be listed, they stay.
pub open spec fn clean_turn(repo: Seq<char>, replies: Seq<Reply>) -> Turn<Result<(), Seq<char>>> {
    command::chain(
        git::list_local_branches_with_prefix_turn(repo, "SLAM"@, replies),
        replies,
        |listed: Result<Seq<Seq<char>>, Seq<char>>, left: Seq<Reply>|
            match listed {
                Ok(branches) => clean_branches_turn(repo, branches, left),
                Err(_) => Turn::Done(Ok(()), 0),
            },
    )
}

/// The conversation that brings a clone to the latest commit of a branch.
pub open spec fn update_turn(repo: Seq<char>, branch: Seq<char>, replies: Seq<Reply>) -> Turn<
    Result<Seq<char>, Seq<char>>,
> {
    command::chain_ok(
        git::reset_hard_turn(repo, replies),
        replies,
        |reset: (), left1: Seq<Reply>|
            command::chain_ok(
                git::checkout_turn(repo, branch, left1),
                left1,
                |switched: (), left2: Seq<Reply>|
                    command::chain_ok(
                        git::pull_turn(repo, left2),
                        left2,
                        |pulled: (), left3: Seq<Reply>| git::get_head_sha_turn(repo, left3),
                    ),
            ),
    )
}

/// The conversation of `refresh_repo`.
pub open spec fn refresh_repo_turn(repo: Seq<char>, replies: Seq<Reply>) -> Turn<
    Option<Result<Status, Seq<char>>>,
> {
    or_fail(
        git::remote_prune_turn(repo, replies),
        replies,
        |pruned: (), left1: Seq<Reply>|
            or_fail(
                clean_turn(repo, left1),
                left1,
                |cleaned: (), left2: Seq<Reply>|
                    or_fail(
                        git::get_head_branch_turn(repo, left2),
                        left2,
                        |branch: Seq<char>, left3: Seq<Reply>|
                            or_fail(
                                git::get_head_sha_turn(repo, left3),
                                left3,
                                |before: Seq<char>, left4: Seq<Reply>|
                                    or_fail(
                                        update_turn(repo, branch, left4),
                                        left4,
                                        |now: Seq<char>, left5: Seq<Reply>|
                                            status_turn(repo, branch, now, before != now, left5),
                                    ),
                            ),
                    ),
            ),
    )
}

/// Deletes a local branch which the remote does not have.
fn clean_branch(repo: &str, branch: &str, replies: &[Reply]) -> (step: Step<Result<(), String>>)
    ensures
        step.meaning() == clean_branch_turn(repo@, branch@, replies@),
        command::heard_enough(step, replies@),
{
    match remote_branch_exists(repo, branch, replies) {
        Step::Ask(r) => Step::Ask(r),
        Step::Done(Ok(false), n) => match safe_delete_local_branch(
            repo,
            branch,
            after(replies, n),
        ) {
            Step::Ask(r) => Step::Ask(r),
            Step::Done(t, m) => Step::Done(t, n + m),
        },
        Step::Done(_, n) => Step::Done(Ok(()), n),
    }
}

proof fn lemma_clean_stops(
    repo: Seq<char>,
    branches: Seq<Seq<char>>,
    replies: Seq<Reply>,
    n: int,
)
    requires
        0 <= n <= branches.len(),
        !(clean_branches_turn(repo, branches.take(n), replies) matches Turn::Done(Ok(_), _)),
    ensures
        clean_branches_turn(repo, branches, replies) == clean_branches_turn(
            repo,
            branches.take(n),
            replies,
        ),
    decreases branches.len() - n,
{
    if n < branches.len() {
        assert(branches.take(n + 1).drop_last() =~= branches.take(n));
        lemma_clean_stops(repo, branches, replies, n + 1);
    } else {
        assert(branches.take(n) =~= branches);
    }
}

/// Deletes those of the local branches which the remote does not have.
fn clean_branches(repo: &str, branches: &Vec<String>, replies: &[Reply]) -> (step: Step<
    Result<(), String>,
>)
    ensures
        step.meaning() == clean_branches_turn(repo@, text::views(branches@), replies@),
        command::heard_enough(step, replies@),
{
    let ghost all = text::views(branches@);
    let mut used: usize = 0;
    let mut i: usize = 0;
    while i < branches.len()
        invariant
            i <= branches@.len(),
            used <= replies@.len(),
            all == text::views(branches@),
            clean_branches_turn(repo@, all.take(i as int), replies@) == Turn::Done(
                Ok::<(), Seq<char>>(()),
                used as nat,
            ),
        decreases branches@.len() - i,
    {
        assert(all.take(i + 1).drop_last() =~= all.take(i as int));
        assert(all[i as int] == branches@[i as int]@);
        match clean_branch(repo, &branches[i], after(replies, used)) {
            Step::Ask(r) => {
                proof {
                    lemma_clean_stops(repo@, all, replies@, i + 1);
                }
                return Step::Ask(r);
            },
            Step::Done(Err(e), n) => {
                proof {
                    lemma_clean_stops(repo@, all, replies@, i + 1);
                }
                return Step::Done(Err(e), used + n);
            },
            Step::Done(Ok(_), n) => {
                used = used + n;
            },
        }
        i += 1;
    }
    assert(all.take(i as int) =~= all);
    Step::Done(Ok(()), used)
}

/// Deletes the local branches of old changes.
fn clean(repo: &str, replies: &[Reply]) -> (step: Step<Result<(), String>>)
    ensures
        step.meaning() == clean_turn(repo@, replies@),
        command::heard_enough(step, replies@),
{
    match list_local_branches_with_prefix(repo, "SLAM", replies) {
        Step::Ask(r) => Step::Ask(r),
        Step::Done(Err(_), n) => Step::Done(Ok(()), n),
        Step::Done(Ok(branches), n) => match clean_branches(repo, &branches, after(replies, n)) {
            Step::Ask(r) => Step::Ask(r),
            Step::Done(t, m) => Step::Done(t, n + m),
        },
    }
}

/// Brings a clone to the latest commit of a branch.
fn update(repo: &str, branch: &str, replies: &[Reply]) -> (step: Step<Result<String, String>>)
    ensures
        step.meaning() == update_turn(repo@, branch@, replies@),
        command::heard_enough(step, replies@),
{
    let n1: usize = match reset_hard(repo, replies) {
        Step::Ask(r) => {
            return Step::Ask(r);
        },
        Step::Done(Err(e), n) => {
            return Step::Done(Err(e), n);
        },
        Step::Done(Ok(_), n) => n,
    };
    let left1 = after(replies, n1);
    let n2: usize = match checkout(repo, branch, left1) {
        Step::Ask(r) => {
            return Step::Ask(r);
        },
        Step::Done(Err(e), n) => {
            return Step::Done(Err(e), n1 + n);
        },
        Step::Done(Ok(_), n) => n,
    };
    let left2 = after(left1, n2);
    let n3: usize = match pull(repo, left2) {
        Step::Ask(r) => {
            return Step::Ask(r);
        },
        Step::Done(Err(e), n) => {
            return Step::Done(Err(e), n1 + n2 + n);
        },
        Step::Done(Ok(_), n) => n,
    };
    match get_head_sha(repo, after(left2, n3)) {
        Step::Ask(r) => Step::Ask(r),
        Step::Done(t, n) => Step::Done(t, n1 + n2 + n3 + n),
    }
}

/// Refreshes a single repository by pruning remote branches, cleaning local stale branches,
/// resetting, checking out the head branch, pulling the latest changes, and installing pre-commit hooks.
/// Returns a status string; there is none where the hash of its commit is too short.
pub fn refresh_repo(repo: &str, replies: &[Reply]) -> (step: Step<Option<Result<String, String>>>)
    ensures
        tells(step, refresh_repo_turn(repo@, replies@)),
        command::heard_enough(step, replies@),
{
    let n1: usize = match remote_prune(repo, replies) {
        Step::Ask(r) => {
            return Step::Ask(r);
        },
        Step::Done(Err(e), n) => {
            return Step::Done(Some(Err(e)), n);
        },
        Step::Done(Ok(_), n) => n,
    };
    let left1 = after(replies, n1);
    let n2: usize = match clean(repo, left1) {
        Step::Ask(r) => {
            return Step::Ask(r);
        },
        Step::Done(Err(e), n) => {
            return Step::Done(Some(Err(e)), n1 + n);
        },
        Step::Done(Ok(_), n) => n,
    };
    let left2 = after(left1, n2);
    let (branch, n3): (String, usize) = match get_head_branch(repo, left2) {
        Step::Ask(r) => {
            return Step::Ask(r);
        },
        Step::Done(Err(e), n) => {
            return Step::Done(Some(Err(e)), n1 + n2 + n);
        },
        Step::Done(Ok(branch), n) => (branch, n),
    };
    let left3 = after(left2, n3);
    let (before, n4): (String, usize) = match get_head_sha(repo, left3) {
        Step::Ask(r) => {
            return Step::Ask(r);
        },
        Step::Done(Err(e), n) => {
            return Step::Done(Some(Err(e)), n1 + n2 + n3 + n);
        },
        Step::Done(Ok(sha), n) => (sha, n),
    };
    let left4 = after(left3, n4);
    let (now, n5): (String, usize) = match update(repo, &branch, left4) {
        Step::Ask(r) => {
            return Step::Ask(r);
        },
        Step::Done(Err(e), n) => {
            return Step::Done(Some(Err(e)), n1 + n2 + n3 + n4 + n);
        },
        Step::Done(Ok(sha), n) => (sha, n),
    };
    match tell_status(repo, &branch, &now, !same(&before, &now), after(left4, n5)) {
        Step::Ask(r) => Step::Ask(r),
        Step::Done(result, n) => Step::Done(result, n1 + n2 + n3 + n4 + n5 + n),
    }
}

// ---------------------------------------------------------------------------
// Setting up the sandbox
// ---------------------------------------------------------------------------

/// Whether a repository is wanted: one of the patterns stands in its name, or
/// there are none.
pub open spec fn wanted(reposlug: Seq<char>, patterns: Seq<Seq<char>>) -> bool {
    patterns.len() == 0 || exists|i: int|
        0 <= i < patterns.len() && text::holds(reposlug, #[trigger] patterns[i])
}

/// Whether a repository is wanted.
fn is_wanted(reposlug: &str, patterns: &Vec<String>) -> (r: bool)
    ensures
        r == wanted(reposlug@, text::views(patterns@)),
{
    let ghost all = text::views(patterns@);
    assert(all.len() == patterns@.len());
    if patterns.len() == 0 {
        return true;
    }
    let mut i: usize = 0;
    while i < patterns.len()
        invariant
            i <= patterns@.len(),
            all == text::views(patterns@),
            forall|k: int| 0 <= k < i ==> !text::holds(reposlug@, #[trigger] all[k]),
        decreases patterns@.len() - i,
    {
        assert(all[i as int] == patterns@[i as int]@);
        if contains(reposlug, &patterns[i]) {
            return true;
        }
        i += 1;
    }
    false
}

/// The repositories that the sandbox is to hold.
pub fn repos_wanted(repos: &Vec<String>, patterns: &Vec<String>) -> (r: Vec<String>)
    ensures
        text::views(r@) == text::views(repos@).filter_map(
            |slug: Seq<char>|
                if wanted(slug, text::views(patterns@)) {
                    Some(slug)
                } else {
                    None
                },
        ),
{
    broadcast use text::lemma_views_push;

    let ghost all = text::views(repos@);
    let ghost pick = |slug: Seq<char>|
        if wanted(slug, text::views(patterns@)) {
            Some(slug)
        } else {
            None
        };
    let mut r: Vec<String> = Vec::new();
    let mut i: usize = 0;
    assert(text::views(r@) =~= all.take(0).filter_map(pick));
    while i < repos.len()
        invariant
            i <= repos@.len(),
            all == text::views(repos@),
            pick == (|slug: Seq<char>|
                if wanted(slug, text::views(patterns@)) {
                    Some(slug)
                } else {
                    None
                }),
            text::views(r@) == all.take(i as int).filter_map(pick),
        decreases repos@.len() - i,
    {
        assert(all[i as int] == repos@[i as int]@);
        assert(all.take(i + 1).drop_last() =~= all.take(i as int));
        if is_wanted(&repos[i], patterns) {
            r.push(owned(&repos[i]));
        }
        i += 1;
    }
    assert(all.take(i as int) =~= all);
    r
}

/// A conversation about a clone, with words before its error.
pub open spec fn worded(turn: Turn<Option<Result<Status, Seq<char>>>>, words: Seq<char>) -> Turn<
    Option<Result<Status, Seq<char>>>,
> {
    match turn {
        Turn::Done(Some(Err(e)), n) => Turn::Done(Some(Err(words + e)), n),
        _ => turn,
    }
}

/// Puts words before the error of a conversation about a clone.
fn with_words(step: Step<Option<Result<String, String>>>, words: &str) -> (r: Step<
    Option<Result<String, String>>,
>)
    ensures
        forall|turn: Turn<Option<Result<Status, Seq<char>>>>| #[trigger]
            tells(step, turn) ==> tells(r, worded(turn, words@)),
        forall|replies: Seq<Reply>| #[trigger]
            command::heard_enough(step, replies) ==> command::heard_enough(r, replies),
{
    match step {
        Step::Done(Some(Err(e)), n) => Step::Done(Some(Err(text::cat2(words, &e))), n),
        _ => step,
    }
}

/// The words for what went wrong with a repository.
pub open spec fn trouble(what: Seq<char>, reposlug: Seq<char>) -> Seq<char> {
    what + reposlug + ": "@
}

/// The conversation that brings a repository into the sandbox: a clone that is
/// there is refreshed, one that is not is made.
pub open spec fn set_up_turn(cwd: Seq<char>, reposlug: Seq<char>, replies: Seq<Reply>) -> Turn<
    Option<Result<Status, Seq<char>>>,
> {
    let target = paths::join(cwd, reposlug);
    command::chain(
        command::once(Wish::Look(target), replies, |r: Reply| command::succeeded(r)),
        replies,
        |there: bool, left: Seq<Reply>|
            if there {
                worded(
                    refresh_repo_turn(target, left),
                    trouble("Failed to refresh repository "@, reposlug),
                )
            } else {
                command::chain(
                    git::clone_repo_turn(reposlug, target, left),
                    left,
                    |cloned: Result<(), Seq<char>>, left2: Seq<Reply>|
                        match cloned {
                            Err(e) => Turn::Done(
                                Some(
                                    Err(trouble("Failed to clone repository "@, reposlug) + e),
                                ),
                                0,
                            ),
                            Ok(_) => worded(
                                generate_clone_status_turn(target, left2),
                                trouble(
                                    "Failed to generate status for cloned repository "@,
                                    reposlug,
                                ),
                            ),
                        },
                )
            },
    )
}

/// Brings a repository into the sandbox. The result is the line on it, or what
/// went wrong; there is none where the hash of its commit is too short.
pub fn set_up_repo(cwd: &str, reposlug: &str, replies: &[Reply]) -> (step: Step<
    Option<Result<String, String>>,
>)
    ensures
        tells(step, set_up_turn(cwd@, reposlug@, replies@)),
        command::heard_enough(step, replies@),
{
    let target = joined_path(cwd, reposlug);
    if replies.len() == 0 {
        return Step::Ask(Request::Look(target));
    }
    let left = after(replies, 1);
    if command::success(&replies[0]) {
        let words = cat3("Failed to refresh repository ", reposlug, ": ");
        return match with_words(refresh_repo(&target, left), &words) {
            Step::Ask(r) => Step::Ask(r),
            Step::Done(result, n) => Step::Done(result, 1 + n),
        };
    }
    match clone_repo(reposlug, &target, left) {
        Step::Ask(r) => Step::Ask(r),
        Step::Done(Err(e), n) => {
            let words = cat4("Failed to clone repository ", reposlug, ": ", &e);
            Step::Done(Some(Err(words)), 1 + n)
        },
        Step::Done(Ok(_), n) => {
            let words = cat3(
                "Failed to generate status for cloned repository ",
                reposlug,
                ": ",
            );
            match with_words(generate_clone_status(&target, after(left, n)), &words) {
                Step::Ask(r) => Step::Ask(r),
                Step::Done(result, m) => Step::Done(result, 1 + n + m),
            }
        },
    }
}

/// What is said of a clone that could not be refreshed.
pub fn refresh_warning(repo: &str, e: &str) -> (r: String)
    ensures
        r@ == "Error processing repo "@ + text::trim_end(repo@) + ": "@ + e@,
{
    cat4("Error processing repo ", &trimmed_end(repo), ": ", e)
}

// ---------------------------------------------------------------------------
// What a refresh keeps and what it reaches
// ---------------------------------------------------------------------------

/// A refresh leaves a local branch alone unless `git ls-remote`, asked for it,
/// ended without success. It does so where the remote does not have the branch,
/// and also where the remote could not be reached. Where git could not be started
/// the branch stays.
pub proof fn law_branches_of_the_remote_stay(
    repo: Seq<char>,
    branch: Seq<char>,
    replies: Seq<Reply>,
    there: Result<bool, Seq<char>>,
    n: nat,
)
    requires
        git::remote_branch_exists_turn(repo, branch, replies) == Turn::Done(there, n),
        there != Ok::<bool, Seq<char>>(false),
    ensures
        clean_branch_turn(repo, branch, replies) == Turn::Done(Ok::<(), Seq<char>>(()), n),
{
}

/// Whether the answers from the one at `from` on brought a clone to the latest
/// commit of its head branch.
pub open spec fn brought_up_to_date(
    repo: Seq<char>,
    branch: Seq<char>,
    replies: Seq<Reply>,
    from: int,
) -> bool {
    &&& 0 <= from <= replies.len()
    &&& update_turn(repo, branch, replies.skip(from)) matches Turn::Done(Ok(_), _)
}

proof fn lemma_skips(replies: Seq<Reply>, a: int, b: int)
    requires
        0 <= a <= replies.len(),
        0 <= b <= replies.len() - a,
    ensures
        replies.skip(a).skip(b) == replies.skip(a + b),
{
    assert(replies.skip(a).skip(b) =~= replies.skip(a + b));
}

/// A refresh that ends with a line on a clone has brought it to the latest commit
/// of the branch that the line tells.
pub proof fn law_refreshed_means_up_to_date(
    repo: Seq<char>,
    replies: Seq<Reply>,
    status: Status,
    n: nat,
)
    requires
        refresh_repo_turn(repo, replies) == Turn::Done(Some(Ok::<Status, Seq<char>>(status)), n),
        n <= replies.len(),
    ensures
        exists|from: int| #[trigger]
            brought_up_to_date(repo, status.branch, replies, from),
{
    let n1 = git::remote_prune_turn(repo, replies)->Done_1 as int;
    let left1 = replies.skip(n1);
    let n2 = clean_turn(repo, left1)->Done_1 as int;
    let left2 = left1.skip(n2);
    let n3 = git::get_head_branch_turn(repo, left2)->Done_1 as int;
    let left3 = left2.skip(n3);
    let n4 = git::get_head_sha_turn(repo, left3)->Done_1 as int;
    let left4 = left3.skip(n4);
    lemma_skips(replies, n1, n2);
    lemma_skips(replies, n1 + n2, n3);
    lemma_skips(replies, n1 + n2 + n3, n4);
    assert(brought_up_to_date(repo, status.branch, replies, n1 + n2 + n3 + n4));
}

} // verus!
