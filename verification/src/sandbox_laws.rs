//! What holds of every clone that is made or refreshed, whatever the outside
//! answers.
use crate::command;
use crate::command::{Reply, Turn, Wish};
use crate::command_laws;
use crate::git;
use crate::git_laws;
use crate::hooks;
use crate::paths;
use crate::requests;
use crate::review_laws;
use crate::sandbox;
use crate::sandbox::Status;
use crate::text;
use vstd::prelude::*;

verus! {

// ---------------------------------------------------------------------------
// Everything that is asked for is about the clone
// ---------------------------------------------------------------------------

proof fn lemma_join_is_longer(base: Seq<char>, path: Seq<char>)
    requires
        path.len() > 0,
        path[0] != '/',
    ensures
        paths::join(base, path).len() > base.len(),
        paths::join(base, path).take(base.len() as int) == base,
{
    reveal_strlit("/");
    assert(paths::join(base, path).take(base.len() as int) =~= base);
}

proof fn lemma_hooks_about(repo: Seq<char>, replies: Seq<Reply>)
    ensures
        requests::asks_about(sandbox::hooks_turn(repo, replies), repo),
{
    reveal_strlit(".pre-commit-config.yaml");
    reveal_strlit(".git");
    reveal_strlit("hooks");
    reveal_strlit("pre-commit");
    lemma_join_is_longer(repo, ".pre-commit-config.yaml"@);
    let a = paths::join(repo, ".git"@);
    let b = paths::join(a, "hooks"@);
    let c = paths::join(b, "pre-commit"@);
    lemma_join_is_longer(repo, ".git"@);
    lemma_join_is_longer(a, "hooks"@);
    lemma_join_is_longer(b, "pre-commit"@);
    assert(c.take(repo.len() as int) =~= b.take(a.len() as int).take(repo.len() as int)) by {
        assert(b == c.take(b.len() as int));
        assert(a == b.take(a.len() as int));
    }
}

proof fn lemma_head_about(repo: Seq<char>, replies: Seq<Reply>)
    ensures
        requests::asks_about(git::get_head_branch_turn(repo, replies), repo),
{
    reveal_with_fuel(git::common_branch_turn, 3);
}

proof fn lemma_status_about(
    repo: Seq<char>,
    branch: Seq<char>,
    sha: Seq<char>,
    fresh: bool,
    replies: Seq<Reply>,
)
    ensures
        requests::asks_about(sandbox::status_turn(repo, branch, sha, fresh, replies), repo),
{
    lemma_hooks_about(repo, replies);
}

proof fn lemma_clone_status_about(repo: Seq<char>, replies: Seq<Reply>)
    ensures
        requests::asks_about(sandbox::generate_clone_status_turn(repo, replies), repo),
{
    lemma_head_about(repo, replies);
    match git::get_head_branch_turn(repo, replies) {
        Turn::Done(Ok(branch), n) => {
            let left = replies.skip(n as int);
            match git::get_head_sha_turn(repo, left) {
                Turn::Done(Ok(sha), m) => {
                    lemma_status_about(repo, branch, sha, true, left.skip(m as int));
                },
                _ => {},
            }
        },
        _ => {},
    }
}

proof fn lemma_safe_delete_about(repo: Seq<char>, branch: Seq<char>, replies: Seq<Reply>)
    ensures
        requests::asks_about(git::safe_delete_local_branch_turn(repo, branch, replies), repo),
{
    match git::current_branch_turn(repo, replies) {
        Turn::Done(Ok(_), n) => {
            lemma_head_about(repo, replies.skip(n as int));
        },
        _ => {},
    }
}

proof fn lemma_clean_branches_about(
    repo: Seq<char>,
    branches: Seq<Seq<char>>,
    replies: Seq<Reply>,
)
    ensures
        requests::asks_about(sandbox::clean_branches_turn(repo, branches, replies), repo),
    decreases branches.len(),
{
    if branches.len() > 0 {
        lemma_clean_branches_about(repo, branches.drop_last(), replies);
        match sandbox::clean_branches_turn(repo, branches.drop_last(), replies) {
            Turn::Done(Ok(_), n) => {
                let left = replies.skip(n as int);
                lemma_safe_delete_about(repo, branches.last(), left.skip(1));
            },
            _ => {},
        }
    }
}

proof fn lemma_clean_about(repo: Seq<char>, replies: Seq<Reply>)
    ensures
        requests::asks_about(sandbox::clean_turn(repo, replies), repo),
{
    match git::list_local_branches_with_prefix_turn(repo, "SLAM"@, replies) {
        Turn::Done(Ok(branches), n) => {
            lemma_clean_branches_about(repo, branches, replies.skip(n as int));
        },
        _ => {},
    }
}

/// Whatever a refresh of a clone asks for is about that clone: git and the hooks are
/// run in it, and what is looked for stands below it.
pub proof fn law_refreshes_stay_in_their_clone(repo: Seq<char>, replies: Seq<Reply>)
    ensures
        requests::asks_about(sandbox::refresh_repo_turn(repo, replies), repo),
{
    match git::remote_prune_turn(repo, replies) {
        Turn::Done(Ok(_), n1) => {
            let left1 = replies.skip(n1 as int);
            lemma_clean_about(repo, left1);
            match sandbox::clean_turn(repo, left1) {
                Turn::Done(Ok(_), n2) => {
                    let left2 = left1.skip(n2 as int);
                    lemma_head_about(repo, left2);
                    match git::get_head_branch_turn(repo, left2) {
                        Turn::Done(Ok(branch), n3) => {
                            let left3 = left2.skip(n3 as int);
                            match git::get_head_sha_turn(repo, left3) {
                                Turn::Done(Ok(before), n4) => {
                                    let left4 = left3.skip(n4 as int);
                                    match sandbox::update_turn(repo, branch, left4) {
                                        Turn::Done(Ok(now), n5) => {
                                            lemma_status_about(
                                                repo,
                                                branch,
                                                now,
                                                before != now,
                                                left4.skip(n5 as int),
                                            );
                                        },
                                        _ => {},
                                    }
                                },
                                _ => {},
                            }
                        },
                        _ => {},
                    }
                },
                _ => {},
            }
        },
        _ => {},
    }
}

/// A repository is brought into the directory that its slug names below the working
/// directory. That directory is looked for first. Where it is there, all that
/// follows is about it. Where it is not, a clone of the repository is made there,
/// and once that went well, all that follows is about it. Where the clone cannot be
/// made, nothing follows.
pub proof fn law_repositories_are_set_up_in_their_directory(
    cwd: Seq<char>,
    slug: Seq<char>,
    replies: Seq<Reply>,
)
    ensures
        ({
            let turn = sandbox::set_up_turn(cwd, slug, replies);
            let target = paths::join(cwd, slug);
            &&& replies.len() == 0 ==> requests::asks(turn, Wish::Look(target))
            &&& replies.len() >= 1 && requests::went_well(replies[0]) ==> requests::asks_about(
                turn,
                target,
            )
            &&& replies.len() == 1 && !requests::went_well(replies[0]) ==> requests::asks(
                turn,
                requests::run_here("git"@, seq!["config"@, "--get"@, "core.sshCommand"@]),
            )
            &&& replies.len() == 2 && !requests::went_well(replies[0]) && replies[1] is Ok
                ==> requests::asks(
                turn,
                review_laws::cloning(
                    slug,
                    target,
                    if requests::went_well(replies[1]) {
                        text::trim(command::said(replies[1]))
                    } else {
                        "ssh"@
                    },
                ),
            )
            &&& replies.len() >= 2 && !requests::went_well(replies[0]) && replies[1] is Err
                ==> !(turn is Ask)
            &&& replies.len() >= 3 && !requests::went_well(replies[0]) && !requests::went_well(
                replies[2],
            ) ==> !(turn is Ask)
            &&& replies.len() >= 3 && !requests::went_well(replies[0])
                ==> requests::asks_about(turn, target)
        }),
{
    let target = paths::join(cwd, slug);
    let left = replies.skip(1);
    if replies.len() == 1 {
        assert(left =~= Seq::empty());
    } else if replies.len() == 2 {
        assert(left.skip(1) =~= Seq::empty());
    }
    law_refreshes_stay_in_their_clone(target, left);
    lemma_clone_status_about(target, left.skip(2));
    if replies.len() >= 3 {
        assert(left.skip(1)[0] == replies[2]);
    }
}

/// A clone that was just made is told of: its head branch is asked for in it at
/// once.
pub proof fn law_new_clones_are_told_of(cwd: Seq<char>, slug: Seq<char>, replies: Seq<Reply>)
    requires
        replies.len() == 3,
        !requests::went_well(replies[0]),
        replies[1] is Ok,
        requests::went_well(replies[2]),
    ensures
        requests::asks(
            sandbox::set_up_turn(cwd, slug, replies),
            requests::run_in(
                paths::join(cwd, slug),
                "git"@,
                seq!["symbolic-ref"@, "refs/remotes/origin/HEAD"@],
            ),
        ),
{
    let left = replies.skip(1);
    assert(left.skip(1)[0] == replies[2]);
    assert(left.skip(2) =~= Seq::empty());
}

// ---------------------------------------------------------------------------
// The head branch and the hooks
// ---------------------------------------------------------------------------

/// Whether a text is the name of a branch of the remote, behind what precedes it.
pub open spec fn names_remote_branch(said: Seq<char>, branch: Seq<char>) -> bool {
    text::trim(said) == "refs/remotes/origin/"@ + branch
}

/// The head branch of a repository is the one that the remote names as its HEAD.
/// Where it names none it is `main` if there is one, and else `master` if there is
/// one; where there is neither, that is an error.
pub proof fn law_head_branch_is_the_remotes(
    repo: Seq<char>,
    replies: Seq<Reply>,
    branch: Seq<char>,
)
    ensures
        ({
            let turn = git::get_head_branch_turn(repo, replies);
            let verify = |name: Seq<char>| requests::run_in(
                repo,
                "git"@,
                seq!["rev-parse"@, "--verify"@, name],
            );
            &&& replies.len() == 0 ==> requests::asks(
                turn,
                requests::run_in(
                    repo,
                    "git"@,
                    seq!["symbolic-ref"@, "refs/remotes/origin/HEAD"@],
                ),
            )
            &&& replies.len() >= 1 && requests::went_well(replies[0]) && names_remote_branch(
                command::said(replies[0]),
                branch,
            ) ==> requests::comes_to(turn, branch)
            &&& replies.len() == 1 && !requests::went_well(replies[0]) ==> requests::asks(
                turn,
                verify("origin/"@ + "main"@),
            )
            &&& replies.len() >= 2 && !requests::went_well(replies[0]) && requests::went_well(
                replies[1],
            ) ==> requests::comes_to(turn, "main"@)
            &&& replies.len() == 2 && !requests::went_well(replies[0]) && !requests::went_well(
                replies[1],
            ) ==> requests::asks(turn, verify("origin/"@ + "master"@))
            &&& replies.len() >= 3 && !requests::went_well(replies[0]) && !requests::went_well(
                replies[1],
            ) && requests::went_well(replies[2]) ==> requests::comes_to(turn, "master"@)
            &&& replies.len() >= 3 && !requests::went_well(replies[0]) && !requests::went_well(
                replies[1],
            ) && !requests::went_well(replies[2]) ==> requests::fails(turn)
        }),
{
    reveal_with_fuel(git::common_branch_turn, 3);
    let names = seq!["main"@, "master"@];
    assert(names.drop_first() =~= seq!["master"@]);
    assert(names.drop_first().drop_first() =~= Seq::empty());
    let left = replies.skip(1);
    if replies.len() == 1 {
        assert(left =~= Seq::empty());
    } else if replies.len() == 2 {
        assert(left.skip(1) =~= Seq::empty());
    }
    let start = "refs/remotes/origin/"@;
    if replies.len() > 0 && names_remote_branch(command::said(replies[0]), branch) {
        let name = start + branch;
        assert(name.subrange(0, start.len() as int) =~= start);
        assert(name.skip(start.len() as int) =~= branch);
    }
}

/// The hooks of a clone are installed where it is configured to have any. They count
/// as installed where `pre-commit install` went well in it and their file is there
/// afterwards.
pub proof fn law_hooks_are_installed_where_configured(repo: Seq<char>, replies: Seq<Reply>)
    ensures
        ({
            let turn = sandbox::hooks_turn(repo, replies);
            &&& replies.len() == 0 ==> requests::asks(
                turn,
                Wish::Look(paths::join(repo, ".pre-commit-config.yaml"@)),
            )
            &&& replies.len() >= 1 && !requests::went_well(replies[0]) ==> turn == Turn::Done(
                "❓"@,
                1,
            )
            &&& replies.len() == 1 && requests::went_well(replies[0]) ==> requests::asks(
                turn,
                requests::run_in(repo, "pre-commit"@, seq!["install"@]),
            )
            &&& replies.len() >= 2 && requests::went_well(replies[0]) && !requests::went_well(
                replies[1],
            ) ==> turn == Turn::Done("❗"@, 2)
            &&& replies.len() == 2 && requests::went_well(replies[0]) && requests::went_well(
                replies[1],
            ) ==> requests::asks(
                turn,
                Wish::Look(
                    paths::join(
                        paths::join(paths::join(repo, ".git"@), "hooks"@),
                        "pre-commit"@,
                    ),
                ),
            )
            &&& replies.len() >= 3 && requests::went_well(replies[0]) && requests::went_well(
                replies[1],
            ) ==> turn == Turn::Done(
                if requests::went_well(replies[2]) {
                    "📥"@
                } else {
                    "❗"@
                },
                3,
            )
        }),
{
    let left = replies.skip(1);
    if replies.len() == 1 {
        assert(left =~= Seq::empty());
    } else if replies.len() == 2 {
        assert(left.skip(1) =~= Seq::empty());
    } else if replies.len() >= 3 {
        assert(left.skip(1)[0] == replies[2]);
    }
}

// ---------------------------------------------------------------------------
// What a refresh does
// ---------------------------------------------------------------------------

proof fn lemma_take_skip(replies: Seq<Reply>, k: int, m: int)
    requires
        0 <= m <= k <= replies.len(),
    ensures
        replies.take(k).skip(m) == replies.skip(m).take(k - m),
{
    assert(replies.take(k).skip(m) =~= replies.skip(m).take(k - m));
}

/// Answers that come later make no difference to a head branch that was found.
proof fn lemma_head_keeps(repo: Seq<char>, replies: Seq<Reply>, k: int)
    requires
        git::get_head_branch_turn(repo, replies) matches Turn::Done(_, n) && n <= k,
        k <= replies.len(),
    ensures
        git::get_head_branch_turn(repo, replies.take(k)) == git::get_head_branch_turn(
            repo,
            replies,
        ),
        git::get_head_branch_turn(repo, replies)->Done_1 <= replies.len(),
{
    reveal_with_fuel(git::common_branch_turn, 3);
    let names = seq!["main"@, "master"@];
    assert(names.drop_first() =~= seq!["master"@]);
    assert(names.drop_first().drop_first() =~= Seq::empty());
    let left = replies.skip(1);
    lemma_take_skip(replies, k, 1);
    if left.len() > 0 && k > 1 {
        lemma_take_skip(left, k - 1, 1);
    }
}

proof fn lemma_safe_delete_keeps(
    repo: Seq<char>,
    branch: Seq<char>,
    replies: Seq<Reply>,
    k: int,
)
    requires
        git::safe_delete_local_branch_turn(repo, branch, replies) matches Turn::Done(_, n) && n
            <= k,
        k <= replies.len(),
    ensures
        git::safe_delete_local_branch_turn(repo, branch, replies.take(k))
            == git::safe_delete_local_branch_turn(repo, branch, replies),
{
    match git::current_branch_turn(repo, replies) {
        Turn::Done(Ok(current), n) => {
            let left = replies.skip(1);
            lemma_take_skip(replies, k, 1);
            if text::trim(current) == text::trim(branch) {
                let m = git::get_head_branch_turn(repo, left)->Done_1 as int;
                lemma_head_keeps(repo, left, k - 1);
                lemma_take_skip(left, k - 1, m);
                if git::get_head_branch_turn(repo, left) matches Turn::Done(Ok(_), _) {
                    lemma_take_skip(left, k - 1, m + 1);
                }
            } else {
                assert(left.skip(0) =~= left);
                assert(left.take(k - 1).skip(0) =~= left.take(k - 1));
            }
        },
        _ => {},
    }
}

proof fn lemma_clean_branches_keeps(
    repo: Seq<char>,
    branches: Seq<Seq<char>>,
    replies: Seq<Reply>,
    k: int,
)
    requires
        sandbox::clean_branches_turn(repo, branches, replies) matches Turn::Done(_, n) && n <= k,
        k <= replies.len(),
    ensures
        sandbox::clean_branches_turn(repo, branches, replies.take(k))
            == sandbox::clean_branches_turn(repo, branches, replies),
    decreases branches.len(),
{
    if branches.len() > 0 {
        let front = branches.drop_last();
        lemma_clean_branches_keeps(repo, front, replies, k);
        match sandbox::clean_branches_turn(repo, front, replies) {
            Turn::Done(Ok(_), m) => {
                let left = replies.skip(m as int);
                lemma_take_skip(replies, k, m as int);
                if git::remote_branch_exists_turn(repo, branches.last(), left) matches Turn::Done(
                    Ok(false),
                    _,
                ) {
                    lemma_take_skip(left, k - m, 1);
                    lemma_safe_delete_keeps(repo, branches.last(), left.skip(1), k - m - 1);
                }
            },
            _ => {},
        }
    }
}

proof fn lemma_clean_keeps(repo: Seq<char>, replies: Seq<Reply>, k: int)
    requires
        sandbox::clean_turn(repo, replies) matches Turn::Done(_, n) && n <= k,
        k <= replies.len(),
    ensures
        sandbox::clean_turn(repo, replies.take(k)) == sandbox::clean_turn(repo, replies),
{
    match git::list_local_branches_with_prefix_turn(repo, "SLAM"@, replies) {
        Turn::Done(Ok(branches), _) => {
            lemma_take_skip(replies, k, 1);
            lemma_clean_branches_keeps(repo, branches, replies.skip(1), k - 1);
        },
        _ => {},
    }
}

/// What a refresh does after so many of these answers.
#[verifier::opaque]
pub open spec fn refreshing(repo: Seq<char>, replies: Seq<Reply>, n: int) -> Turn<
    Option<Result<Status, Seq<char>>>,
> {
    sandbox::refresh_repo_turn(repo, replies.take(n))
}

/// Whether a refresh asks, after so many answers, for this run of git in the clone,
/// and that went well.
pub open spec fn git_went_well_at(
    repo: Seq<char>,
    replies: Seq<Reply>,
    n: int,
    args: Seq<Seq<char>>,
) -> bool {
    &&& 0 <= n < replies.len()
    &&& requests::asks(refreshing(repo, replies, n), requests::run_in(repo, "git"@, args))
    &&& requests::went_well(replies[n])
}

/// What an answer says, apart from the white space around it.
pub open spec fn said_at(replies: Seq<Reply>, n: int) -> Seq<char> {
    text::trim(command::said(replies[n]))
}

/// Whether a short form stands for the hash of a commit: it is its start. Where the
/// hash is made of ASCII characters these are the first seven of it.
pub open spec fn shortens(short: Seq<char>, sha: Seq<char>) -> bool {
    &&& short.len() <= sha.len()
    &&& short == sha.take(short.len() as int)
    &&& (forall|i: int| 0 <= i < sha.len() ==> (#[trigger] sha[i] as u32) < 0x80) ==> short.len()
        == 7
}

/// Whether a clone was brought up to date from the answer at `at` on: the commit it
/// was at was asked for before, then it was reset, its branch was checked out and
/// pulled, and the commit that it is at now was asked for. The commit that is told
/// is that one, and it is told as new where it differs from the one before.
pub open spec fn updated_at(
    repo: Seq<char>,
    replies: Seq<Reply>,
    status: Status,
    at: int,
) -> bool {
    &&& git_went_well_at(repo, replies, at - 1, seq!["rev-parse"@, "HEAD"@])
    &&& git_went_well_at(repo, replies, at, seq!["reset"@, "--hard"@, "HEAD"@])
    &&& git_went_well_at(repo, replies, at + 1, seq!["checkout"@, status.branch])
    &&& git_went_well_at(repo, replies, at + 2, seq!["pull"@])
    &&& git_went_well_at(repo, replies, at + 3, seq!["rev-parse"@, "HEAD"@])
    &&& shortens(status.sha, said_at(replies, at + 3))
    &&& status.fresh == (said_at(replies, at - 1) != said_at(replies, at + 3))
}

proof fn lemma_ascii_size(s: Seq<char>, n: int)
    requires
        0 <= n <= s.len(),
        forall|i: int| 0 <= i < s.len() ==> (#[trigger] s[i] as u32) < 0x80,
    ensures
        sandbox::size(s.take(n)) == n,
    decreases n,
{
    if n > 0 {
        lemma_ascii_size(s, n - 1);
        assert(s.take(n).drop_last() =~= s.take(n - 1));
        assert(s.take(n).last() == s[n - 1]);
    }
}

proof fn lemma_shortens(sha: Seq<char>, short: Seq<char>)
    requires
        sandbox::short_sha(sha) == Some(short),
    ensures
        shortens(short, sha),
{
    let n = choose|n: int| #[trigger] sandbox::cut_at(sha, n);
    assert(sandbox::cut_at(sha, n));
    assert(short == sha.take(n));
    if forall|i: int| 0 <= i < sha.len() ==> (#[trigger] sha[i] as u32) < 0x80 {
        lemma_ascii_size(sha, n);
    }
}

/// A refresh goes the same way with fewer answers, up to the head branch.
proof fn lemma_refresh_early(repo: Seq<char>, replies: Seq<Reply>, n2: int, n3: int, k: int)
    requires
        0 <= n2,
        0 <= n3,
        1 + n2 + n3 <= k <= replies.len(),
        sandbox::clean_turn(repo, replies.skip(1)) matches Turn::Done(_, n) && n == n2,
        git::get_head_branch_turn(repo, replies.skip(1).skip(n2)) matches Turn::Done(_, n) && n
            == n3,
    ensures
        ({
            let early = replies.take(k);
            let left2 = replies.skip(1).skip(n2);
            &&& early.skip(1).skip(n2).skip(n3) == left2.skip(n3).take(k - 1 - n2 - n3)
            &&& sandbox::clean_turn(repo, early.skip(1)) == sandbox::clean_turn(
                repo,
                replies.skip(1),
            )
            &&& git::get_head_branch_turn(repo, early.skip(1).skip(n2))
                == git::get_head_branch_turn(repo, left2)
            &&& early[0] == replies[0]
        }),
{
    let left1 = replies.skip(1);
    let left2 = left1.skip(n2);
    lemma_take_skip(replies, k, 1);
    lemma_take_skip(left1, k - 1, n2);
    lemma_take_skip(left2, k - 1 - n2, n3);
    lemma_clean_keeps(repo, left1, k - 1);
    lemma_head_keeps(repo, left2, k - 1 - n2);
}

/// What is left of a refresh once the head branch is known.
#[verifier::opaque]
spec fn tail_turn(repo: Seq<char>, branch: Seq<char>, replies: Seq<Reply>) -> Turn<
    Option<Result<Status, Seq<char>>>,
> {
    sandbox::or_fail(
        git::get_head_sha_turn(repo, replies),
        replies,
        |before: Seq<char>, left4: Seq<Reply>|
            sandbox::or_fail(
                sandbox::update_turn(repo, branch, left4),
                left4,
                |now: Seq<char>, left5: Seq<Reply>|
                    sandbox::status_turn(repo, branch, now, before != now, left5),
            ),
    )
}

/// How far a refresh that ends with a line gets before its head branch is known.
#[verifier::opaque]
spec fn splits(
    repo: Seq<char>,
    replies: Seq<Reply>,
    status: Status,
    n: int,
    n2: int,
    n3: int,
    branch: Seq<char>,
) -> bool {
    &&& 0 <= n2
    &&& 0 <= n3
    &&& 1 + n2 + n3 <= n <= replies.len()
    &&& requests::went_well(replies[0])
    &&& sandbox::clean_turn(repo, replies.skip(1)) == Turn::Done(
        Ok::<(), Seq<char>>(()),
        n2 as nat,
    )
    &&& git::get_head_branch_turn(repo, replies.skip(1).skip(n2)) == Turn::Done(
        Ok::<Seq<char>, Seq<char>>(branch),
        n3 as nat,
    )
    &&& tail_turn(repo, branch, replies.skip(1 + n2 + n3)) == Turn::Done(
        Some(Ok::<Status, Seq<char>>(status)),
        (n - 1 - n2 - n3) as nat,
    )
}

/// A refresh asks for what is left of it once the head branch is known.
#[verifier::spinoff_prover]
#[verifier::rlimit(60)]
proof fn lemma_refresh_tail(
    repo: Seq<char>,
    replies: Seq<Reply>,
    status: Status,
    n: int,
    n2: int,
    n3: int,
    branch: Seq<char>,
    j: int,
    wish: Wish,
)
    requires
        splits(repo, replies, status, n, n2, n3, branch),
        0 <= j <= replies.len() - 1 - n2 - n3,
        requests::asks(tail_turn(repo, branch, replies.skip(1 + n2 + n3).take(j)), wish),
    ensures
        requests::asks(refreshing(repo, replies, 1 + n2 + n3 + j), wish),
{
    reveal(splits);
    reveal(tail_turn);
    reveal(refreshing);
    lemma_refresh_early(repo, replies, n2, n3, 1 + n2 + n3 + j);
    assert(replies.skip(1).skip(n2).skip(n3) =~= replies.skip(1 + n2 + n3));
}

proof fn lemma_refresh_begins(repo: Seq<char>, replies: Seq<Reply>)
    ensures
        requests::asks(
            refreshing(repo, replies, 0),
            requests::run_in(repo, "git"@, seq!["remote"@, "prune"@, "origin"@]),
        ),
{
    reveal(refreshing);
    assert(replies.take(0) =~= Seq::empty());
}

proof fn lemma_split_tail(
    repo: Seq<char>,
    replies: Seq<Reply>,
    status: Status,
    n: int,
    n2: int,
    n3: int,
    branch: Seq<char>,
)
    requires
        splits(repo, replies, status, n, n2, n3, branch),
    ensures
        0 <= n2,
        0 <= n3,
        1 + n2 + n3 <= n <= replies.len(),
        requests::went_well(replies[0]),
        tail_turn(repo, branch, replies.skip(1 + n2 + n3)) == Turn::Done(
            Some(Ok::<Status, Seq<char>>(status)),
            (n - 1 - n2 - n3) as nat,
        ),
{
    reveal(splits);
}

/// What is left of a refresh asks for the commit, then for a reset, a checkout, a
/// pull, and for the commit once more.
proof fn lemma_tail_asks(repo: Seq<char>, branch: Seq<char>, left: Seq<Reply>)
    requires
        left.len() >= 5,
        forall|i: int| 0 <= i < 5 ==> requests::went_well(#[trigger] left[i]),
    ensures
        requests::asks(
            tail_turn(repo, branch, left.take(0)),
            requests::run_in(repo, "git"@, seq!["rev-parse"@, "HEAD"@]),
        ),
        requests::asks(
            tail_turn(repo, branch, left.take(1)),
            requests::run_in(repo, "git"@, seq!["reset"@, "--hard"@, "HEAD"@]),
        ),
        requests::asks(
            tail_turn(repo, branch, left.take(2)),
            requests::run_in(repo, "git"@, seq!["checkout"@, branch]),
        ),
        requests::asks(
            tail_turn(repo, branch, left.take(3)),
            requests::run_in(repo, "git"@, seq!["pull"@]),
        ),
        requests::asks(
            tail_turn(repo, branch, left.take(4)),
            requests::run_in(repo, "git"@, seq!["rev-parse"@, "HEAD"@]),
        ),
{
    reveal(tail_turn);
    assert(left.take(0) =~= Seq::empty());
    let a = left.take(1);
    assert(a[0] == left[0]);
    assert(a.skip(1) =~= Seq::empty());
    let b = left.take(2);
    assert(b[0] == left[0]);
    assert(b.skip(1)[0] == left[1]);
    assert(b.skip(1).skip(1) =~= Seq::empty());
    let c = left.take(3);
    assert(c[0] == left[0]);
    assert(c.skip(1)[0] == left[1]);
    assert(c.skip(1).skip(1)[0] == left[2]);
    assert(c.skip(1).skip(1).skip(1) =~= Seq::empty());
    let d = left.take(4);
    assert(d[0] == left[0]);
    assert(d.skip(1)[0] == left[1]);
    assert(d.skip(1).skip(1)[0] == left[2]);
    assert(d.skip(1).skip(1).skip(1)[0] == left[3]);
    assert(d.skip(1).skip(1).skip(1).skip(1) =~= Seq::empty());
}

proof fn lemma_update(repo: Seq<char>, branch: Seq<char>, left: Seq<Reply>)
    requires
        sandbox::update_turn(repo, branch, left) matches Turn::Done(Ok(_), _),
    ensures
        left.len() >= 4,
        forall|i: int| 0 <= i < 4 ==> requests::went_well(#[trigger] left[i]),
        sandbox::update_turn(repo, branch, left) == Turn::Done(
            Ok::<Seq<char>, Seq<char>>(text::trim(command::said(left[3]))),
            4,
        ),
{
    let b = left.skip(1);
    let c = b.skip(1);
    let d = c.skip(1);
    assert(b.len() > 0 && b[0] == left[1]);
    assert(c.len() > 0 && c[0] == left[2]);
    assert(d.len() > 0 && d[0] == left[3]);
    assert forall|i: int| 0 <= i < 4 implies requests::went_well(#[trigger] left[i]) by {
        assert(i == 0 || i == 1 || i == 2 || i == 3);
    }
}

/// What is left of a refresh that ends with a line.
proof fn lemma_tail_ends(
    repo: Seq<char>,
    branch: Seq<char>,
    left: Seq<Reply>,
    status: Status,
    n: nat,
) -> (h: int)
    requires
        tail_turn(repo, branch, left) == Turn::Done(Some(Ok::<Status, Seq<char>>(status)), n),
    ensures
        left.len() >= 5,
        forall|i: int| 0 <= i < 5 ==> requests::went_well(#[trigger] left[i]),
        status.branch == branch,
        shortens(status.sha, said_at(left, 4)),
        status.fresh == (said_at(left, 0) != said_at(left, 4)),
        h >= 1,
        n == 6 + h,
        n <= left.len(),
        sandbox::hooks_turn(repo, left.skip(5)) == Turn::Done(status.hooks, h as nat),
        requests::went_well(left[n - 1]),
        git::slug_in(said_at(left, n - 1)) == Ok::<Seq<char>, Seq<char>>(status.reposlug),
{
    reveal(tail_turn);
    let left4 = left.skip(1);
    lemma_update(repo, branch, left4);
    let now = text::trim(command::said(left4[3]));
    let left5 = left4.skip(4);
    assert(left5 =~= left.skip(5));
    assert(left4[3] == left[4]);
    assert forall|i: int| 0 <= i < 5 implies requests::went_well(#[trigger] left[i]) by {
        if i > 0 {
            assert(left4[i - 1] == left[i]);
        }
    }
    lemma_shortens(now, status.sha);
    law_hooks_are_installed_where_configured(repo, left5);
    let h = sandbox::hooks_turn(repo, left5)->Done_1 as int;
    assert(left5.skip(h)[0] == left[5 + h]);
    h
}

/// The last thing that a refresh asks for is the address of the remote.
proof fn lemma_tail_asks_last(
    repo: Seq<char>,
    branch: Seq<char>,
    left: Seq<Reply>,
    status: Status,
    n: nat,
)
    requires
        tail_turn(repo, branch, left) == Turn::Done(Some(Ok::<Status, Seq<char>>(status)), n),
    ensures
        requests::asks(
            tail_turn(repo, branch, left.take(n - 1)),
            requests::run_in(repo, "git"@, seq!["config"@, "--get"@, "remote.origin.url"@]),
        ),
{
    reveal(tail_turn);
    let h = lemma_tail_ends(repo, branch, left, status, n);
    let last = left.take(n - 1);
    let l4 = last.skip(1);
    let left4 = left.skip(1);
    lemma_update(repo, branch, left4);
    assert(last[0] == left[0]);
    assert(l4[0] == left4[0]);
    assert(l4.skip(1)[0] == left4.skip(1)[0]);
    assert(l4.skip(1).skip(1)[0] == left4.skip(1).skip(1)[0]);
    assert(l4.skip(1).skip(1).skip(1)[0] == left4.skip(1).skip(1).skip(1)[0]);
    assert(sandbox::update_turn(repo, branch, l4) == sandbox::update_turn(repo, branch, left4));
    let rest = l4.skip(4);
    let left5 = left.skip(5);
    assert(left4.skip(4) =~= left5);
    assert(rest =~= left5.take(h));
    law_hooks_are_installed_where_configured(repo, rest);
    law_hooks_are_installed_where_configured(repo, left5);
    assert forall|i: int| 0 <= i < h implies rest[i] == left5[i] by {}
    assert(sandbox::hooks_turn(repo, rest) == sandbox::hooks_turn(repo, left5));
    assert(rest.skip(h) =~= Seq::empty());
}

proof fn lemma_splits(repo: Seq<char>, replies: Seq<Reply>, status: Status, n: nat) -> (r: (
    int,
    int,
    Seq<char>,
))
    requires
        sandbox::refresh_repo_turn(repo, replies) == Turn::Done(
            Some(Ok::<Status, Seq<char>>(status)),
            n,
        ),
        n <= replies.len(),
    ensures
        splits(repo, replies, status, n as int, r.0, r.1, r.2),
{
    reveal(tail_turn);
    let left1 = replies.skip(1);
    let n2 = sandbox::clean_turn(repo, left1)->Done_1 as int;
    let left2 = left1.skip(n2);
    let n3 = git::get_head_branch_turn(repo, left2)->Done_1 as int;
    let branch = git::get_head_branch_turn(repo, left2)->Done_0->Ok_0;
    assert(left2.skip(n3) =~= replies.skip(1 + n2 + n3));
    reveal(splits);
    (n2, n3, branch)
}

proof fn lemma_split_is_up_to_date(
    repo: Seq<char>,
    replies: Seq<Reply>,
    status: Status,
    n: int,
    n2: int,
    n3: int,
    branch: Seq<char>,
)
    requires
        splits(repo, replies, status, n, n2, n3, branch),
    ensures
        updated_at(repo, replies, status, 2 + n2 + n3),
        5 + n2 + n3 < n,
        git_went_well_at(repo, replies, n - 1, seq!["config"@, "--get"@, "remote.origin.url"@]),
        git::slug_in(said_at(replies, n - 1)) == Ok::<Seq<char>, Seq<char>>(status.reposlug),
{
    let start = 1 + n2 + n3;
    let left = replies.skip(start);
    let m = (n - start) as nat;
    lemma_split_tail(repo, replies, status, n, n2, n3, branch);
    let _ = lemma_tail_ends(repo, branch, left, status, m);
    lemma_tail_asks(repo, branch, left);
    lemma_tail_asks_last(repo, branch, left, status, m);
    let sha = requests::run_in(repo, "git"@, seq!["rev-parse"@, "HEAD"@]);
    let reset = requests::run_in(repo, "git"@, seq!["reset"@, "--hard"@, "HEAD"@]);
    let switch = requests::run_in(repo, "git"@, seq!["checkout"@, branch]);
    let pull = requests::run_in(repo, "git"@, seq!["pull"@]);
    let url = requests::run_in(repo, "git"@, seq!["config"@, "--get"@, "remote.origin.url"@]);
    lemma_refresh_tail(repo, replies, status, n, n2, n3, branch, 0, sha);
    lemma_refresh_tail(repo, replies, status, n, n2, n3, branch, 1, reset);
    lemma_refresh_tail(repo, replies, status, n, n2, n3, branch, 2, switch);
    lemma_refresh_tail(repo, replies, status, n, n2, n3, branch, 3, pull);
    lemma_refresh_tail(repo, replies, status, n, n2, n3, branch, 4, sha);
    lemma_refresh_tail(repo, replies, status, n, n2, n3, branch, m - 1, url);
    assert(left[0] == replies[start]);
    assert(left[1] == replies[start + 1]);
    assert(left[2] == replies[start + 2]);
    assert(left[3] == replies[start + 3]);
    assert(left[4] == replies[start + 4]);
    assert(left[m - 1] == replies[n - 1]);
}

/// A refresh that ends with a line on a clone has pruned the branches of its remote
/// first, and brought it up to date on the branch that the line tells. The last
/// thing that it asked for is the address of what it is a clone of, and the line
/// tells that.
pub proof fn law_refreshed_clones_are_up_to_date(
    repo: Seq<char>,
    replies: Seq<Reply>,
    status: Status,
    n: nat,
)
    requires
        sandbox::refresh_repo_turn(repo, replies) == Turn::Done(
            Some(Ok::<Status, Seq<char>>(status)),
            n,
        ),
        n <= replies.len(),
    ensures
        git_went_well_at(repo, replies, 0, seq!["remote"@, "prune"@, "origin"@]),
        exists|at: int| #[trigger] updated_at(repo, replies, status, at) && at + 3 < n,
        git_went_well_at(repo, replies, n - 1, seq!["config"@, "--get"@, "remote.origin.url"@]),
        git::slug_in(said_at(replies, n - 1)) == Ok::<Seq<char>, Seq<char>>(status.reposlug),
{
    let (n2, n3, branch) = lemma_splits(repo, replies, status, n);
    lemma_split_tail(repo, replies, status, n as int, n2, n3, branch);
    lemma_split_is_up_to_date(repo, replies, status, n as int, n2, n3, branch);
    lemma_refresh_begins(repo, replies);
}

// ---------------------------------------------------------------------------
// What a refresh deletes
// ---------------------------------------------------------------------------

/// A local branch of a clone that is to be deleted.
pub open spec fn dropping(repo: Seq<char>, branch: Seq<char>) -> Wish {
    requests::run_in(repo, "git"@, seq!["branch"@, "-D"@, branch])
}

/// The question whether the remote has a branch.
pub open spec fn seeking(repo: Seq<char>, branch: Seq<char>) -> Wish {
    requests::run_in(
        repo,
        "git"@,
        seq!["ls-remote"@, "--exit-code"@, "--heads"@, "origin"@, "refs/heads/"@ + branch],
    )
}

/// Whether a request deletes a local branch.
spec fn drops(wish: Wish) -> bool {
    wish matches Wish::Run(call) && call.args.len() == 3 && call.args[0] == "branch"@
        && call.args[1] == "-D"@
}

/// Whether the next thing that a conversation asks for deletes no local branch.
spec fn drops_nothing<T>(turn: Turn<T>) -> bool {
    turn matches Turn::Ask(wish) ==> !drops(wish)
}

proof fn lemma_words()
    ensures
        "branch"@ != "symbolic-ref"@,
        "branch"@ != "rev-parse"@,
        "branch"@ != "ls-remote"@,
        "branch"@ != "checkout"@,
        "branch"@ != "remote"@,
        "branch"@ != "reset"@,
        "branch"@ != "pull"@,
        "branch"@ != "config"@,
        "branch"@ != "install"@,
        "-D"@ != "--list"@,
{
    reveal_strlit("branch");
    reveal_strlit("symbolic-ref");
    reveal_strlit("rev-parse");
    reveal_strlit("ls-remote");
    reveal_strlit("checkout");
    reveal_strlit("remote");
    reveal_strlit("reset");
    reveal_strlit("pull");
    reveal_strlit("config");
    reveal_strlit("install");
    reveal_strlit("-D");
    reveal_strlit("--list");
    assert("branch"@[0] == 'b' && "remote"@[0] == 'r' && "config"@[0] == 'c');
    assert("-D"@.len() == 2 && "--list"@.len() == 6);
}

proof fn lemma_head_drops_nothing(repo: Seq<char>, replies: Seq<Reply>)
    ensures
        drops_nothing(git::get_head_branch_turn(repo, replies)),
{
    lemma_words();
    reveal_with_fuel(git::common_branch_turn, 3);
}

proof fn lemma_safe_delete_drops(
    repo: Seq<char>,
    branch: Seq<char>,
    replies: Seq<Reply>,
    wish: Wish,
)
    requires
        requests::asks(git::safe_delete_local_branch_turn(repo, branch, replies), wish),
        drops(wish),
    ensures
        wish == dropping(repo, branch),
{
    lemma_words();
    match git::current_branch_turn(repo, replies) {
        Turn::Done(Ok(_), n) => {
            lemma_head_drops_nothing(repo, replies.skip(n as int));
        },
        _ => {},
    }
}

/// Whether the conversation that cleans branches has asked the remote for one, and
/// the remote did not show it.
spec fn was_sought(
    repo: Seq<char>,
    branches: Seq<Seq<char>>,
    replies: Seq<Reply>,
    branch: Seq<char>,
    at: int,
) -> bool {
    &&& 0 <= at < replies.len()
    &&& requests::asks(
        sandbox::clean_branches_turn(repo, branches, replies.take(at)),
        seeking(repo, branch),
    )
    &&& replies[at] is Ok
    &&& !requests::went_well(replies[at])
}

proof fn lemma_head_is_within(repo: Seq<char>, replies: Seq<Reply>)
    ensures
        git::get_head_branch_turn(repo, replies) matches Turn::Done(_, n) ==> n <= replies.len(),
{
    reveal_with_fuel(git::common_branch_turn, 3);
    let names = seq!["main"@, "master"@];
    assert(names.drop_first() =~= seq!["master"@]);
    assert(names.drop_first().drop_first() =~= Seq::empty());
}

proof fn lemma_safe_delete_is_within(repo: Seq<char>, branch: Seq<char>, replies: Seq<Reply>)
    ensures
        git::safe_delete_local_branch_turn(repo, branch, replies) matches Turn::Done(_, n) ==> n
            <= replies.len(),
{
    match git::current_branch_turn(repo, replies) {
        Turn::Done(Ok(_), n) => {
            lemma_head_is_within(repo, replies.skip(n as int));
        },
        _ => {},
    }
}

proof fn lemma_cleaning_is_within(
    repo: Seq<char>,
    branches: Seq<Seq<char>>,
    replies: Seq<Reply>,
)
    ensures
        sandbox::clean_branches_turn(repo, branches, replies) matches Turn::Done(_, n) ==> n
            <= replies.len(),
    decreases branches.len(),
{
    if branches.len() > 0 {
        let front = branches.drop_last();
        lemma_cleaning_is_within(repo, front, replies);
        match sandbox::clean_branches_turn(repo, front, replies) {
            Turn::Done(Ok(_), n) => {
                lemma_safe_delete_is_within(
                    repo,
                    branches.last(),
                    replies.skip(n as int).skip(1),
                );
            },
            _ => {},
        }
    }
}

proof fn lemma_cleaning_drops(
    repo: Seq<char>,
    branches: Seq<Seq<char>>,
    replies: Seq<Reply>,
    wish: Wish,
) -> (r: (Seq<char>, int))
    requires
        requests::asks(sandbox::clean_branches_turn(repo, branches, replies), wish),
        drops(wish),
    ensures
        wish == dropping(repo, r.0),
        branches.contains(r.0),
        was_sought(repo, branches, replies, r.0, r.1),
    decreases branches.len(),
{
    lemma_words();
    let front = branches.drop_last();
    match sandbox::clean_branches_turn(repo, front, replies) {
        Turn::Ask(_) => {
            let (branch, at) = lemma_cleaning_drops(repo, front, replies, wish);
            let k = choose|k: int| 0 <= k < front.len() && front[k] == branch;
            assert(branches[k] == branch);
            (branch, at)
        },
        Turn::Done(_, n) => {
            let branch = branches.last();
            let at = n as int;
            let left = replies.skip(at);
            lemma_cleaning_is_within(repo, front, replies);
            if git::remote_branch_exists_turn(repo, branch, left) is Ask {
                assert(!drops(seeking(repo, branch)));
            }
            lemma_safe_delete_drops(repo, branch, left.skip(1), wish);
            assert(left.len() > 0);
            assert(left[0] == replies[at]);
            lemma_clean_branches_keeps(repo, front, replies, at);
            assert(replies.take(at).skip(at) =~= Seq::empty());
            assert(branches[branches.len() - 1] == branch);
            (branch, at)
        },
    }
}

/// Whether a branch is one that a line of `git branch --list` names, and starts with
/// "SLAM".
pub open spec fn lists_slam_branch(line: Seq<char>, branch: Seq<char>) -> bool {
    &&& branch == text::without_leading(text::trim(line), "* "@)
    &&& branch.len() >= 4 && branch[0] == 'S' && branch[1] == 'L' && branch[2] == 'A' && branch[3]
        == 'M'
}

/// Whether the remote was asked for a branch after so many answers, and did not
/// show it.
pub open spec fn sought_in_vain(
    repo: Seq<char>,
    replies: Seq<Reply>,
    branch: Seq<char>,
    at: int,
) -> bool {
    &&& 0 <= at < replies.len()
    &&& requests::asks(
        sandbox::refresh_repo_turn(repo, replies.take(at)),
        seeking(repo, branch),
    )
    &&& replies[at] is Ok
    &&& !requests::went_well(replies[at])
}

proof fn lemma_refresh_drops_while_cleaning(repo: Seq<char>, replies: Seq<Reply>, wish: Wish)
    requires
        requests::asks(sandbox::refresh_repo_turn(repo, replies), wish),
        drops(wish),
    ensures
        replies.len() > 0,
        requests::went_well(replies[0]),
        requests::asks(sandbox::clean_turn(repo, replies.skip(1)), wish),
{
    lemma_words();
    match git::remote_prune_turn(repo, replies) {
        Turn::Done(Ok(_), n1) => {
            let left1 = replies.skip(n1 as int);
            match sandbox::clean_turn(repo, left1) {
                Turn::Done(Ok(_), n2) => {
                    let left2 = left1.skip(n2 as int);
                    lemma_head_drops_nothing(repo, left2);
                },
                _ => {},
            }
        },
        _ => {},
    }
}

/// A refresh deletes no local branch but one that starts with "SLAM", that git lists
/// in the clone, and that the remote, asked for it, did not show.
pub proof fn law_refreshes_delete_only_what_is_gone(
    repo: Seq<char>,
    replies: Seq<Reply>,
    branch: Seq<char>,
)
    requires
        requests::asks(sandbox::refresh_repo_turn(repo, replies), dropping(repo, branch)),
    ensures
        replies.len() > 1,
        requests::asks(
            sandbox::refresh_repo_turn(repo, replies.take(1)),
            requests::run_in(repo, "git"@, seq!["branch"@, "--list"@]),
        ),
        requests::went_well(replies[1]),
        exists|i: int|
            0 <= i < text::lines(command::said(replies[1])).len() && lists_slam_branch(
                #[trigger] text::lines(command::said(replies[1]))[i],
                branch,
            ),
        exists|at: int| #[trigger] sought_in_vain(repo, replies, branch, at),
{
    let wish = dropping(repo, branch);
    lemma_words();
    assert(drops(wish));
    lemma_refresh_drops_while_cleaning(repo, replies, wish);
    let left = replies.skip(1);
    assert(left.len() > 0) by {
        if left.len() == 0 {
            assert(sandbox::clean_turn(repo, left) is Ask);
        }
    }
    assert(left[0] == replies[1]);
    let branches = git::listed_branches(command::said(replies[1]), "SLAM"@);
    let left2 = left.skip(1);
    let (found, at) = lemma_cleaning_drops(repo, branches, left2, wish);
    assert(dropping(repo, found) == dropping(repo, branch));
    assert(seq!["branch"@, "-D"@, found][2] == seq!["branch"@, "-D"@, branch][2]);
    let lines = text::lines(command::said(replies[1]));
    let pick = |line: Seq<char>| git::listed_branch(line, "SLAM"@);
    assert(branches == lines.filter_map(pick));
    requests::lemma_left_from(lines, pick, branch);
    let i = choose|i: int| 0 <= i < lines.len() && pick(#[trigger] lines[i]) == Some(branch);
    review_laws::lemma_slam(branch);
    assert(lists_slam_branch(lines[i], branch));
    let one = replies.take(1);
    assert(one[0] == replies[0]);
    assert(one.skip(1) =~= Seq::empty());
    let early = replies.take(2 + at);
    lemma_take_skip(replies, 2 + at, 1);
    assert(early.skip(1).skip(1) =~= left2.take(at));
    assert(early[0] == replies[0]);
    assert(early.skip(1)[0] == replies[1]);
    assert(left2[at] == replies[2 + at]);
    assert(sought_in_vain(repo, replies, branch, 2 + at));
}

// ---------------------------------------------------------------------------
// The repositories of the sandbox
// ---------------------------------------------------------------------------

/// The sandbox is to hold exactly the repositories in whose slugs one of the patterns
/// stands. Without patterns it is to hold all.
pub proof fn law_patterns_stand_in_slugs(
    repos: Seq<Seq<char>>,
    patterns: Seq<Seq<char>>,
    slug: Seq<char>,
)
    ensures
        repos.filter_map(
            |slug: Seq<char>|
                if sandbox::wanted(slug, patterns) {
                    Some(slug)
                } else {
                    None
                },
        ).contains(slug) <==> repos.contains(slug) && (patterns.len() == 0 || exists|
            i: int,
            at: int,
        |
            0 <= i < patterns.len() && 0 <= at <= slug.len() - patterns[i].len()
                && #[trigger] slug.subrange(at, at + (#[trigger] patterns[i]).len())
                == patterns[i]),
{
    let pick = |slug: Seq<char>|
        if sandbox::wanted(slug, patterns) {
            Some(slug)
        } else {
            None
        };
    if repos.filter_map(pick).contains(slug) {
        requests::lemma_left_from(repos, pick, slug);
    }
    if repos.contains(slug) && sandbox::wanted(slug, patterns) {
        let i = choose|i: int| 0 <= i < repos.len() && repos[i] == slug;
        requests::lemma_left_has(repos, pick, i);
    }
    if sandbox::wanted(slug, patterns) && patterns.len() > 0 {
        let i = choose|i: int|
            0 <= i < patterns.len() && text::holds(slug, #[trigger] patterns[i]);
        let at = choose|at: int| #[trigger] text::occurs_at(slug, patterns[i], at);
        assert(slug.subrange(at, at + patterns[i].len()) == patterns[i]);
    }
    if exists|i: int, at: int|
        0 <= i < patterns.len() && 0 <= at <= slug.len() - patterns[i].len()
            && #[trigger] slug.subrange(at, at + (#[trigger] patterns[i]).len()) == patterns[i] {
        let (i, at) = choose|i: int, at: int|
            0 <= i < patterns.len() && 0 <= at <= slug.len() - patterns[i].len()
                && #[trigger] slug.subrange(at, at + (#[trigger] patterns[i]).len())
                == patterns[i];
        assert(text::occurs_at(slug, patterns[i], at));
        assert(text::holds(slug, patterns[i]));
    }
}

/// What goes wrong with a repository is told of with its slug: whether it was refreshed,
/// cloned, or asked how it stands.
pub proof fn law_troubles_are_told_with_the_slug(
    cwd: Seq<char>,
    slug: Seq<char>,
    look: Reply,
    replies: Seq<Reply>,
    ssh: Reply,
    cloned: Reply,
)
    ensures
        requests::went_well(look) ==> (sandbox::refresh_repo_turn(
            paths::join(cwd, slug),
            replies,
        ) matches Turn::Done(Some(Err(e)), n) ==> sandbox::set_up_turn(
            cwd,
            slug,
            seq![look] + replies,
        ) == Turn::Done(
            Some(
                Err::<sandbox::Status, Seq<char>>(
                    "Failed to refresh repository "@ + slug + ": "@ + e,
                ),
            ),
            n + 1,
        )),
        !requests::went_well(look) && ssh is Ok && cloned is Ok && !requests::went_well(cloned)
            ==> sandbox::set_up_turn(cwd, slug, seq![look, ssh, cloned]) == Turn::Done(
            Some(
                Err::<sandbox::Status, Seq<char>>(
                    "Failed to clone repository "@ + slug + ": "@ + ("git clone failed for "@ + slug
                        + " via "@ + ("git@github.com:"@ + slug + ".git"@)),
                ),
            ),
            3,
        ),
{
    assert((seq![look] + replies).skip(1) =~= replies);
    assert((seq![look] + replies)[0] == look);
    let all = seq![look, ssh, cloned];
    assert(all.skip(1) =~= seq![ssh, cloned]);
    assert(seq![ssh, cloned].skip(1) =~= seq![cloned]);
}

/// A local branch that the remote does not have is deleted, once the clone is on another
/// branch. One that the remote has, or of which it does not tell, stays.
pub proof fn law_gone_branches_are_deleted(
    repo: Seq<char>,
    branch: Seq<char>,
    sought: Reply,
    current: Reply,
)
    ensures
        requests::asks(sandbox::clean_branch_turn(repo, branch, Seq::empty()), seeking(repo, branch)),
        sought is Ok && !requests::went_well(sought) ==> requests::asks(
            sandbox::clean_branch_turn(repo, branch, seq![sought]),
            requests::run_in(repo, "git"@, seq!["symbolic-ref"@, "--short"@, "HEAD"@]),
        ),
        sought is Ok && !requests::went_well(sought) && requests::went_well(current) && text::trim(
            requests::answered(current),
        ) != text::trim(branch) ==> requests::asks(
            sandbox::clean_branch_turn(repo, branch, seq![sought, current]),
            dropping(repo, branch),
        ),
        requests::went_well(sought) || sought is Err ==> requests::comes_to(
            sandbox::clean_branch_turn(repo, branch, seq![sought]),
            (),
        ),
{
    assert(seq![sought].skip(1) =~= Seq::empty());
    assert(seq![sought, current].skip(1) =~= seq![current]);
    assert(seq![current].skip(1) =~= Seq::empty());
    assert(Seq::<Reply>::empty().skip(0) =~= Seq::empty());
}

/// All local branches that are listed and start with "SLAM" are looked after, one after
/// the other, right after the listing.
pub proof fn law_every_branch_is_looked_after(
    repo: Seq<char>,
    pruned: Reply,
    listed: Reply,
    rest: Seq<Reply>,
    branches: Seq<Seq<char>>,
    branch: Seq<char>,
)
    ensures
        sandbox::clean_branches_turn(repo, branches, rest) == Turn::Done(
            Ok::<(), Seq<char>>(()),
            rest.len(),
        ) ==> requests::asks(
            sandbox::clean_branches_turn(repo, branches.push(branch), rest),
            seeking(repo, branch),
        ),
        requests::went_well(pruned) && requests::went_well(listed) ==> (
        sandbox::clean_branches_turn(
            repo,
            git::listed_branches(requests::printed(listed), "SLAM"@),
            rest,
        ) matches Turn::Ask(wish) ==> requests::asks(
            sandbox::refresh_repo_turn(repo, seq![pruned, listed] + rest),
            wish,
        )),
{
    assert(branches.push(branch).drop_last() =~= branches);
    assert(rest.skip(rest.len() as int) =~= Seq::empty());
    let all = seq![pruned, listed] + rest;
    assert(all.skip(1) =~= seq![listed] + rest);
    assert((seq![listed] + rest).skip(1) =~= rest);
    assert(all[0] == pruned && (seq![listed] + rest)[0] == listed);
    assert(requests::printed(listed) == command::said(listed));
}

/// A clone that was just made is told of as new, with the head branch and the commit that
/// git names, and the slug that its address names. One without hooks is marked so.
pub proof fn law_new_clones_are_new(
    repo: Seq<char>,
    branch: Seq<char>,
    slug: Seq<char>,
    head: Reply,
    commit: Reply,
    config: Reply,
    address: Reply,
)
    requires
        requests::went_well(head),
        requests::answered(head) == "refs/remotes/origin/"@ + branch,
        requests::went_well(commit),
        requests::answered(commit).len() >= 7,
        forall|k: int|
            0 <= k < 7 ==> (#[trigger] requests::answered(commit)[k] as u32) < 128,
        !requests::went_well(config),
        requests::went_well(address),
        requests::answered(address) == "git@github.com:"@ + slug + ".git"@,
        !text::finishes_with(slug, ".git"@),
    ensures
        sandbox::generate_clone_status_turn(repo, seq![head, commit, config, address])
            == Turn::Done(
            Some(
                Ok::<Status, Seq<char>>(
                    Status {
                        branch,
                        sha: requests::answered(commit).take(7),
                        fresh: true,
                        hooks: "❓"@,
                        reposlug: slug,
                    },
                ),
            ),
            4,
        ),
{
    let origin = "refs/remotes/origin/"@;
    let name = origin + branch;
    assert(name.subrange(0, origin.len() as int) =~= origin);
    assert(name.skip(origin.len() as int) =~= branch);
    command_laws::law_commits_are_told_of_in_short(requests::answered(commit));
    git_laws::law_slugs_are_in_addresses(repo, slug, address);
    let all = seq![head, commit, config, address];
    assert(all.skip(1) =~= seq![commit, config, address]);
    assert(seq![commit, config, address].skip(1) =~= seq![config, address]);
    assert(seq![config, address].skip(1) =~= seq![address]);
    assert(git::get_repo_slug_turn(repo, seq![address]) == Turn::Done(
        Ok::<Seq<char>, Seq<char>>(slug),
        1,
    ));
}

} // verus!
