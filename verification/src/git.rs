//! What is asked of `git`, and what its answers mean.
use crate::command;
use crate::command::{
    after, carried_out, carried_out_bare, err_text, must_speak, must_succeed, must_succeed_bare,
    out_text, success, Invocation, Meaning, Reply, Request, Step, Turn, Wish,
};
use crate::text;
use crate::text::{
    blank, cat2, cat3, cat4, cat6, chars_of, debug_list, lines_of, owned, same, slice_of,
    starts_with, strip_prefix, trim_end_matches, trim_start_matches, trimmed,
};
use vstd::prelude::*;

verus! {

/// A run of `git` in a repository.
pub open spec fn git_wish(repo_path: Seq<char>, args: Seq<Seq<char>>) -> Wish {
    Wish::Run(command::within(repo_path, "git"@, args))
}

/// A run of `git` in a repository, without arguments so far.
fn git_in(repo_path: &str) -> (r: Invocation)
    ensures
        r@ == command::within(repo_path@, "git"@, Seq::empty()),
{
    Invocation::new_in(repo_path, "git")
}

// ---------------------------------------------------------------------------
// Branches
// ---------------------------------------------------------------------------

/// The conversation of `checkout`.
pub open spec fn checkout_turn(
    repo_path: Seq<char>,
    branch: Seq<char>,
    replies: Seq<Reply>,
) -> Turn<Result<(), Seq<char>>> {
    command::once(
        git_wish(repo_path, seq!["checkout"@, branch]),
        replies,
        |r: Reply|
            command::must(
                r,
                "Failed to execute git checkout: "@,
                "Failed to checkout branch '"@ + branch + "' in '"@ + repo_path + "': "@
                    + command::complained(r),
            ),
    )
}

/// A generic checkout function for switching branches.
pub fn checkout(
    repo_path: &str,
    branch: &str,
    replies: &[Reply],
) -> (step: Step<Result<(), String>>)
    ensures
        step.meaning() == checkout_turn(repo_path@, branch@, replies@),
        command::heard_enough(step, replies@),
{
    if replies.len() == 0 {
        return Step::Ask(Request::Run(git_in(repo_path).arg("checkout").arg(branch)));
    }
    let r = &replies[0];
    Step::Done(
        must_succeed(
            r,
            "Failed to execute git checkout: ",
            cat6("Failed to checkout branch '", branch, "' in '", repo_path, "': ", &err_text(r)),
        ),
        1,
    )
}

/// The conversation of `checkout_branch`.
pub open spec fn checkout_branch_turn(
    repo_path: Seq<char>,
    branch: Seq<char>,
    replies: Seq<Reply>,
) -> Turn<Result<(), Seq<char>>> {
    command::once(
        git_wish(repo_path, seq!["checkout"@, "-B"@, branch, "--quiet"@]),
        replies,
        |r: Reply|
            command::must(
                r,
                "Failed to execute git checkout: "@,
                "Failed to checkout branch "@ + branch + ": "@ + command::complained(r),
            ),
    )
}

/// Checks out `branch` anew, whether or not it was there before.
pub fn checkout_branch(
    repo_path: &str,
    branch: &str,
    replies: &[Reply],
) -> (step: Step<Result<(), String>>)
    ensures
        step.meaning() == checkout_branch_turn(repo_path@, branch@, replies@),
        command::heard_enough(step, replies@),
{
    if replies.len() == 0 {
        return Step::Ask(
            Request::Run(git_in(repo_path).arg("checkout").arg("-B").arg(branch).arg("--quiet")),
        );
    }
    let r = &replies[0];
    Step::Done(
        must_succeed(
            r,
            "Failed to execute git checkout: ",
            cat4("Failed to checkout branch ", branch, ": ", &err_text(r)),
        ),
        1,
    )
}

/// The conversation of `branch_exists`.
pub open spec fn branch_exists_turn(
    repo_path: Seq<char>,
    branch: Seq<char>,
    replies: Seq<Reply>,
) -> Turn<Result<bool, Seq<char>>> {
    command::once(
        git_wish(repo_path, seq!["rev-parse"@, "--verify"@, "refs/heads/"@ + branch]),
        replies,
        |r: Reply| command::carried(r, "Failed to execute git rev-parse: "@, command::succeeded(r)),
    )
}

/// Check if a local branch exists in the repository.
pub fn branch_exists(
    repo_path: &str,
    branch: &str,
    replies: &[Reply],
) -> (step: Step<Result<bool, String>>)
    ensures
        step.meaning() == branch_exists_turn(repo_path@, branch@, replies@),
        command::heard_enough(step, replies@),
{
    if replies.len() == 0 {
        return Step::Ask(
            Request::Run(
                git_in(repo_path)
                    .arg("rev-parse")
                    .arg("--verify")
                    .arg(&cat2("refs/heads/", branch)),
            ),
        );
    }
    let r = &replies[0];
    Step::Done(carried_out(r, "Failed to execute git rev-parse: ", success(r)), 1)
}

/// The request for a branch of the remote.
pub open spec fn ls_remote_wish(repo_path: Seq<char>, branch: Seq<char>) -> Wish {
    git_wish(
        repo_path,
        seq![
            "ls-remote"@,
            "--exit-code"@,
            "--heads"@,
            "origin"@,
            "refs/heads/"@ + branch,
        ],
    )
}

/// The request for a branch of the remote.
fn ls_remote(repo_path: &str, branch: &str) -> (r: Request)
    ensures
        r@ == ls_remote_wish(repo_path@, branch@),
{
    Request::Run(
        git_in(repo_path)
            .arg("ls-remote")
            .arg("--exit-code")
            .arg("--heads")
            .arg("origin")
            .arg(&cat2("refs/heads/", branch)),
    )
}

/// The conversation of `remote_branch_exists`.
pub open spec fn remote_branch_exists_turn(
    repo_path: Seq<char>,
    branch: Seq<char>,
    replies: Seq<Reply>,
) -> Turn<Result<bool, Seq<char>>> {
    command::once(
        ls_remote_wish(repo_path, branch),
        replies,
        |r: Reply| command::carried(r, "Failed to execute git ls-remote: "@, command::succeeded(r)),
    )
}

/// Check if a remote branch exists by using ls-remote.
pub fn remote_branch_exists(
    repo_path: &str,
    branch: &str,
    replies: &[Reply],
) -> (step: Step<Result<bool, String>>)
    ensures
        step.meaning() == remote_branch_exists_turn(repo_path@, branch@, replies@),
        command::heard_enough(step, replies@),
{
    if replies.len() == 0 {
        return Step::Ask(ls_remote(repo_path, branch));
    }
    let r = &replies[0];
    Step::Done(carried_out(r, "Failed to execute git ls-remote: ", success(r)), 1)
}

/// The first tab from `from` on, or the end.
pub open spec fn field_end(s: Seq<char>, from: int) -> int
    decreases s.len() - from,
{
    if 0 <= from < s.len() && s[from] != '\t' {
        field_end(s, from + 1)
    } else {
        from
    }
}

/// What stands before the first tab.
pub open spec fn first_field(s: Seq<char>) -> Seq<char> {
    s.subrange(0, field_end(s, 0))
}

/// What stands before the first tab.
pub fn first_field_of(s: &str) -> (r: String)
    ensures
        r@ == first_field(s@),
{
    let v = chars_of(s);
    let mut i: usize = 0;
    while i < v.len() && v[i] != '\t'
        invariant
            i <= v@.len(),
            field_end(v@, 0) == field_end(v@, i as int),
        ensures
            i <= v@.len(),
            field_end(v@, 0) == i,
        decreases v@.len() - i,
    {
        i += 1;
    }
    slice_of(&v, 0, i)
}

/// The conversation of `remote_branch_commit`.
pub open spec fn remote_branch_commit_turn(
    repo_path: Seq<char>,
    branch: Seq<char>,
    replies: Seq<Reply>,
) -> Turn<Result<Option<Seq<char>>, Seq<char>>> {
    command::once(
        ls_remote_wish(repo_path, branch),
        replies,
        |r: Reply|
            command::carried(
                r,
                "Failed to execute git ls-remote: "@,
                if command::succeeded(r) {
                    Some(first_field(command::said(r)))
                } else {
                    None
                },
            ),
    )
}

/// The commit that a branch of the remote is at, if the remote has the branch.
pub fn remote_branch_commit(
    repo_path: &str,
    branch: &str,
    replies: &[Reply],
) -> (step: Step<Result<Option<String>, String>>)
    ensures
        step.meaning() == remote_branch_commit_turn(repo_path@, branch@, replies@),
        command::heard_enough(step, replies@),
{
    if replies.len() == 0 {
        return Step::Ask(ls_remote(repo_path, branch));
    }
    let r = &replies[0];
    let commit = if success(r) {
        Some(first_field_of(&out_text(r)))
    } else {
        None
    };
    Step::Done(carried_out(r, "Failed to execute git ls-remote: ", commit), 1)
}

/// The conversation of `current_branch`.
pub open spec fn current_branch_turn(
    repo_path: Seq<char>,
    replies: Seq<Reply>,
) -> Turn<Result<Seq<char>, Seq<char>>> {
    command::once(
        git_wish(repo_path, seq!["symbolic-ref"@, "--short"@, "HEAD"@]),
        replies,
        |r: Reply|
            command::must_say(
                r,
                "Failed to determine current branch: "@,
                "Failed to determine current branch in '"@ + repo_path + "'"@,
            ),
    )
}

/// Get the current branch name using symbolic-ref.
pub fn current_branch(repo_path: &str, replies: &[Reply]) -> (step: Step<Result<String, String>>)
    ensures
        step.meaning() == current_branch_turn(repo_path@, replies@),
        command::heard_enough(step, replies@),
{
    if replies.len() == 0 {
        return Step::Ask(
            Request::Run(git_in(repo_path).arg("symbolic-ref").arg("--short").arg("HEAD")),
        );
    }
    let r = &replies[0];
    Step::Done(
        must_speak(
            r,
            "Failed to determine current branch: ",
            cat3("Failed to determine current branch in '", repo_path, "'"),
        ),
        1,
    )
}

/// The conversation of `delete_local_branch`.
pub open spec fn delete_local_branch_turn(
    repo_path: Seq<char>,
    branch: Seq<char>,
    replies: Seq<Reply>,
) -> Turn<Result<(), Seq<char>>> {
    command::once(
        git_wish(repo_path, seq!["branch"@, "-D"@, branch]),
        replies,
        |r: Reply|
            command::must_bare(
                r,
                "Failed to delete local branch '"@ + branch + "' in '"@ + repo_path + "': "@
                    + command::complained(r),
            ),
    )
}

/// Deletes a local branch, merged or not.
pub fn delete_local_branch(
    repo_path: &str,
    branch: &str,
    replies: &[Reply],
) -> (step: Step<Result<(), String>>)
    ensures
        step.meaning() == delete_local_branch_turn(repo_path@, branch@, replies@),
        command::heard_enough(step, replies@),
{
    if replies.len() == 0 {
        return Step::Ask(Request::Run(git_in(repo_path).arg("branch").arg("-D").arg(branch)));
    }
    let r = &replies[0];
    Step::Done(
        must_succeed_bare(
            r,
            cat6(
                "Failed to delete local branch '",
                branch,
                "' in '",
                repo_path,
                "': ",
                &err_text(r),
            ),
        ),
        1,
    )
}

/// The conversation of `delete_remote_branch`.
pub open spec fn delete_remote_branch_turn(
    repo_path: Seq<char>,
    branch: Seq<char>,
    replies: Seq<Reply>,
) -> Turn<Result<(), Seq<char>>> {
    command::once(
        git_wish(repo_path, seq!["push"@, "origin"@, ":"@ + branch]),
        replies,
        |r: Reply| command::carried_bare(r, ()),
    )
}

/// Deletes a branch of the remote. That it could not be deleted is no error.
pub fn delete_remote_branch(
    repo_path: &str,
    branch: &str,
    replies: &[Reply],
) -> (step: Step<Result<(), String>>)
    ensures
        step.meaning() == delete_remote_branch_turn(repo_path@, branch@, replies@),
        command::heard_enough(step, replies@),
{
    if replies.len() == 0 {
        return Step::Ask(
            Request::Run(git_in(repo_path).arg("push").arg("origin").arg(&cat2(":", branch))),
        );
    }
    let r = &replies[0];
    Step::Done(carried_out_bare(r, ()), 1)
}

// ---------------------------------------------------------------------------
// The working tree and its history
// ---------------------------------------------------------------------------

/// The conversation of `reset_commit`.
pub open spec fn reset_commit_turn(
    repo_path: Seq<char>,
    replies: Seq<Reply>,
) -> Turn<Result<(), Seq<char>>> {
    command::once(
        git_wish(repo_path, seq!["reset"@, "--soft"@, "HEAD~1"@]),
        replies,
        |r: Reply|
            command::must(
                r,
                "Failed to execute git reset --soft HEAD~1: "@,
                "Failed to reset commit in '"@ + repo_path + "': "@ + command::complained(r),
            ),
    )
}

/// Reset the most recent commit (soft reset) so that changes remain staged.
pub fn reset_commit(repo_path: &str, replies: &[Reply]) -> (step: Step<Result<(), String>>)
    ensures
        step.meaning() == reset_commit_turn(repo_path@, replies@),
        command::heard_enough(step, replies@),
{
    if replies.len() == 0 {
        return Step::Ask(Request::Run(git_in(repo_path).arg("reset").arg("--soft").arg("HEAD~1")));
    }
    let r = &replies[0];
    Step::Done(
        must_succeed(
            r,
            "Failed to execute git reset --soft HEAD~1: ",
            cat4("Failed to reset commit in '", repo_path, "': ", &err_text(r)),
        ),
        1,
    )
}

/// The conversation of `reset_hard`.
pub open spec fn reset_hard_turn(
    repo_path: Seq<char>,
    replies: Seq<Reply>,
) -> Turn<Result<(), Seq<char>>> {
    command::once(
        git_wish(repo_path, seq!["reset"@, "--hard"@, "HEAD"@]),
        replies,
        |r: Reply|
            command::must(
                r,
                "Failed to run git reset --hard: "@,
                "Failed to reset hard: "@ + command::complained(r),
            ),
    )
}

/// Resets the repository hard to HEAD.
pub fn reset_hard(repo_path: &str, replies: &[Reply]) -> (step: Step<Result<(), String>>)
    ensures
        step.meaning() == reset_hard_turn(repo_path@, replies@),
        command::heard_enough(step, replies@),
{
    if replies.len() == 0 {
        return Step::Ask(Request::Run(git_in(repo_path).arg("reset").arg("--hard").arg("HEAD")));
    }
    let r = &replies[0];
    Step::Done(
        must_succeed(
            r,
            "Failed to run git reset --hard: ",
            cat2("Failed to reset hard: ", &err_text(r)),
        ),
        1,
    )
}

/// The conversation of `pull`.
pub open spec fn pull_turn(
    repo_path: Seq<char>,
    replies: Seq<Reply>,
) -> Turn<Result<(), Seq<char>>> {
    command::once(
        git_wish(repo_path, seq!["pull"@]),
        replies,
        |r: Reply|
            command::must(
                r,
                "Failed to run git pull: "@,
                "Failed to pull changes: "@ + command::complained(r),
            ),
    )
}

/// Pulls the latest changes from remote.
pub fn pull(repo_path: &str, replies: &[Reply]) -> (step: Step<Result<(), String>>)
    ensures
        step.meaning() == pull_turn(repo_path@, replies@),
        command::heard_enough(step, replies@),
{
    if replies.len() == 0 {
        return Step::Ask(Request::Run(git_in(repo_path).arg("pull")));
    }
    let r = &replies[0];
    Step::Done(
        must_succeed(r, "Failed to run git pull: ", cat2("Failed to pull changes: ", &err_text(r))),
        1,
    )
}

/// The conversation of `commit_all`.
pub open spec fn commit_all_turn(
    repo_path: Seq<char>,
    message: Seq<char>,
    replies: Seq<Reply>,
) -> Turn<Result<(), Seq<char>>> {
    command::once(
        git_wish(repo_path, seq!["commit"@, "-am"@, message]),
        replies,
        |r: Reply|
            command::must(
                r,
                "Failed to run git commit -am: "@,
                "Failed to commit changes: "@ + command::complained(r),
            ),
    )
}

/// Stages all changes and commits them with the provided message using "git commit -am".
pub fn commit_all(
    repo_path: &str,
    message: &str,
    replies: &[Reply],
) -> (step: Step<Result<(), String>>)
    ensures
        step.meaning() == commit_all_turn(repo_path@, message@, replies@),
        command::heard_enough(step, replies@),
{
    if replies.len() == 0 {
        return Step::Ask(Request::Run(git_in(repo_path).arg("commit").arg("-am").arg(message)));
    }
    let r = &replies[0];
    Step::Done(
        must_succeed(
            r,
            "Failed to run git commit -am: ",
            cat2("Failed to commit changes: ", &err_text(r)),
        ),
        1,
    )
}

/// The conversation of `has_modified_files`.
pub open spec fn has_modified_files_turn(
    repo_path: Seq<char>,
    replies: Seq<Reply>,
) -> Turn<Result<bool, Seq<char>>> {
    command::once(
        git_wish(repo_path, seq!["diff-index"@, "--quiet"@, "HEAD"@, "--"@]),
        replies,
        |r: Reply| command::carried(r, "Failed to run git diff-index: "@, !command::succeeded(r)),
    )
}

/// Returns true if there are any modifications (unstaged or staged) compared to HEAD.
pub fn has_modified_files(repo_path: &str, replies: &[Reply]) -> (step: Step<Result<bool, String>>)
    ensures
        step.meaning() == has_modified_files_turn(repo_path@, replies@),
        command::heard_enough(step, replies@),
{
    if replies.len() == 0 {
        return Step::Ask(
            Request::Run(git_in(repo_path).arg("diff-index").arg("--quiet").arg("HEAD").arg("--")),
        );
    }
    let r = &replies[0];
    Step::Done(carried_out(r, "Failed to run git diff-index: ", !success(r)), 1)
}

/// The conversation of `stash_save`.
pub open spec fn stash_save_turn(
    repo_path: Seq<char>,
    replies: Seq<Reply>,
) -> Turn<Result<Seq<char>, Seq<char>>> {
    command::once(
        git_wish(repo_path, seq!["stash"@, "push"@, "-m"@, "SLAM pre-branch-stash"@]),
        replies,
        |r: Reply|
            match command::must(
                r,
                "Failed to run git stash push: "@,
                "Failed to stash changes: "@ + command::complained(r),
            ) { Ok(_) => Ok("stash@{0}"@), Err(e) => Err(e) },
    )
}

/// Stashes changes with a fixed message and returns the stash reference.
/// The new stash is taken to be `stash@{0}`.
pub fn stash_save(repo_path: &str, replies: &[Reply]) -> (step: Step<Result<String, String>>)
    ensures
        step.meaning() == stash_save_turn(repo_path@, replies@),
        command::heard_enough(step, replies@),
{
    if replies.len() == 0 {
        return Step::Ask(
            Request::Run(
                git_in(repo_path).arg("stash").arg("push").arg("-m").arg("SLAM pre-branch-stash"),
            ),
        );
    }
    let r = &replies[0];
    Step::Done(
        match must_succeed(
            r,
            "Failed to run git stash push: ",
            cat2("Failed to stash changes: ", &err_text(r)),
        ) { Ok(_) => Ok(owned("stash@{0}")), Err(e) => Err(e) },
        1,
    )
}

/// The conversation of `stash_pop`.
pub open spec fn stash_pop_turn(
    repo_path: Seq<char>,
    stash_ref: Seq<char>,
    replies: Seq<Reply>,
) -> Turn<Result<(), Seq<char>>> {
    command::once(
        git_wish(repo_path, seq!["stash"@, "pop"@, stash_ref]),
        replies,
        |r: Reply|
            command::must(
                r,
                "Failed to run git stash pop: "@,
                "Failed to pop stash "@ + stash_ref + ": "@ + command::complained(r),
            ),
    )
}

/// Pops the stash identified by `stash_ref`.
pub fn stash_pop(
    repo_path: &str,
    stash_ref: &str,
    replies: &[Reply],
) -> (step: Step<Result<(), String>>)
    ensures
        step.meaning() == stash_pop_turn(repo_path@, stash_ref@, replies@),
        command::heard_enough(step, replies@),
{
    if replies.len() == 0 {
        return Step::Ask(Request::Run(git_in(repo_path).arg("stash").arg("pop").arg(stash_ref)));
    }
    let r = &replies[0];
    Step::Done(
        must_succeed(
            r,
            "Failed to run git stash pop: ",
            cat4("Failed to pop stash ", stash_ref, ": ", &err_text(r)),
        ),
        1,
    )
}

/// The conversation of `remote_prune`.
pub open spec fn remote_prune_turn(
    repo_path: Seq<char>,
    replies: Seq<Reply>,
) -> Turn<Result<(), Seq<char>>> {
    command::once(
        git_wish(repo_path, seq!["remote"@, "prune"@, "origin"@]),
        replies,
        |r: Reply|
            command::must(
                r,
                "Failed to execute git remote prune origin: "@,
                "Failed to prune remote branches in '"@ + repo_path + "': "@
                    + command::complained(r),
            ),
    )
}

/// Forgets the remote branches that the remote no longer has.
pub fn remote_prune(repo_path: &str, replies: &[Reply]) -> (step: Step<Result<(), String>>)
    ensures
        step.meaning() == remote_prune_turn(repo_path@, replies@),
        command::heard_enough(step, replies@),
{
    if replies.len() == 0 {
        return Step::Ask(Request::Run(git_in(repo_path).arg("remote").arg("prune").arg("origin")));
    }
    let r = &replies[0];
    Step::Done(
        must_succeed(
            r,
            "Failed to execute git remote prune origin: ",
            cat4("Failed to prune remote branches in '", repo_path, "': ", &err_text(r)),
        ),
        1,
    )
}

/// The conversation of `get_head_sha`.
pub open spec fn get_head_sha_turn(
    repo_path: Seq<char>,
    replies: Seq<Reply>,
) -> Turn<Result<Seq<char>, Seq<char>>> {
    command::once(
        git_wish(repo_path, seq!["rev-parse"@, "HEAD"@]),
        replies,
        |r: Reply|
            command::must_say(
                r,
                "Failed to run git rev-parse HEAD: "@,
                "git rev-parse HEAD failed: "@ + command::complained(r),
            ),
    )
}

/// The commit that HEAD stands for.
pub fn get_head_sha(repo_path: &str, replies: &[Reply]) -> (step: Step<Result<String, String>>)
    ensures
        step.meaning() == get_head_sha_turn(repo_path@, replies@),
        command::heard_enough(step, replies@),
{
    if replies.len() == 0 {
        return Step::Ask(Request::Run(git_in(repo_path).arg("rev-parse").arg("HEAD")));
    }
    let r = &replies[0];
    Step::Done(
        must_speak(
            r,
            "Failed to run git rev-parse HEAD: ",
            cat2("git rev-parse HEAD failed: ", &err_text(r)),
        ),
        1,
    )
}

/// The conversation of `_has_staged_files`.
pub open spec fn has_staged_files_turn(
    repo_path: Seq<char>,
    replies: Seq<Reply>,
) -> Turn<Result<bool, Seq<char>>> {
    command::once(
        git_wish(repo_path, seq!["diff"@, "--cached"@, "--quiet"@]),
        replies,
        |r: Reply|
            command::carried(
                r,
                "Failed to run git diff --cached --quiet: "@,
                !command::succeeded(r),
            ),
    )
}

/// Returns true if there are staged changes.
pub fn _has_staged_files(repo_path: &str, replies: &[Reply]) -> (step: Step<Result<bool, String>>)
    ensures
        step.meaning() == has_staged_files_turn(repo_path@, replies@),
        command::heard_enough(step, replies@),
{
    if replies.len() == 0 {
        return Step::Ask(
            Request::Run(git_in(repo_path).arg("diff").arg("--cached").arg("--quiet")),
        );
    }
    let r = &replies[0];
    Step::Done(carried_out(r, "Failed to run git diff --cached --quiet: ", !success(r)), 1)
}

/// The conversation of `_get_branch_commit`.
pub open spec fn get_branch_commit_turn(
    repo_path: Seq<char>,
    branch: Seq<char>,
    replies: Seq<Reply>,
) -> Turn<Result<Seq<char>, Seq<char>>> {
    command::once(
        git_wish(repo_path, seq!["rev-parse"@, branch]),
        replies,
        |r: Reply|
            command::must_say(
                r,
                "Failed to execute git rev-parse for branch '"@ + branch + "': "@,
                "Failed to get commit hash for branch '"@ + branch + "'"@,
            ),
    )
}

/// Get the commit hash for a given branch.
pub fn _get_branch_commit(
    repo_path: &str,
    branch: &str,
    replies: &[Reply],
) -> (step: Step<Result<String, String>>)
    ensures
        step.meaning() == get_branch_commit_turn(repo_path@, branch@, replies@),
        command::heard_enough(step, replies@),
{
    if replies.len() == 0 {
        return Step::Ask(Request::Run(git_in(repo_path).arg("rev-parse").arg(branch)));
    }
    let r = &replies[0];
    Step::Done(
        must_speak(
            r,
            &cat3("Failed to execute git rev-parse for branch '", branch, "': "),
            cat3("Failed to get commit hash for branch '", branch, "'"),
        ),
        1,
    )
}

/// The conversation of `_create_branch`.
pub open spec fn create_branch_turn(
    repo_path: Seq<char>,
    branch: Seq<char>,
    commit: Seq<char>,
    replies: Seq<Reply>,
) -> Turn<Result<(), Seq<char>>> {
    command::once(
        git_wish(repo_path, seq!["checkout"@, "-b"@, branch, commit]),
        replies,
        |r: Reply|
            command::must(
                r,
                "Failed to execute git checkout -b: "@,
                "Failed to create branch '"@ + branch + "' at commit "@ + commit + ": "@
                    + command::complained(r),
            ),
    )
}

/// Create a new branch starting at a specific commit.
pub fn _create_branch(
    repo_path: &str,
    branch: &str,
    commit: &str,
    replies: &[Reply],
) -> (step: Step<Result<(), String>>)
    ensures
        step.meaning() == create_branch_turn(repo_path@, branch@, commit@, replies@),
        command::heard_enough(step, replies@),
{
    if replies.len() == 0 {
        return Step::Ask(
            Request::Run(git_in(repo_path).arg("checkout").arg("-b").arg(branch).arg(commit)),
        );
    }
    let r = &replies[0];
    Step::Done(
        must_succeed(
            r,
            "Failed to execute git checkout -b: ",
            cat6("Failed to create branch '", branch, "' at commit ", commit, ": ", &err_text(r)),
        ),
        1,
    )
}

/// The conversation of `_unstage_all`.
pub open spec fn unstage_all_turn(
    repo_path: Seq<char>,
    replies: Seq<Reply>,
) -> Turn<Result<(), Seq<char>>> {
    command::once(
        git_wish(repo_path, seq!["reset"@]),
        replies,
        |r: Reply|
            command::must(
                r,
                "Failed to execute git reset: "@,
                "Failed to unstage files in '"@ + repo_path + "': "@ + command::complained(r),
            ),
    )
}

/// Unstage all files by resetting the index.
pub fn _unstage_all(repo_path: &str, replies: &[Reply]) -> (step: Step<Result<(), String>>)
    ensures
        step.meaning() == unstage_all_turn(repo_path@, replies@),
        command::heard_enough(step, replies@),
{
    if replies.len() == 0 {
        return Step::Ask(Request::Run(git_in(repo_path).arg("reset")));
    }
    let r = &replies[0];
    Step::Done(
        must_succeed(
            r,
            "Failed to execute git reset: ",
            cat4("Failed to unstage files in '", repo_path, "': ", &err_text(r)),
        ),
        1,
    )
}

/// The conversation of `_push_branch`.
pub open spec fn push_branch_turn(
    repo_path: Seq<char>,
    change_id: Seq<char>,
    replies: Seq<Reply>,
) -> Turn<bool> {
    command::once(
        Wish::Run(
            command::uncaptured(
                command::within(
                    repo_path,
                    "git"@,
                    seq!["push"@, "--set-upstream"@, "origin"@, change_id],
                ),
            ),
        ),
        replies,
        |r: Reply| r is Ok,
    )
}

/// Pushes a branch, leaving the output of `git` alone. The result says whether
/// `git` could be run at all.
pub fn _push_branch(repo_path: &str, change_id: &str, replies: &[Reply]) -> (step: Step<bool>)
    ensures
        step.meaning() == push_branch_turn(repo_path@, change_id@, replies@),
        command::heard_enough(step, replies@),
{
    if replies.len() == 0 {
        return Step::Ask(
            Request::Run(
                git_in(repo_path)
                    .arg("push")
                    .arg("--set-upstream")
                    .arg("origin")
                    .arg(change_id)
                    .uncaptured(),
            ),
        );
    }
    let r = &replies[0];
    Step::Done(r.is_ok(), 1)
}

// ---------------------------------------------------------------------------
// Talks of several turns
// ---------------------------------------------------------------------------

/// Whether one of `lines` begins with `prefix`.
pub open spec fn some_line_begins(lines: Seq<Seq<char>>, prefix: Seq<char>) -> bool {
    exists|i: int| 0 <= i < lines.len() && text::begins_with(#[trigger] lines[i], prefix)
}

/// Whether a line of `s` begins with `prefix`.
fn line_begins(s: &str, prefix: &str) -> (r: bool)
    ensures
        r == some_line_begins(text::lines(s@), prefix@),
{
    let lines = lines_of(s);
    let ghost all = text::views(lines@);
    let mut i: usize = 0;
    while i < lines.len()
        invariant
            i <= lines@.len(),
            all == text::views(lines@),
            all == text::lines(s@),
            forall|k: int| 0 <= k < i ==> !text::begins_with(#[trigger] all[k], prefix@),
        decreases lines@.len() - i,
    {
        assert(all[i as int] == lines@[i as int]@);
        if starts_with(&lines[i], prefix) {
            return true;
        }
        i += 1;
    }
    false
}

/// The conversation of `has_untracked_files`.
pub open spec fn has_untracked_files_turn(repo_path: Seq<char>, replies: Seq<Reply>) -> Turn<
    Result<bool, Seq<char>>,
> {
    command::once(
        git_wish(repo_path, seq!["status"@, "--porcelain"@]),
        replies,
        |r: Reply|
            command::carried(
                r,
                "Failed to run git status: "@,
                some_line_begins(text::lines(command::said(r)), "??"@),
            ),
    )
}

/// Returns true if any untracked files exist in the repository.
pub fn has_untracked_files(repo_path: &str, replies: &[Reply]) -> (step: Step<Result<bool, String>>)
    ensures
        step.meaning() == has_untracked_files_turn(repo_path@, replies@),
        command::heard_enough(step, replies@),
{
    if replies.len() == 0 {
        return Step::Ask(Request::Run(git_in(repo_path).arg("status").arg("--porcelain")));
    }
    let r = &replies[0];
    Step::Done(
        carried_out(r, "Failed to run git status: ", line_begins(&out_text(r), "??")),
        1,
    )
}

/// What precedes the name of a branch of the remote.
pub open spec fn remote_ref() -> Seq<char> {
    "refs/remotes/origin/"@
}

/// The conversation that settles whether the remote has one of `names`, the
/// first that it has.
pub open spec fn common_branch_turn(
    repo_path: Seq<char>,
    names: Seq<Seq<char>>,
    replies: Seq<Reply>,
) -> Turn<Result<Seq<char>, Seq<char>>>
    decreases names.len(),
{
    if names.len() == 0 {
        Turn::Done(Err("Unable to determine head branch for repository"@), 0)
    } else {
        command::chain(
            command::once(
                git_wish(repo_path, seq!["rev-parse"@, "--verify"@, "origin/"@ + names[0]]),
                replies,
                |r: Reply| command::succeeded(r),
            ),
            replies,
            |there: bool, left: Seq<Reply>|
                if there {
                    Turn::Done(Ok(names[0]), 0)
                } else {
                    common_branch_turn(repo_path, names.drop_first(), left)
                },
        )
    }
}

/// The conversation of `get_head_branch`: what the remote calls its HEAD, if it
/// says so, and else the first of two common names that it has.
pub open spec fn get_head_branch_turn(repo_path: Seq<char>, replies: Seq<Reply>) -> Turn<
    Result<Seq<char>, Seq<char>>,
> {
    command::chain(
        command::once(
            git_wish(repo_path, seq!["symbolic-ref"@, "refs/remotes/origin/HEAD"@]),
            replies,
            |r: Reply| r,
        ),
        replies,
        |r: Reply, left: Seq<Reply>|
            {
                let name = text::trim(command::said(r));
                if command::succeeded(r) && text::begins_with(name, remote_ref()) {
                    Turn::Done(Ok(name.skip(remote_ref().len() as int)), 0)
                } else {
                    common_branch_turn(repo_path, seq!["main"@, "master"@], left)
                }
            },
    )
}

/// The branch that the remote has as its HEAD.
pub fn get_head_branch(repo_path: &str, replies: &[Reply]) -> (step: Step<Result<String, String>>)
    ensures
        step.meaning() == get_head_branch_turn(repo_path@, replies@),
        command::heard_enough(step, replies@),
{
    proof {
        reveal_with_fuel(common_branch_turn, 3);
        let names = seq!["main"@, "master"@];
        assert(names.drop_first() =~= seq!["master"@]);
        assert(names.drop_first().drop_first() =~= Seq::empty());
    }
    if replies.len() == 0 {
        return Step::Ask(
            Request::Run(git_in(repo_path).arg("symbolic-ref").arg("refs/remotes/origin/HEAD")),
        );
    }
    let ghost left = replies@.skip(1);
    if success(&replies[0]) {
        let name = trimmed(&out_text(&replies[0]));
        match strip_prefix(&name, "refs/remotes/origin/") {
            Some(branch) => {
                return Step::Done(Ok(branch), 1);
            },
            None => {},
        }
    }
    if replies.len() == 1 {
        return Step::Ask(
            Request::Run(
                git_in(repo_path).arg("rev-parse").arg("--verify").arg(&cat2("origin/", "main")),
            ),
        );
    }
    assert(left[0] == replies@[1]);
    if success(&replies[1]) {
        return Step::Done(Ok(owned("main")), 2);
    }
    if replies.len() == 2 {
        return Step::Ask(
            Request::Run(
                git_in(repo_path).arg("rev-parse").arg("--verify").arg(&cat2("origin/", "master")),
            ),
        );
    }
    assert(left.skip(1)[0] == replies@[2]);
    if success(&replies[2]) {
        return Step::Done(Ok(owned("master")), 3);
    }
    Step::Done(Err(owned("Unable to determine head branch for repository")), 3)
}

/// The conversation of `safe_delete_local_branch`: where the branch to be
/// deleted is the current one, the head branch is checked out first.
pub open spec fn safe_delete_local_branch_turn(
    repo: Seq<char>,
    branch: Seq<char>,
    replies: Seq<Reply>,
) -> Turn<Result<(), Seq<char>>> {
    command::chain_ok(
        current_branch_turn(repo, replies),
        replies,
        |current: Seq<char>, left: Seq<Reply>|
            command::chain_ok(
                if text::trim(current) == text::trim(branch) {
                    command::chain_ok(
                        get_head_branch_turn(repo, left),
                        left,
                        |head: Seq<char>, left2: Seq<Reply>| checkout_turn(repo, head, left2),
                    )
                } else {
                    Turn::Done(Ok(()), 0)
                },
                left,
                |done: (), left2: Seq<Reply>| delete_local_branch_turn(repo, branch, left2),
            ),
    )
}

/// Deletes a local branch even where it is the current one.
pub fn safe_delete_local_branch(repo: &str, branch: &str, replies: &[Reply]) -> (step: Step<
    Result<(), String>,
>)
    ensures
        step.meaning() == safe_delete_local_branch_turn(repo@, branch@, replies@),
        command::heard_enough(step, replies@),
{
    let (current, n): (String, usize) = match current_branch(repo, replies) {
        Step::Ask(r) => {
            return Step::Ask(r);
        },
        Step::Done(Err(e), n) => {
            return Step::Done(Err(e), n);
        },
        Step::Done(Ok(c), n) => (c, n),
    };
    let left = after(replies, n);
    let mut m: usize = 0;
    if same(&trimmed(&current), &trimmed(branch)) {
        let (head, k): (String, usize) = match get_head_branch(repo, left) {
            Step::Ask(r) => {
                return Step::Ask(r);
            },
            Step::Done(Err(e), k) => {
                return Step::Done(Err(e), n + k);
            },
            Step::Done(Ok(h), k) => (h, k),
        };
        match checkout(repo, &head, after(left, k)) {
            Step::Ask(r) => {
                return Step::Ask(r);
            },
            Step::Done(Err(e), l) => {
                return Step::Done(Err(e), n + k + l);
            },
            Step::Done(Ok(_), l) => {
                m = k + l;
            },
        }
    }
    match delete_local_branch(repo, branch, after(left, m)) {
        Step::Ask(r) => Step::Ask(r),
        Step::Done(t, l) => Step::Done(t, n + m + l),
    }
}

// ---------------------------------------------------------------------------
// Remotes
// ---------------------------------------------------------------------------

/// The address of a repository.
pub open spec fn url_of(reposlug: Seq<char>) -> Seq<char> {
    "git@github.com:"@ + reposlug + ".git"@
}

/// The address of a repository.
pub fn repo_url(reposlug: &str) -> (r: String)
    ensures
        r@ == url_of(reposlug@),
{
    cat3("git@github.com:", reposlug, ".git")
}

/// The repository that an address stands for.
pub open spec fn slug_in(url: Seq<char>) -> Result<Seq<char>, Seq<char>> {
    if text::begins_with(url, "git@github.com:"@) {
        Ok(text::without_trailing(url.skip("git@github.com:"@.len() as int), ".git"@))
    } else {
        Err("Unexpected remote URL format: "@ + url)
    }
}

/// The repository that an address stands for. An address is of the form
/// "git@github.com:org/reponame.git".
pub fn slug_of_url(url: &str) -> (r: Result<String, String>)
    ensures
        r.meaning() == slug_in(url@),
{
    match strip_prefix(url, "git@github.com:") {
        Some(stripped) => Ok(trim_end_matches(&stripped, ".git")),
        None => Err(cat2("Unexpected remote URL format: ", url)),
    }
}

/// The address of a repository stands for that repository, unless its name
/// itself ends in ".git".
pub proof fn law_slug_survives_its_url(reposlug: Seq<char>)
    requires
        !text::finishes_with(reposlug, ".git"@),
    ensures
        slug_in(url_of(reposlug)) == Ok::<Seq<char>, Seq<char>>(reposlug),
{
    reveal_strlit("git@github.com:");
    reveal_strlit(".git");
    reveal_with_fuel(text::without_trailing, 2);
    let url = url_of(reposlug);
    let head = "git@github.com:"@;
    let tail = ".git"@;
    assert(url.subrange(0, head.len() as int) =~= head);
    let rest = url.skip(head.len() as int);
    assert(rest =~= reposlug + tail);
    assert(rest.subrange(rest.len() - tail.len(), rest.len() as int) =~= tail);
    assert(rest.take(rest.len() - tail.len()) =~= reposlug);
}

/// The conversation of `get_repo_slug`.
pub open spec fn get_repo_slug_turn(repo_path: Seq<char>, replies: Seq<Reply>) -> Turn<
    Result<Seq<char>, Seq<char>>,
> {
    command::once(
        git_wish(repo_path, seq!["config"@, "--get"@, "remote.origin.url"@]),
        replies,
        |r: Reply|
            match command::must_say(
                r,
                "Failed to get remote origin url for "@ + repo_path + ": "@,
                "Failed to get remote origin url for "@ + repo_path + ": "@
                    + command::complained(r),
            ) {
                Ok(url) => slug_in(url),
                Err(e) => Err(e),
            },
    )
}

/// The repository that a clone was made from.
pub fn get_repo_slug(repo_path: &str, replies: &[Reply]) -> (step: Step<Result<String, String>>)
    ensures
        step.meaning() == get_repo_slug_turn(repo_path@, replies@),
        command::heard_enough(step, replies@),
{
    if replies.len() == 0 {
        return Step::Ask(
            Request::Run(git_in(repo_path).arg("config").arg("--get").arg("remote.origin.url")),
        );
    }
    let r = &replies[0];
    let words = cat3("Failed to get remote origin url for ", repo_path, ": ");
    let url = must_speak(r, &words, cat2(&words, &err_text(r)));
    Step::Done(
        match url {
            Ok(url) => slug_of_url(&url),
            Err(e) => Err(e),
        },
        1,
    )
}

/// The conversation of `clone_repo`: the clone is made with the ssh command
/// that `git` is configured to use, or with plain ssh.
pub open spec fn clone_repo_turn(
    reposlug: Seq<char>,
    target: Seq<char>,
    replies: Seq<Reply>,
) -> Turn<Result<(), Seq<char>>> {
    command::chain_ok(
        command::once(
            Wish::Run(command::here("git"@, seq!["config"@, "--get"@, "core.sshCommand"@])),
            replies,
            |r: Reply|
                command::carried_bare(
                    r,
                    if command::succeeded(r) {
                        text::trim(command::said(r))
                    } else {
                        "ssh"@
                    },
                ),
        ),
        replies,
        |ssh: Seq<char>, left: Seq<Reply>|
            command::once(
                Wish::Run(
                    command::Call {
                        program: "git"@,
                        dir: None,
                        ssh_command: Some(ssh),
                        args: seq!["clone"@, "--quiet"@, url_of(reposlug), target],
                        captured: false,
                    },
                ),
                left,
                |r: Reply|
                    command::must_bare(
                        r,
                        "git clone failed for "@ + reposlug + " via "@ + url_of(reposlug),
                    ),
            ),
    )
}

/// Clones a repository into `target`.
pub fn clone_repo(reposlug: &str, target: &str, replies: &[Reply]) -> (step: Step<
    Result<(), String>,
>)
    ensures
        step.meaning() == clone_repo_turn(reposlug@, target@, replies@),
        command::heard_enough(step, replies@),
{
    if replies.len() == 0 {
        return Step::Ask(
            Request::Run(
                Invocation::new("git").arg("config").arg("--get").arg("core.sshCommand"),
            ),
        );
    }
    let config = &replies[0];
    let ssh = match config {
        Err(e) => {
            return Step::Done(Err(owned(e)), 1);
        },
        Ok(_) => if success(config) {
            trimmed(&out_text(config))
        } else {
            owned("ssh")
        },
    };
    let url = repo_url(reposlug);
    if replies.len() == 1 {
        return Step::Ask(
            Request::Run(
                Invocation::new("git")
                    .ssh(&ssh)
                    .arg("clone")
                    .arg("--quiet")
                    .arg(&url)
                    .arg(target)
                    .uncaptured(),
            ),
        );
    }
    assert(replies@.skip(1)[0] == replies@[1]);
    let failed = cat4("git clone failed for ", reposlug, " via ", &url);
    Step::Done(must_succeed_bare(&replies[1], failed), 2)
}

/// The conversation that makes sure that the clone in `target` is one of
/// `reposlug`.
pub open spec fn set_origin_turn(
    reposlug: Seq<char>,
    target: Seq<char>,
    replies: Seq<Reply>,
) -> Turn<Result<(), Seq<char>>> {
    command::chain_ok(
        command::once(
            git_wish(target, seq!["config"@, "--get"@, "remote.origin.url"@]),
            replies,
            |r: Reply| command::carried_bare(r, text::trim(command::said(r))),
        ),
        replies,
        |url: Seq<char>, left: Seq<Reply>|
            if url == url_of(reposlug) {
                Turn::Done(Ok(()), 0)
            } else {
                command::once(
                    git_wish(target, seq!["remote"@, "set-url"@, "origin"@, url_of(reposlug)]),
                    left,
                    |r: Reply|
                        command::must_bare(
                            r,
                            "Failed to update remote URL for "@ + reposlug + ": "@
                                + command::complained(r),
                        ),
                )
            },
    )
}

/// Makes sure that the clone in `target` is one of `reposlug`.
fn set_origin(reposlug: &str, target: &str, replies: &[Reply]) -> (step: Step<Result<(), String>>)
    ensures
        step.meaning() == set_origin_turn(reposlug@, target@, replies@),
        command::heard_enough(step, replies@),
{
    if replies.len() == 0 {
        return Step::Ask(
            Request::Run(git_in(target).arg("config").arg("--get").arg("remote.origin.url")),
        );
    }
    let expected = repo_url(reposlug);
    match &replies[0] {
        Err(e) => {
            return Step::Done(Err(owned(e)), 1);
        },
        Ok(out) => {
            if same(&trimmed(&out.out_text()), &expected) {
                return Step::Done(Ok(()), 1);
            }
        },
    }
    if replies.len() == 1 {
        return Step::Ask(
            Request::Run(git_in(target).arg("remote").arg("set-url").arg("origin").arg(&expected)),
        );
    }
    assert(replies@.skip(1)[0] == replies@[1]);
    let r = &replies[1];
    let failed = cat4("Failed to update remote URL for ", reposlug, ": ", &err_text(r));
    Step::Done(must_succeed_bare(r, failed), 2)
}

/// The conversation that fetches what is new of `reposlug` and checks out
/// `branch`.
pub open spec fn fetch_branch_turn(
    reposlug: Seq<char>,
    target: Seq<char>,
    branch: Seq<char>,
    replies: Seq<Reply>,
) -> Turn<Result<(), Seq<char>>> {
    command::chain_ok(
        command::once(
            Wish::Run(
                command::uncaptured(
                    command::within(target, "git"@, seq!["fetch"@, "origin"@, "--quiet"@]),
                ),
            ),
            replies,
            |r: Reply| command::must_bare(r, "Failed to fetch remote for "@ + reposlug),
        ),
        replies,
        |fetched: (), left: Seq<Reply>| checkout_branch_turn(target, branch, left),
    )
}

/// Fetches what is new of `reposlug` and checks out `branch`.
fn fetch_branch(reposlug: &str, target: &str, branch: &str, replies: &[Reply]) -> (step: Step<
    Result<(), String>,
>)
    ensures
        step.meaning() == fetch_branch_turn(reposlug@, target@, branch@, replies@),
        command::heard_enough(step, replies@),
{
    if replies.len() == 0 {
        return Step::Ask(
            Request::Run(git_in(target).arg("fetch").arg("origin").arg("--quiet").uncaptured()),
        );
    }
    match must_succeed_bare(&replies[0], cat2("Failed to fetch remote for ", reposlug)) {
        Err(e) => Step::Done(Err(e), 1),
        Ok(_) => match checkout_branch(target, branch, after(replies, 1)) {
            Step::Ask(r) => Step::Ask(r),
            Step::Done(t, n) => Step::Done(t, 1 + n),
        },
    }
}

/// The conversation of `clone_or_update_repo`: a clone that is not there yet is
/// made, one that is there is pointed at the right repository; then the branch
/// is checked out after a fetch.
pub open spec fn clone_or_update_repo_turn(
    reposlug: Seq<char>,
    target: Seq<char>,
    branch: Seq<char>,
    replies: Seq<Reply>,
) -> Turn<Result<(), Seq<char>>> {
    command::chain(
        command::once(Wish::Look(target), replies, |r: Reply| command::succeeded(r)),
        replies,
        |there: bool, left: Seq<Reply>|
            command::chain_ok(
                if there {
                    set_origin_turn(reposlug, target, left)
                } else {
                    clone_repo_turn(reposlug, target, left)
                },
                left,
                |ready: (), left2: Seq<Reply>| fetch_branch_turn(reposlug, target, branch, left2),
            ),
    )
}

/// Brings a clone of `reposlug` to `target`, with `branch` checked out.
pub fn clone_or_update_repo(
    reposlug: &str,
    target: &str,
    branch: &str,
    replies: &[Reply],
) -> (step: Step<Result<(), String>>)
    ensures
        step.meaning() == clone_or_update_repo_turn(reposlug@, target@, branch@, replies@),
        command::heard_enough(step, replies@),
{
    if replies.len() == 0 {
        return Step::Ask(Request::Look(owned(target)));
    }
    let left = after(replies, 1);
    let ready = if success(&replies[0]) {
        set_origin(reposlug, target, left)
    } else {
        clone_repo(reposlug, target, left)
    };
    match ready {
        Step::Ask(r) => Step::Ask(r),
        Step::Done(Err(e), n) => Step::Done(Err(e), 1 + n),
        Step::Done(Ok(_), n) => match fetch_branch(reposlug, target, branch, after(left, n)) {
            Step::Ask(r) => Step::Ask(r),
            Step::Done(t, m) => Step::Done(t, 1 + n + m),
        },
    }
}

/// The name in a line of `git branch --list`, if it begins with `prefix`.
pub open spec fn listed_branch(line: Seq<char>, prefix: Seq<char>) -> Option<Seq<char>> {
    let name = text::without_leading(text::trim(line), "* "@);
    if text::begins_with(name, prefix) {
        Some(name)
    } else {
        None
    }
}

/// The names in what `git branch --list` says that begin with `prefix`.
pub open spec fn listed_branches(output: Seq<char>, prefix: Seq<char>) -> Seq<Seq<char>> {
    text::lines(output).filter_map(|line: Seq<char>| listed_branch(line, prefix))
}

/// The names in what `git branch --list` says that begin with `prefix`.
pub fn parse_local_branches(output: &str, prefix: &str) -> (r: Vec<String>)
    ensures
        text::views(r@) == listed_branches(output@, prefix@),
{
    broadcast use text::lemma_views_push;

    let lines = lines_of(output);
    let ghost all = text::views(lines@);
    let ghost pick = |line: Seq<char>| listed_branch(line, prefix@);
    let mut r: Vec<String> = Vec::new();
    let mut i: usize = 0;
    assert(text::views(r@) =~= all.take(0).filter_map(pick));
    while i < lines.len()
        invariant
            i <= lines@.len(),
            all == text::views(lines@),
            pick == (|line: Seq<char>| listed_branch(line, prefix@)),
            text::views(r@) == all.take(i as int).filter_map(pick),
        decreases lines@.len() - i,
    {
        assert(all[i as int] == lines@[i as int]@);
        assert(all.take(i + 1).drop_last() =~= all.take(i as int));
        let name = trim_start_matches(&trimmed(&lines[i]), "* ");
        if starts_with(&name, prefix) {
            r.push(name);
        }
        i += 1;
    }
    assert(all.take(i as int) =~= all);
    r
}

/// The conversation of `list_local_branches_with_prefix`.
pub open spec fn list_local_branches_with_prefix_turn(
    repo_path: Seq<char>,
    prefix: Seq<char>,
    replies: Seq<Reply>,
) -> Turn<Result<Seq<Seq<char>>, Seq<char>>> {
    command::once(
        git_wish(repo_path, seq!["branch"@, "--list"@]),
        replies,
        |r: Reply|
            match command::must(
                r,
                "Failed to list local branches in '"@ + repo_path + "': "@,
                "Failed to list local branches in '"@ + repo_path + "': "@
                    + command::complained(r),
            ) {
                Ok(_) => Ok(listed_branches(command::said(r), prefix)),
                Err(e) => Err(e),
            },
    )
}

/// The local branches whose names begin with `prefix`.
pub fn list_local_branches_with_prefix(
    repo_path: &str,
    prefix: &str,
    replies: &[Reply],
) -> (step: Step<Result<Vec<String>, String>>)
    ensures
        step.meaning() == list_local_branches_with_prefix_turn(repo_path@, prefix@, replies@),
        command::heard_enough(step, replies@),
{
    if replies.len() == 0 {
        return Step::Ask(Request::Run(git_in(repo_path).arg("branch").arg("--list")));
    }
    let r = &replies[0];
    let words = cat3("Failed to list local branches in '", repo_path, "': ");
    let listed = must_succeed(r, &words, cat2(&words, &err_text(r)));
    Step::Done(
        match listed {
            Ok(_) => Ok(parse_local_branches(&out_text(r), prefix)),
            Err(e) => Err(e),
        },
        1,
    )
}

// ---------------------------------------------------------------------------
// Making changes that can be taken back, and taking them back
// ---------------------------------------------------------------------------

/// The conversation of `stage_all`.
pub open spec fn stage_all_turn(repo_path: Seq<char>, replies: Seq<Reply>) -> Turn<
    Result<(), Seq<char>>,
> {
    command::once(
        git_wish(repo_path, seq!["add"@, "."@]),
        replies,
        |r: Reply|
            command::must(
                r,
                "Failed to execute git add: "@,
                "Failed to stage files in '"@ + repo_path + "': "@ + command::complained(r),
            ),
    )
}

/// Stages everything, so that new files are in the next commit and go with a hard
/// reset.
pub fn stage_all(repo_path: &str, replies: &[Reply]) -> (step: Step<Result<(), String>>)
    ensures
        step.meaning() == stage_all_turn(repo_path@, replies@),
        command::heard_enough(step, replies@),
{
    if replies.len() == 0 {
        return Step::Ask(Request::Run(git_in(repo_path).arg("add").arg(".")));
    }
    let r = &replies[0];
    Step::Done(
        must_succeed(
            r,
            "Failed to execute git add: ",
            cat4("Failed to stage files in '", repo_path, "': ", &err_text(r)),
        ),
        1,
    )
}

/// The conversation of `local_branch_commit`.
pub open spec fn local_branch_commit_turn(
    repo_path: Seq<char>,
    branch: Seq<char>,
    replies: Seq<Reply>,
) -> Turn<Result<Seq<char>, Seq<char>>> {
    command::once(
        git_wish(repo_path, seq!["rev-parse"@, "refs/heads/"@ + branch]),
        replies,
        |r: Reply|
            command::must_say(
                r,
                "Failed to execute git rev-parse for branch '"@ + branch + "': "@,
                "Failed to get commit hash for branch '"@ + branch + "'"@,
            ),
    )
}

/// The commit that a local branch is at, whatever else has its name.
pub fn local_branch_commit(
    repo_path: &str,
    branch: &str,
    replies: &[Reply],
) -> (step: Step<Result<String, String>>)
    ensures
        step.meaning() == local_branch_commit_turn(repo_path@, branch@, replies@),
        command::heard_enough(step, replies@),
{
    if replies.len() == 0 {
        return Step::Ask(
            Request::Run(git_in(repo_path).arg("rev-parse").arg(&cat2("refs/heads/", branch))),
        );
    }
    let r = &replies[0];
    Step::Done(
        must_speak(
            r,
            &cat3("Failed to execute git rev-parse for branch '", branch, "': "),
            cat3("Failed to get commit hash for branch '", branch, "'"),
        ),
        1,
    )
}

/// The conversation of `publish_branch`.
pub open spec fn publish_branch_turn(
    repo_path: Seq<char>,
    branch: Seq<char>,
    replies: Seq<Reply>,
) -> Turn<Result<(), Seq<char>>> {
    command::once(
        git_wish(repo_path, seq!["push"@, "--set-upstream"@, "origin"@, branch]),
        replies,
        |r: Reply|
            command::must(
                r,
                "Failed to execute git push: "@,
                "Failed to push branch '"@ + branch + "' in '"@ + repo_path + "': "@
                    + command::complained(r),
            ),
    )
}

/// Pushes a branch and makes it follow its remote branch. That it is rejected is an
/// error.
pub fn publish_branch(
    repo_path: &str,
    branch: &str,
    replies: &[Reply],
) -> (step: Step<Result<(), String>>)
    ensures
        step.meaning() == publish_branch_turn(repo_path@, branch@, replies@),
        command::heard_enough(step, replies@),
{
    if replies.len() == 0 {
        return Step::Ask(
            Request::Run(
                git_in(repo_path).arg("push").arg("--set-upstream").arg("origin").arg(branch),
            ),
        );
    }
    let r = &replies[0];
    Step::Done(
        must_succeed(
            r,
            "Failed to execute git push: ",
            cat6("Failed to push branch '", branch, "' in '", repo_path, "': ", &err_text(r)),
        ),
        1,
    )
}

/// The conversation of `unpublish_branch`.
pub open spec fn unpublish_branch_turn(
    repo_path: Seq<char>,
    branch: Seq<char>,
    replies: Seq<Reply>,
) -> Turn<Result<(), Seq<char>>> {
    command::once(
        git_wish(repo_path, seq!["push"@, "origin"@, ":"@ + branch]),
        replies,
        |r: Reply|
            command::must(
                r,
                "Failed to execute git push: "@,
                "Failed to delete remote branch '"@ + branch + "' in '"@ + repo_path + "': "@
                    + command::complained(r),
            ),
    )
}

/// Deletes a branch of the remote. That it is rejected is an error.
pub fn unpublish_branch(
    repo_path: &str,
    branch: &str,
    replies: &[Reply],
) -> (step: Step<Result<(), String>>)
    ensures
        step.meaning() == unpublish_branch_turn(repo_path@, branch@, replies@),
        command::heard_enough(step, replies@),
{
    if replies.len() == 0 {
        return Step::Ask(Request::Run(git_in(repo_path).arg("push").arg("origin").arg(&cat2(":", branch))));
    }
    let r = &replies[0];
    Step::Done(
        must_succeed(
            r,
            "Failed to execute git push: ",
            cat6(
                "Failed to delete remote branch '",
                branch,
                "' in '",
                repo_path,
                "': ",
                &err_text(r),
            ),
        ),
        1,
    )
}

/// The conversation of `restore_branch`.
pub open spec fn restore_branch_turn(
    repo_path: Seq<char>,
    branch: Seq<char>,
    commit: Seq<char>,
    replies: Seq<Reply>,
) -> Turn<Result<(), Seq<char>>> {
    command::once(
        git_wish(repo_path, seq!["branch"@, branch, commit]),
        replies,
        |r: Reply|
            command::must(
                r,
                "Failed to execute git branch: "@,
                "Failed to restore branch '"@ + branch + "' in '"@ + repo_path + "': "@
                    + command::complained(r),
            ),
    )
}

/// Brings back a local branch that was deleted, at the commit that it was at.
pub fn restore_branch(
    repo_path: &str,
    branch: &str,
    commit: &str,
    replies: &[Reply],
) -> (step: Step<Result<(), String>>)
    ensures
        step.meaning() == restore_branch_turn(repo_path@, branch@, commit@, replies@),
        command::heard_enough(step, replies@),
{
    if replies.len() == 0 {
        return Step::Ask(Request::Run(git_in(repo_path).arg("branch").arg(branch).arg(commit)));
    }
    let r = &replies[0];
    Step::Done(
        must_succeed(
            r,
            "Failed to execute git branch: ",
            cat6("Failed to restore branch '", branch, "' in '", repo_path, "': ", &err_text(r)),
        ),
        1,
    )
}

/// The conversation of `restore_remote_branch`.
pub open spec fn restore_remote_branch_turn(
    repo_path: Seq<char>,
    branch: Seq<char>,
    commit: Seq<char>,
    replies: Seq<Reply>,
) -> Turn<Result<(), Seq<char>>> {
    command::once(
        git_wish(repo_path, seq!["push"@, "origin"@, commit + ":refs/heads/"@ + branch]),
        replies,
        |r: Reply|
            command::must(
                r,
                "Failed to execute git push: "@,
                "Failed to restore remote branch '"@ + branch + "' in '"@ + repo_path + "': "@
                    + command::complained(r),
            ),
    )
}

/// Brings back a branch of the remote that was deleted, at the commit that it was
/// at.
pub fn restore_remote_branch(
    repo_path: &str,
    branch: &str,
    commit: &str,
    replies: &[Reply],
) -> (step: Step<Result<(), String>>)
    ensures
        step.meaning() == restore_remote_branch_turn(repo_path@, branch@, commit@, replies@),
        command::heard_enough(step, replies@),
{
    if replies.len() == 0 {
        return Step::Ask(
            Request::Run(
                git_in(repo_path).arg("push").arg("origin").arg(&cat3(commit, ":refs/heads/", branch)),
            ),
        );
    }
    let r = &replies[0];
    Step::Done(
        must_succeed(
            r,
            "Failed to execute git push: ",
            cat6(
                "Failed to restore remote branch '",
                branch,
                "' in '",
                repo_path,
                "': ",
                &err_text(r),
            ),
        ),
        1,
    )
}

/// The conversation of `reset_to`.
pub open spec fn reset_to_turn(
    repo_path: Seq<char>,
    commit: Seq<char>,
    replies: Seq<Reply>,
) -> Turn<Result<(), Seq<char>>> {
    command::once(
        git_wish(repo_path, seq!["reset"@, "--hard"@, commit]),
        replies,
        |r: Reply|
            command::must(
                r,
                "Failed to execute git reset --hard: "@,
                "Failed to reset '"@ + repo_path + "' to "@ + commit + ": "@
                    + command::complained(r),
            ),
    )
}

/// Brings the current branch, and the files, back to a commit.
pub fn reset_to(
    repo_path: &str,
    commit: &str,
    replies: &[Reply],
) -> (step: Step<Result<(), String>>)
    ensures
        step.meaning() == reset_to_turn(repo_path@, commit@, replies@),
        command::heard_enough(step, replies@),
{
    if replies.len() == 0 {
        return Step::Ask(Request::Run(git_in(repo_path).arg("reset").arg("--hard").arg(commit)));
    }
    let r = &replies[0];
    Step::Done(
        must_succeed(
            r,
            "Failed to execute git reset --hard: ",
            cat6("Failed to reset '", repo_path, "' to ", commit, ": ", &err_text(r)),
        ),
        1,
    )
}

// ---------------------------------------------------------------------------
// Runs of which only the refusal counts
// ---------------------------------------------------------------------------

/// The conversation of a run of `git` that need not succeed: its result says
/// whether it did.
pub open spec fn git_turn(
    repo_path: Seq<char>,
    args: Seq<Seq<char>>,
    replies: Seq<Reply>,
) -> Turn<Result<bool, Seq<char>>> {
    command::once(
        git_wish(repo_path, args),
        replies,
        |r: Reply|
            command::carried(
                r,
                "Failed to execute git "@ + text::quoted_list(args) + ": "@,
                command::succeeded(r),
            ),
    )
}

/// Runs `git` in a repository. The result says whether it succeeded.
fn git(repo_path: &str, args: Vec<String>, replies: &[Reply]) -> (step: Step<Result<bool, String>>)
    ensures
        step.meaning() == git_turn(repo_path@, text::views(args@), replies@),
        command::heard_enough(step, replies@),
{
    if replies.len() == 0 {
        return Step::Ask(
            Request::Run(
                Invocation {
                    program: owned("git"),
                    dir: Some(owned(repo_path)),
                    ssh_command: None,
                    args,
                    captured: true,
                },
            ),
        );
    }
    let r = &replies[0];
    let refused = cat3("Failed to execute git ", &debug_list(&args), ": ");
    Step::Done(carried_out(r, &refused, success(r)), 1)
}

/// The conversation of a run of `git` of which only a refusal counts.
pub open spec fn git_done_turn(
    repo_path: Seq<char>,
    args: Seq<Seq<char>>,
    replies: Seq<Reply>,
) -> Turn<Result<(), Seq<char>>> {
    command::chain_ok(
        git_turn(repo_path, args, replies),
        replies,
        |succeeded: bool, left: Seq<Reply>| Turn::Done(Ok(()), 0),
    )
}

/// Runs `git` in a repository. It need not succeed.
fn git_done(repo_path: &str, args: Vec<String>, replies: &[Reply]) -> (step: Step<
    Result<(), String>,
>)
    ensures
        step.meaning() == git_done_turn(repo_path@, text::views(args@), replies@),
        command::heard_enough(step, replies@),
{
    match git(repo_path, args, replies) {
        Step::Ask(r) => Step::Ask(r),
        Step::Done(Ok(_), n) => Step::Done(Ok(()), n),
        Step::Done(Err(e), n) => Step::Done(Err(e), n),
    }
}

/// The conversation of `push_branch`.
pub open spec fn push_turn(
    repo_path: Seq<char>,
    branch: Seq<char>,
    replies: Seq<Reply>,
) -> Turn<Result<(), Seq<char>>> {
    git_done_turn(repo_path, seq!["push"@, "--set-upstream"@, "origin"@, branch], replies)
}

/// Pushes a branch and makes it follow its remote branch. That `git` fails is
/// no error; that it cannot be run is one.
pub fn push_branch(repo_path: &str, branch: &str, replies: &[Reply]) -> (step: Step<
    Result<(), String>,
>)
    ensures
        step.meaning() == push_turn(repo_path@, branch@, replies@),
        command::heard_enough(step, replies@),
{
    let args = vec![owned("push"), owned("--set-upstream"), owned("origin"), owned(branch)];
    assert(text::views(args@) =~= seq!["push"@, "--set-upstream"@, "origin"@, branch@]);
    git_done(repo_path, args, replies)
}

/// The conversation of `_stage_files`.
pub open spec fn stage_files_turn(repo_path: Seq<char>, replies: Seq<Reply>) -> Turn<
    Result<(), Seq<char>>,
> {
    git_done_turn(repo_path, seq!["add"@, "."@], replies)
}

/// Stages everything. That `git` fails is no error.
pub fn _stage_files(repo_path: &str, replies: &[Reply]) -> (step: Step<Result<(), String>>)
    ensures
        step.meaning() == stage_files_turn(repo_path@, replies@),
        command::heard_enough(step, replies@),
{
    let args = vec![owned("add"), owned(".")];
    assert(text::views(args@) =~= seq!["add"@, "."@]);
    git_done(repo_path, args, replies)
}

/// The conversation of `_commit_changes`.
pub open spec fn commit_changes_turn(
    repo_path: Seq<char>,
    message: Seq<char>,
    replies: Seq<Reply>,
) -> Turn<Result<(), Seq<char>>> {
    git_done_turn(repo_path, seq!["commit"@, "-m"@, message], replies)
}

/// Commits what is staged. That `git` fails is no error.
pub fn _commit_changes(repo_path: &str, message: &str, replies: &[Reply]) -> (step: Step<
    Result<(), String>,
>)
    ensures
        step.meaning() == commit_changes_turn(repo_path@, message@, replies@),
        command::heard_enough(step, replies@),
{
    let args = vec![owned("commit"), owned("-m"), owned(message)];
    assert(text::views(args@) =~= seq!["commit"@, "-m"@, message@]);
    git_done(repo_path, args, replies)
}

/// The conversation of `_is_working_tree_clean`.
pub open spec fn is_working_tree_clean_turn(repo_path: Seq<char>, replies: Seq<Reply>) -> Turn<
    bool,
> {
    command::chain(
        git_turn(repo_path, seq!["diff"@, "--cached"@, "--quiet"@], replies),
        replies,
        |staged: Result<bool, Seq<char>>, left: Seq<Reply>|
            command::chain(
                git_turn(repo_path, seq!["diff"@, "--quiet"@], left),
                left,
                |unstaged: Result<bool, Seq<char>>, left2: Seq<Reply>|
                    Turn::Done(
                        staged == Ok::<bool, Seq<char>>(true) && unstaged == Ok::<bool, Seq<char>>(
                            true,
                        ),
                        0,
                    ),
            ),
    )
}

/// Whether nothing is changed, be it staged or not. Where `git` cannot tell, the
/// answer is no.
pub fn _is_working_tree_clean(repo_path: &str, replies: &[Reply]) -> (step: Step<bool>)
    ensures
        step.meaning() == is_working_tree_clean_turn(repo_path@, replies@),
        command::heard_enough(step, replies@),
{
    let first = vec![owned("diff"), owned("--cached"), owned("--quiet")];
    let second = vec![owned("diff"), owned("--quiet")];
    assert(text::views(first@) =~= seq!["diff"@, "--cached"@, "--quiet"@]);
    assert(text::views(second@) =~= seq!["diff"@, "--quiet"@]);
    let (staged_clean, n): (bool, usize) = match git(repo_path, first, replies) {
        Step::Ask(r) => {
            return Step::Ask(r);
        },
        Step::Done(Ok(clean), n) => (clean, n),
        Step::Done(Err(_), n) => (false, n),
    };
    match git(repo_path, second, after(replies, n)) {
        Step::Ask(r) => Step::Ask(r),
        Step::Done(Ok(clean), m) => Step::Done(staged_clean && clean, n + m),
        Step::Done(Err(_), m) => Step::Done(false, n + m),
    }
}

// ---------------------------------------------------------------------------
// Getting a working tree ready
// ---------------------------------------------------------------------------

/// What a step of the preparation comes to: `words` of what was to be done to
/// the repository.
pub open spec fn prepared(reply: Reply, words: Seq<char>, repo_path: Seq<char>) -> Result<
    (),
    Seq<char>,
> {
    command::must(reply, words + repo_path + ": "@, words + repo_path)
}

/// What a step of the preparation comes to.
fn prepare(reply: &Reply, words: &str, repo_path: &str) -> (r: Result<(), String>)
    ensures
        r.meaning() == prepared(*reply, words@, repo_path@),
{
    must_succeed(reply, &cat3(words, repo_path, ": "), cat2(words, repo_path))
}

/// Whether some line of `s` is not blank.
pub open spec fn has_entries(s: Seq<char>) -> bool {
    exists|i: int| 0 <= i < text::lines(s).len() && !text::is_blank(#[trigger] text::lines(s)[i])
}

/// Whether some line of `s` is not blank.
fn any_entry(s: &str) -> (r: bool)
    ensures
        r == has_entries(s@),
{
    let lines = lines_of(s);
    let ghost all = text::views(lines@);
    let mut i: usize = 0;
    while i < lines.len()
        invariant
            i <= lines@.len(),
            all == text::views(lines@),
            all == text::lines(s@),
            forall|k: int| 0 <= k < i ==> text::is_blank(#[trigger] all[k]),
        decreases lines@.len() - i,
    {
        assert(all[i as int] == lines@[i as int]@);
        if !blank(&lines[i]) {
            return true;
        }
        i += 1;
    }
    false
}

/// The conversation that finds the current branch of a repository that is to be
/// prepared.
pub open spec fn branch_to_prepare_turn(repo_path: Seq<char>, replies: Seq<Reply>) -> Turn<
    Result<Seq<char>, Seq<char>>,
> {
    command::once(
        git_wish(repo_path, seq!["symbolic-ref"@, "--short"@, "HEAD"@]),
        replies,
        |r: Reply|
            command::must_say(
                r,
                "Failed to get current branch for repo "@ + repo_path + ": "@,
                "Failed to determine current branch for repo "@ + repo_path,
            ),
    )
}

/// The conversation that puts aside what is changed. Files that `git` does not
/// track are in the way.
pub open spec fn put_aside_turn(repo_path: Seq<char>, replies: Seq<Reply>) -> Turn<
    Result<(), Seq<char>>,
> {
    command::chain_ok(
        command::once(
            git_wish(repo_path, seq!["status"@, "--porcelain"@]),
            replies,
            |r: Reply|
                match prepared(r, "Failed to get status for repo "@, repo_path) {
                    Ok(_) => Ok(command::said(r)),
                    Err(e) => Err(e),
                },
        ),
        replies,
        |status: Seq<char>, left: Seq<Reply>|
            if some_line_begins(text::lines(status), "??"@) {
                Turn::Done(
                    Err(
                        "Untracked files present in repo "@ + repo_path
                            + ". Please commit or remove them."@,
                    ),
                    0,
                )
            } else if has_entries(status) {
                command::once(
                    git_wish(repo_path, seq!["stash"@, "push"@, "-m"@, "SLAM pre-branch-stash"@]),
                    left,
                    |r: Reply| prepared(r, "Failed to stash changes in repo "@, repo_path),
                )
            } else {
                Turn::Done(Ok(()), 0)
            },
    )
}

/// The conversation that leaves the branch `current` for `head`.
pub open spec fn move_to_turn(
    repo_path: Seq<char>,
    current: Seq<char>,
    head: Seq<char>,
    replies: Seq<Reply>,
) -> Turn<Result<(), Seq<char>>> {
    if current == head {
        Turn::Done(Ok(()), 0)
    } else {
        command::once(
            git_wish(repo_path, seq!["checkout"@, head]),
            replies,
            |r: Reply|
                prepared(r, "Failed to checkout branch "@ + head + " in repo "@, repo_path),
        )
    }
}

/// The conversation of `_preflight_checks`.
pub open spec fn preflight_checks_turn(repo_path: Seq<char>, replies: Seq<Reply>) -> Turn<
    Result<(), Seq<char>>,
> {
    command::chain_ok(
        get_head_branch_turn(repo_path, replies),
        replies,
        |head: Seq<char>, left1: Seq<Reply>|
            command::chain_ok(
                branch_to_prepare_turn(repo_path, left1),
                left1,
                |current: Seq<char>, left2: Seq<Reply>|
                    command::chain_ok(
                        put_aside_turn(repo_path, left2),
                        left2,
                        |aside: (), left3: Seq<Reply>|
                            command::chain_ok(
                                move_to_turn(repo_path, current, head, left3),
                                left3,
                                |moved: (), left4: Seq<Reply>|
                                    command::once(
                                        git_wish(repo_path, seq!["pull"@]),
                                        left4,
                                        |r: Reply|
                                            prepared(
                                                r,
                                                "Failed to pull changes in repo "@,
                                                repo_path,
                                            ),
                                    ),
                            ),
                    ),
            ),
    )
}

/// Finds the current branch of a repository that is to be prepared.
fn branch_to_prepare(repo_path: &str, replies: &[Reply]) -> (step: Step<Result<String, String>>)
    ensures
        step.meaning() == branch_to_prepare_turn(repo_path@, replies@),
        command::heard_enough(step, replies@),
{
    if replies.len() == 0 {
        return Step::Ask(
            Request::Run(git_in(repo_path).arg("symbolic-ref").arg("--short").arg("HEAD")),
        );
    }
    Step::Done(
        must_speak(
            &replies[0],
            &cat3("Failed to get current branch for repo ", repo_path, ": "),
            cat2("Failed to determine current branch for repo ", repo_path),
        ),
        1,
    )
}

/// Puts aside what is changed.
fn put_aside(repo_path: &str, replies: &[Reply]) -> (step: Step<Result<(), String>>)
    ensures
        step.meaning() == put_aside_turn(repo_path@, replies@),
        command::heard_enough(step, replies@),
{
    if replies.len() == 0 {
        return Step::Ask(Request::Run(git_in(repo_path).arg("status").arg("--porcelain")));
    }
    match prepare(&replies[0], "Failed to get status for repo ", repo_path) {
        Err(e) => {
            return Step::Done(Err(e), 1);
        },
        Ok(_) => {},
    }
    let status = out_text(&replies[0]);
    if line_begins(&status, "??") {
        let words = cat3(
            "Untracked files present in repo ",
            repo_path,
            ". Please commit or remove them.",
        );
        return Step::Done(Err(words), 1);
    }
    if !any_entry(&status) {
        return Step::Done(Ok(()), 1);
    }
    if replies.len() == 1 {
        return Step::Ask(
            Request::Run(
                git_in(repo_path).arg("stash").arg("push").arg("-m").arg("SLAM pre-branch-stash"),
            ),
        );
    }
    assert(replies@.skip(1)[0] == replies@[1]);
    Step::Done(prepare(&replies[1], "Failed to stash changes in repo ", repo_path), 2)
}

/// Leaves the branch `current` for `head`.
fn move_to(repo_path: &str, current: &str, head: &str, replies: &[Reply]) -> (step: Step<
    Result<(), String>,
>)
    ensures
        step.meaning() == move_to_turn(repo_path@, current@, head@, replies@),
        command::heard_enough(step, replies@),
{
    if same(current, head) {
        return Step::Done(Ok(()), 0);
    }
    if replies.len() == 0 {
        return Step::Ask(Request::Run(git_in(repo_path).arg("checkout").arg(head)));
    }
    let words = cat3("Failed to checkout branch ", head, " in repo ");
    Step::Done(prepare(&replies[0], &words, repo_path), 1)
}

/// Brings a repository to its head branch, with the latest changes. What was
/// changed there is stashed; files that `git` does not track are an error.
pub fn _preflight_checks(repo_path: &str, replies: &[Reply]) -> (step: Step<Result<(), String>>)
    ensures
        step.meaning() == preflight_checks_turn(repo_path@, replies@),
        command::heard_enough(step, replies@),
{
    let (head, n1): (String, usize) = match get_head_branch(repo_path, replies) {
        Step::Ask(r) => {
            return Step::Ask(r);
        },
        Step::Done(Err(e), n) => {
            return Step::Done(Err(e), n);
        },
        Step::Done(Ok(head), n) => (head, n),
    };
    let left1 = after(replies, n1);
    let (current, n2): (String, usize) = match branch_to_prepare(repo_path, left1) {
        Step::Ask(r) => {
            return Step::Ask(r);
        },
        Step::Done(Err(e), n) => {
            return Step::Done(Err(e), n1 + n);
        },
        Step::Done(Ok(current), n) => (current, n),
    };
    let left2 = after(left1, n2);
    let n3: usize = match put_aside(repo_path, left2) {
        Step::Ask(r) => {
            return Step::Ask(r);
        },
        Step::Done(Err(e), n) => {
            return Step::Done(Err(e), n1 + n2 + n);
        },
        Step::Done(Ok(_), n) => n,
    };
    let left3 = after(left2, n3);
    let n4: usize = match move_to(repo_path, &current, &head, left3) {
        Step::Ask(r) => {
            return Step::Ask(r);
        },
        Step::Done(Err(e), n) => {
            return Step::Done(Err(e), n1 + n2 + n3 + n);
        },
        Step::Done(Ok(_), n) => n,
    };
    let left4 = after(left3, n4);
    if left4.len() == 0 {
        return Step::Ask(Request::Run(git_in(repo_path).arg("pull")));
    }
    Step::Done(
        prepare(&left4[0], "Failed to pull changes in repo ", repo_path),
        n1 + n2 + n3 + n4 + 1,
    )
}

/// The conversation of `_create_or_switch_branch`.
pub open spec fn create_or_switch_branch_turn(
    repo_path: Seq<char>,
    change_id: Seq<char>,
    replies: Seq<Reply>,
) -> Turn<bool> {
    command::chain(
        command::once(
            git_wish(repo_path, seq!["symbolic-ref"@, "--short"@, "HEAD"@]),
            replies,
            |r: Reply| command::succeeded(r),
        ),
        replies,
        |on_a_branch: bool, left1: Seq<Reply>|
            if !on_a_branch {
                Turn::Done(false, 0)
            } else {
                command::chain(
                    command::once(
                        git_status_wish(repo_path, seq!["rev-parse"@, "--verify"@, change_id]),
                        left1,
                        |r: Reply| command::succeeded(r),
                    ),
                    left1,
                    |exists_already: bool, left2: Seq<Reply>|
                        command::once(
                            git_status_wish(
                                repo_path,
                                if exists_already {
                                    seq!["checkout"@, change_id]
                                } else {
                                    seq!["checkout"@, "-b"@, change_id]
                                },
                            ),
                            left2,
                            |r: Reply| r is Ok,
                        ),
                )
            },
    )
}

/// A run of `git` in a repository whose output is left alone.
pub open spec fn git_status_wish(repo_path: Seq<char>, args: Seq<Seq<char>>) -> Wish {
    Wish::Run(command::uncaptured(command::within(repo_path, "git"@, args)))
}

/// Brings a repository to the branch `change_id`, which is made where it is not
/// there yet. The result says whether that could be tried: not from a detached
/// HEAD, and not where `git` cannot be run.
pub fn _create_or_switch_branch(repo_path: &str, change_id: &str, replies: &[Reply]) -> (step: Step<
    bool,
>)
    ensures
        step.meaning() == create_or_switch_branch_turn(repo_path@, change_id@, replies@),
        command::heard_enough(step, replies@),
{
    if replies.len() == 0 {
        return Step::Ask(
            Request::Run(git_in(repo_path).arg("symbolic-ref").arg("--short").arg("HEAD")),
        );
    }
    if !success(&replies[0]) {
        return Step::Done(false, 1);
    }
    if replies.len() == 1 {
        return Step::Ask(
            Request::Run(
                git_in(repo_path).arg("rev-parse").arg("--verify").arg(change_id).uncaptured(),
            ),
        );
    }
    let ghost left = replies@.skip(1);
    assert(left[0] == replies@[1]);
    if replies.len() == 2 {
        return Step::Ask(
            Request::Run(
                if success(&replies[1]) {
                    git_in(repo_path).arg("checkout").arg(change_id).uncaptured()
                } else {
                    git_in(repo_path).arg("checkout").arg("-b").arg(change_id).uncaptured()
                },
            ),
        );
    }
    assert(left.skip(1)[0] == replies@[2]);
    Step::Done(replies[2].is_ok(), 3)
}

} // verus!
