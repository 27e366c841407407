//! What is asked of git and of GitHub, one thing at a time, and what the answers come
//! to.
use crate::command;
use crate::command::{Call, Reply, Turn, Wish};
use crate::git;
use crate::github;
use crate::hooks;
use crate::json;
use crate::json::Document;
use crate::numbers;
use crate::requests;
use crate::text;
use vstd::prelude::*;

verus! {

/// A run of git in a directory.
pub open spec fn git_in(dir: Seq<char>, args: Seq<Seq<char>>) -> Wish {
    requests::run_in(dir, "git"@, args)
}

/// A run of git in a directory, whose output is not kept.
pub open spec fn loud_git_in(dir: Seq<char>, args: Seq<Seq<char>>) -> Wish {
    Wish::Run(Call { program: "git"@, dir: Some(dir), ssh_command: None, args, captured: false })
}

/// Whether something is done by one request: it succeeds if that went well. It fails
/// with these words if the request went wrong, and with the others before the reason if
/// it was refused. `first` is the conversation before the answer, and `then` the one
/// after it.
pub open spec fn does(
    first: Turn<Result<(), Seq<char>>>,
    then: Turn<Result<(), Seq<char>>>,
    wish: Wish,
    reply: Reply,
    refused: Seq<char>,
    wrong: Seq<char>,
) -> bool {
    &&& requests::asks(first, wish)
    &&& requests::went_well(reply) ==> requests::comes_to(then, ())
    &&& fails_so(then, reply, refused, wrong)
}

/// Whether a conversation fails with these words if the request went wrong, and with the
/// others before the reason if it was refused.
pub open spec fn fails_so<T>(
    then: Turn<Result<T, Seq<char>>>,
    reply: Reply,
    refused: Seq<char>,
    wrong: Seq<char>,
) -> bool {
    match reply {
        Err(e) => requests::fails_with(then, refused + e@, 1),
        Ok(_) => requests::went_well(reply) || requests::fails_with(then, wrong, 1),
    }
}

/// Whether something is found out by one request that goes well: what was answered.
pub open spec fn finds_out(
    first: Turn<Result<Seq<char>, Seq<char>>>,
    then: Turn<Result<Seq<char>, Seq<char>>>,
    wish: Wish,
    reply: Reply,
    refused: Seq<char>,
    wrong: Seq<char>,
) -> bool {
    &&& requests::asks(first, wish)
    &&& requests::went_well(reply) ==> requests::comes_to(then, requests::answered(reply))
    &&& fails_so(then, reply, refused, wrong)
}

/// Whether a question is answered by how one request went, if it was not refused.
pub open spec fn decides(
    first: Turn<Result<bool, Seq<char>>>,
    then: Turn<Result<bool, Seq<char>>>,
    wish: Wish,
    reply: Reply,
    yes: bool,
    refused: Seq<char>,
) -> bool {
    &&& requests::asks(first, wish)
    &&& reply is Ok ==> requests::comes_to(then, yes)
    &&& reply matches Err(e) ==> requests::fails_with(then, refused + e@, 1)
}

/// What changes the branches of a clone.
pub proof fn law_branches_are_changed(
    dir: Seq<char>,
    branch: Seq<char>,
    commit: Seq<char>,
    reply: Reply,
)
    ensures
        ({
            let none = Seq::<Reply>::empty();
            let one = seq![reply];
            &&& does(
                git::checkout_turn(dir, branch, none),
                git::checkout_turn(dir, branch, one),
                git_in(dir, seq!["checkout"@, branch]),
                reply,
                "Failed to execute git checkout: "@,
                "Failed to checkout branch '"@ + branch + "' in '"@ + dir + "': "@ + requests::grumbled(reply),
            )
            &&& does(
                git::checkout_branch_turn(dir, branch, none),
                git::checkout_branch_turn(dir, branch, one),
                git_in(dir, seq!["checkout"@, "-B"@, branch, "--quiet"@]),
                reply,
                "Failed to execute git checkout: "@,
                "Failed to checkout branch "@ + branch + ": "@ + requests::grumbled(reply),
            )
            &&& does(
                git::delete_local_branch_turn(dir, branch, none),
                git::delete_local_branch_turn(dir, branch, one),
                git_in(dir, seq!["branch"@, "-D"@, branch]),
                reply,
                Seq::empty(),
                "Failed to delete local branch '"@ + branch + "' in '"@ + dir + "': "@ + requests::grumbled(reply),
            )
            &&& does(
                git::restore_branch_turn(dir, branch, commit, none),
                git::restore_branch_turn(dir, branch, commit, one),
                git_in(dir, seq!["branch"@, branch, commit]),
                reply,
                "Failed to execute git branch: "@,
                "Failed to restore branch '"@ + branch + "' in '"@ + dir + "': "@ + requests::grumbled(reply),
            )
            &&& does(
                git::create_branch_turn(dir, branch, commit, none),
                git::create_branch_turn(dir, branch, commit, one),
                git_in(dir, seq!["checkout"@, "-b"@, branch, commit]),
                reply,
                "Failed to execute git checkout -b: "@,
                "Failed to create branch '"@ + branch + "' at commit "@ + commit + ": "@ + requests::grumbled(reply),
            )
            &&& does(
                git::reset_to_turn(dir, commit, none),
                git::reset_to_turn(dir, commit, one),
                git_in(dir, seq!["reset"@, "--hard"@, commit]),
                reply,
                "Failed to execute git reset --hard: "@,
                "Failed to reset '"@ + dir + "' to "@ + commit + ": "@ + requests::grumbled(reply),
            )
            &&& does(
                git::reset_hard_turn(dir, none),
                git::reset_hard_turn(dir, one),
                git_in(dir, seq!["reset"@, "--hard"@, "HEAD"@]),
                reply,
                "Failed to run git reset --hard: "@,
                "Failed to reset hard: "@ + requests::grumbled(reply),
            )
            &&& does(
                git::reset_commit_turn(dir, none),
                git::reset_commit_turn(dir, one),
                git_in(dir, seq!["reset"@, "--soft"@, "HEAD~1"@]),
                reply,
                "Failed to execute git reset --soft HEAD~1: "@,
                "Failed to reset commit in '"@ + dir + "': "@ + requests::grumbled(reply),
            )
            &&& does(
                git::unstage_all_turn(dir, none),
                git::unstage_all_turn(dir, one),
                git_in(dir, seq!["reset"@]),
                reply,
                "Failed to execute git reset: "@,
                "Failed to unstage files in '"@ + dir + "': "@ + requests::grumbled(reply),
            )
            &&& does(
                git::pull_turn(dir, none),
                git::pull_turn(dir, one),
                git_in(dir, seq!["pull"@]),
                reply,
                "Failed to run git pull: "@,
                "Failed to pull changes: "@ + requests::grumbled(reply),
            )
        }),
{
}

/// What stages and commits changes, and puts them aside.
pub proof fn law_changes_are_kept(
    dir: Seq<char>,
    message: Seq<char>,
    stash: Seq<char>,
    reply: Reply,
)
    ensures
        ({
            let none = Seq::<Reply>::empty();
            let one = seq![reply];
            &&& does(
                git::stage_all_turn(dir, none),
                git::stage_all_turn(dir, one),
                git_in(dir, seq!["add"@, "."@]),
                reply,
                "Failed to execute git add: "@,
                "Failed to stage files in '"@ + dir + "': "@ + requests::grumbled(reply),
            )
            &&& does(
                git::commit_all_turn(dir, message, none),
                git::commit_all_turn(dir, message, one),
                git_in(dir, seq!["commit"@, "-am"@, message]),
                reply,
                "Failed to run git commit -am: "@,
                "Failed to commit changes: "@ + requests::grumbled(reply),
            )
            &&& does(
                git::stash_pop_turn(dir, stash, none),
                git::stash_pop_turn(dir, stash, one),
                git_in(dir, seq!["stash"@, "pop"@, stash]),
                reply,
                "Failed to run git stash pop: "@,
                "Failed to pop stash "@ + stash + ": "@ + requests::grumbled(reply),
            )
            &&& requests::asks(
                git::stash_save_turn(dir, none),
                git_in(dir, seq!["stash"@, "push"@, "-m"@, "SLAM pre-branch-stash"@]),
            )
            &&& requests::went_well(reply) ==> requests::comes_to(
                git::stash_save_turn(dir, one),
                "stash@{0}"@,
            )
            &&& !requests::went_well(reply) ==> requests::fails(git::stash_save_turn(dir, one))
            &&& requests::asks(
                git::stage_files_turn(dir, none),
                git_in(dir, seq!["add"@, "."@]),
            )
            &&& requests::asks(
                git::commit_changes_turn(dir, message, none),
                git_in(dir, seq!["commit"@, "-m"@, message]),
            )
            &&& reply is Ok ==> requests::comes_to(git::stage_files_turn(dir, one), ())
            &&& reply is Ok ==> requests::comes_to(git::commit_changes_turn(dir, message, one), ())
            &&& reply is Err ==> requests::fails(git::stage_files_turn(dir, one))
            &&& reply is Err ==> requests::fails(git::commit_changes_turn(dir, message, one))
        }),
{
}

/// What changes the branches of the remote.
pub proof fn law_branches_are_published(
    dir: Seq<char>,
    branch: Seq<char>,
    commit: Seq<char>,
    reply: Reply,
)
    ensures
        ({
            let none = Seq::<Reply>::empty();
            let one = seq![reply];
            &&& does(
                git::publish_branch_turn(dir, branch, none),
                git::publish_branch_turn(dir, branch, one),
                git_in(dir, seq!["push"@, "--set-upstream"@, "origin"@, branch]),
                reply,
                "Failed to execute git push: "@,
                "Failed to push branch '"@ + branch + "' in '"@ + dir + "': "@ + requests::grumbled(reply),
            )
            &&& does(
                git::unpublish_branch_turn(dir, branch, none),
                git::unpublish_branch_turn(dir, branch, one),
                git_in(dir, seq!["push"@, "origin"@, ":"@ + branch]),
                reply,
                "Failed to execute git push: "@,
                "Failed to delete remote branch '"@ + branch + "' in '"@ + dir + "': "@ + requests::grumbled(reply),
            )
            &&& does(
                git::restore_remote_branch_turn(dir, branch, commit, none),
                git::restore_remote_branch_turn(dir, branch, commit, one),
                git_in(dir, seq!["push"@, "origin"@, commit + ":refs/heads/"@ + branch]),
                reply,
                "Failed to execute git push: "@,
                "Failed to restore remote branch '"@ + branch + "' in '"@ + dir + "': "@ + requests::grumbled(reply),
            )
            &&& does(
                git::remote_prune_turn(dir, none),
                git::remote_prune_turn(dir, one),
                git_in(dir, seq!["remote"@, "prune"@, "origin"@]),
                reply,
                "Failed to execute git remote prune origin: "@,
                "Failed to prune remote branches in '"@ + dir + "': "@ + requests::grumbled(reply),
            )
            &&& requests::asks(
                git::delete_remote_branch_turn(dir, branch, none),
                git_in(dir, seq!["push"@, "origin"@, ":"@ + branch]),
            )
            &&& requests::asks(
                git::push_turn(dir, branch, none),
                git_in(dir, seq!["push"@, "--set-upstream"@, "origin"@, branch]),
            )
            &&& requests::asks(
                git::push_branch_turn(dir, branch, none),
                loud_git_in(dir, seq!["push"@, "--set-upstream"@, "origin"@, branch]),
            )
            &&& reply is Ok ==> requests::comes_to(
                git::delete_remote_branch_turn(dir, branch, one),
                (),
            )
            &&& reply is Err ==> requests::fails(git::delete_remote_branch_turn(dir, branch, one))
            &&& reply is Ok ==> requests::comes_to(git::push_turn(dir, branch, one), ())
            &&& reply is Err ==> requests::fails(git::push_turn(dir, branch, one))
            &&& git::push_branch_turn(dir, branch, one) == Turn::Done(reply is Ok, 1)
        }),
{
}

/// What is found out about a clone. A branch is asked for by its whole name.
pub proof fn law_clones_are_asked(dir: Seq<char>, branch: Seq<char>, reply: Reply)
    ensures
        ({
            let none = Seq::<Reply>::empty();
            let one = seq![reply];
            let well = requests::went_well(reply);
            &&& finds_out(
                git::current_branch_turn(dir, none),
                git::current_branch_turn(dir, one),
                git_in(dir, seq!["symbolic-ref"@, "--short"@, "HEAD"@]),
                reply,
                "Failed to determine current branch: "@,
                "Failed to determine current branch in '"@ + dir + "'"@,
            )
            &&& finds_out(
                git::get_head_sha_turn(dir, none),
                git::get_head_sha_turn(dir, one),
                git_in(dir, seq!["rev-parse"@, "HEAD"@]),
                reply,
                "Failed to run git rev-parse HEAD: "@,
                "git rev-parse HEAD failed: "@ + requests::grumbled(reply),
            )
            &&& finds_out(
                git::local_branch_commit_turn(dir, branch, none),
                git::local_branch_commit_turn(dir, branch, one),
                git_in(dir, seq!["rev-parse"@, "refs/heads/"@ + branch]),
                reply,
                "Failed to execute git rev-parse for branch '"@ + branch + "': "@,
                "Failed to get commit hash for branch '"@ + branch + "'"@,
            )
            &&& finds_out(
                git::get_branch_commit_turn(dir, branch, none),
                git::get_branch_commit_turn(dir, branch, one),
                git_in(dir, seq!["rev-parse"@, branch]),
                reply,
                "Failed to execute git rev-parse for branch '"@ + branch + "': "@,
                "Failed to get commit hash for branch '"@ + branch + "'"@,
            )
            &&& decides(
                git::branch_exists_turn(dir, branch, none),
                git::branch_exists_turn(dir, branch, one),
                git_in(dir, seq!["rev-parse"@, "--verify"@, "refs/heads/"@ + branch]),
                reply,
                well,
                "Failed to execute git rev-parse: "@,
            )
            &&& decides(
                git::remote_branch_exists_turn(dir, branch, none),
                git::remote_branch_exists_turn(dir, branch, one),
                git_in(
                    dir,
                    seq![
                        "ls-remote"@, "--exit-code"@, "--heads"@, "origin"@,
                        "refs/heads/"@ + branch,
                    ],
                ),
                reply,
                well,
                "Failed to execute git ls-remote: "@,
            )
            &&& decides(
                git::has_modified_files_turn(dir, none),
                git::has_modified_files_turn(dir, one),
                git_in(dir, seq!["diff-index"@, "--quiet"@, "HEAD"@, "--"@]),
                reply,
                !well,
                "Failed to run git diff-index: "@,
            )
            &&& decides(
                git::has_staged_files_turn(dir, none),
                git::has_staged_files_turn(dir, one),
                git_in(dir, seq!["diff"@, "--cached"@, "--quiet"@]),
                reply,
                !well,
                "Failed to run git diff --cached --quiet: "@,
            )
            &&& decides(
                git::has_untracked_files_turn(dir, none),
                git::has_untracked_files_turn(dir, one),
                git_in(dir, seq!["status"@, "--porcelain"@]),
                reply,
                git::some_line_begins(text::lines(requests::printed(reply)), "??"@),
                "Failed to run git status: "@,
            )
        }),
{
}

/// A clone is clean if nothing is staged and nothing else is changed.
pub proof fn law_clean_clones_have_no_differences(dir: Seq<char>, a: Reply, b: Reply)
    ensures
        requests::asks(
            git::is_working_tree_clean_turn(dir, Seq::empty()),
            git_in(dir, seq!["diff"@, "--cached"@, "--quiet"@]),
        ),
        requests::asks(
            git::is_working_tree_clean_turn(dir, seq![a]),
            git_in(dir, seq!["diff"@, "--quiet"@]),
        ),
        git::is_working_tree_clean_turn(dir, seq![a, b]) == Turn::Done(
            requests::went_well(a) && requests::went_well(b),
            2,
        ),
{
    assert(seq![a].skip(1) =~= Seq::empty());
    assert(seq![a, b].skip(1) =~= seq![b]);
}

/// The commit that a branch of the remote is at is the first word, up to a tabulator,
/// of what git prints. There is none if git finds no such branch.
pub proof fn law_remote_commits_come_first(
    dir: Seq<char>,
    branch: Seq<char>,
    reply: Reply,
    commit: Seq<char>,
    rest: Seq<char>,
)
    requires
        !commit.contains('\t'),
        reply is Ok,
        requests::printed(reply) == commit.push('\t') + rest,
    ensures
        requests::asks(
            git::remote_branch_commit_turn(dir, branch, Seq::empty()),
            git_in(
                dir,
                seq![
                    "ls-remote"@, "--exit-code"@, "--heads"@, "origin"@, "refs/heads/"@ + branch,
                ],
            ),
        ),
        requests::went_well(reply) ==> requests::comes_to(
            git::remote_branch_commit_turn(dir, branch, seq![reply]),
            Some(commit),
        ),
        !requests::went_well(reply) ==> requests::comes_to(
            git::remote_branch_commit_turn(dir, branch, seq![reply]),
            None,
        ),
{
    let s = commit.push('\t') + rest;
    assert forall|k: int| 0 <= k < commit.len() implies s[k] != '\t' by {
        assert(commit.contains(commit[k]));
    }
    lemma_field_end(s, 0, commit.len() as int);
    assert(s.subrange(0, commit.len() as int) =~= commit);
}

proof fn lemma_field_end(s: Seq<char>, from: int, to: int)
    requires
        0 <= from <= to < s.len(),
        s[to] == '\t',
        forall|k: int| from <= k < to ==> s[k] != '\t',
    ensures
        git::field_end(s, from) == to,
    decreases to - from,
{
    if from < to {
        lemma_field_end(s, from + 1, to);
    }
}

/// The slug of a clone is what its address names, if that is one at GitHub.
pub proof fn law_slugs_are_in_addresses(dir: Seq<char>, slug: Seq<char>, reply: Reply)
    ensures
        requests::asks(
            git::get_repo_slug_turn(dir, Seq::empty()),
            git_in(dir, seq!["config"@, "--get"@, "remote.origin.url"@]),
        ),
        requests::went_well(reply) && requests::answered(reply) == "git@github.com:"@ + slug
            + ".git"@ && !text::finishes_with(slug, ".git"@) ==> requests::comes_to(
            git::get_repo_slug_turn(dir, seq![reply]),
            slug,
        ),
        requests::went_well(reply) && !text::begins_with(
            requests::answered(reply),
            "git@github.com:"@,
        ) ==> requests::fails_with(
            git::get_repo_slug_turn(dir, seq![reply]),
            "Unexpected remote URL format: "@ + requests::answered(reply),
            1,
        ),
        !requests::went_well(reply) ==> requests::fails(git::get_repo_slug_turn(dir, seq![reply])),
{
    let host = "git@github.com:"@;
    let end = ".git"@;
    reveal_strlit(".git");
    let url = host + slug + end;
    assert(url.subrange(0, host.len() as int) =~= host);
    assert(url.skip(host.len() as int) =~= slug + end);
    let back = slug + end;
    assert(back.subrange(slug.len() as int, back.len() as int) =~= end);
    assert(back.take(slug.len() as int) =~= slug);
    assert(text::without_trailing(back, end) == text::without_trailing(slug, end));
}

/// A branch that is deleted is left first, for the head branch, if it is the one that
/// is checked out.
pub proof fn law_branches_are_left_before_they_are_deleted(
    dir: Seq<char>,
    branch: Seq<char>,
    head: Seq<char>,
    a: Reply,
    b: Reply,
    c: Reply,
)
    requires
        requests::went_well(a),
        requests::went_well(b),
        requests::went_well(c),
        text::trim(requests::answered(a)) == requests::answered(a),
        text::trim(branch) == branch,
        requests::answered(b) == "refs/remotes/origin/"@ + head,
    ensures
        requests::asks(
            git::safe_delete_local_branch_turn(dir, branch, Seq::empty()),
            git_in(dir, seq!["symbolic-ref"@, "--short"@, "HEAD"@]),
        ),
        requests::answered(a) != branch ==> requests::asks(
            git::safe_delete_local_branch_turn(dir, branch, seq![a]),
            git_in(dir, seq!["branch"@, "-D"@, branch]),
        ),
        requests::answered(a) == branch ==> requests::asks(
            git::safe_delete_local_branch_turn(dir, branch, seq![a]),
            git_in(dir, seq!["symbolic-ref"@, "refs/remotes/origin/HEAD"@]),
        ) && requests::asks(
            git::safe_delete_local_branch_turn(dir, branch, seq![a, b]),
            git_in(dir, seq!["checkout"@, head]),
        ) && requests::asks(
            git::safe_delete_local_branch_turn(dir, branch, seq![a, b, c]),
            git_in(dir, seq!["branch"@, "-D"@, branch]),
        ),
{
    assert(seq![a].skip(1) =~= Seq::empty());
    assert(seq![a, b].skip(1) =~= seq![b]);
    assert(seq![a, b, c].skip(1) =~= seq![b, c]);
    assert(seq![b].skip(1) =~= Seq::empty());
    assert(seq![b, c].skip(1) =~= seq![c]);
    assert(seq![b, c].skip(2) =~= Seq::empty());
    assert(seq![b].skip(0) =~= seq![b]);
    assert(Seq::<Reply>::empty().skip(0) =~= Seq::empty());
    let origin = "refs/remotes/origin/"@;
    let name = origin + head;
    assert(name.subrange(0, origin.len() as int) =~= origin);
    assert(name.skip(origin.len() as int) =~= head);
}

/// A branch that is there is switched to, and one that is not is created.
pub proof fn law_branches_are_created_or_switched_to(
    dir: Seq<char>,
    branch: Seq<char>,
    a: Reply,
    b: Reply,
    c: Reply,
)
    ensures
        requests::asks(
            git::create_or_switch_branch_turn(dir, branch, Seq::empty()),
            git_in(dir, seq!["symbolic-ref"@, "--short"@, "HEAD"@]),
        ),
        !requests::went_well(a) ==> git::create_or_switch_branch_turn(dir, branch, seq![a])
            == Turn::Done(false, 1),
        requests::went_well(a) ==> requests::asks(
            git::create_or_switch_branch_turn(dir, branch, seq![a]),
            loud_git_in(dir, seq!["rev-parse"@, "--verify"@, branch]),
        ),
        requests::went_well(a) && requests::went_well(b) ==> requests::asks(
            git::create_or_switch_branch_turn(dir, branch, seq![a, b]),
            loud_git_in(dir, seq!["checkout"@, branch]),
        ),
        requests::went_well(a) && !requests::went_well(b) ==> requests::asks(
            git::create_or_switch_branch_turn(dir, branch, seq![a, b]),
            loud_git_in(dir, seq!["checkout"@, "-b"@, branch]),
        ),
        requests::went_well(a) ==> git::create_or_switch_branch_turn(dir, branch, seq![a, b, c])
            == Turn::Done(c is Ok, 3),
{
    assert(seq![a].skip(1) =~= Seq::empty());
    assert(seq![a, b].skip(1) =~= seq![b]);
    assert(seq![a, b, c].skip(1) =~= seq![b, c]);
    assert(seq![b].skip(1) =~= Seq::empty());
    assert(seq![b, c].skip(1) =~= seq![c]);
}

/// The branches in a listing are the names in its lines that start with a prefix. The
/// one that is checked out is marked by a star and a blank.
pub proof fn law_branch_listings_name_branches(
    output: Seq<char>,
    prefix: Seq<char>,
    line: Seq<char>,
    name: Seq<char>,
)
    ensures
        git::listed_branches(output, prefix).contains(name) ==> text::begins_with(name, prefix)
            && exists|i: int|
            0 <= i < text::lines(output).len() && names(#[trigger] text::lines(output)[i], name),
        text::lines(output).contains(line) && names(line, name) && text::begins_with(name, prefix)
            ==> git::listed_branches(output, prefix).contains(name),
{
    let lines = text::lines(output);
    let f = |line: Seq<char>| git::listed_branch(line, prefix);
    if git::listed_branches(output, prefix).contains(name) {
        requests::lemma_left_from(lines, f, name);
        let i = choose|i: int| 0 <= i < lines.len() && f(#[trigger] lines[i]) == Some(name);
        lemma_names(lines[i], name);
        assert(names(lines[i], name));
    }
    if lines.contains(line) && names(line, name) && text::begins_with(name, prefix) {
        lemma_names(line, name);
        let i = choose|i: int| 0 <= i < lines.len() && lines[i] == line;
        assert(f(lines[i]) == Some(name));
        requests::lemma_left_has(lines, f, i);
    }
}

/// Whether a line of a listing names a branch, after any stars before it.
pub open spec fn names(line: Seq<char>, name: Seq<char>) -> bool {
    exists|stars: nat| #[trigger] starred(stars, name) == text::trim(line) && !text::begins_with(
        name,
        "* "@,
    )
}

/// A name behind so many stars, each with a blank behind it.
pub open spec fn starred(stars: nat, name: Seq<char>) -> Seq<char>
    decreases stars,
{
    if stars == 0 {
        name
    } else {
        "* "@ + starred((stars - 1) as nat, name)
    }
}

proof fn lemma_unstarred(stars: nat, name: Seq<char>)
    requires
        !text::begins_with(name, "* "@),
    ensures
        text::without_leading(starred(stars, name), "* "@) == name,
    decreases stars,
{
    reveal_strlit("* ");
    if stars > 0 {
        let rest = starred((stars - 1) as nat, name);
        lemma_unstarred((stars - 1) as nat, name);
        let whole = "* "@ + rest;
        assert(whole.subrange(0, 2) =~= "* "@);
        assert(whole.skip(2) =~= rest);
    }
}

proof fn lemma_stars(s: Seq<char>) -> (stars: nat)
    ensures
        starred(stars, text::without_leading(s, "* "@)) == s,
        !text::begins_with(text::without_leading(s, "* "@), "* "@),
    decreases s.len(),
{
    reveal_strlit("* ");
    if text::begins_with(s, "* "@) {
        let n = lemma_stars(s.skip(2));
        assert("* "@ + s.skip(2) =~= s) by {
            assert(s.subrange(0, 2) =~= "* "@);
            assert(s =~= s.subrange(0, 2) + s.skip(2));
        }
        n + 1
    } else {
        0
    }
}

proof fn lemma_names(line: Seq<char>, name: Seq<char>)
    ensures
        names(line, name) <==> text::without_leading(text::trim(line), "* "@) == name,
{
    let s = text::trim(line);
    if names(line, name) {
        let stars = choose|stars: nat| #[trigger] starred(stars, name) == s && !text::begins_with(
            name,
            "* "@,
        );
        lemma_unstarred(stars, name);
    }
    if text::without_leading(s, "* "@) == name {
        let stars = lemma_stars(s);
        assert(starred(stars, name) == s);
    }
}

// ---------------------------------------------------------------------------
// GitHub
// ---------------------------------------------------------------------------

/// What is done to pull requests and branches at GitHub. Whether GitHub goes along
/// counts only where a pull request is closed or reopened.
pub proof fn law_pull_requests_are_handled(
    slug: Seq<char>,
    number: u64,
    branch: Seq<char>,
    reply: Reply,
)
    ensures
        ({
            let none = Seq::<Reply>::empty();
            let one = seq![reply];
            let n = numbers::decimal(number as nat);
            &&& does(
                github::close_pr_turn(slug, number, none),
                github::close_pr_turn(slug, number, one),
                requests::run_here(
                    "gh"@,
                    seq![
                        "pr"@, "close"@, n, "--repo"@, slug, "--delete-branch"@, "--comment"@,
                        "Closing old PR in favor of new changes"@,
                    ],
                ),
                reply,
                Seq::empty(),
                "Failed to close PR "@ + n + " for "@ + slug + ": "@ + requests::grumbled(reply),
            )
            &&& does(
                github::reopen_turn(slug, number, none),
                github::reopen_turn(slug, number, one),
                requests::run_here("gh"@, seq!["pr"@, "reopen"@, n, "--repo"@, slug]),
                reply,
                "Failed to execute gh pr reopen: "@,
                "Failed to reopen PR #"@ + n + " for repo '"@ + slug + "': "@ + requests::grumbled(reply),
            )
            &&& requests::asks(
                github::approve_pr_turn(slug, number, none),
                requests::run_here(
                    "gh"@,
                    seq!["pr"@, "review"@, n, "--approve"@, "--repo"@, slug],
                ),
            )
            &&& requests::asks(
                github::delete_remote_branch_gh_turn(slug, branch, none),
                requests::run_here(
                    "gh"@,
                    seq![
                        "api"@, "-X"@, "DELETE"@, "repos/"@ + slug + "/git/refs/heads/"@ + branch,
                    ],
                ),
            )
            &&& reply is Ok ==> requests::comes_to(github::approve_pr_turn(slug, number, one), ())
            &&& reply is Err ==> requests::fails(github::approve_pr_turn(slug, number, one))
            &&& reply is Ok ==> requests::comes_to(
                github::delete_remote_branch_gh_turn(slug, branch, one),
                (),
            )
            &&& reply is Err ==> requests::fails(
                github::delete_remote_branch_gh_turn(slug, branch, one),
            )
        }),
{
}

/// Whether a pull request is opened by one request that goes well: what was answered
/// is its address.
pub open spec fn opens(
    first: Turn<Option<Seq<char>>>,
    then: Turn<Option<Seq<char>>>,
    wish: Wish,
    reply: Reply,
) -> bool {
    &&& first == Turn::<Option<Seq<char>>>::Ask(wish)
    &&& requests::went_well(reply) ==> then == Turn::Done(Some(requests::answered(reply)), 1)
    &&& !requests::went_well(reply) ==> then == Turn::Done(None::<Seq<char>>, 1)
}

/// A pull request is opened against the main branch, under the name of the change, with
/// the message of the commit, or with fixed words.
pub proof fn law_pull_requests_are_opened(
    dir: Seq<char>,
    change_id: Seq<char>,
    message: Seq<char>,
    reply: Reply,
)
    ensures
        opens(
            github::create_pr_turn(dir, change_id, message, Seq::empty()),
            github::create_pr_turn(dir, change_id, message, seq![reply]),
            requests::run_in(
                dir,
                "gh"@,
                seq![
                    "pr"@, "create"@, "--title"@, change_id, "--body"@, message
                        + "\n\ndocs: https://github.com/scottidler/slam/blob/main/README.md"@,
                    "--base"@, "main"@,
                ],
            ),
            reply,
        ),
        opens(
            github::fixed_create_pr_turn(dir, Seq::empty()),
            github::fixed_create_pr_turn(dir, seq![reply]),
            requests::run_in(
                dir,
                "gh"@,
                seq![
                    "pr"@, "create"@, "--title"@, "SLAM: Automated Update"@, "--body"@,
                    "Automated update generated by SLAM.\ndocs: https://github.com/scottidler/slam/blob/main/README.md"@,
                    "--base"@, "main"@,
                ],
            ),
            reply,
        ),
{
}

/// The request for the newest pull request of a branch that is open, or closed.
pub open spec fn asking_for(slug: Seq<char>, branch: Seq<char>, state: Seq<char>) -> Wish {
    requests::run_here(
        "gh"@,
        seq![
            "pr"@, "list"@, "--repo"@, slug, "--head"@, branch, "--state"@, state, "--json"@,
            "number"@, "--limit"@, "1"@,
        ],
    )
}

/// Whether an answer lists pull requests of which the first has a number.
pub open spec fn lists_first(reply: Reply, number: u64) -> bool {
    &&& requests::went_well(reply)
    &&& reply matches Ok(out) && json::json_in(out.stdout@) matches Ok(Document::List(prs))
        && prs.len() > 0 && json::at(prs[0], "number"@) == Document::Number(Some(number))
}

/// Whether an answer lists no pull request.
pub open spec fn lists_none(reply: Reply) -> bool {
    &&& requests::went_well(reply)
    &&& reply matches Ok(out) && json::json_in(out.stdout@) matches Ok(Document::List(prs))
        && prs.len() == 0
}

/// The number of the pull request of a branch is that of the first one listed, or 0 if
/// there is none. A closed one is reopened by its number, if there is one.
pub proof fn law_pull_requests_are_found_by_their_branch(
    slug: Seq<char>,
    branch: Seq<char>,
    reply: Reply,
    number: u64,
)
    ensures
        ({
            let none = Seq::<Reply>::empty();
            let one = seq![reply];
            &&& requests::asks(
                github::get_pr_number_for_repo_turn(slug, branch, none),
                asking_for(slug, branch, "open"@),
            )
            &&& requests::asks(
                github::get_closed_pr_number_for_repo_turn(slug, branch, none),
                asking_for(slug, branch, "closed"@),
            )
            &&& requests::asks(
                github::reopen_pr_turn(slug, branch, none),
                asking_for(slug, branch, "closed"@),
            )
            &&& lists_first(reply, number) ==> {
                &&& requests::comes_to(
                    github::get_pr_number_for_repo_turn(slug, branch, one),
                    number,
                )
                &&& requests::comes_to(
                    github::get_closed_pr_number_for_repo_turn(slug, branch, one),
                    number,
                )
                &&& number != 0 ==> requests::asks(
                    github::reopen_pr_turn(slug, branch, one),
                    requests::run_here(
                        "gh"@,
                        seq!["pr"@, "reopen"@, numbers::decimal(number as nat), "--repo"@, slug],
                    ),
                )
            }
            &&& lists_none(reply) ==> {
                &&& requests::comes_to(
                    github::get_pr_number_for_repo_turn(slug, branch, one),
                    0u64,
                )
                &&& requests::comes_to(
                    github::get_closed_pr_number_for_repo_turn(slug, branch, one),
                    0u64,
                )
                &&& requests::fails(github::reopen_pr_turn(slug, branch, one))
            }
            &&& !requests::went_well(reply) ==> {
                &&& requests::fails(github::get_pr_number_for_repo_turn(slug, branch, one))
                &&& requests::fails(github::get_closed_pr_number_for_repo_turn(slug, branch, one))
                &&& requests::fails(github::reopen_pr_turn(slug, branch, one))
            }
        }),
{
    assert(seq![reply].skip(1) =~= Seq::empty());
}

/// The branches of a repository at GitHub are those that its lines name, without the
/// quotes around them, if they start with a prefix.
pub proof fn law_remote_branches_are_listed(
    slug: Seq<char>,
    prefix: Seq<char>,
    reply: Reply,
    name: Seq<char>,
)
    ensures
        requests::asks(
            github::list_remote_branches_with_prefix_turn(slug, prefix, Seq::empty()),
            requests::run_here(
                "gh"@,
                seq![
                    "api"@, "repos/"@ + slug + "/branches"@, "--paginate"@, "--jq"@,
                    ".[] | .name"@,
                ],
            ),
        ),
        !requests::went_well(reply) ==> requests::fails(
            github::list_remote_branches_with_prefix_turn(slug, prefix, seq![reply]),
        ),
        requests::went_well(reply) ==> requests::comes_to(
            github::list_remote_branches_with_prefix_turn(slug, prefix, seq![reply]),
            github::remote_branches(requests::printed(reply), prefix),
        ),
        github::remote_branches(requests::printed(reply), prefix).contains(name) <==> (
        text::begins_with(name, prefix) && line_names(requests::printed(reply), name)),
{
    let lines = text::lines(requests::printed(reply));
    let f = |line: Seq<char>| github::remote_branch(line, prefix);
    if github::remote_branches(requests::printed(reply), prefix).contains(name) {
        requests::lemma_left_from(lines, f, name);
        let i = choose|i: int| 0 <= i < lines.len() && f(#[trigger] lines[i]) == Some(name);
        assert(text::trim_char(text::trim(lines[i]), '"') == name);
    }
    if text::begins_with(name, prefix) && line_names(requests::printed(reply), name) {
        let i = choose|i: int|
            0 <= i < lines.len() && text::trim_char(text::trim(#[trigger] lines[i]), '"') == name;
        assert(f(lines[i]) == Some(name));
        requests::lemma_left_has(lines, f, i);
    }
}

/// Whether a line of an output, without the blanks and the quotes around it, is a
/// name.
pub open spec fn line_names(output: Seq<char>, name: Seq<char>) -> bool {
    exists|i: int|
        0 <= i < text::lines(output).len() && text::trim_char(
            text::trim(#[trigger] text::lines(output)[i]),
            '"',
        ) == name
}

// ---------------------------------------------------------------------------
// Hooks
// ---------------------------------------------------------------------------

/// Whether two runs of the hooks ended in the same way.
pub open spec fn ended_alike(a: Reply, b: Reply) -> bool {
    match (a, b) {
        (Ok(x), Ok(y)) => x.code == y.code && command::lossy(x.stdout@) == command::lossy(y.stdout@)
            && command::lossy(x.stderr@) == command::lossy(y.stderr@),
        _ => false,
    }
}

/// Whether runs of the hooks took place and failed, each in another way than the one
/// before it.
pub open spec fn failed_in_turn(replies: Seq<Reply>) -> bool {
    &&& forall|i: int|
        0 <= i < replies.len() ==> (#[trigger] replies[i]) is Ok && !requests::went_well(replies[i])
    &&& forall|i: int|
        0 < i < replies.len() ==> !ended_alike(replies[i - 1], #[trigger] replies[i])
}

proof fn lemma_failed_in_turn(
    path: Seq<char>,
    retries: nat,
    made: nat,
    last: hooks::Attempt,
    replies: Seq<Reply>,
)
    requires
        made <= 5,
        made + replies.len() <= 5,
        failed_in_turn(replies),
        made > 0 && replies.len() > 0 ==> hooks::attempt(replies[0]) != last,
    ensures
        made + replies.len() < 5 ==> hooks::retry_turn(path, retries, made, 0, last, replies) is Ask,
        made + replies.len() == 5 ==> requests::fails(
            hooks::retry_turn(path, retries, made, 0, last, replies),
        ),
    decreases replies.len(),
{
    if made < 5 && replies.len() > 0 {
        let r = replies[0];
        let left = replies.skip(1);
        assert(r is Ok && !requests::went_well(r));
        assert forall|i: int| 0 <= i < left.len() implies (#[trigger] left[i]) is Ok
            && !requests::went_well(left[i]) by {
            assert(left[i] == replies[i + 1]);
        }
        assert forall|i: int| 0 < i < left.len() implies !ended_alike(
            left[i - 1],
            #[trigger] left[i],
        ) by {
            assert(left[i] == replies[i + 1] && left[i - 1] == replies[i]);
        }
        if left.len() > 0 {
            assert(left[0] == replies[1]);
            assert(!ended_alike(replies[0], replies[1]));
            assert(replies[1] is Ok);
            assert(hooks::attempt(left[0]) != hooks::attempt(r));
        }
        lemma_failed_in_turn(path, retries, made + 1, hooks::attempt(r), left);
    }
}

/// Hooks that fail in another way each time are run five times. They are run in the
/// repository, on all of its files.
pub proof fn law_hooks_are_run_five_times(path: Seq<char>, retries: nat, replies: Seq<Reply>)
    requires
        failed_in_turn(replies),
        replies.len() <= 5,
    ensures
        replies.len() < 5 ==> requests::asks(
            hooks::run_pre_commit_with_retry_turn(path, retries, replies),
            requests::run_in(path, "pre-commit"@, seq!["run"@, "--all-files"@]),
        ),
        replies.len() == 5 ==> requests::fails(
            hooks::run_pre_commit_with_retry_turn(path, retries, replies),
        ),
{
    let none = hooks::Attempt { code: None, stdout: Seq::empty(), stderr: Seq::empty() };
    lemma_failed_in_turn(path, retries, 0, none, replies);
    lemma_retries_run_hooks(path, retries, 0, 0, none, replies);
}

/// Whatever the answers, the hooks are asked for by one and the same request.
pub proof fn lemma_retries_run_hooks(
    path: Seq<char>,
    retries: nat,
    made: nat,
    identical: nat,
    last: hooks::Attempt,
    replies: Seq<Reply>,
)
    ensures
        hooks::retry_turn(path, retries, made, identical, last, replies) matches Turn::Ask(wish)
            ==> wish == requests::run_in(path, "pre-commit"@, seq!["run"@, "--all-files"@]),
    decreases hooks::MAX_RETRY - made,
{
    if made < hooks::MAX_RETRY && replies.len() > 0 {
        let r = replies[0];
        let left = replies.skip(1);
        lemma_retries_run_hooks(path, retries, made + 1, 0, hooks::attempt(r), left);
        lemma_retries_run_hooks(path, retries, made + 1, identical + 1, last, left);
    }
}

/// Hooks that cannot be run fail at once, and those that pass end the runs.
pub proof fn law_hooks_are_run_no_longer_than_needed(path: Seq<char>, retries: nat, reply: Reply)
    ensures
        reply is Err ==> requests::fails(
            hooks::run_pre_commit_with_retry_turn(path, retries, seq![reply]),
        ),
        requests::went_well(reply) ==> requests::comes_to(
            hooks::run_pre_commit_with_retry_turn(path, retries, seq![reply]),
            (),
        ),
{
}

/// Whether a document says that a pull request is merged: by its state, or by when that
/// was.
pub open spec fn says_merged(d: Document) -> bool {
    json::at(d, "state"@) == Document::Text("MERGED"@) || json::at(d, "mergedAt"@)
        != Document::Null
}

/// A merge counts once GitHub says that it took place, and only then. The request for it
/// squashes the commits and deletes the branch.
pub proof fn law_merges_are_confirmed(
    slug: Seq<char>,
    number: u64,
    admin: bool,
    a: Reply,
    b: Reply,
    d: Document,
)
    requires
        a is Ok,
        requests::went_well(b),
        b matches Ok(out) && json::json_in(out.stdout@) == Ok::<Document, Seq<char>>(d),
    ensures
        ({
            let n = numbers::decimal(number as nat);
            let asked = if admin {
                seq![
                    "pr"@, "merge"@, n, "--admin"@, "--squash"@, "--delete-branch"@, "--repo"@,
                    slug,
                ]
            } else {
                seq!["pr"@, "merge"@, n, "--squash"@, "--delete-branch"@, "--repo"@, slug]
            };
            let blocked = text::holds(
                github::lowercase(requests::printed(a) + requests::grumbled(a)),
                "review required"@,
            );
            &&& requests::asks(
                github::merge_pr_turn(slug, number, admin, Seq::empty()),
                requests::run_here("gh"@, asked),
            )
            &&& blocked ==> requests::fails(github::merge_pr_turn(slug, number, admin, seq![a]))
            &&& !blocked ==> requests::asks(
                github::merge_pr_turn(slug, number, admin, seq![a]),
                requests::run_here(
                    "gh"@,
                    seq!["pr"@, "view"@, n, "--repo"@, slug, "--json"@, "state,mergedAt"@],
                ),
            )
            &&& !blocked && says_merged(d) ==> requests::comes_to(
                github::merge_pr_turn(slug, number, admin, seq![a, b]),
                (),
            )
            &&& !blocked && !says_merged(d) ==> requests::fails(
                github::merge_pr_turn(slug, number, admin, seq![a, b]),
            )
        }),
{
    assert(seq![a].skip(1) =~= Seq::empty());
    assert(seq![a, b].skip(1) =~= seq![b]);
    let n = numbers::decimal(number as nat);
    assert(github::merge_args(slug, number, true) =~= seq![
        "pr"@, "merge"@, n, "--admin"@, "--squash"@, "--delete-branch"@, "--repo"@, slug,
    ]);
    assert(github::merge_args(slug, number, false) =~= seq![
        "pr"@, "merge"@, n, "--squash"@, "--delete-branch"@, "--repo"@, slug,
    ]);
}

/// Hooks that are given up are told of by how they ended last: their exit code, what they
/// printed and what they complained of.
pub proof fn law_given_up_hooks_are_told_of(reply: Reply, code: i32)
    requires
        reply matches Ok(out) && out.code == Some(code),
    ensures
        hooks::gave_up(hooks::attempt(reply))
            == "Pre-commit hook failed after 5 attempts. Last failure:\nExit code: "@ + ("Some("@
            + numbers::signed(code as int) + ")"@) + "\nstdout:\n"@ + requests::printed(reply)
            + "\nstderr:\n"@ + requests::grumbled(reply),
{
}

/// A clone is prepared step by step: its head branch and the branch at hand are asked for,
/// and then what is changed. Files that git does not know are in the way, and other changes
/// are put aside; then the head branch is checked out, unless it is the one at hand, and
/// pulled.
pub proof fn law_clones_are_prepared_step_by_step(
    dir: Seq<char>,
    head: Seq<char>,
    h: Reply,
    c: Reply,
    s: Reply,
)
    requires
        requests::went_well(h),
        requests::answered(h) == "refs/remotes/origin/"@ + head,
        requests::went_well(c),
        requests::went_well(s),
    ensures
        ({
            let three = seq![h, c, s];
            let unknown = git::some_line_begins(text::lines(requests::printed(s)), "??"@);
            let changed = exists|i: int|
                0 <= i < text::lines(requests::printed(s)).len() && !text::is_blank(
                    #[trigger] text::lines(requests::printed(s))[i],
                );
            &&& requests::asks(
                git::preflight_checks_turn(dir, Seq::empty()),
                git_in(dir, seq!["symbolic-ref"@, "refs/remotes/origin/HEAD"@]),
            )
            &&& requests::asks(
                git::preflight_checks_turn(dir, seq![h]),
                git_in(dir, seq!["symbolic-ref"@, "--short"@, "HEAD"@]),
            )
            &&& requests::asks(
                git::preflight_checks_turn(dir, seq![h, c]),
                git_in(dir, seq!["status"@, "--porcelain"@]),
            )
            &&& unknown ==> requests::fails_with(
                git::preflight_checks_turn(dir, three),
                "Untracked files present in repo "@ + dir + ". Please commit or remove them."@,
                3,
            )
            &&& !unknown && changed ==> requests::asks(
                git::preflight_checks_turn(dir, three),
                git_in(dir, seq!["stash"@, "push"@, "-m"@, "SLAM pre-branch-stash"@]),
            )
            &&& !unknown && !changed && requests::answered(c) != head ==> requests::asks(
                git::preflight_checks_turn(dir, three),
                git_in(dir, seq!["checkout"@, head]),
            )
            &&& !unknown && !changed && requests::answered(c) == head ==> requests::asks(
                git::preflight_checks_turn(dir, three),
                git_in(dir, seq!["pull"@]),
            )
        }),
{
    let origin = "refs/remotes/origin/"@;
    let name = origin + head;
    assert(name.subrange(0, origin.len() as int) =~= origin);
    assert(name.skip(origin.len() as int) =~= head);
    assert(seq![h].skip(1) =~= Seq::empty());
    assert(seq![h, c].skip(1) =~= seq![c]);
    assert(seq![c].skip(1) =~= Seq::empty());
    assert(seq![h, c, s].skip(1) =~= seq![c, s]);
    assert(seq![c, s].skip(1) =~= seq![s]);
    assert(seq![s].skip(1) =~= Seq::empty());
    assert(Seq::<Reply>::empty().skip(0) =~= Seq::empty());
}

} // verus!
