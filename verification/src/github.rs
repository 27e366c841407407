//! What is asked of GitHub, through its command line program `gh`, and what the
//! answers mean.
use crate::command;
use crate::command::{
    after, carried_out_bare, err_text, must_succeed, must_succeed_bare, out_text,
    success, Invocation, Meaning, Reply, Request, Step, Turn, Wish,
};
use crate::json;
use crate::json::{parse, parse_numbers, Document, Json};
use crate::numbers::decimal_of;
use crate::text;
use crate::text::{
    cat2, cat3, cat4, cat5, cat6, contains, lines_of, owned, same, starts_with, trimmed, trimmed_of,
};
use vstd::prelude::*;

verus! {

/// A run of `gh`.
pub open spec fn gh_wish(args: Seq<Seq<char>>) -> Wish {
    Wish::Run(command::here("gh"@, args))
}

/// A run of `gh`, without arguments so far.
fn gh() -> (r: Invocation)
    ensures
        r@ == command::here("gh"@, Seq::empty()),
{
    Invocation::new("gh")
}

// ---------------------------------------------------------------------------
// Pull requests
// ---------------------------------------------------------------------------

/// The conversation of `approve_pr`.
pub open spec fn approve_pr_turn(
    repo: Seq<char>,
    pr_number: u64,
    replies: Seq<Reply>,
) -> Turn<Result<(), Seq<char>>> {
    command::once(
        gh_wish(
            seq![
                "pr"@,
                "review"@,
                crate::numbers::decimal(pr_number as nat),
                "--approve"@,
                "--repo"@,
                repo,
            ],
        ),
        replies,
        |r: Reply| command::carried_bare(r, ()),
    )
}

/// Approves a pull request. That `gh` fails is no error; that it cannot be run is
/// one.
pub fn approve_pr(repo: &str, pr_number: u64, replies: &[Reply]) -> (step: Step<Result<(), String>>)
    ensures
        step.meaning() == approve_pr_turn(repo@, pr_number, replies@),
        command::heard_enough(step, replies@),
{
    if replies.len() == 0 {
        return Step::Ask(
            Request::Run(
                gh()
                    .arg("pr")
                    .arg("review")
                    .arg(&decimal_of(pr_number))
                    .arg("--approve")
                    .arg("--repo")
                    .arg(repo),
            ),
        );
    }
    let r = &replies[0];
    Step::Done(carried_out_bare(r, ()), 1)
}

/// The conversation of `close_pr`.
pub open spec fn close_pr_turn(
    repo: Seq<char>,
    pr_number: u64,
    replies: Seq<Reply>,
) -> Turn<Result<(), Seq<char>>> {
    command::once(
        gh_wish(
            seq![
                "pr"@,
                "close"@,
                crate::numbers::decimal(pr_number as nat),
                "--repo"@,
                repo,
                "--delete-branch"@,
                "--comment"@,
                "Closing old PR in favor of new changes"@,
            ],
        ),
        replies,
        |r: Reply|
            command::must_bare(
                r,
                "Failed to close PR "@ + crate::numbers::decimal(pr_number as nat) + " for "@
                    + repo + ": "@ + command::complained(r),
            ),
    )
}

/// Closes a pull request and deletes its branch.
pub fn close_pr(repo: &str, pr_number: u64, replies: &[Reply]) -> (step: Step<Result<(), String>>)
    ensures
        step.meaning() == close_pr_turn(repo@, pr_number, replies@),
        command::heard_enough(step, replies@),
{
    if replies.len() == 0 {
        return Step::Ask(
            Request::Run(
                gh()
                    .arg("pr")
                    .arg("close")
                    .arg(&decimal_of(pr_number))
                    .arg("--repo")
                    .arg(repo)
                    .arg("--delete-branch")
                    .arg("--comment")
                    .arg("Closing old PR in favor of new changes"),
            ),
        );
    }
    let r = &replies[0];
    Step::Done(
        must_succeed_bare(
            r,
            cat6("Failed to close PR ", &decimal_of(pr_number), " for ", repo, ": ", &err_text(r)),
        ),
        1,
    )
}

/// The conversation of `delete_remote_branch_gh`.
pub open spec fn delete_remote_branch_gh_turn(
    repo: Seq<char>,
    branch: Seq<char>,
    replies: Seq<Reply>,
) -> Turn<Result<(), Seq<char>>> {
    command::once(
        gh_wish(seq!["api"@, "-X"@, "DELETE"@, "repos/"@ + repo + "/git/refs/heads/"@ + branch]),
        replies,
        |r: Reply| command::carried_bare(r, ()),
    )
}

/// Deletes a branch on GitHub. That it could not be deleted is no error.
pub fn delete_remote_branch_gh(
    repo: &str,
    branch: &str,
    replies: &[Reply],
) -> (step: Step<Result<(), String>>)
    ensures
        step.meaning() == delete_remote_branch_gh_turn(repo@, branch@, replies@),
        command::heard_enough(step, replies@),
{
    if replies.len() == 0 {
        return Step::Ask(
            Request::Run(
                gh()
                    .arg("api")
                    .arg("-X")
                    .arg("DELETE")
                    .arg(&cat4("repos/", repo, "/git/refs/heads/", branch)),
            ),
        );
    }
    let r = &replies[0];
    Step::Done(carried_out_bare(r, ()), 1)
}

/// The text that `create_pr` puts in a pull request.
pub open spec fn pr_body(commit_msg: Seq<char>) -> Seq<char> {
    commit_msg + "\n\ndocs: https://github.com/scottidler/slam/blob/main/README.md"@
}

/// The conversation of `create_pr`.
pub open spec fn create_pr_turn(
    repo_path: Seq<char>,
    change_id: Seq<char>,
    commit_msg: Seq<char>,
    replies: Seq<Reply>,
) -> Turn<Option<Seq<char>>> {
    command::once(
        Wish::Run(
            command::within(
                repo_path,
                "gh"@,
                seq![
                    "pr"@,
                    "create"@,
                    "--title"@,
                    change_id,
                    "--body"@,
                    pr_body(commit_msg),
                    "--base"@,
                    "main"@,
                ],
            ),
        ),
        replies,
        |r: Reply| url_said(r),
    )
}

/// Makes a pull request for the branch that is checked out. The result is its
/// address, or nothing where that failed.
pub fn create_pr(
    repo_path: &str,
    change_id: &str,
    commit_msg: &str,
    replies: &[Reply],
) -> (step: Step<Option<String>>)
    ensures
        step.meaning() == create_pr_turn(repo_path@, change_id@, commit_msg@, replies@),
        command::heard_enough(step, replies@),
{
    if replies.len() == 0 {
        return Step::Ask(
            Request::Run(
                Invocation::new_in(repo_path, "gh")
                    .arg("pr")
                    .arg("create")
                    .arg("--title")
                    .arg(change_id)
                    .arg("--body")
                    .arg(
                        &cat2(
                            commit_msg,
                            "\n\ndocs: https://github.com/scottidler/slam/blob/main/README.md",
                        ),
                    )
                    .arg("--base")
                    .arg("main"),
            ),
        );
    }
    let r = &replies[0];
    Step::Done(address(r), 1)
}

/// The conversation of `__create_pr`.
pub open spec fn fixed_create_pr_turn(
    repo_path: Seq<char>,
    replies: Seq<Reply>,
) -> Turn<Option<Seq<char>>> {
    command::once(
        Wish::Run(
            command::within(
                repo_path,
                "gh"@,
                seq![
                    "pr"@,
                    "create"@,
                    "--title"@,
                    "SLAM: Automated Update"@,
                    "--body"@,
                    "Automated update generated by SLAM.\ndocs: https://github.com/scottidler/slam/blob/main/README.md"@,
                    "--base"@,
                    "main"@,
                ],
            ),
        ),
        replies,
        |r: Reply| url_said(r),
    )
}

/// Makes a pull request with a fixed title and text. The result is its address,
/// or nothing where that failed.
pub fn __create_pr(repo_path: &str, _change_id: &str, replies: &[Reply]) -> (step: Step<
    Option<String>,
>)
    ensures
        step.meaning() == fixed_create_pr_turn(repo_path@, replies@),
        command::heard_enough(step, replies@),
{
    if replies.len() == 0 {
        return Step::Ask(
            Request::Run(
                Invocation::new_in(repo_path, "gh")
                    .arg("pr")
                    .arg("create")
                    .arg("--title")
                    .arg("SLAM: Automated Update")
                    .arg("--body")
                    .arg(
                        "Automated update generated by SLAM.\ndocs: https://github.com/scottidler/slam/blob/main/README.md",
                    )
                    .arg("--base")
                    .arg("main"),
            ),
        );
    }
    let r = &replies[0];
    Step::Done(address(r), 1)
}

/// The address that a new pull request was given.
pub open spec fn url_said(reply: Reply) -> Option<Seq<char>> {
    if command::succeeded(reply) {
        Some(text::trim(command::said(reply)))
    } else {
        None
    }
}

/// The address that a new pull request was given.
fn address(reply: &Reply) -> (r: Option<String>)
    ensures
        r.meaning() == url_said(*reply),
{
    if success(reply) {
        Some(trimmed(&out_text(reply)))
    } else {
        None
    }
}

/// What a successful run said as JSON, or what is wrong: `failed` where the run
/// failed, and else the words of the parser.
pub open spec fn document_said(reply: Reply, failed: Seq<char>) -> Result<Document, Seq<char>> {
    match reply {
        Err(e) => Err(e@),
        Ok(out) => if command::succeeded(reply) {
            json::json_in(out.stdout@)
        } else {
            Err(failed)
        },
    }
}

/// What a successful run said as JSON.
fn read_document(reply: &Reply, failed: String) -> (r: Result<Json, String>)
    ensures
        r.meaning() == document_said(*reply, failed@),
{
    match reply {
        Err(e) => Err(owned(e)),
        Ok(out) => if out.success() {
            parse(&out.stdout)
        } else {
            Err(failed)
        },
    }
}

/// The number of the first pull request in a list of them, or 0.
pub open spec fn first_number(d: Document) -> u64 {
    match json::elements(d) {
        Some(prs) => if prs.len() == 0 {
            0
        } else {
            match json::number_at(prs[0], "number"@) {
                Some(n) => n,
                None => 0,
            }
        },
        None => 0,
    }
}

/// The number of the first pull request in a list of them, or 0.
pub fn first_pr_number(d: &Json) -> (r: u64)
    ensures
        r == first_number(d@),
{
    match d.elements() {
        Some(prs) => if prs.len() == 0 {
            0
        } else {
            assert(json::documents(prs@)[0] == prs@[0]@);
            match prs[0].number_at("number") {
                Some(n) => n,
                None => 0,
            }
        },
        None => 0,
    }
}

/// The request for the pull requests of one branch.
pub open spec fn pr_list_wish(
    repo: Seq<char>,
    change_id: Seq<char>,
    state: Seq<char>,
) -> Wish {
    gh_wish(
        seq![
            "pr"@,
            "list"@,
            "--repo"@,
            repo,
            "--head"@,
            change_id,
            "--state"@,
            state,
            "--json"@,
            "number"@,
            "--limit"@,
            "1"@,
        ],
    )
}

/// The conversation that finds the pull request of one branch.
pub open spec fn pr_number_turn(
    repo: Seq<char>,
    change_id: Seq<char>,
    state: Seq<char>,
    failed: Seq<char>,
    replies: Seq<Reply>,
) -> Turn<Result<u64, Seq<char>>> {
    command::once(
        pr_list_wish(repo, change_id, state),
        replies,
        |r: Reply|
            match document_said(r, failed) {
                Ok(d) => Ok(first_number(d)),
                Err(e) => Err(e),
            },
    )
}

/// Finds the pull request of one branch.
fn pr_number_of(
    repo: &str,
    change_id: &str,
    state: &str,
    failed: String,
    replies: &[Reply],
) -> (step: Step<Result<u64, String>>)
    ensures
        step.meaning() == pr_number_turn(repo@, change_id@, state@, failed@, replies@),
        command::heard_enough(step, replies@),
{
    if replies.len() == 0 {
        return Step::Ask(
            Request::Run(
                gh()
                    .arg("pr")
                    .arg("list")
                    .arg("--repo")
                    .arg(repo)
                    .arg("--head")
                    .arg(change_id)
                    .arg("--state")
                    .arg(state)
                    .arg("--json")
                    .arg("number")
                    .arg("--limit")
                    .arg("1"),
            ),
        );
    }
    Step::Done(
        match read_document(&replies[0], failed) {
            Ok(d) => Ok(first_pr_number(&d)),
            Err(e) => Err(e),
        },
        1,
    )
}

/// The conversation of `get_pr_number_for_repo`.
pub open spec fn get_pr_number_for_repo_turn(
    repo_name: Seq<char>,
    change_id: Seq<char>,
    replies: Seq<Reply>,
) -> Turn<Result<u64, Seq<char>>> {
    pr_number_turn(
        repo_name,
        change_id,
        "open"@,
        "Failed to list PRs in repo '"@ + repo_name + "'"@,
        replies,
    )
}

/// The number of the open pull request of a branch, or 0 where there is none.
pub fn get_pr_number_for_repo(repo_name: &str, change_id: &str, replies: &[Reply]) -> (step: Step<
    Result<u64, String>,
>)
    ensures
        step.meaning() == get_pr_number_for_repo_turn(repo_name@, change_id@, replies@),
        command::heard_enough(step, replies@),
{
    let failed = cat3("Failed to list PRs in repo '", repo_name, "'");
    pr_number_of(repo_name, change_id, "open", failed, replies)
}

/// The conversation of `_get_closed_pr_number_for_repo`.
pub open spec fn get_closed_pr_number_for_repo_turn(
    repo: Seq<char>,
    change_id: Seq<char>,
    replies: Seq<Reply>,
) -> Turn<Result<u64, Seq<char>>> {
    pr_number_turn(
        repo,
        change_id,
        "closed"@,
        "Failed to list closed PRs in repo '"@ + repo + "'"@,
        replies,
    )
}

/// Get the number of a closed PR for the given repository and change_id.
/// This is used as part of the rollback for closing a PR.
pub fn _get_closed_pr_number_for_repo(repo: &str, change_id: &str, replies: &[Reply]) -> (step:
    Step<Result<u64, String>>)
    ensures
        step.meaning() == get_closed_pr_number_for_repo_turn(repo@, change_id@, replies@),
        command::heard_enough(step, replies@),
{
    let failed = cat3("Failed to list closed PRs in repo '", repo, "'");
    pr_number_of(repo, change_id, "closed", failed, replies)
}

/// The conversation of `reopen_pr`.
pub open spec fn reopen_turn(repo: Seq<char>, pr_number: u64, replies: Seq<Reply>) -> Turn<
    Result<(), Seq<char>>,
> {
    let number = crate::numbers::decimal(pr_number as nat);
    command::once(
        gh_wish(seq!["pr"@, "reopen"@, number, "--repo"@, repo]),
        replies,
        |r: Reply|
            command::must(
                r,
                "Failed to execute gh pr reopen: "@,
                "Failed to reopen PR #"@ + number + " for repo '"@ + repo + "': "@
                    + command::complained(r),
            ),
    )
}

/// Reopens a pull request.
pub fn reopen_pr(repo: &str, pr_number: u64, replies: &[Reply]) -> (step: Step<Result<(), String>>)
    ensures
        step.meaning() == reopen_turn(repo@, pr_number, replies@),
        command::heard_enough(step, replies@),
{
    let number = decimal_of(pr_number);
    if replies.len() == 0 {
        return Step::Ask(
            Request::Run(gh().arg("pr").arg("reopen").arg(&number).arg("--repo").arg(repo)),
        );
    }
    let r = &replies[0];
    let failed = cat6(
        "Failed to reopen PR #",
        &number,
        " for repo '",
        repo,
        "': ",
        &err_text(r),
    );
    Step::Done(must_succeed(r, "Failed to execute gh pr reopen: ", failed), 1)
}

/// The conversation of `_reopen_pr`.
pub open spec fn reopen_pr_turn(
    repo: Seq<char>,
    change_id: Seq<char>,
    replies: Seq<Reply>,
) -> Turn<Result<(), Seq<char>>> {
    command::chain_ok(
        get_closed_pr_number_for_repo_turn(repo, change_id, replies),
        replies,
        |n: u64, left: Seq<Reply>|
            if n == 0 {
                Turn::Done(
                    Err(
                        "No closed PR found for repo '"@ + repo + "' with change_id '"@ + change_id
                            + "'"@,
                    ),
                    0,
                )
            } else {
                reopen_turn(repo, n, left)
            },
    )
}

/// Reopen a closed PR that was previously closed for the given repository and change_id.
/// This function looks for a closed PR matching the change_id and attempts to reopen it.
pub fn _reopen_pr(repo: &str, change_id: &str, replies: &[Reply]) -> (step: Step<
    Result<(), String>,
>)
    ensures
        step.meaning() == reopen_pr_turn(repo@, change_id@, replies@),
        command::heard_enough(step, replies@),
{
    let (number, n): (u64, usize) = match _get_closed_pr_number_for_repo(repo, change_id, replies) {
        Step::Ask(r) => {
            return Step::Ask(r);
        },
        Step::Done(Err(e), n) => {
            return Step::Done(Err(e), n);
        },
        Step::Done(Ok(number), n) => (number, n),
    };
    if number == 0 {
        let words = cat5(
            "No closed PR found for repo '",
            repo,
            "' with change_id '",
            change_id,
            "'",
        );
        return Step::Done(Err(words), n);
    }
    match reopen_pr(repo, number, after(replies, n)) {
        Step::Ask(r) => Step::Ask(r),
        Step::Done(result, m) => Step::Done(result, n + m),
    }
}

/// The conversation of `get_pr_diff`.
pub open spec fn get_pr_diff_turn(
    reposlug: Seq<char>,
    pr_number: u64,
    replies: Seq<Reply>,
) -> Turn<Result<Seq<char>, Seq<char>>> {
    let number = crate::numbers::decimal(pr_number as nat);
    command::once(
        gh_wish(seq!["pr"@, "diff"@, number, "-R"@, reposlug, "--patch"@]),
        replies,
        |r: Reply|
            match command::must_bare(
                r,
                "Failed to fetch PR diff for "@ + reposlug + "#"@ + number + ": "@ + text::trim(
                    command::complained(r),
                ),
            ) {
                Ok(_) => Ok(text::trim(command::said(r))),
                Err(e) => Err(e),
            },
    )
}

/// The patch of a pull request.
pub fn get_pr_diff(reposlug: &str, pr_number: u64, replies: &[Reply]) -> (step: Step<
    Result<String, String>,
>)
    ensures
        step.meaning() == get_pr_diff_turn(reposlug@, pr_number, replies@),
        command::heard_enough(step, replies@),
{
    let number = decimal_of(pr_number);
    if replies.len() == 0 {
        return Step::Ask(
            Request::Run(
                gh().arg("pr").arg("diff").arg(&number).arg("-R").arg(reposlug).arg("--patch"),
            ),
        );
    }
    let r = &replies[0];
    let failed = cat6(
        "Failed to fetch PR diff for ",
        reposlug,
        "#",
        &number,
        ": ",
        &trimmed(&err_text(r)),
    );
    Step::Done(
        match must_succeed_bare(r, failed) {
            Ok(_) => Ok(trimmed(&out_text(r))),
            Err(e) => Err(e),
        },
        1,
    )
}

// ---------------------------------------------------------------------------
// Merging
// ---------------------------------------------------------------------------

/// A text in lower case.
pub uninterp spec fn lowercase(s: Seq<char>) -> Seq<char>;

/// `str::to_lowercase`, the lower case of a text by the rules of Unicode. It
/// depends on the text alone.
#[verifier::external_body]
fn to_lowercase(s: &str) -> (r: String)
    ensures
        r@ == lowercase(s@),
{
    s.to_lowercase()
}

/// Whether what `gh pr merge` wrote says that a review is required.
pub open spec fn wants_review(reply: Reply) -> bool {
    text::holds(
        lowercase(command::said(reply) + command::complained(reply)),
        "review required"@,
    )
}

/// Whether a pull request is merged, by what `gh pr view` says of it.
pub open spec fn is_merged(d: Document) -> bool {
    json::text_at(d, "state"@) == Some("MERGED"@) || !(json::at(d, "mergedAt"@) is Null)
}

/// Whether a pull request is merged, by what `gh pr view` says of it.
pub fn merged(d: &Json) -> (r: bool)
    ensures
        r == is_merged(d@),
{
    let by_state = match d.text_at("state") {
        Some(s) => same(s, "MERGED"),
        None => false,
    };
    by_state || !d.null_at("mergedAt")
}

/// The arguments of `gh pr merge`.
pub open spec fn merge_args(repo: Seq<char>, pr_number: u64, admin_override: bool) -> Seq<
    Seq<char>,
> {
    let number = crate::numbers::decimal(pr_number as nat);
    let rest = seq!["--squash"@, "--delete-branch"@, "--repo"@, repo];
    if admin_override {
        seq!["pr"@, "merge"@, number, "--admin"@] + rest
    } else {
        seq!["pr"@, "merge"@, number] + rest
    }
}

/// The run of `gh pr merge`.
pub fn merge_run(repo: &str, pr_number: u64, admin_override: bool) -> (r: Invocation)
    ensures
        r@ == command::here("gh"@, merge_args(repo@, pr_number, admin_override)),
{
    let start = gh().arg("pr").arg("merge").arg(&decimal_of(pr_number));
    let start = if admin_override {
        start.arg("--admin")
    } else {
        start
    };
    let r = start.arg("--squash").arg("--delete-branch").arg("--repo").arg(repo);
    assert(r@.args =~= merge_args(repo@, pr_number, admin_override));
    r
}

/// The conversation of `merge_pr`: after the merge, GitHub is asked whether it
/// took place.
pub open spec fn merge_pr_turn(
    repo: Seq<char>,
    pr_number: u64,
    admin_override: bool,
    replies: Seq<Reply>,
) -> Turn<Result<(), Seq<char>>> {
    let number = crate::numbers::decimal(pr_number as nat);
    command::chain_ok(
        command::once(
            gh_wish(merge_args(repo, pr_number, admin_override)),
            replies,
            |r: Reply|
                match r {
                    Err(e) => Err(e@),
                    Ok(_) => if wants_review(r) {
                        Err("Merge blocked: review required (GitHub rules not satisfied)"@)
                    } else {
                        Ok(())
                    },
                },
        ),
        replies,
        |tried: (), left: Seq<Reply>|
            command::once(
                gh_wish(
                    seq!["pr"@, "view"@, number, "--repo"@, repo, "--json"@, "state,mergedAt"@],
                ),
                left,
                |r: Reply|
                    match document_said(
                        r,
                        "Failed to verify PR status: "@ + command::complained(r),
                    ) {
                        Err(e) => Err(e),
                        Ok(d) => if is_merged(d) {
                            Ok(())
                        } else {
                            Err("PR merge not confirmed; merge blocked by review requirements"@)
                        },
                    },
            ),
    )
}

/// Merges a pull request. Even if the command returns a success code, its output
/// may indicate that the merge was blocked, so the status is checked again.
pub fn merge_pr(repo: &str, pr_number: u64, admin_override: bool, replies: &[Reply]) -> (step: Step<
    Result<(), String>,
>)
    ensures
        step.meaning() == merge_pr_turn(repo@, pr_number, admin_override, replies@),
        command::heard_enough(step, replies@),
{
    if replies.len() == 0 {
        return Step::Ask(Request::Run(merge_run(repo, pr_number, admin_override)));
    }
    match &replies[0] {
        Err(e) => {
            return Step::Done(Err(owned(e)), 1);
        },
        Ok(out) => {
            let all = cat2(&out.out_text(), &out.err_text());
            if contains(&to_lowercase(&all), "review required") {
                let words = owned("Merge blocked: review required (GitHub rules not satisfied)");
                return Step::Done(Err(words), 1);
            }
        },
    }
    if replies.len() == 1 {
        return Step::Ask(
            Request::Run(
                gh()
                    .arg("pr")
                    .arg("view")
                    .arg(&decimal_of(pr_number))
                    .arg("--repo")
                    .arg(repo)
                    .arg("--json")
                    .arg("state,mergedAt"),
            ),
        );
    }
    assert(replies@.skip(1)[0] == replies@[1]);
    let r = &replies[1];
    let failed = cat2("Failed to verify PR status: ", &err_text(r));
    Step::Done(
        match read_document(r, failed) {
            Err(e) => Err(e),
            Ok(d) => if merged(&d) {
                Ok(())
            } else {
                Err(owned("PR merge not confirmed; merge blocked by review requirements"))
            },
        },
        2,
    )
}

// ---------------------------------------------------------------------------
// The status of a pull request
// ---------------------------------------------------------------------------

/// How far a pull request has come.
#[derive(Debug, Clone, Copy, PartialEq, Eq, Structural)]
pub struct PrStatus {
    /// It is still a draft.
    pub draft: bool,
    /// It can be merged as it is.
    pub mergeable: bool,
    /// It has been approved.
    pub reviewed: bool,
    /// All its checks have passed or were skipped.
    pub checked: bool,
}

impl Meaning for PrStatus {
    type Of = PrStatus;

    open spec fn meaning(&self) -> PrStatus {
        *self
    }
}

/// Whether a check has come to an acceptable end. One without a conclusion has.
pub open spec fn check_passed(check: Document) -> bool {
    match json::text_at(check, "conclusion"@) {
        Some(c) => c == "SUCCESS"@ || c == "SKIPPED"@,
        None => true,
    }
}

/// Whether all checks in a list have come to an acceptable end.
pub open spec fn checks_passed(checks: Seq<Document>) -> bool {
    forall|i: int| 0 <= i < checks.len() ==> check_passed(#[trigger] checks[i])
}

/// The status that `gh pr view` tells.
pub open spec fn status_in(d: Document) -> PrStatus {
    PrStatus {
        draft: json::bool_at(d, "isDraft"@) == Some(true),
        mergeable: json::text_at(d, "mergeable"@) == Some("MERGEABLE"@),
        reviewed: json::text_at(d, "reviewDecision"@) == Some("APPROVED"@),
        checked: match json::elements(json::at(d, "statusCheckRollup"@)) {
            Some(checks) => checks_passed(checks),
            None => true,
        },
    }
}

/// Whether a document has this text under a name.
fn says(d: &Json, key: &str, word: &str) -> (r: bool)
    ensures
        r == (json::text_at(d@, key@) == Some(word@)),
{
    match d.text_at(key) {
        Some(s) => same(s, word),
        None => false,
    }
}

/// Whether all checks in a list have come to an acceptable end.
fn all_passed(checks: &Vec<Json>) -> (r: bool)
    requires
        json::documents(checks@).len() == checks@.len(),
        forall|i: int|
            0 <= i < checks@.len() ==> #[trigger] json::documents(checks@)[i] == checks@[i]@,
    ensures
        r == checks_passed(json::documents(checks@)),
{
    let mut i: usize = 0;
    while i < checks.len()
        invariant
            i <= checks@.len(),
            json::documents(checks@).len() == checks@.len(),
            forall|k: int|
                0 <= k < checks@.len() ==> #[trigger] json::documents(checks@)[k] == checks@[k]@,
            forall|k: int| 0 <= k < i ==> check_passed(#[trigger] json::documents(checks@)[k]),
        decreases checks@.len() - i,
    {
        assert(json::documents(checks@)[i as int] == checks@[i as int]@);
        let passed = match checks[i].text_at("conclusion") {
            Some(c) => same(c, "SUCCESS") || same(c, "SKIPPED"),
            None => true,
        };
        if !passed {
            return false;
        }
        i += 1;
    }
    true
}

/// The status that `gh pr view` tells.
pub fn status_of(d: &Json) -> (r: PrStatus)
    ensures
        r == status_in(d@),
{
    let draft = match d.bool_at("isDraft") {
        Some(b) => b,
        None => false,
    };
    let checked = match d.get("statusCheckRollup") {
        Some(rollup) => match rollup.elements() {
            Some(checks) => all_passed(checks),
            None => true,
        },
        None => true,
    };
    PrStatus {
        draft,
        mergeable: says(d, "mergeable", "MERGEABLE"),
        reviewed: says(d, "reviewDecision", "APPROVED"),
        checked,
    }
}

/// The conversation of `get_pr_status`.
pub open spec fn get_pr_status_turn(
    repo_name: Seq<char>,
    pr_number: u64,
    replies: Seq<Reply>,
) -> Turn<Result<PrStatus, Seq<char>>> {
    let number = crate::numbers::decimal(pr_number as nat);
    command::once(
        gh_wish(
            seq![
                "pr"@,
                "view"@,
                number,
                "--repo"@,
                repo_name,
                "--json"@,
                "isDraft,mergeable,reviewDecision,statusCheckRollup"@,
            ],
        ),
        replies,
        |r: Reply|
            match r {
                Err(e) => Err("Failed to execute gh pr view: "@ + e@),
                Ok(out) => if !command::succeeded(r) {
                    Err(
                        "Failed to get PR status for "@ + repo_name + " PR #"@ + number + ": "@
                            + command::complained(r),
                    )
                } else {
                    match json::json_in(out.stdout@) {
                        Ok(d) => Ok(status_in(d)),
                        Err(e) => Err("Failed to parse PR JSON: "@ + e),
                    }
                },
            },
    )
}

/// How far a pull request has come.
pub fn get_pr_status(repo_name: &str, pr_number: u64, replies: &[Reply]) -> (step: Step<
    Result<PrStatus, String>,
>)
    ensures
        step.meaning() == get_pr_status_turn(repo_name@, pr_number, replies@),
        command::heard_enough(step, replies@),
{
    let number = decimal_of(pr_number);
    if replies.len() == 0 {
        return Step::Ask(
            Request::Run(
                gh()
                    .arg("pr")
                    .arg("view")
                    .arg(&number)
                    .arg("--repo")
                    .arg(repo_name)
                    .arg("--json")
                    .arg("isDraft,mergeable,reviewDecision,statusCheckRollup"),
            ),
        );
    }
    let result = match &replies[0] {
        Err(e) => Err(cat2("Failed to execute gh pr view: ", e)),
        Ok(out) => if !out.success() {
            Err(
                cat6(
                    "Failed to get PR status for ",
                    repo_name,
                    " PR #",
                    &number,
                    ": ",
                    &out.err_text(),
                ),
            )
        } else {
            match parse(&out.stdout) {
                Ok(d) => Ok(status_of(&d)),
                Err(e) => Err(cat2("Failed to parse PR JSON: ", &e)),
            }
        },
    };
    Step::Done(result, 1)
}

// ---------------------------------------------------------------------------
// The repositories of an organisation
// ---------------------------------------------------------------------------

/// The slug of a repository that is not archived, by an element of what `gh repo
/// list` says.
pub open spec fn live_repo(org: Seq<char>, repo: Document) -> Option<Seq<char>> {
    if json::bool_at(repo, "isArchived"@) == Some(true) {
        None
    } else {
        match json::text_at(repo, "name"@) {
            Some(name) => Some(org + "/"@ + name),
            None => None,
        }
    }
}

/// The slugs of the repositories that are not archived, by what `gh repo list`
/// says.
pub open spec fn live_repos(org: Seq<char>, d: Document) -> Seq<Seq<char>> {
    match json::elements(d) {
        Some(repos) => repos.filter_map(|repo: Document| live_repo(org, repo)),
        None => Seq::empty(),
    }
}

/// The slugs of the repositories that are not archived, by what `gh repo list`
/// says.
pub fn unarchived(org: &str, d: &Json) -> (r: Vec<String>)
    ensures
        text::views(r@) == live_repos(org@, d@),
{
    broadcast use text::lemma_views_push;

    let mut r: Vec<String> = Vec::new();
    match d.elements() {
        Some(repos) => {
            let ghost all = json::documents(repos@);
            let ghost pick = |repo: Document| live_repo(org@, repo);
            let mut i: usize = 0;
            assert(text::views(r@) =~= all.take(0).filter_map(pick));
            while i < repos.len()
                invariant
                    i <= repos@.len(),
                    all == json::documents(repos@),
                    all.len() == repos@.len(),
                    forall|k: int| 0 <= k < repos@.len() ==> #[trigger] all[k] == repos@[k]@,
                    pick == (|repo: Document| live_repo(org@, repo)),
                    text::views(r@) == all.take(i as int).filter_map(pick),
                decreases repos@.len() - i,
            {
                let repo = &repos[i];
                assert(all[i as int] == repo@);
                assert(all.take(i + 1).drop_last() =~= all.take(i as int));
                let archived = match repo.bool_at("isArchived") {
                    Some(b) => b,
                    None => false,
                };
                if !archived {
                    match repo.text_at("name") {
                        Some(name) => {
                            r.push(cat3(org, "/", name));
                        },
                        None => {},
                    }
                }
                i += 1;
            }
            assert(all.take(i as int) =~= all);
        },
        None => {
            assert(text::views(r@) =~= Seq::empty());
        },
    }
    r
}

/// The conversation of `find_repos_in_org`.
pub open spec fn find_repos_in_org_turn(org: Seq<char>, replies: Seq<Reply>) -> Turn<
    Result<Seq<Seq<char>>, Seq<char>>,
> {
    command::once(
        gh_wish(
            seq!["repo"@, "list"@, org, "--limit"@, "1000"@, "--json"@, "name,isArchived"@],
        ),
        replies,
        |r: Reply|
            match document_said(r, "Failed to list repos in org '"@ + org + "'"@) {
                Ok(d) => Ok(live_repos(org, d)),
                Err(e) => Err(e),
            },
    )
}

/// The repositories of an organisation that are not archived.
pub fn find_repos_in_org(org: &str, replies: &[Reply]) -> (step: Step<Result<Vec<String>, String>>)
    ensures
        step.meaning() == find_repos_in_org_turn(org@, replies@),
        command::heard_enough(step, replies@),
{
    if replies.len() == 0 {
        return Step::Ask(
            Request::Run(
                gh()
                    .arg("repo")
                    .arg("list")
                    .arg(org)
                    .arg("--limit")
                    .arg("1000")
                    .arg("--json")
                    .arg("name,isArchived"),
            ),
        );
    }
    let failed = cat3("Failed to list repos in org '", org, "'");
    Step::Done(
        match read_document(&replies[0], failed) {
            Ok(d) => Ok(unarchived(org, &d)),
            Err(e) => Err(e),
        },
        1,
    )
}

// ---------------------------------------------------------------------------
// The open pull requests of many repositories
// ---------------------------------------------------------------------------

/// An open pull request: its repository, number and author.
pub type Pr = (String, u64, String);

/// What a `Pr` says.
pub type PrFacts = (Seq<char>, u64, Seq<char>);

/// What a `Pr` says.
pub open spec fn pr_facts(pr: Pr) -> PrFacts {
    (pr.0@, pr.1, pr.2@)
}

/// A pull request under its title.
#[derive(Debug)]
pub struct Titled {
    pub title: String,
    pub pr: Pr,
}

/// A pull request under its title, as facts.
pub open spec fn titled_facts(t: Titled) -> (Seq<char>, PrFacts) {
    (t.title@, pr_facts(t.pr))
}

/// The author of a pull request, by an element of what `gh pr list` says.
pub open spec fn author_in(d: Document) -> Seq<char> {
    match json::text_at(json::at(d, "author"@), "login"@) {
        Some(login) => login,
        None => "unknown"@,
    }
}

/// The pull request in an element of what `gh pr list` says, if it has a title
/// and a number.
pub open spec fn titled_in(reposlug: Seq<char>, d: Document) -> Option<(Seq<char>, PrFacts)> {
    match (json::text_at(d, "title"@), json::number_at(d, "number"@)) {
        (Some(title), Some(number)) => Some((title, (reposlug, number, author_in(d)))),
        _ => None,
    }
}

/// The pull requests in the answer for one repository. An answer that cannot be
/// read holds none.
pub open spec fn titled_said(reposlug: Seq<char>, reply: Reply) -> Seq<(Seq<char>, PrFacts)> {
    match document_said(reply, Seq::empty()) {
        Ok(d) => match json::elements(d) {
            Some(prs) => prs.filter_map(|pr: Document| titled_in(reposlug, pr)),
            None => Seq::empty(),
        },
        Err(_) => Seq::empty(),
    }
}

/// The pull requests in the answers for several repositories.
pub open spec fn all_titled(slugs: Seq<Seq<char>>, replies: Seq<Reply>) -> Seq<
    (Seq<char>, PrFacts),
>
    decreases slugs.len(),
{
    if slugs.len() == 0 {
        Seq::empty()
    } else {
        all_titled(slugs.drop_last(), replies) + titled_said(
            slugs.last(),
            replies[slugs.len() - 1],
        )
    }
}

/// The titles in a list of pull requests, each once, where it stands first.
pub open spec fn titles(prs: Seq<(Seq<char>, PrFacts)>) -> Seq<Seq<char>>
    decreases prs.len(),
{
    if prs.len() == 0 {
        Seq::empty()
    } else {
        let before = titles(prs.drop_last());
        if before.contains(prs.last().0) {
            before
        } else {
            before.push(prs.last().0)
        }
    }
}

/// The pull requests of one title.
pub open spec fn with_title(prs: Seq<(Seq<char>, PrFacts)>, title: Seq<char>) -> Seq<PrFacts> {
    prs.filter_map(
        |p: (Seq<char>, PrFacts)|
            if p.0 == title {
                Some(p.1)
            } else {
                None
            },
    )
}

/// Pull requests, grouped by title.
pub open spec fn grouped(prs: Seq<(Seq<char>, PrFacts)>) -> Seq<(Seq<char>, Seq<PrFacts>)> {
    titles(prs).map_values(|title: Seq<char>| (title, with_title(prs, title)))
}

/// What a list of groups says.
pub open spec fn groups_facts(groups: Seq<(String, Vec<Pr>)>) -> Seq<(Seq<char>, Seq<PrFacts>)> {
    groups.map_values(
        |g: (String, Vec<Pr>)| (g.0@, g.1@.map_values(|pr: Pr| pr_facts(pr))),
    )
}

/// No two groups have the same title, no group is empty, and each pull request
/// stands in the group of its title.
pub proof fn law_groups_cover_all(prs: Seq<(Seq<char>, PrFacts)>)
    ensures
        forall|i: int, j: int|
            0 <= i < j < grouped(prs).len() ==> grouped(prs)[i].0 != grouped(prs)[j].0,
        forall|i: int| 0 <= i < grouped(prs).len() ==> (#[trigger] grouped(prs)[i]).1.len() > 0,
        forall|k: int|
            0 <= k < prs.len() ==> exists|i: int|
                0 <= i < grouped(prs).len() && #[trigger] grouped(prs)[i].0 == (#[trigger] prs[k]).0
                    && grouped(prs)[i].1.contains(prs[k].1),
{
    let all = titles(prs);
    lemma_titles(prs);
    assert forall|i: int, j: int| 0 <= i < j < grouped(prs).len() implies grouped(prs)[i].0
        != grouped(prs)[j].0 by {
        assert(grouped(prs)[i].0 == all[i]);
        assert(grouped(prs)[j].0 == all[j]);
    }
    assert forall|i: int| 0 <= i < grouped(prs).len() implies (#[trigger] grouped(prs)[i]).1.len()
        > 0 by {
        let k = choose|k: int| 0 <= k < prs.len() && (#[trigger] prs[k]).0 == all[i];
        assert(prs[k].0 == all[i]);
        lemma_with_title(prs, k);
        assert(grouped(prs)[i].1 == with_title(prs, all[i]));
    }
    assert forall|k: int| 0 <= k < prs.len() implies exists|i: int|
        0 <= i < grouped(prs).len() && #[trigger] grouped(prs)[i].0 == (#[trigger] prs[k]).0
            && grouped(prs)[i].1.contains(prs[k].1) by {
        lemma_with_title(prs, k);
        assert(all.contains(prs[k].0));
        let i = choose|i: int| 0 <= i < all.len() && all[i] == prs[k].0;
        assert(grouped(prs)[i].0 == prs[k].0);
        assert(grouped(prs)[i].1 == with_title(prs, prs[k].0));
    }
}

proof fn lemma_titles(prs: Seq<(Seq<char>, PrFacts)>)
    ensures
        titles(prs).no_duplicates(),
        forall|k: int| 0 <= k < prs.len() ==> titles(prs).contains((#[trigger] prs[k]).0),
        forall|i: int|
            0 <= i < titles(prs).len() ==> exists|k: int|
                0 <= k < prs.len() && (#[trigger] prs[k]).0 == #[trigger] titles(prs)[i],
    decreases prs.len(),
{
    if prs.len() > 0 {
        let front = prs.drop_last();
        let before = titles(front);
        lemma_titles(front);
        let now = titles(prs);
        let last = prs.last().0;
        assert(now.contains(last)) by {
            if !before.contains(last) {
                assert(now[now.len() - 1] == last);
            }
        }
        assert forall|k: int| 0 <= k < prs.len() implies now.contains((#[trigger] prs[k]).0) by {
            if k < front.len() {
                assert(front[k] == prs[k]);
                assert(before.contains(front[k].0));
                let i = choose|i: int| 0 <= i < before.len() && before[i] == prs[k].0;
                assert(now[i] == prs[k].0);
            }
        }
        assert forall|i: int| 0 <= i < now.len() implies exists|k: int|
            0 <= k < prs.len() && (#[trigger] prs[k]).0 == #[trigger] now[i] by {
            if i < before.len() {
                assert(now[i] == before[i]);
                let k = choose|k: int| 0 <= k < front.len() && (#[trigger] front[k]).0 == before[i];
                assert(prs[k].0 == now[i]);
            } else {
                assert(prs[prs.len() - 1].0 == now[i]);
            }
        }
    }
}

proof fn lemma_with_title(prs: Seq<(Seq<char>, PrFacts)>, k: int)
    requires
        0 <= k < prs.len(),
    ensures
        with_title(prs, prs[k].0).contains(prs[k].1),
    decreases prs.len(),
{
    let title = prs[k].0;
    let front = prs.drop_last();
    let now = with_title(prs, title);
    let before = with_title(front, title);
    if k == prs.len() - 1 {
        assert(now =~= before + seq![prs[k].1]);
        assert(now[now.len() - 1] == prs[k].1);
    } else {
        assert(front[k] == prs[k]);
        lemma_with_title(front, k);
        let i = choose|i: int| 0 <= i < before.len() && before[i] == prs[k].1;
        assert(now[i] == prs[k].1);
    }
}

/// The states of pull requests that are asked for: the open ones, or all.
pub open spec fn pr_state(closed_too: bool) -> Seq<char> {
    if closed_too {
        "all"@
    } else {
        "open"@
    }
}

/// The request for the pull requests of one repository: the open ones, or also
/// those that are closed.
pub open spec fn titles_wish(reposlug: Seq<char>, closed_too: bool) -> Wish {
    gh_wish(
        seq![
            "pr"@,
            "list"@,
            "--repo"@,
            reposlug,
            "--state"@,
            pr_state(closed_too),
            "--json"@,
            "title,number,author"@,
            "--limit"@,
            "100"@,
        ],
    )
}

/// The request for the pull requests of one repository: the open ones, or also
/// those that are closed.
pub fn pr_list_request(reposlug: &str, closed_too: bool) -> (r: Request)
    ensures
        r@ == titles_wish(reposlug@, closed_too),
{
    let state = if closed_too {
        "all"
    } else {
        "open"
    };
    Request::Run(
        gh()
            .arg("pr")
            .arg("list")
            .arg("--repo")
            .arg(reposlug)
            .arg("--state")
            .arg(state)
            .arg("--json")
            .arg("title,number,author")
            .arg("--limit")
            .arg("100"),
    )
}

/// The pull request in an element of what `gh pr list` says.
fn read_titled(reposlug: &str, d: &Json) -> (r: Option<Titled>)
    ensures
        (match r {
            Some(t) => Some(titled_facts(t)),
            None => None,
        }) == titled_in(reposlug@, d@),
{
    let author = match d.get("author") {
        Some(a) => match a.text_at("login") {
            Some(login) => owned(login),
            None => owned("unknown"),
        },
        None => owned("unknown"),
    };
    match (d.text_at("title"), d.number_at("number")) {
        (Some(title), Some(number)) => Some(
            Titled { title: owned(title), pr: (owned(reposlug), number, author) },
        ),
        _ => None,
    }
}

/// What a list of titled pull requests says.
pub open spec fn all_facts(prs: Seq<Titled>) -> Seq<(Seq<char>, PrFacts)> {
    prs.map_values(|t: Titled| titled_facts(t))
}

/// Adds the pull requests in the answer for one repository to a list.
fn add_titled(prs: &mut Vec<Titled>, reposlug: &str, reply: &Reply)
    ensures
        all_facts(final(prs)@) == all_facts(old(prs)@) + titled_said(reposlug@, *reply),
{
    let ghost before = all_facts(prs@);
    match read_document(reply, String::new()) {
        Ok(d) => match d.elements() {
            Some(found) => {
                let ghost all = json::documents(found@);
                let ghost pick = |pr: Document| titled_in(reposlug@, pr);
                let mut i: usize = 0;
                assert(all_facts(prs@) =~= before + all.take(0).filter_map(pick));
                while i < found.len()
                    invariant
                        i <= found@.len(),
                        all == json::documents(found@),
                        all.len() == found@.len(),
                        forall|k: int| 0 <= k < found@.len() ==> #[trigger] all[k] == found@[k]@,
                        pick == (|pr: Document| titled_in(reposlug@, pr)),
                        all_facts(prs@) == before + all.take(i as int).filter_map(pick),
                    decreases found@.len() - i,
                {
                    assert(all[i as int] == found@[i as int]@);
                    assert(all.take(i + 1).drop_last() =~= all.take(i as int));
                    let ghost now = all_facts(prs@);
                    match read_titled(reposlug, &found[i]) {
                        Some(t) => {
                            prs.push(t);
                            assert(all_facts(prs@) =~= now.push(titled_facts(t)));
                            assert(all_facts(prs@) =~= before + all.take(i + 1).filter_map(pick));
                        },
                        None => {},
                    }
                    i += 1;
                }
                assert(all.take(i as int) =~= all);
            },
            None => {
                assert(all_facts(prs@) =~= before + Seq::empty());
            },
        },
        Err(_) => {
            assert(all_facts(prs@) =~= before + Seq::empty());
        },
    }
}

/// The titles in a list of pull requests, each once, where it stands first.
fn titles_of(prs: &Vec<Titled>) -> (r: Vec<String>)
    ensures
        text::views(r@) == titles(all_facts(prs@)),
{
    broadcast use text::lemma_views_push;

    let ghost all = all_facts(prs@);
    let mut r: Vec<String> = Vec::new();
    let mut i: usize = 0;
    assert(text::views(r@) =~= titles(all.take(0)));
    while i < prs.len()
        invariant
            i <= prs@.len(),
            all == all_facts(prs@),
            text::views(r@) == titles(all.take(i as int)),
        decreases prs@.len() - i,
    {
        assert(all.take(i + 1).drop_last() =~= all.take(i as int));
        assert(all.take(i + 1).last().0 == prs@[i as int].title@);
        if !text::listed(&r, &prs[i].title) {
            r.push(owned(&prs[i].title));
        }
        i += 1;
    }
    assert(all.take(i as int) =~= all);
    r
}

/// The pull requests of one title.
fn prs_titled(prs: &Vec<Titled>, title: &str) -> (r: Vec<Pr>)
    ensures
        r@.map_values(|pr: Pr| pr_facts(pr)) == with_title(all_facts(prs@), title@),
{
    let ghost all = all_facts(prs@);
    let ghost pick = |p: (Seq<char>, PrFacts)|
        if p.0 == title@ {
            Some(p.1)
        } else {
            None
        };
    let ghost facts = |pr: Pr| pr_facts(pr);
    let mut r: Vec<Pr> = Vec::new();
    let mut i: usize = 0;
    assert(r@.map_values(facts) =~= all.take(0).filter_map(pick));
    while i < prs.len()
        invariant
            i <= prs@.len(),
            all == all_facts(prs@),
            pick == (|p: (Seq<char>, PrFacts)|
                if p.0 == title@ {
                    Some(p.1)
                } else {
                    None
                }),
            facts == (|pr: Pr| pr_facts(pr)),
            r@.map_values(facts) == all.take(i as int).filter_map(pick),
        decreases prs@.len() - i,
    {
        assert(all.take(i + 1).drop_last() =~= all.take(i as int));
        let ghost before = r@;
        if same(&prs[i].title, title) {
            let pr: &Pr = &prs[i].pr;
            r.push((owned(&pr.0), pr.1, owned(&pr.2)));
            assert(r@.map_values(facts) =~= before.map_values(facts).push(all[i as int].1));
            assert(r@.map_values(facts) =~= all.take(i + 1).filter_map(pick));
        }
        i += 1;
    }
    assert(all.take(i as int) =~= all);
    r
}

/// The pull requests of several repositories, grouped by title. Each reply
/// answers the `pr_list_request` of the repository in the same place.
pub fn get_prs_for_repos(reposlugs: &Vec<String>, replies: &[Reply]) -> (r: Vec<(String, Vec<Pr>)>)
    requires
        replies@.len() == reposlugs@.len(),
    ensures
        groups_facts(r@) == grouped(all_titled(text::views(reposlugs@), replies@)),
{
    let ghost slugs = text::views(reposlugs@);
    let mut prs: Vec<Titled> = Vec::new();
    let mut i: usize = 0;
    assert(all_facts(prs@) =~= all_titled(slugs.take(0), replies@));
    while i < reposlugs.len()
        invariant
            i <= reposlugs@.len(),
            replies@.len() == reposlugs@.len(),
            slugs == text::views(reposlugs@),
            all_facts(prs@) == all_titled(slugs.take(i as int), replies@),
        decreases reposlugs@.len() - i,
    {
        assert(slugs.take(i + 1).drop_last() =~= slugs.take(i as int));
        add_titled(&mut prs, &reposlugs[i], &replies[i]);
        i += 1;
    }
    assert(slugs.take(i as int) =~= slugs);
    let names = titles_of(&prs);
    let ghost all = all_facts(prs@);
    let mut r: Vec<(String, Vec<Pr>)> = Vec::new();
    let mut k: usize = 0;
    while k < names.len()
        invariant
            k <= names@.len(),
            r@.len() == k,
            all == all_facts(prs@),
            forall|j: int|
                0 <= j < k ==> groups_facts(r@)[j] == (
                    (#[trigger] names@[j])@,
                    with_title(all, names@[j]@),
                ),
        decreases names@.len() - k,
    {
        let ghost before = r@;
        let group = prs_titled(&prs, &names[k]);
        r.push((owned(&names[k]), group));
        assert forall|j: int| 0 <= j < k + 1 implies groups_facts(r@)[j] == (
            (#[trigger] names@[j])@,
            with_title(all, names@[j]@),
        ) by {
            if j < k {
                assert(groups_facts(r@)[j] == groups_facts(before)[j]);
            }
        }
        k += 1;
    }
    assert(groups_facts(r@) =~= grouped(all)) by {
        assert forall|j: int| 0 <= j < names@.len() implies groups_facts(r@)[j]
            == #[trigger] grouped(all)[j] by {
            assert(names@[j]@ == text::views(names@)[j]);
        }
    }
    r
}

// ---------------------------------------------------------------------------
// Purging
// ---------------------------------------------------------------------------

/// The branch in a line of what `gh api` says, if it begins with `prefix`.
pub open spec fn remote_branch(line: Seq<char>, prefix: Seq<char>) -> Option<Seq<char>> {
    let name = text::trim_char(text::trim(line), '"');
    if text::begins_with(name, prefix) {
        Some(name)
    } else {
        None
    }
}

/// The branches in what `gh api` says that begin with `prefix`.
pub open spec fn remote_branches(output: Seq<char>, prefix: Seq<char>) -> Seq<Seq<char>> {
    text::lines(output).filter_map(|line: Seq<char>| remote_branch(line, prefix))
}

/// The branches in what `gh api` says that begin with `prefix`.
pub fn parse_remote_branches(output: &str, prefix: &str) -> (r: Vec<String>)
    ensures
        text::views(r@) == remote_branches(output@, prefix@),
{
    broadcast use text::lemma_views_push;

    let lines = lines_of(output);
    let ghost all = text::views(lines@);
    let ghost pick = |line: Seq<char>| remote_branch(line, prefix@);
    let mut r: Vec<String> = Vec::new();
    let mut i: usize = 0;
    assert(text::views(r@) =~= all.take(0).filter_map(pick));
    while i < lines.len()
        invariant
            i <= lines@.len(),
            all == text::views(lines@),
            pick == (|line: Seq<char>| remote_branch(line, prefix@)),
            text::views(r@) == all.take(i as int).filter_map(pick),
        decreases lines@.len() - i,
    {
        assert(all[i as int] == lines@[i as int]@);
        assert(all.take(i + 1).drop_last() =~= all.take(i as int));
        let name = trimmed_of(&trimmed(&lines[i]), '"');
        if starts_with(&name, prefix) {
            r.push(name);
        }
        i += 1;
    }
    assert(all.take(i as int) =~= all);
    r
}

/// The conversation of `list_remote_branches_with_prefix`.
pub open spec fn list_remote_branches_with_prefix_turn(
    repo: Seq<char>,
    prefix: Seq<char>,
    replies: Seq<Reply>,
) -> Turn<Result<Seq<Seq<char>>, Seq<char>>> {
    command::once(
        gh_wish(
            seq![
                "api"@,
                "repos/"@ + repo + "/branches"@,
                "--paginate"@,
                "--jq"@,
                ".[] | .name"@,
            ],
        ),
        replies,
        |r: Reply|
            match command::must(
                r,
                "Failed to execute gh api for repo '"@ + repo + "': "@,
                "Failed to list remote branches for repo '"@ + repo + "'"@,
            ) {
                Ok(_) => Ok(remote_branches(command::said(r), prefix)),
                Err(e) => Err(e),
            },
    )
}

/// Lists remote branch names for the given repository that start with the specified prefix.
pub fn list_remote_branches_with_prefix(repo: &str, prefix: &str, replies: &[Reply]) -> (step: Step<
    Result<Vec<String>, String>,
>)
    ensures
        step.meaning() == list_remote_branches_with_prefix_turn(repo@, prefix@, replies@),
        command::heard_enough(step, replies@),
{
    if replies.len() == 0 {
        return Step::Ask(
            Request::Run(
                gh()
                    .arg("api")
                    .arg(&cat3("repos/", repo, "/branches"))
                    .arg("--paginate")
                    .arg("--jq")
                    .arg(".[] | .name"),
            ),
        );
    }
    let r = &replies[0];
    let listed = must_succeed(
        r,
        &cat3("Failed to execute gh api for repo '", repo, "': "),
        cat3("Failed to list remote branches for repo '", repo, "'"),
    );
    Step::Done(
        match listed {
            Ok(_) => Ok(parse_remote_branches(&out_text(r), prefix)),
            Err(e) => Err(e),
        },
        1,
    )
}

/// The numbers in a list of pull requests, if each has one.
pub open spec fn numbers_of(prs: Seq<Document>) -> Option<Seq<u64>>
    decreases prs.len(),
{
    if prs.len() == 0 {
        Some(Seq::empty())
    } else {
        match (numbers_of(prs.drop_last()), json::number_at(prs.last(), "number"@)) {
            (Some(before), Some(n)) => Some(before.push(n)),
            _ => None,
        }
    }
}

/// The numbers of pull requests that bytes hold: a list of numbers, or a list of
/// objects with a number each. Where they hold neither, the error says why they
/// are no list of numbers.
pub open spec fn pr_numbers_in(bytes: Seq<u8>) -> Result<Seq<u64>, Seq<char>> {
    match json::numbers_in(bytes) {
        Ok(numbers) => Ok(numbers),
        Err(e) => match json::json_in(bytes) {
            Ok(d) => match json::elements(d) {
                Some(prs) => match numbers_of(prs) {
                    Some(numbers) => Ok(numbers),
                    None => Err(e),
                },
                None => Err(e),
            },
            Err(_) => Err(e),
        },
    }
}

proof fn lemma_numbers_of(prs: Seq<Document>, n: int)
    requires
        0 <= n <= prs.len(),
        numbers_of(prs.take(n)) is None,
    ensures
        numbers_of(prs) is None,
    decreases prs.len() - n,
{
    if n < prs.len() {
        assert(prs.take(n + 1).drop_last() =~= prs.take(n));
        lemma_numbers_of(prs, n + 1);
    } else {
        assert(prs.take(n) =~= prs);
    }
}

/// The numbers in a list of pull requests, if each has one.
fn read_numbers(d: &Json) -> (r: Option<Vec<u64>>)
    ensures
        r is Some <==> elements_numbered(d@) is Some,
        r matches Some(v) ==> elements_numbered(d@) == Some(v@),
{
    match d.elements() {
        Some(prs) => {
            let ghost all = json::documents(prs@);
            let mut r: Vec<u64> = Vec::new();
            let mut i: usize = 0;
            assert(numbers_of(all.take(0)) == Some(r@));
            while i < prs.len()
                invariant
                    i <= prs@.len(),
                    all == json::documents(prs@),
                    all.len() == prs@.len(),
                    json::elements(d@) == Some(all),
                    forall|k: int| 0 <= k < prs@.len() ==> #[trigger] all[k] == prs@[k]@,
                    numbers_of(all.take(i as int)) == Some(r@),
                decreases prs@.len() - i,
            {
                assert(all[i as int] == prs@[i as int]@);
                assert(all.take(i + 1).drop_last() =~= all.take(i as int));
                match prs[i].number_at("number") {
                    Some(n) => {
                        r.push(n);
                    },
                    None => {
                        proof {
                            lemma_numbers_of(all, i + 1);
                        }
                        return None;
                    },
                }
                i += 1;
            }
            assert(all.take(i as int) =~= all);
            Some(r)
        },
        None => None,
    }
}

/// The numbers in a document that is a list of pull requests.
pub open spec fn elements_numbered(d: Document) -> Option<Seq<u64>> {
    match json::elements(d) {
        Some(prs) => numbers_of(prs),
        None => None,
    }
}

/// The numbers of pull requests that bytes hold.
fn read_pr_numbers(bytes: &Vec<u8>) -> (r: Result<Vec<u64>, String>)
    ensures
        r.meaning() == pr_numbers_in(bytes@),
{
    match parse_numbers(bytes) {
        Ok(numbers) => Ok(numbers),
        Err(e) => match parse(bytes) {
            Ok(d) => match read_numbers(&d) {
                Some(numbers) => Ok(numbers),
                None => Err(e),
            },
            Err(_) => Err(e),
        },
    }
}

/// What is said of a pull request that was closed.
pub open spec fn closed_words(repo: Seq<char>, pr: u64) -> Seq<char> {
    "Closed PR #"@ + crate::numbers::decimal(pr as nat) + " for repo '"@ + repo + "'"@
}

/// What is said of a branch that was deleted.
pub open spec fn deleted_words(repo: Seq<char>, branch: Seq<char>) -> Seq<char> {
    "Deleted remote branch '"@ + branch + "' for repo '"@ + repo + "'"@
}

/// What is said of a pull request that was closed.
pub fn say_closed(repo: &str, pr: u64) -> (r: String)
    ensures
        r@ == closed_words(repo@, pr),
{
    cat5("Closed PR #", &decimal_of(pr), " for repo '", repo, "'")
}

/// What is said of a branch that was deleted.
pub fn say_deleted(repo: &str, branch: &str) -> (r: String)
    ensures
        r@ == deleted_words(repo@, branch@),
{
    cat5("Deleted remote branch '", branch, "' for repo '", repo, "'")
}

/// The conversation that closes pull requests, one after the other. Its result
/// is what is said of them.
pub open spec fn close_all_turn(repo: Seq<char>, prs: Seq<u64>, replies: Seq<Reply>) -> Turn<
    Result<Seq<Seq<char>>, Seq<char>>,
>
    decreases prs.len(),
{
    if prs.len() == 0 {
        Turn::Done(Ok(Seq::empty()), 0)
    } else {
        command::chain_ok(
            close_all_turn(repo, prs.drop_last(), replies),
            replies,
            |said: Seq<Seq<char>>, left: Seq<Reply>|
                command::chain_ok(
                    close_pr_turn(repo, prs.last(), left),
                    left,
                    |closed: (), left2: Seq<Reply>|
                        Turn::Done(Ok(said.push(closed_words(repo, prs.last()))), 0),
                ),
        )
    }
}

/// The conversation that deletes branches, one after the other. Its result is
/// what is said of them.
pub open spec fn delete_all_turn(
    repo: Seq<char>,
    branches: Seq<Seq<char>>,
    replies: Seq<Reply>,
) -> Turn<Result<Seq<Seq<char>>, Seq<char>>>
    decreases branches.len(),
{
    if branches.len() == 0 {
        Turn::Done(Ok(Seq::empty()), 0)
    } else {
        command::chain_ok(
            delete_all_turn(repo, branches.drop_last(), replies),
            replies,
            |said: Seq<Seq<char>>, left: Seq<Reply>|
                command::chain_ok(
                    delete_remote_branch_gh_turn(repo, branches.last(), left),
                    left,
                    |deleted: (), left2: Seq<Reply>|
                        Turn::Done(Ok(said.push(deleted_words(repo, branches.last()))), 0),
                ),
        )
    }
}

/// The conversation that finds the open pull requests of a repository.
pub open spec fn open_prs_turn(repo: Seq<char>, replies: Seq<Reply>) -> Turn<
    Result<Seq<u64>, Seq<char>>,
> {
    command::once(
        gh_wish(
            seq![
                "pr"@,
                "list"@,
                "--repo"@,
                repo,
                "--state"@,
                "open"@,
                "--json"@,
                "number"@,
                "--limit"@,
                "1000"@,
            ],
        ),
        replies,
        |r: Reply|
            match r {
                Err(e) => Err(e@),
                Ok(out) => if !command::succeeded(r) {
                    Err("Failed to list open PRs for repo '"@ + repo + "'"@)
                } else {
                    match pr_numbers_in(out.stdout@) {
                        Ok(numbers) => Ok(numbers),
                        Err(e) => Err(
                            "Failed to parse open PRs JSON for repo '"@ + repo + "': "@ + e,
                        ),
                    }
                },
            },
    )
}

/// The conversation of `purge_repo`.
pub open spec fn purge_repo_turn(repo: Seq<char>, replies: Seq<Reply>) -> Turn<
    Result<Seq<Seq<char>>, Seq<char>>,
> {
    command::chain_ok(
        open_prs_turn(repo, replies),
        replies,
        |prs: Seq<u64>, left1: Seq<Reply>|
            command::chain_ok(
                close_all_turn(repo, prs, left1),
                left1,
                |closed: Seq<Seq<char>>, left2: Seq<Reply>|
                    command::chain_ok(
                        list_remote_branches_with_prefix_turn(repo, "SLAM"@, left2),
                        left2,
                        |branches: Seq<Seq<char>>, left3: Seq<Reply>|
                            command::chain_ok(
                                delete_all_turn(repo, branches, left3),
                                left3,
                                |deleted: Seq<Seq<char>>, left4: Seq<Reply>|
                                    Turn::Done(Ok(closed + deleted), 0),
                            ),
                    ),
            ),
    )
}

/// Finds the open pull requests of a repository.
fn open_prs(repo: &str, replies: &[Reply]) -> (step: Step<Result<Vec<u64>, String>>)
    ensures
        step.meaning() == open_prs_turn(repo@, replies@),
        command::heard_enough(step, replies@),
{
    if replies.len() == 0 {
        return Step::Ask(
            Request::Run(
                gh()
                    .arg("pr")
                    .arg("list")
                    .arg("--repo")
                    .arg(repo)
                    .arg("--state")
                    .arg("open")
                    .arg("--json")
                    .arg("number")
                    .arg("--limit")
                    .arg("1000"),
            ),
        );
    }
    let result = match &replies[0] {
        Err(e) => Err(owned(e)),
        Ok(out) => if !out.success() {
            Err(cat3("Failed to list open PRs for repo '", repo, "'"))
        } else {
            match read_pr_numbers(&out.stdout) {
                Ok(numbers) => Ok(numbers),
                Err(e) => Err(cat4("Failed to parse open PRs JSON for repo '", repo, "': ", &e)),
            }
        },
    };
    Step::Done(result, 1)
}

proof fn lemma_close_all_stops(repo: Seq<char>, prs: Seq<u64>, replies: Seq<Reply>, n: int)
    requires
        0 <= n <= prs.len(),
        !(close_all_turn(repo, prs.take(n), replies) matches Turn::Done(Ok(_), _)),
    ensures
        close_all_turn(repo, prs, replies) == close_all_turn(repo, prs.take(n), replies),
    decreases prs.len() - n,
{
    if n < prs.len() {
        assert(prs.take(n + 1).drop_last() =~= prs.take(n));
        lemma_close_all_stops(repo, prs, replies, n + 1);
    } else {
        assert(prs.take(n) =~= prs);
    }
}

proof fn lemma_delete_all_stops(
    repo: Seq<char>,
    branches: Seq<Seq<char>>,
    replies: Seq<Reply>,
    n: int,
)
    requires
        0 <= n <= branches.len(),
        !(delete_all_turn(repo, branches.take(n), replies) matches Turn::Done(Ok(_), _)),
    ensures
        delete_all_turn(repo, branches, replies) == delete_all_turn(
            repo,
            branches.take(n),
            replies,
        ),
    decreases branches.len() - n,
{
    if n < branches.len() {
        assert(branches.take(n + 1).drop_last() =~= branches.take(n));
        lemma_delete_all_stops(repo, branches, replies, n + 1);
    } else {
        assert(branches.take(n) =~= branches);
    }
}

/// Closes pull requests, one after the other.
fn close_all(repo: &str, prs: &Vec<u64>, replies: &[Reply]) -> (step: Step<
    Result<Vec<String>, String>,
>)
    ensures
        step.meaning() == close_all_turn(repo@, prs@, replies@),
        command::heard_enough(step, replies@),
{
    broadcast use text::lemma_views_push;

    let mut said: Vec<String> = Vec::new();
    let mut used: usize = 0;
    let mut i: usize = 0;
    assert(text::views(said@) =~= Seq::empty());
    while i < prs.len()
        invariant
            i <= prs@.len(),
            used <= replies@.len(),
            close_all_turn(repo@, prs@.take(i as int), replies@) == Turn::Done(
                Ok::<Seq<Seq<char>>, Seq<char>>(text::views(said@)),
                used as nat,
            ),
        decreases prs@.len() - i,
    {
        assert(prs@.take(i + 1).drop_last() =~= prs@.take(i as int));
        match close_pr(repo, prs[i], after(replies, used)) {
            Step::Ask(r) => {
                proof {
                    lemma_close_all_stops(repo@, prs@, replies@, i + 1);
                }
                return Step::Ask(r);
            },
            Step::Done(Err(e), n) => {
                proof {
                    lemma_close_all_stops(repo@, prs@, replies@, i + 1);
                }
                return Step::Done(Err(e), used + n);
            },
            Step::Done(Ok(_), n) => {
                used = used + n;
            },
        }
        let ghost before = text::views(said@);
        said.push(say_closed(repo, prs[i]));
        assert(text::views(said@) == before.push(closed_words(repo@, prs@[i as int])));
        i += 1;
    }
    assert(prs@.take(i as int) =~= prs@);
    Step::Done(Ok(said), used)
}

/// Deletes branches, one after the other.
fn delete_all(repo: &str, branches: &Vec<String>, replies: &[Reply]) -> (step: Step<
    Result<Vec<String>, String>,
>)
    ensures
        step.meaning() == delete_all_turn(repo@, text::views(branches@), replies@),
        command::heard_enough(step, replies@),
{
    broadcast use text::lemma_views_push;

    let ghost all = text::views(branches@);
    let mut said: Vec<String> = Vec::new();
    let mut used: usize = 0;
    let mut i: usize = 0;
    assert(text::views(said@) =~= Seq::empty());
    while i < branches.len()
        invariant
            i <= branches@.len(),
            used <= replies@.len(),
            all == text::views(branches@),
            delete_all_turn(repo@, all.take(i as int), replies@) == Turn::Done(
                Ok::<Seq<Seq<char>>, Seq<char>>(text::views(said@)),
                used as nat,
            ),
        decreases branches@.len() - i,
    {
        assert(all.take(i + 1).drop_last() =~= all.take(i as int));
        assert(all[i as int] == branches@[i as int]@);
        match delete_remote_branch_gh(repo, &branches[i], after(replies, used)) {
            Step::Ask(r) => {
                proof {
                    lemma_delete_all_stops(repo@, all, replies@, i + 1);
                }
                return Step::Ask(r);
            },
            Step::Done(Err(e), n) => {
                proof {
                    lemma_delete_all_stops(repo@, all, replies@, i + 1);
                }
                return Step::Done(Err(e), used + n);
            },
            Step::Done(Ok(_), n) => {
                used = used + n;
            },
        }
        let ghost before = text::views(said@);
        said.push(say_deleted(repo, &branches[i]));
        assert(text::views(said@) == before.push(deleted_words(repo@, all[i as int])));
        i += 1;
    }
    assert(all.take(i as int) =~= all);
    Step::Done(Ok(said), used)
}

/// Purges a repository by closing all open PRs and deleting all remote branches with the prefix
/// "SLAM". The result is what there is to say of it.
pub fn purge_repo(repo: &str, replies: &[Reply]) -> (step: Step<Result<Vec<String>, String>>)
    ensures
        step.meaning() == purge_repo_turn(repo@, replies@),
        command::heard_enough(step, replies@),
{
    let (prs, n1): (Vec<u64>, usize) = match open_prs(repo, replies) {
        Step::Ask(r) => {
            return Step::Ask(r);
        },
        Step::Done(Err(e), n) => {
            return Step::Done(Err(e), n);
        },
        Step::Done(Ok(prs), n) => (prs, n),
    };
    let left1 = after(replies, n1);
    let (mut said, n2): (Vec<String>, usize) = match close_all(repo, &prs, left1) {
        Step::Ask(r) => {
            return Step::Ask(r);
        },
        Step::Done(Err(e), n) => {
            return Step::Done(Err(e), n1 + n);
        },
        Step::Done(Ok(said), n) => (said, n),
    };
    let left2 = after(left1, n2);
    let (branches, n3): (Vec<String>, usize) = match list_remote_branches_with_prefix(
        repo,
        "SLAM",
        left2,
    ) {
        Step::Ask(r) => {
            return Step::Ask(r);
        },
        Step::Done(Err(e), n) => {
            return Step::Done(Err(e), n1 + n2 + n);
        },
        Step::Done(Ok(branches), n) => (branches, n),
    };
    let left3 = after(left2, n3);
    match delete_all(repo, &branches, left3) {
        Step::Ask(r) => Step::Ask(r),
        Step::Done(Err(e), n) => Step::Done(Err(e), n1 + n2 + n3 + n),
        Step::Done(Ok(deleted), n) => {
            let ghost closed = text::views(said@);
            let ghost gone = text::views(deleted@);
            let mut deleted = deleted;
            said.append(&mut deleted);
            assert(text::views(said@) =~= closed + gone);
            Step::Done(Ok(said), n1 + n2 + n3 + n)
        },
    }
}

} // verus!
