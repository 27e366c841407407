//! Reviewing the pull request of a repository.
use crate::cli::ReviewAction;
use crate::command;
use crate::command::{after, Meaning, Reply, Step, Turn};
use crate::diff;
use crate::diff::{generate_diff, patch_is_readable, reconstruct_files_from_unified_diff, Rebuilt};
use crate::git;
use crate::git::clone_or_update_repo;
use crate::github;
use crate::github::{
    approve_pr, close_pr, delete_remote_branch_gh, get_pr_diff, get_pr_status, merge_pr, purge_repo,
    say_closed, say_deleted, PrStatus,
};
use crate::numbers;
use crate::numbers::decimal_of;
use crate::paths;
use crate::paths::{joined_path, relative_to};
use crate::repo::{ContentFacts, Repo, RepoFacts};
use crate::report;
use crate::report::{Body, Page, Section};
use crate::text;
use crate::text::{blank, cat2, cat3, cat4, cat6, cat7, joined, owned};
use vstd::prelude::*;

verus! {

// ---------------------------------------------------------------------------
// The report on a pull request
// ---------------------------------------------------------------------------

/// A repository and the number of its pull request.
pub open spec fn caption(repo: RepoFacts) -> Seq<char> {
    repo.reposlug + " (# "@ + numbers::decimal(repo.pr_number as nat) + ")"@
}

/// The section on a file of a patch. A file of which nothing is left is deleted.
pub open spec fn patch_section(file: Rebuilt, buffer: usize) -> Section {
    if text::is_blank(file.2) {
        Section {
            mark: "D"@,
            file: file.0,
            body: Body::Lines(diff::diff_lines(file.1, ""@, buffer)),
        }
    } else {
        Section {
            mark: "M"@,
            file: file.0,
            body: Body::Lines(diff::diff_lines(file.1, file.2, buffer)),
        }
    }
}

/// The sections on the files of a patch.
pub open spec fn patch_sections(files: Seq<Rebuilt>, buffer: usize) -> Seq<Section> {
    files.map_values(|file: Rebuilt| patch_section(file, buffer))
}

/// The report on a patch of so many files, from how its sections are shown.
pub open spec fn captioned(repo: RepoFacts, shown: Seq<char>, files: nat) -> Seq<char> {
    caption(repo) + "\n"@ + shown + (if files == 0 {
        ""@
    } else {
        "\n"@
    })
}

/// Whether `out` is the report on a patch of these files.
pub open spec fn is_patch_report(
    out: Seq<char>,
    repo: RepoFacts,
    files: Seq<Rebuilt>,
    buffer: usize,
) -> bool {
    exists|shown: Seq<char>|
        report::sections_shown(shown, patch_sections(files, buffer)) && out == #[trigger] captioned(
            repo,
            shown,
            files.len(),
        )
}

/// Whether `out` is the report on a pull request whose patch was fetched, or not.
pub open spec fn is_review(
    out: Seq<char>,
    repo: RepoFacts,
    fetched: ContentFacts,
    buffer: usize,
) -> bool {
    match fetched {
        Ok(patch) => is_patch_report(out, repo, diff::rebuilt(patch), buffer),
        Err(e) => out == caption(repo) + "\n"@ + ("  (Could not fetch PR diff: "@ + e + ")\n"@),
    }
}

impl Repo {
    /// The repository and the number of its pull request.
    pub fn caption(&self) -> (r: String)
        ensures
            r@ == caption(self@),
    {
        cat4(&self.reposlug, " (# ", &decimal_of(self.pr_number), ")")
    }

    /// The report on the pull request, whose patch was fetched, or not.
    pub fn get_review_diff(&self, buffer: usize, fetched: &Result<String, String>) -> (r: String)
        requires
            fetched matches Ok(patch) ==> diff::hunks_fit(patch@) && 2 * buffer <= usize::MAX,
        ensures
            is_review(r@, self@, fetched.meaning(), buffer),
    {
        let start = cat2(&self.caption(), "\n");
        match fetched {
            Ok(patch) => {
                let files = reconstruct_files_from_unified_diff(patch);
                let ghost all = diff::rebuilt(patch@);
                let ghost wanted = patch_sections(all, buffer);
                let mut page = Page::new();
                let mut i: usize = 0;
                assert(page.sections@ =~= wanted.take(0));
                while i < files.len()
                    invariant
                        i <= files@.len(),
                        2 * buffer <= usize::MAX,
                        all == diff::all_rebuilt(files@),
                        wanted == patch_sections(all, buffer),
                        page.wf(),
                        page.sections@ == wanted.take(i as int),
                    decreases files@.len() - i,
                {
                    let file = &files[i];
                    assert(all[i as int] == diff::rebuilt_facts(files@[i as int]));
                    let gone = blank(&file.2);
                    let new = if gone {
                        ""
                    } else {
                        file.2.as_str()
                    };
                    let mark = if gone {
                        "D"
                    } else {
                        "M"
                    };
                    let shown = generate_diff(&file.1, new, buffer);
                    let ghost lines = diff::diff_lines(file.1@, new@, buffer);
                    page.add_diff(mark, &file.0, &shown, Ghost(lines));
                    assert(wanted.take(i + 1) =~= wanted.take(i as int).push(wanted[i as int]));
                    i += 1;
                }
                assert(all.len() == files@.len());
                assert(wanted.take(i as int) =~= wanted);
                let end = if files.len() == 0 {
                    ""
                } else {
                    "\n"
                };
                let r = cat3(&start, &page.text, end);
                assert(r@ == captioned(self@, page.text@, all.len()));
                r
            },
            Err(e) => cat2(&start, &cat3("  (Could not fetch PR diff: ", e, ")\n")),
        }
    }
}

// ---------------------------------------------------------------------------
// Cloning
// ---------------------------------------------------------------------------

/// What is said of a clone.
pub open spec fn cloned_words(repo: RepoFacts, cwd: Seq<char>) -> Seq<char> {
    let target = paths::join(cwd, repo.reposlug);
    let place = match paths::relative(target, cwd) {
        Some(rest) => rest,
        None => target,
    };
    "ensure clone "@ + repo.reposlug + " -> "@ + place + " and checkout to "@ + repo.change_id
}

/// The conversation that clones a repository below the current directory.
pub open spec fn clone_turn(repo: RepoFacts, cwd: ContentFacts, replies: Seq<Reply>) -> Turn<
    Result<Seq<char>, Seq<char>>,
> {
    match cwd {
        Err(e) => Turn::Done(Err(e), 0),
        Ok(cwd) => command::chain_ok(
            git::clone_or_update_repo_turn(
                repo.reposlug,
                paths::join(cwd, repo.reposlug),
                repo.change_id,
                replies,
            ),
            replies,
            |done: (), left: Seq<Reply>| Turn::Done(Ok(cloned_words(repo, cwd)), 0),
        ),
    }
}

/// Clones a repository below the current directory.
fn clone_below(repo: &Repo, cwd: &Result<String, String>, replies: &[Reply]) -> (step: Step<
    Result<String, String>,
>)
    ensures
        step.meaning() == clone_turn(repo@, cwd.meaning(), replies@),
        command::heard_enough(step, replies@),
{
    let cwd = match cwd {
        Err(e) => {
            return Step::Done(Err(owned(e)), 0);
        },
        Ok(cwd) => cwd,
    };
    let target = joined_path(cwd, &repo.reposlug);
    match clone_or_update_repo(&repo.reposlug, &target, &repo.change_id, replies) {
        Step::Ask(r) => Step::Ask(r),
        Step::Done(Err(e), n) => Step::Done(Err(e), n),
        Step::Done(Ok(_), n) => {
            let place = match relative_to(&target, cwd) {
                Some(rest) => rest,
                None => target,
            };
            let words = cat6(
                "ensure clone ",
                &repo.reposlug,
                " -> ",
                &place,
                " and checkout to ",
                &repo.change_id,
            );
            Step::Done(Ok(words), n)
        },
    }
}

// ---------------------------------------------------------------------------
// Approving
// ---------------------------------------------------------------------------

/// Why a pull request cannot be approved, if it cannot. An override gets past
/// checks that have not passed.
pub open spec fn objection(repo: RepoFacts, status: PrStatus, admin_override: bool) -> Option<
    Seq<char>,
> {
    let start = "PR "@ + numbers::decimal(repo.pr_number as nat) + " in repo '"@ + repo.reposlug;
    if status.draft {
        Some(start + "' is a draft and cannot be approved."@)
    } else if !status.mergeable {
        Some(start + "' is not mergeable; a rebase is required."@)
    } else if !status.checked && !admin_override {
        Some(start + "' has not passed all status checks."@)
    } else {
        None
    }
}

/// Why a pull request cannot be approved, if it cannot.
pub fn objection_to(repo: &Repo, status: &PrStatus, admin_override: bool) -> (r: Option<String>)
    ensures
        r.meaning() == objection(repo@, *status, admin_override),
{
    let start = cat4("PR ", &decimal_of(repo.pr_number), " in repo '", &repo.reposlug);
    if status.draft {
        Some(cat2(&start, "' is a draft and cannot be approved."))
    } else if !status.mergeable {
        Some(cat2(&start, "' is not mergeable; a rebase is required."))
    } else if !status.checked && !admin_override {
        Some(cat2(&start, "' has not passed all status checks."))
    } else {
        None
    }
}

/// What is said of a pull request that was merged.
pub open spec fn merged_words(repo: RepoFacts) -> Seq<char> {
    "Repo: "@ + repo.reposlug + " -> Approved and merged PR: "@ + repo.change_id + " (# "@
        + numbers::decimal(repo.pr_number as nat) + ")"@
}

/// The conversation that approves a pull request, unless that has been done, and
/// merges it, past failing checks where there is an override.
pub open spec fn approve_turn(repo: RepoFacts, admin_override: bool, replies: Seq<Reply>) -> Turn<
    Result<Seq<char>, Seq<char>>,
> {
    command::chain_ok(
        github::get_pr_status_turn(repo.reposlug, repo.pr_number, replies),
        replies,
        |status: PrStatus, left1: Seq<Reply>|
            match objection(repo, status, admin_override) {
                Some(words) => Turn::Done(Err(words), 0),
                None => command::chain_ok(
                    if status.reviewed {
                        Turn::Done(Ok(()), 0)
                    } else {
                        github::approve_pr_turn(repo.reposlug, repo.pr_number, left1)
                    },
                    left1,
                    |approved: (), left2: Seq<Reply>|
                        command::chain_ok(
                            github::merge_pr_turn(
                                repo.reposlug,
                                repo.pr_number,
                                admin_override,
                                left2,
                            ),
                            left2,
                            |merged: (), left3: Seq<Reply>| Turn::Done(Ok(merged_words(repo)), 0),
                        ),
                ),
            },
    )
}

/// Approves a pull request, unless that has been done, and merges it.
fn approve_and_merge(repo: &Repo, admin_override: bool, replies: &[Reply]) -> (step: Step<
    Result<String, String>,
>)
    ensures
        step.meaning() == approve_turn(repo@, admin_override, replies@),
        command::heard_enough(step, replies@),
{
    let (status, n1): (PrStatus, usize) = match get_pr_status(
        &repo.reposlug,
        repo.pr_number,
        replies,
    ) {
        Step::Ask(r) => {
            return Step::Ask(r);
        },
        Step::Done(Err(e), n) => {
            return Step::Done(Err(e), n);
        },
        Step::Done(Ok(status), n) => (status, n),
    };
    match objection_to(repo, &status, admin_override) {
        Some(words) => {
            return Step::Done(Err(words), n1);
        },
        None => {},
    }
    let left1 = after(replies, n1);
    let n2: usize = if status.reviewed {
        0
    } else {
        match approve_pr(&repo.reposlug, repo.pr_number, left1) {
            Step::Ask(r) => {
                return Step::Ask(r);
            },
            Step::Done(Err(e), n) => {
                return Step::Done(Err(e), n1 + n);
            },
            Step::Done(Ok(_), n) => n,
        }
    };
    match merge_pr(&repo.reposlug, repo.pr_number, admin_override, after(left1, n2)) {
        Step::Ask(r) => Step::Ask(r),
        Step::Done(Err(e), n) => Step::Done(Err(e), n1 + n2 + n),
        Step::Done(Ok(_), n) => {
            let words = cat7(
                "Repo: ",
                &repo.reposlug,
                " -> Approved and merged PR: ",
                &repo.change_id,
                " (# ",
                &decimal_of(repo.pr_number),
                ")",
            );
            Step::Done(Ok(words), n1 + n2 + n)
        },
    }
}

// ---------------------------------------------------------------------------
// Deleting
// ---------------------------------------------------------------------------

/// The conversation that closes a pull request, if there is one, and deletes its
/// branch.
pub open spec fn delete_turn(repo: RepoFacts, replies: Seq<Reply>) -> Turn<
    Result<Seq<char>, Seq<char>>,
> {
    command::chain_ok(
        if repo.pr_number != 0 {
            command::chain_ok(
                github::close_pr_turn(repo.reposlug, repo.pr_number, replies),
                replies,
                |closed: (), left: Seq<Reply>|
                    Turn::Done(Ok(github::closed_words(repo.reposlug, repo.pr_number)), 0),
            )
        } else {
            Turn::Done(Ok("No open PR found for repo '"@ + repo.reposlug + "'"@), 0)
        },
        replies,
        |first: Seq<char>, left1: Seq<Reply>|
            command::chain_ok(
                github::delete_remote_branch_gh_turn(repo.reposlug, repo.change_id, left1),
                left1,
                |deleted: (), left2: Seq<Reply>|
                    Turn::Done(
                        Ok(
                            first + "\n"@ + github::deleted_words(repo.reposlug, repo.change_id),
                        ),
                        0,
                    ),
            ),
    )
}

/// Closes a pull request, if there is one, and deletes its branch.
fn close_and_delete(repo: &Repo, replies: &[Reply]) -> (step: Step<Result<String, String>>)
    ensures
        step.meaning() == delete_turn(repo@, replies@),
        command::heard_enough(step, replies@),
{
    let (first, n1): (String, usize) = if repo.pr_number != 0 {
        match close_pr(&repo.reposlug, repo.pr_number, replies) {
            Step::Ask(r) => {
                return Step::Ask(r);
            },
            Step::Done(Err(e), n) => {
                return Step::Done(Err(e), n);
            },
            Step::Done(Ok(_), n) => (say_closed(&repo.reposlug, repo.pr_number), n),
        }
    } else {
        (cat3("No open PR found for repo '", &repo.reposlug, "'"), 0)
    };
    match delete_remote_branch_gh(&repo.reposlug, &repo.change_id, after(replies, n1)) {
        Step::Ask(r) => Step::Ask(r),
        Step::Done(Err(e), n) => Step::Done(Err(e), n1 + n),
        Step::Done(Ok(_), n) => {
            let second = say_deleted(&repo.reposlug, &repo.change_id);
            Step::Done(Ok(cat3(&first, "\n", &second)), n1 + n)
        },
    }
}

// ---------------------------------------------------------------------------
// Reviewing
// ---------------------------------------------------------------------------

/// The conversation that purges a repository.
pub open spec fn purge_turn(repo: RepoFacts, replies: Seq<Reply>) -> Turn<
    Result<Seq<char>, Seq<char>>,
> {
    command::chain_ok(
        github::purge_repo_turn(repo.reposlug, replies),
        replies,
        |said: Seq<Seq<char>>, left: Seq<Reply>| Turn::Done(Ok(text::join(said, "\n"@)), 0),
    )
}

/// The conversation of a review, but for the listing of a patch.
pub open spec fn review_turn(
    repo: RepoFacts,
    action: ReviewAction,
    cwd: ContentFacts,
    replies: Seq<Reply>,
) -> Turn<Result<Seq<char>, Seq<char>>> {
    match action {
        ReviewAction::Ls { .. } => Turn::Done(Ok(caption(repo)), 0),
        ReviewAction::Clone { .. } => clone_turn(repo, cwd, replies),
        ReviewAction::Approve { admin_override, .. } => approve_turn(repo, admin_override, replies),
        ReviewAction::Delete { .. } => delete_turn(repo, replies),
        ReviewAction::Purge {  } => purge_turn(repo, replies),
    }
}

/// Whether a step is one of the listing of a patch: after the patch was fetched,
/// or not, the report on it, and nothing where it cannot be read.
pub open spec fn is_listing(
    step: Step<Option<Result<String, String>>>,
    repo: RepoFacts,
    buffer: usize,
    replies: Seq<Reply>,
) -> bool {
    match (github::get_pr_diff_turn(repo.reposlug, repo.pr_number, replies), step) {
        (Turn::Ask(wish), Step::Ask(request)) => request@ == wish,
        (Turn::Done(fetched, n), Step::Done(result, m)) => m == n && match result {
            None => fetched matches Ok(patch) && !diff::hunks_fit(patch),
            Some(Ok(out)) => is_review(out@, repo, fetched, buffer) && (fetched matches Ok(patch)
                ==> diff::hunks_fit(patch)),
            Some(Err(_)) => false,
        },
        _ => false,
    }
}

impl Repo {
    /// Carries out a review action on this repository. The result is what there
    /// is to say of it; there is none where the patch of the pull request has a
    /// line number that no machine word holds. `cwd` is the current directory,
    /// or why there is none.
    pub fn review(
        &self,
        action: &ReviewAction,
        summary: bool,
        cwd: &Result<String, String>,
        replies: &[Reply],
    ) -> (step: Step<Option<Result<String, String>>>)
        requires
            !summary ==> (action matches ReviewAction::Ls { buffer, .. } ==> 2 * *buffer
                <= usize::MAX),
        ensures
            !summary ==> (action matches ReviewAction::Ls { buffer, .. } ==> is_listing(
                step,
                self@,
                *buffer,
                replies@,
            )),
            !(action is Ls && !summary) ==> step.meaning() == command::chain(
                review_turn(self@, *action, cwd.meaning(), replies@),
                replies@,
                |result: Result<Seq<char>, Seq<char>>, left: Seq<Reply>|
                    Turn::Done(Some(result), 0),
            ),
            command::heard_enough(step, replies@),
    {
        let step: Step<Result<String, String>> = match action {
            ReviewAction::Ls { buffer, .. } => {
                if summary {
                    Step::Done(Ok(self.caption()), 0)
                } else {
                    return match get_pr_diff(&self.reposlug, self.pr_number, replies) {
                        Step::Ask(r) => Step::Ask(r),
                        Step::Done(fetched, n) => {
                            let readable = match &fetched {
                                Ok(patch) => patch_is_readable(patch),
                                Err(_) => true,
                            };
                            if readable {
                                Step::Done(Some(Ok(self.get_review_diff(*buffer, &fetched))), n)
                            } else {
                                Step::Done(None, n)
                            }
                        },
                    };
                }
            },
            ReviewAction::Clone { .. } => clone_below(self, cwd, replies),
            ReviewAction::Approve { admin_override, .. } => approve_and_merge(
                self,
                *admin_override,
                replies,
            ),
            ReviewAction::Delete { .. } => close_and_delete(self, replies),
            ReviewAction::Purge {  } => match purge_repo(&self.reposlug, replies) {
                Step::Ask(r) => Step::Ask(r),
                Step::Done(Err(e), n) => Step::Done(Err(e), n),
                Step::Done(Ok(said), n) => Step::Done(Ok(joined(&said, "\n")), n),
            },
        };
        match step {
            Step::Ask(r) => Step::Ask(r),
            Step::Done(result, n) => Step::Done(Some(result), n),
        }
    }
}

} // verus!
