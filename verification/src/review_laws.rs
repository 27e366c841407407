//! What holds of every review, whatever GitHub answers.
use crate::cli::ReviewAction;
use crate::command;
use crate::command::{Call, Reply, Turn, Wish};
use crate::git;
use crate::github;
use crate::github::PrStatus;
use crate::json;
use crate::json::Document;
use crate::numbers;
use crate::paths;
use crate::repo::{ContentFacts, RepoFacts};
use crate::requests;
use crate::review;
use crate::text;
use vstd::prelude::*;

verus! {

// ---------------------------------------------------------------------------
// Purging
// ---------------------------------------------------------------------------

/// Whether the first `n` answers are successes.
spec fn successes(replies: Seq<Reply>, n: int) -> bool {
    &&& 0 <= n <= replies.len()
    &&& forall|i: int| 0 <= i < n ==> command::succeeded(#[trigger] replies[i])
}

/// Whether the first `n` requests were not refused.
spec fn carried_out(replies: Seq<Reply>, n: int) -> bool {
    &&& 0 <= n <= replies.len()
    &&& forall|i: int| 0 <= i < n ==> (#[trigger] replies[i]) is Ok
}

/// What is said of pull requests that were closed.
pub open spec fn all_closed(repo: Seq<char>, prs: Seq<u64>) -> Seq<Seq<char>> {
    prs.map_values(|pr: u64| github::closed_words(repo, pr))
}

/// What is said of branches that were deleted.
pub open spec fn all_deleted(repo: Seq<char>, branches: Seq<Seq<char>>) -> Seq<Seq<char>> {
    branches.map_values(|branch: Seq<char>| github::deleted_words(repo, branch))
}

proof fn lemma_closing_succeeds(repo: Seq<char>, prs: Seq<u64>, replies: Seq<Reply>)
    requires
        successes(replies, prs.len() as int),
    ensures
        github::close_all_turn(repo, prs, replies) == Turn::Done(
            Ok::<Seq<Seq<char>>, Seq<char>>(all_closed(repo, prs)),
            prs.len(),
        ),
    decreases prs.len(),
{
    if prs.len() > 0 {
        lemma_closing_succeeds(repo, prs.drop_last(), replies);
        assert(all_closed(repo, prs) =~= all_closed(repo, prs.drop_last()).push(
            github::closed_words(repo, prs.last()),
        ));
        assert(command::succeeded(replies[prs.len() - 1]));
    } else {
        assert(all_closed(repo, prs) =~= Seq::empty());
    }
}

proof fn lemma_closing_succeeded(repo: Seq<char>, prs: Seq<u64>, replies: Seq<Reply>)
    requires
        github::close_all_turn(repo, prs, replies) matches Turn::Done(Ok(_), _),
    ensures
        successes(replies, prs.len() as int),
    decreases prs.len(),
{
    if prs.len() > 0 {
        lemma_closing_succeeded(repo, prs.drop_last(), replies);
        lemma_closing_succeeds(repo, prs.drop_last(), replies);
    }
}

proof fn lemma_closing_asks(repo: Seq<char>, prs: Seq<u64>, replies: Seq<Reply>, k: int)
    requires
        0 <= k < prs.len(),
        replies.len() == k,
        successes(replies, k),
    ensures
        github::close_all_turn(repo, prs, replies) matches Turn::Ask(wish)
            && github::close_pr_turn(repo, prs[k], Seq::empty()) == Turn::<
            Result<(), Seq<char>>,
        >::Ask(wish),
    decreases prs.len(),
{
    if k < prs.len() - 1 {
        lemma_closing_asks(repo, prs.drop_last(), replies, k);
    } else {
        lemma_closing_succeeds(repo, prs.drop_last(), replies);
        assert(replies.skip(k) =~= Seq::empty());
    }
}

proof fn lemma_deleting_succeeds(repo: Seq<char>, branches: Seq<Seq<char>>, replies: Seq<Reply>)
    requires
        carried_out(replies, branches.len() as int),
    ensures
        github::delete_all_turn(repo, branches, replies) == Turn::Done(
            Ok::<Seq<Seq<char>>, Seq<char>>(all_deleted(repo, branches)),
            branches.len(),
        ),
    decreases branches.len(),
{
    if branches.len() > 0 {
        lemma_deleting_succeeds(repo, branches.drop_last(), replies);
        assert(all_deleted(repo, branches) =~= all_deleted(repo, branches.drop_last()).push(
            github::deleted_words(repo, branches.last()),
        ));
        assert(replies[branches.len() - 1] is Ok);
    } else {
        assert(all_deleted(repo, branches) =~= Seq::empty());
    }
}

proof fn lemma_deleting_succeeded(repo: Seq<char>, branches: Seq<Seq<char>>, replies: Seq<Reply>)
    requires
        github::delete_all_turn(repo, branches, replies) matches Turn::Done(Ok(_), _),
    ensures
        carried_out(replies, branches.len() as int),
    decreases branches.len(),
{
    if branches.len() > 0 {
        lemma_deleting_succeeded(repo, branches.drop_last(), replies);
        lemma_deleting_succeeds(repo, branches.drop_last(), replies);
    }
}

proof fn lemma_deleting_asks(
    repo: Seq<char>,
    branches: Seq<Seq<char>>,
    replies: Seq<Reply>,
    k: int,
)
    requires
        0 <= k < branches.len(),
        replies.len() == k,
        carried_out(replies, k),
    ensures
        github::delete_all_turn(repo, branches, replies) matches Turn::Ask(wish)
            && github::delete_remote_branch_gh_turn(repo, branches[k], Seq::empty()) == Turn::<
            Result<(), Seq<char>>,
        >::Ask(wish),
    decreases branches.len(),
{
    if k < branches.len() - 1 {
        lemma_deleting_asks(repo, branches.drop_last(), replies, k);
    } else {
        lemma_deleting_succeeds(repo, branches.drop_last(), replies);
        assert(replies.skip(k) =~= Seq::empty());
    }
}

/// Whether these are the open pull requests of a repository, by the first answer,
/// and its branches that start with "SLAM", by the answer that follows when the
/// pull requests are closed.
pub open spec fn found_for_purge(
    repo: Seq<char>,
    replies: Seq<Reply>,
    prs: Seq<u64>,
    branches: Seq<Seq<char>>,
) -> bool {
    &&& github::open_prs_turn(repo, replies) == Turn::Done(Ok::<Seq<u64>, Seq<char>>(prs), 1)
    &&& github::list_remote_branches_with_prefix_turn(
        repo,
        "SLAM"@,
        replies.skip(1 + prs.len() as int),
    ) == Turn::Done(Ok::<Seq<Seq<char>>, Seq<char>>(branches), 1)
}

proof fn lemma_purge(repo: Seq<char>, replies: Seq<Reply>) -> (found: (Seq<u64>, Seq<Seq<char>>))
    requires
        github::purge_repo_turn(repo, replies) matches Turn::Done(Ok(_), _),
    ensures
        found_for_purge(repo, replies, found.0, found.1),
        github::purge_repo_turn(repo, replies) == Turn::Done(
            Ok::<Seq<Seq<char>>, Seq<char>>(all_closed(repo, found.0) + all_deleted(repo, found.1)),
            2 + found.0.len() + found.1.len(),
        ),
        successes(replies.skip(1), found.0.len() as int),
        carried_out(replies.skip(2 + found.0.len() as int), found.1.len() as int),
{
    let prs = match github::open_prs_turn(repo, replies) {
        Turn::Done(Ok(prs), _) => prs,
        _ => Seq::empty(),
    };
    let left1 = replies.skip(1);
    lemma_closing_succeeded(repo, prs, left1);
    lemma_closing_succeeds(repo, prs, left1);
    let left2 = left1.skip(prs.len() as int);
    assert(left2 =~= replies.skip(1 + prs.len() as int));
    let branches = match github::list_remote_branches_with_prefix_turn(repo, "SLAM"@, left2) {
        Turn::Done(Ok(branches), _) => branches,
        _ => Seq::empty(),
    };
    let left3 = left2.skip(1);
    assert(left3 =~= replies.skip(2 + prs.len() as int));
    lemma_deleting_succeeded(repo, branches, left3);
    lemma_deleting_succeeds(repo, branches, left3);
    (prs, branches)
}

/// A purge that succeeds tells of every open pull request listed that it was closed, and
/// of every remote branch that starts with "SLAM" that it was deleted.
pub proof fn law_purge_tells_of_everything(
    repo: Seq<char>,
    replies: Seq<Reply>,
    said: Seq<Seq<char>>,
    prs: Seq<u64>,
    branches: Seq<Seq<char>>,
)
    requires
        github::purge_repo_turn(repo, replies) matches Turn::Done(Ok(s), _) && s == said,
        found_for_purge(repo, replies, prs, branches),
    ensures
        said == all_closed(repo, prs) + all_deleted(repo, branches),
{
    let _ = lemma_purge(repo, replies);
}

/// A purge that succeeds has asked for every open pull request that was listed to
/// be closed, and that was done.
pub proof fn law_purge_closes_every_pull_request(
    repo: Seq<char>,
    replies: Seq<Reply>,
    prs: Seq<u64>,
    k: int,
)
    requires
        github::purge_repo_turn(repo, replies) matches Turn::Done(Ok(_), _),
        github::open_prs_turn(repo, replies) == Turn::Done(Ok::<Seq<u64>, Seq<char>>(prs), 1),
        0 <= k < prs.len(),
    ensures
        github::purge_repo_turn(repo, replies.take(k + 1)) matches Turn::Ask(wish)
            && github::close_pr_turn(repo, prs[k], Seq::empty()) == Turn::<
            Result<(), Seq<char>>,
        >::Ask(wish),
        command::succeeded(replies[k + 1]),
{
    let _ = lemma_purge(repo, replies);
    let early = replies.take(k + 1);
    assert(early.skip(1) =~= replies.skip(1).take(k));
    assert(command::succeeded(replies.skip(1)[k]));
    assert forall|i: int| 0 <= i < k implies command::succeeded(#[trigger] early.skip(1)[i]) by {
        assert(command::succeeded(replies.skip(1)[i]));
    }
    lemma_closing_asks(repo, prs, early.skip(1), k);
}

/// A purge that succeeds has asked for every remote branch that starts with
/// "SLAM" to be deleted.
pub proof fn law_purge_deletes_every_branch(
    repo: Seq<char>,
    replies: Seq<Reply>,
    prs: Seq<u64>,
    branches: Seq<Seq<char>>,
    k: int,
)
    requires
        github::purge_repo_turn(repo, replies) matches Turn::Done(Ok(_), _),
        found_for_purge(repo, replies, prs, branches),
        0 <= k < branches.len(),
    ensures
        github::purge_repo_turn(repo, replies.take(2 + prs.len() + k)) matches Turn::Ask(wish)
            && github::delete_remote_branch_gh_turn(repo, branches[k], Seq::empty()) == Turn::<
            Result<(), Seq<char>>,
        >::Ask(wish),
{
    let _ = lemma_purge(repo, replies);
    let n = prs.len() as int;
    let early = replies.take(2 + n + k);
    let left1 = early.skip(1);
    assert forall|i: int| 0 <= i < n implies command::succeeded(#[trigger] left1[i]) by {
        assert(command::succeeded(replies.skip(1)[i]));
    }
    lemma_closing_succeeds(repo, prs, left1);
    let left2 = left1.skip(n);
    assert(left2[0] == replies.skip(1 + n)[0]);
    let left3 = left2.skip(1);
    assert forall|i: int| 0 <= i < k implies (#[trigger] left3[i]) is Ok by {
        assert(replies.skip(2 + n)[i] is Ok);
    }
    lemma_deleting_asks(repo, branches, left3, k);
}

// ---------------------------------------------------------------------------
// Approving
// ---------------------------------------------------------------------------

/// A pull request that is a draft, that cannot be merged or that, without an
/// override, has not passed its checks is neither approved nor merged: the review
/// ends with the reason.
pub proof fn law_unready_pull_requests_are_left_alone(
    repo: RepoFacts,
    admin_override: bool,
    replies: Seq<Reply>,
    status: PrStatus,
)
    requires
        github::get_pr_status_turn(repo.reposlug, repo.pr_number, replies) == Turn::Done(
            Ok::<PrStatus, Seq<char>>(status),
            1,
        ),
        status.draft || !status.mergeable || (!status.checked && !admin_override),
    ensures
        review::approve_turn(repo, admin_override, replies) matches Turn::Done(Err(words), n)
            && n == 1 && review::objection(repo, status, admin_override) == Some(words),
{
}

/// With an override, checks that have not passed make no difference: the review
/// goes as it would had they passed.
pub proof fn law_override_gets_past_checks(repo: RepoFacts, status: PrStatus)
    ensures
        review::objection(repo, status, true) == review::objection(
            repo,
            PrStatus { checked: true, ..status },
            true,
        ),
        !status.draft && status.mergeable ==> review::objection(repo, status, true) is None,
{
}

/// Whether GitHub says that a pull request is merged.
pub open spec fn confirms_merge(reply: Reply) -> bool {
    match github::document_said(reply, Seq::empty()) {
        Ok(d) => github::is_merged(d),
        Err(_) => false,
    }
}

/// A pull request counts as approved and merged only where it was ready and where
/// GitHub has confirmed the merge with the last answer.
pub proof fn law_approved_means_merged(
    repo: RepoFacts,
    admin_override: bool,
    replies: Seq<Reply>,
    words: Seq<char>,
    n: nat,
)
    requires
        review::approve_turn(repo, admin_override, replies) == Turn::Done(
            Ok::<Seq<char>, Seq<char>>(words),
            n,
        ),
    ensures
        words == review::merged_words(repo),
        github::get_pr_status_turn(repo.reposlug, repo.pr_number, replies) matches Turn::Done(
            Ok(status),
            _,
        ) && !status.draft && status.mergeable && (status.checked || admin_override) && n == (
        if status.reviewed {
            3nat
        } else {
            4
        }),
        n <= replies.len(),
        confirms_merge(replies[n - 1]),
{
}

// ---------------------------------------------------------------------------
// What a review asks of GitHub
// ---------------------------------------------------------------------------

/// A pull request that is to be closed along with its branch.
pub open spec fn closing(slug: Seq<char>, number: u64) -> Wish {
    requests::run_here(
        "gh"@,
        seq![
            "pr"@, "close"@, numbers::decimal(number as nat), "--repo"@, slug, "--delete-branch"@,
            "--comment"@, "Closing old PR in favor of new changes"@,
        ],
    )
}

/// A branch of a repository on GitHub that is to be deleted.
pub open spec fn deleting(slug: Seq<char>, branch: Seq<char>) -> Wish {
    requests::run_here(
        "gh"@,
        seq!["api"@, "-X"@, "DELETE"@, "repos/"@ + slug + "/git/refs/heads/"@ + branch],
    )
}

/// A pull request that is to be approved.
pub open spec fn approving(slug: Seq<char>, number: u64) -> Wish {
    requests::run_here(
        "gh"@,
        seq![
            "pr"@, "review"@, numbers::decimal(number as nat), "--approve"@, "--repo"@, slug,
        ],
    )
}

/// A pull request that is to be merged, with the rights of an administrator or
/// without them.
pub open spec fn merging(slug: Seq<char>, number: u64, admin: bool) -> Wish {
    let n = numbers::decimal(number as nat);
    requests::run_here(
        "gh"@,
        if admin {
            seq![
                "pr"@, "merge"@, n, "--admin"@, "--squash"@, "--delete-branch"@, "--repo"@, slug,
            ]
        } else {
            seq!["pr"@, "merge"@, n, "--squash"@, "--delete-branch"@, "--repo"@, slug]
        },
    )
}

/// The fields of a pull request that are to be told.
pub open spec fn viewing(slug: Seq<char>, number: u64, fields: Seq<char>) -> Wish {
    requests::run_here(
        "gh"@,
        seq![
            "pr"@, "view"@, numbers::decimal(number as nat), "--repo"@, slug, "--json"@, fields,
        ],
    )
}

/// A deletion closes the pull request of its repository, if there is one, and then,
/// once that went well, asks for the branch of the change to be deleted in that
/// repository. It fails where the pull request cannot be closed, and tells of both
/// where all was carried out.
pub proof fn law_deletion_closes_and_deletes(
    repo: RepoFacts,
    change_id: String,
    cwd: ContentFacts,
    replies: Seq<Reply>,
)
    ensures
        ({
            let turn = review::review_turn(repo, ReviewAction::Delete { change_id }, cwd, replies);
            let slug = repo.reposlug;
            let deleted = "Deleted remote branch '"@ + repo.change_id + "' for repo '"@ + slug
                + "'"@;
            let closed = "Closed PR #"@ + numbers::decimal(repo.pr_number as nat)
                + " for repo '"@ + slug + "'"@;
            if repo.pr_number != 0 {
                &&& replies.len() == 0 ==> requests::asks(turn, closing(slug, repo.pr_number))
                &&& replies.len() >= 1 && !requests::went_well(replies[0]) ==> requests::fails(turn)
                &&& replies.len() == 1 && requests::went_well(replies[0]) ==> requests::asks(
                    turn,
                    deleting(slug, repo.change_id),
                )
                &&& replies.len() >= 2 && requests::went_well(replies[0]) && replies[1] is Ok
                    ==> requests::comes_to(turn, closed + "\n"@ + deleted)
                &&& replies.len() >= 2 && replies[1] is Err ==> requests::fails(turn)
            } else {
                &&& replies.len() == 0 ==> requests::asks(turn, deleting(slug, repo.change_id))
                &&& replies.len() >= 1 && replies[0] is Ok ==> requests::comes_to(
                    turn,
                    "No open PR found for repo '"@ + slug + "'"@ + "\n"@ + deleted,
                )
                &&& replies.len() >= 1 && replies[0] is Err ==> requests::fails(turn)
            }
        }),
{
    if replies.len() == 1 {
        assert(replies.skip(1) =~= Seq::empty());
    }
    assert(replies.skip(0) =~= replies);
}

/// Whether GitHub says of a pull request that it is a draft.
pub open spec fn says_draft(d: Document) -> bool {
    json::at(d, "isDraft"@) == Document::Bool(true)
}

/// Whether GitHub says of a pull request that it can be merged.
pub open spec fn says_mergeable(d: Document) -> bool {
    json::at(d, "mergeable"@) == Document::Text("MERGEABLE"@)
}

/// Whether GitHub says of a pull request that it has been approved.
pub open spec fn says_approved(d: Document) -> bool {
    json::at(d, "reviewDecision"@) == Document::Text("APPROVED"@)
}

/// Whether a check has a conclusion, and that is neither a success nor that it was
/// skipped.
pub open spec fn is_in_the_way(check: Document) -> bool {
    json::at(check, "conclusion"@) matches Document::Text(c) && c != "SUCCESS"@ && c
        != "SKIPPED"@
}

/// Whether GitHub names a check of a pull request that is in the way.
pub open spec fn says_unchecked(d: Document) -> bool {
    json::at(d, "statusCheckRollup"@) matches Document::List(checks) && exists|i: int|
        0 <= i < checks.len() && is_in_the_way(#[trigger] checks[i])
}

/// Whether an answer is a document.
pub open spec fn tells(reply: Reply, d: Document) -> bool {
    &&& requests::went_well(reply)
    &&& reply matches Ok(out) && json::json_in(out.stdout@) == Ok::<Document, Seq<char>>(d)
}

proof fn lemma_status(d: Document)
    ensures
        github::status_in(d).draft == says_draft(d),
        github::status_in(d).mergeable == says_mergeable(d),
        github::status_in(d).reviewed == says_approved(d),
        github::status_in(d).checked == !says_unchecked(d),
{
    match json::at(d, "statusCheckRollup"@) {
        Document::List(checks) => {
            assert forall|i: int| 0 <= i < checks.len() implies github::check_passed(
                #[trigger] checks[i],
            ) == !is_in_the_way(checks[i]) by {}
            if github::checks_passed(checks) {
                assert(forall|i: int|
                    0 <= i < checks.len() ==> !is_in_the_way(#[trigger] checks[i]));
            } else {
                let i = choose|i: int|
                    0 <= i < checks.len() && !github::check_passed(#[trigger] checks[i]);
                assert(is_in_the_way(checks[i]));
            }
        },
        _ => {},
    }
}

/// Whether GitHub says of a pull request something that keeps it from being
/// approved. An override gets past its checks, and past nothing else.
pub open spec fn says_unready(d: Document, admin_override: bool) -> bool {
    says_draft(d) || !says_mergeable(d) || (says_unchecked(d) && !admin_override)
}

/// A pull request is asked about first. One that is a draft, that cannot be merged
/// or that has, without an override, a check with another conclusion than that it
/// succeeded or was skipped, is neither approved nor merged: whatever else is
/// answered, the review ends there, with the reason. So does one of a pull request
/// of which nothing could be learned.
pub proof fn law_checks_come_before_the_merge(
    repo: RepoFacts,
    change_id: String,
    admin_override: bool,
    cwd: ContentFacts,
    replies: Seq<Reply>,
    d: Document,
)
    ensures
        ({
            let turn = review::review_turn(
                repo,
                ReviewAction::Approve { change_id, admin_override },
                cwd,
                replies,
            );
            let start = "PR "@ + numbers::decimal(repo.pr_number as nat) + " in repo '"@
                + repo.reposlug;
            &&& replies.len() == 0 ==> requests::asks(
                turn,
                viewing(
                    repo.reposlug,
                    repo.pr_number,
                    "isDraft,mergeable,reviewDecision,statusCheckRollup"@,
                ),
            )
            &&& replies.len() > 0 && !requests::went_well(replies[0]) ==> requests::fails(turn)
            &&& replies.len() > 0 && tells(replies[0], d) && says_unready(d, admin_override)
                ==> requests::fails_with(
                turn,
                start + (if says_draft(d) {
                    "' is a draft and cannot be approved."@
                } else if !says_mergeable(d) {
                    "' is not mergeable; a rebase is required."@
                } else {
                    "' has not passed all status checks."@
                }),
                1,
            )
        }),
{
    lemma_status(d);
}

/// A pull request that is ready is approved, unless it has been, and then merged,
/// with the rights of an administrator where there is an override, and only there.
pub proof fn law_ready_pull_requests_are_merged(
    repo: RepoFacts,
    change_id: String,
    admin_override: bool,
    cwd: ContentFacts,
    replies: Seq<Reply>,
    d: Document,
)
    requires
        replies.len() > 0,
        tells(replies[0], d),
        !says_unready(d, admin_override),
    ensures
        ({
            let turn = review::review_turn(
                repo,
                ReviewAction::Approve { change_id, admin_override },
                cwd,
                replies,
            );
            let merge = merging(repo.reposlug, repo.pr_number, admin_override);
            if says_approved(d) {
                replies.len() == 1 ==> requests::asks(turn, merge)
            } else {
                &&& replies.len() == 1 ==> requests::asks(
                    turn,
                    approving(repo.reposlug, repo.pr_number),
                )
                &&& replies.len() == 2 && replies[1] is Ok ==> requests::asks(turn, merge)
                &&& replies.len() >= 2 && replies[1] is Err ==> requests::fails(turn)
            }
        }),
{
    lemma_status(d);
    let left = replies.skip(1);
    assert(left.skip(0) =~= left);
    if replies.len() == 1 {
        assert(left =~= Seq::empty());
    } else if replies.len() == 2 {
        assert(left.skip(1) =~= Seq::empty());
    }
    let n = numbers::decimal(repo.pr_number as nat);
    assert(seq!["pr"@, "merge"@, n, "--admin"@] + seq![
        "--squash"@,
        "--delete-branch"@,
        "--repo"@,
        repo.reposlug,
    ] =~= seq![
        "pr"@, "merge"@, n, "--admin"@, "--squash"@, "--delete-branch"@, "--repo"@, repo.reposlug,
    ]);
    assert(seq!["pr"@, "merge"@, n] + seq![
        "--squash"@,
        "--delete-branch"@,
        "--repo"@,
        repo.reposlug,
    ] =~= seq![
        "pr"@, "merge"@, n, "--squash"@, "--delete-branch"@, "--repo"@, repo.reposlug,
    ]);
}

/// Whether GitHub says of a pull request that it has been merged.
pub open spec fn says_merged(d: Document) -> bool {
    json::at(d, "state"@) == Document::Text("MERGED"@) || json::at(d, "mergedAt"@)
        != Document::Null
}

/// A review that approves succeeds only where GitHub, asked for the state of the
/// pull request last, says that it is merged; before that came the request to merge
/// it, and what it wrote did not call for a review. It tells of that pull request.
pub proof fn law_approval_succeeds_only_with_a_merge(
    repo: RepoFacts,
    change_id: String,
    admin_override: bool,
    cwd: ContentFacts,
    replies: Seq<Reply>,
    words: Seq<char>,
    n: nat,
)
    requires
        review::review_turn(
            repo,
            ReviewAction::Approve { change_id, admin_override },
            cwd,
            replies,
        ) == Turn::Done(Ok::<Seq<char>, Seq<char>>(words), n),
    ensures
        3 <= n <= replies.len(),
        exists|d: Document| #[trigger]
            tells(replies[0], d) && !says_unready(d, admin_override),
        exists|d: Document| #[trigger] tells(replies[n - 1], d) && says_merged(d),
        requests::asks(
            review::review_turn(
                repo,
                ReviewAction::Approve { change_id, admin_override },
                cwd,
                replies.take(n - 2),
            ),
            merging(repo.reposlug, repo.pr_number, admin_override),
        ),
        replies[n - 2] is Ok,
        !text::holds(
            github::lowercase(
                command::said(replies[n - 2]) + command::complained(replies[n - 2]),
            ),
            "review required"@,
        ),
        requests::asks(
            review::review_turn(
                repo,
                ReviewAction::Approve { change_id, admin_override },
                cwd,
                replies.take(n - 1),
            ),
            viewing(repo.reposlug, repo.pr_number, "state,mergedAt"@),
        ),
        words == "Repo: "@ + repo.reposlug + " -> Approved and merged PR: "@ + repo.change_id
            + " (# "@ + numbers::decimal(repo.pr_number as nat) + ")"@,
{
    let d = match replies[0] {
        Ok(out) => json::json_in(out.stdout@)->Ok_0,
        Err(_) => Document::Null,
    };
    lemma_status(d);
    assert(tells(replies[0], d));
    let left = replies.skip(1);
    assert(left.skip(0) =~= left);
    let left2 = if says_approved(d) {
        left
    } else {
        left.skip(1)
    };
    let e = match left2[1] {
        Ok(out) => json::json_in(out.stdout@)->Ok_0,
        Err(_) => Document::Null,
    };
    assert(left2.skip(1)[0] == left2[1]);
    assert(left2[1] == replies[n - 1]);
    assert(left2[0] == replies[n - 2]);
    assert(tells(replies[n - 1], e) && says_merged(e));
    let before = replies.take(n - 2);
    law_ready_pull_requests_are_merged(repo, change_id, admin_override, cwd, before, d);
    let last = replies.take(n - 1);
    assert(last[0] == replies[0]);
    let l1 = last.skip(1);
    assert(l1.skip(0) =~= l1);
    let l2 = if says_approved(d) {
        l1
    } else {
        l1.skip(1)
    };
    assert(l2.len() == 1 && l2[0] == left2[0]);
    assert(l2.skip(1) =~= Seq::empty());
}

/// Whether numbers are those of the pull requests that an answer lists: a list of
/// numbers, or one of documents with a number each.
pub open spec fn lists_numbers(reply: Reply, prs: Seq<u64>) -> bool {
    &&& requests::went_well(reply)
    &&& reply matches Ok(out) && match json::numbers_in(out.stdout@) {
        Ok(numbers) => prs == numbers,
        Err(_) => json::json_in(out.stdout@) matches Ok(Document::List(documents))
            && documents.len() == prs.len() && forall|i: int|
            0 <= i < prs.len() ==> json::at(#[trigger] documents[i], "number"@)
                == Document::Number(Some(prs[i])),
    }
}

proof fn lemma_numbers_of(documents: Seq<Document>)
    ensures
        github::numbers_of(documents) matches Some(prs) ==> prs.len() == documents.len() && (
        forall|i: int|
            0 <= i < prs.len() ==> json::at(#[trigger] documents[i], "number"@)
                == Document::Number(Some(prs[i]))),
    decreases documents.len(),
{
    if documents.len() > 0 {
        let front = documents.drop_last();
        lemma_numbers_of(front);
        match github::numbers_of(documents) {
            Some(prs) => {
                let before = github::numbers_of(front).unwrap();
                assert forall|i: int| 0 <= i < prs.len() implies json::at(
                    #[trigger] documents[i],
                    "number"@,
                ) == Document::Number(Some(prs[i])) by {
                    if i < before.len() {
                        assert(front[i] == documents[i]);
                    } else {
                        assert(documents[i] == documents.last());
                    }
                }
            },
            None => {},
        }
    }
}

/// Whether a branch is named by a line, apart from white space and quotes around
/// it, and starts with "SLAM".
pub open spec fn names_slam_branch(line: Seq<char>, branch: Seq<char>) -> bool {
    &&& branch == text::trim_char(text::trim(line), '"')
    &&& branch.len() >= 4 && branch[0] == 'S' && branch[1] == 'L' && branch[2] == 'A' && branch[3]
        == 'M'
}

pub proof fn lemma_slam(s: Seq<char>)
    ensures
        text::begins_with(s, "SLAM"@) <==> s.len() >= 4 && s[0] == 'S' && s[1] == 'L' && s[2]
            == 'A' && s[3] == 'M',
{
    reveal_strlit("SLAM");
    if s.len() >= 4 {
        let p = s.subrange(0, 4);
        assert(p[0] == s[0] && p[1] == s[1] && p[2] == s[2] && p[3] == s[3]);
        if s[0] == 'S' && s[1] == 'L' && s[2] == 'A' && s[3] == 'M' {
            assert(p =~= "SLAM"@);
        }
    }
}

/// What a purge does after so many of these answers.
pub open spec fn purging(repo: RepoFacts, cwd: ContentFacts, replies: Seq<Reply>, n: int) -> Turn<
    Result<Seq<char>, Seq<char>>,
> {
    review::review_turn(repo, ReviewAction::Purge {  }, cwd, replies.take(n))
}

/// Whether a purge asks, after so many answers, for this pull request to be closed,
/// and that went well.
pub open spec fn closes_at(
    repo: RepoFacts,
    cwd: ContentFacts,
    replies: Seq<Reply>,
    n: int,
    pr: u64,
) -> bool {
    requests::asks(purging(repo, cwd, replies, n), closing(repo.reposlug, pr))
        && requests::went_well(replies[n])
}

/// Whether a purge asks, after so many answers, for this branch to be deleted, and
/// that was carried out.
pub open spec fn deletes_at(
    repo: RepoFacts,
    cwd: ContentFacts,
    replies: Seq<Reply>,
    n: int,
    branch: Seq<char>,
) -> bool {
    requests::asks(purging(repo, cwd, replies, n), deleting(repo.reposlug, branch))
        && replies[n] is Ok
}

/// Whether branches are those that an answer names and that start with "SLAM".
pub open spec fn names_branches(reply: Reply, branches: Seq<Seq<char>>) -> bool {
    let lines = text::lines(command::said(reply));
    &&& requests::went_well(reply)
    &&& forall|branch: Seq<char>| #[trigger]
        branches.contains(branch) <==> exists|i: int|
            0 <= i < lines.len() && names_slam_branch(#[trigger] lines[i], branch)
}

proof fn lemma_lists_numbers(repo: Seq<char>, replies: Seq<Reply>, prs: Seq<u64>)
    requires
        replies.len() > 0,
        github::open_prs_turn(repo, replies) == Turn::Done(Ok::<Seq<u64>, Seq<char>>(prs), 1),
    ensures
        lists_numbers(replies[0], prs),
{
    match replies[0] {
        Ok(out) => match json::json_in(out.stdout@) {
            Ok(Document::List(documents)) => lemma_numbers_of(documents),
            _ => {},
        },
        Err(_) => {},
    }
}

proof fn lemma_names_branches(answer: Reply, branches: Seq<Seq<char>>)
    requires
        requests::went_well(answer),
        branches == github::remote_branches(command::said(answer), "SLAM"@),
    ensures
        names_branches(answer, branches),
{
    let lines = text::lines(command::said(answer));
    let pick = |line: Seq<char>| github::remote_branch(line, "SLAM"@);
    assert(branches == lines.filter_map(pick));
    assert forall|branch: Seq<char>| #[trigger] branches.contains(branch) <==> exists|i: int|
        0 <= i < lines.len() && names_slam_branch(#[trigger] lines[i], branch) by {
        if branches.contains(branch) {
            requests::lemma_left_from(lines, pick, branch);
            let i = choose|i: int|
                0 <= i < lines.len() && pick(#[trigger] lines[i]) == Some(branch);
            lemma_slam(branch);
            assert(names_slam_branch(lines[i], branch));
        }
        if exists|i: int| 0 <= i < lines.len() && names_slam_branch(#[trigger] lines[i], branch) {
            let i = choose|i: int|
                0 <= i < lines.len() && names_slam_branch(#[trigger] lines[i], branch);
            lemma_slam(branch);
            requests::lemma_left_has(lines, pick, i);
        }
    }
}

/// A purge asks for the open pull requests of the repository, then for each of those
/// that are listed to be closed, then for the branches of the repository, and then
/// for each of those that start with "SLAM" to be deleted. Where it succeeds it has
/// asked for all of that.
#[verifier::spinoff_prover]
pub proof fn law_purge_clears_the_repository(
    repo: RepoFacts,
    cwd: ContentFacts,
    replies: Seq<Reply>,
    words: Seq<char>,
    n: nat,
) -> (found: (Seq<u64>, Seq<Seq<char>>))
    requires
        review::review_turn(repo, ReviewAction::Purge {  }, cwd, replies) == Turn::Done(
            Ok::<Seq<char>, Seq<char>>(words),
            n,
        ),
    ensures
        ({
            let slug = repo.reposlug;
            let (prs, branches) = found;
            let p = prs.len() as int;
            &&& n == 2 + prs.len() + branches.len() <= replies.len()
            &&& requests::asks(
                purging(repo, cwd, replies, 0),
                requests::run_here(
                    "gh"@,
                    seq![
                        "pr"@, "list"@, "--repo"@, slug, "--state"@, "open"@, "--json"@,
                        "number"@, "--limit"@, "1000"@,
                    ],
                ),
            )
            &&& lists_numbers(replies[0], prs)
            &&& forall|k: int|
                0 <= k < p ==> closes_at(repo, cwd, replies, k + 1, #[trigger] prs[k])
            &&& requests::asks(
                purging(repo, cwd, replies, 1 + p),
                requests::run_here(
                    "gh"@,
                    seq![
                        "api"@, "repos/"@ + slug + "/branches"@, "--paginate"@, "--jq"@,
                        ".[] | .name"@,
                    ],
                ),
            )
            &&& names_branches(replies[1 + p], branches)
            &&& forall|k: int|
                0 <= k < branches.len() ==> deletes_at(
                    repo,
                    cwd,
                    replies,
                    2 + p + k,
                    #[trigger] branches[k],
                )
        }),
{
    let slug = repo.reposlug;
    let found = lemma_purge(slug, replies);
    let (prs, branches) = found;
    let p = prs.len() as int;
    let b = branches.len() as int;
    assert(replies.skip(2 + p).len() == replies.len() - 2 - p);
    assert(replies.take(0) =~= Seq::empty());
    lemma_lists_numbers(slug, replies, prs);
    assert forall|k: int| 0 <= k < p implies closes_at(
        repo,
        cwd,
        replies,
        k + 1,
        #[trigger] prs[k],
    ) by {
        law_purge_closes_every_pull_request(slug, replies, prs, k);
    }
    let early = replies.take(1 + p);
    let left1 = early.skip(1);
    assert forall|i: int| 0 <= i < p implies command::succeeded(#[trigger] left1[i]) by {
        assert(command::succeeded(replies.skip(1)[i]));
    }
    lemma_closing_succeeds(slug, prs, left1);
    assert(left1.skip(p) =~= Seq::empty());
    assert(early[0] == replies[0]);
    let answer = replies[1 + p];
    assert(replies.skip(1 + p)[0] == answer);
    lemma_names_branches(answer, branches);
    assert forall|k: int| 0 <= k < b implies deletes_at(
        repo,
        cwd,
        replies,
        2 + p + k,
        #[trigger] branches[k],
    ) by {
        law_purge_deletes_every_branch(slug, replies, prs, branches, k);
        assert(replies.skip(2 + p)[k] is Ok);
    }
    found
}

// ---------------------------------------------------------------------------
// Cloning and listing
// ---------------------------------------------------------------------------

/// The address of a repository.
pub open spec fn address(slug: Seq<char>) -> Seq<char> {
    "git@github.com:"@ + slug + ".git"@
}

/// A run of `git` in a directory, whose output is left alone.
pub open spec fn quiet_git_in(dir: Seq<char>, args: Seq<Seq<char>>) -> Wish {
    Wish::Run(Call { program: "git"@, dir: Some(dir), ssh_command: None, args, captured: false })
}

/// A clone that is to be made of a repository in a directory, by an ssh command.
pub open spec fn cloning(slug: Seq<char>, target: Seq<char>, ssh: Seq<char>) -> Wish {
    Wish::Run(
        Call {
            program: "git"@,
            dir: None,
            ssh_command: Some(ssh),
            args: seq!["clone"@, "--quiet"@, address(slug), target],
            captured: false,
        },
    )
}

/// A clone is looked for below the current directory, under the slug of its
/// repository. Where it is not there it is made there, of that repository, with the
/// ssh command that git is configured to use, or with plain ssh. Where it is there
/// but of another repository it is pointed at that one.
pub proof fn law_clones_are_made_below_the_directory(
    repo: RepoFacts,
    change_id: String,
    all: bool,
    cwd: Seq<char>,
    replies: Seq<Reply>,
)
    ensures
        ({
            let turn = review::review_turn(
                repo,
                ReviewAction::Clone { change_id, all },
                Ok(cwd),
                replies,
            );
            let target = paths::join(cwd, repo.reposlug);
            &&& replies.len() == 0 ==> requests::asks(turn, Wish::Look(target))
            &&& replies.len() == 1 && !requests::went_well(replies[0]) ==> requests::asks(
                turn,
                requests::run_here("git"@, seq!["config"@, "--get"@, "core.sshCommand"@]),
            )
            &&& replies.len() == 2 && !requests::went_well(replies[0]) && replies[1] is Ok
                ==> requests::asks(
                turn,
                cloning(
                    repo.reposlug,
                    target,
                    if requests::went_well(replies[1]) {
                        text::trim(command::said(replies[1]))
                    } else {
                        "ssh"@
                    },
                ),
            )
            &&& replies.len() >= 3 && !requests::went_well(replies[0]) && !requests::went_well(
                replies[2],
            ) ==> requests::fails(turn)
            &&& replies.len() == 1 && requests::went_well(replies[0]) ==> requests::asks(
                turn,
                requests::run_in(
                    target,
                    "git"@,
                    seq!["config"@, "--get"@, "remote.origin.url"@],
                ),
            )
            &&& replies.len() == 2 && requests::went_well(replies[0]) && replies[1] is Ok
                && text::trim(command::said(replies[1])) != address(repo.reposlug)
                ==> requests::asks(
                turn,
                requests::run_in(
                    target,
                    "git"@,
                    seq!["remote"@, "set-url"@, "origin"@, address(repo.reposlug)],
                ),
            )
        }),
{
    let left = replies.skip(1);
    if replies.len() == 1 {
        assert(left =~= Seq::empty());
    } else if replies.len() == 2 {
        assert(left.skip(1) =~= Seq::empty());
    }
}

/// A clone that succeeds has fetched from the remote, in the clone below the current
/// directory, and then checked out the branch of the change there, and both went
/// well. It tells of that.
pub proof fn law_clones_end_at_the_change(
    repo: RepoFacts,
    change_id: String,
    all: bool,
    cwd: Seq<char>,
    replies: Seq<Reply>,
    words: Seq<char>,
    n: nat,
)
    requires
        review::review_turn(repo, ReviewAction::Clone { change_id, all }, Ok(cwd), replies)
            == Turn::Done(Ok::<Seq<char>, Seq<char>>(words), n),
    ensures
        4 <= n <= replies.len(),
        ({
            let target = paths::join(cwd, repo.reposlug);
            let turn = |k: int| review::review_turn(
                repo,
                ReviewAction::Clone { change_id, all },
                Ok(cwd),
                replies.take(k),
            );
            &&& requests::asks(
                turn(n - 2),
                quiet_git_in(target, seq!["fetch"@, "origin"@, "--quiet"@]),
            )
            &&& requests::went_well(replies[n - 2])
            &&& requests::asks(
                turn(n - 1),
                requests::run_in(
                    target,
                    "git"@,
                    seq!["checkout"@, "-B"@, repo.change_id, "--quiet"@],
                ),
            )
            &&& requests::went_well(replies[n - 1])
            &&& words == "ensure clone "@ + repo.reposlug + " -> "@ + (match paths::relative(
                target,
                cwd,
            ) {
                Some(rest) => rest,
                None => target,
            }) + " and checkout to "@ + repo.change_id
        }),
{
    let target = paths::join(cwd, repo.reposlug);
    let left = replies.skip(1);
    let ready = if requests::went_well(replies[0]) {
        git::set_origin_turn(repo.reposlug, target, left)
    } else {
        git::clone_repo_turn(repo.reposlug, target, left)
    };
    let m = ready->Done_1 as int;
    let left2 = left.skip(m);
    assert(left.skip(1).len() == left.len() - 1);
    assert(n == 1 + m + 2);
    assert(left2.skip(1)[0] == left2[1]);
    assert(left2[0] == replies[n - 2]);
    assert(left2[1] == replies[n - 1]);
    let a = replies.take(n - 2);
    let la = a.skip(1);
    assert(la[0] == left[0]);
    assert(a[0] == replies[0]);
    if m == 2 {
        assert(la.skip(1)[0] == left.skip(1)[0]);
    }
    assert(la.skip(m) =~= Seq::empty());
    let b = replies.take(n - 1);
    let lb = b.skip(1);
    assert(lb[0] == left[0]);
    if m == 2 {
        assert(lb.skip(1)[0] == left.skip(1)[0]);
    }
    assert(lb.skip(m).len() == 1 && lb.skip(m)[0] == left2[0]);
    assert(lb.skip(m).skip(1) =~= Seq::empty());
}

/// A listing asks for the patch of the pull request of its repository. Its summary
/// names both and asks for nothing.
pub proof fn law_listings_ask_for_the_patch(repo: RepoFacts, reply: Reply)
    ensures
        requests::asks(
            github::get_pr_diff_turn(repo.reposlug, repo.pr_number, Seq::empty()),
            requests::run_here(
                "gh"@,
                seq![
                    "pr"@, "diff"@, numbers::decimal(repo.pr_number as nat), "-R"@, repo.reposlug,
                    "--patch"@,
                ],
            ),
        ),
        github::get_pr_diff_turn(repo.reposlug, repo.pr_number, seq![reply]) matches Turn::Done(
            fetched,
            _,
        ) && (fetched is Ok <==> requests::went_well(reply)) && (fetched matches Ok(patch)
            ==> patch == text::trim(command::said(reply))),
        review::caption(repo) == repo.reposlug + " (# "@ + numbers::decimal(
            repo.pr_number as nat,
        ) + ")"@,
{
}

/// The report on a patch has a section for each of its files, in their order, under
/// the caption of the pull request. One of which nothing is left is marked as
/// deleted, every other one as modified, and what is shown is the difference
/// between its two texts.
pub proof fn law_listings_show_every_file(
    files: Seq<crate::diff::Rebuilt>,
    buffer: usize,
    i: int,
)
    requires
        0 <= i < files.len(),
    ensures
        ({
            let sections = review::patch_sections(files, buffer);
            let gone = text::is_blank(files[i].2);
            &&& sections.len() == files.len()
            &&& sections[i].file == files[i].0
            &&& sections[i].mark == (if gone {
                "D"@
            } else {
                "M"@
            })
            &&& sections[i].body == crate::report::Body::Lines(
                crate::diff::diff_lines(
                    files[i].1,
                    if gone {
                        ""@
                    } else {
                        files[i].2
                    },
                    buffer,
                ),
            )
        }),
{
}

/// The report on a patch has the caption on its first line, then the sections, and an
/// empty line behind them if there are any. Where the patch could not be fetched the
/// reason stands below the caption.
pub proof fn law_listings_are_captioned(
    repo: RepoFacts,
    shown: Seq<char>,
    files: nat,
    out: Seq<char>,
    e: Seq<char>,
    buffer: usize,
)
    ensures
        review::captioned(repo, shown, 0) == review::caption(repo).push('\n') + shown,
        files > 0 ==> review::captioned(repo, shown, files) == review::caption(repo).push('\n')
            + shown.push('\n'),
        review::is_review(out, repo, Err(e), buffer) <==> out == review::caption(repo).push('\n')
            + "  (Could not fetch PR diff: "@ + e + ")\n"@,
{
    reveal_strlit("\n");
    reveal_strlit("");
    let caption = review::caption(repo);
    assert(caption + "\n"@ =~= caption.push('\n'));
    assert(caption + "\n"@ + shown + ""@ =~= caption.push('\n') + shown);
    assert(caption + "\n"@ + shown + "\n"@ =~= caption.push('\n') + shown.push('\n'));
    let start = "  (Could not fetch PR diff: "@;
    assert(caption + "\n"@ + (start + e + ")\n"@) =~= caption.push('\n') + start + e + ")\n"@);
}

} // verus!
