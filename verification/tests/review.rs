use slam::cli::ReviewAction;
use slam::command::{Output, Reply, Request, Step};
use slam::github::PrStatus;
use slam::repo::Repo;
use slam::review::objection_to;

fn ok(stdout: &str) -> Reply {
    Ok(Output { code: Some(0), stdout: stdout.as_bytes().to_vec(), stderr: vec![] })
}

fn failed(stderr: &str) -> Reply {
    Ok(Output { code: Some(1), stdout: vec![], stderr: stderr.as_bytes().to_vec() })
}

fn example(pr_number: u64) -> Repo {
    Repo {
        reposlug: "test-org/test-repo".to_string(),
        change_id: "SLAM-test".to_string(),
        change: None,
        files: vec![],
        pr_number,
    }
}

fn here() -> Result<String, String> {
    Ok("/w".to_string())
}

fn args_of<T>(step: Step<T>) -> Vec<String> {
    match step {
        Step::Ask(Request::Run(i)) => i.args,
        _ => panic!("no run of a program"),
    }
}

fn result_of<T>(step: Step<T>) -> T {
    match step {
        Step::Done(t, _) => t,
        Step::Ask(_) => panic!("no result yet"),
    }
}

const PATCH: &str = "diff --git a/f b/f\n--- a/f\n+++ b/f\n@@ -1,2 +1,2 @@\n a\n-b\n+c\n\
                     diff --git a/g b/g\n--- a/g\n+++ b/g\n@@ -1 +0,0 @@\n-gone\n";

#[test]
fn test_repo_get_review_diff_basic_format() {
    let repo = example(123);

    let diff = repo.get_review_diff(1, &Err("no network".to_string()));
    assert!(diff.contains("test-org/test-repo (# 123)"));
    assert_eq!(
        diff,
        "test-org/test-repo (# 123)\n  (Could not fetch PR diff: no network)\n"
    );
}

#[test]
fn a_review_shows_each_file_of_the_patch() {
    colored::control::set_override(false);
    assert_eq!(
        example(7).get_review_diff(1, &Ok(PATCH.to_string())),
        "test-org/test-repo (# 7)\n  M f\n        1 | a\n    -   2 | b\n    +   2 | c\n  D g\n    \
         -   1 | gone\n\n"
    );
    assert_eq!(
        example(7).get_review_diff(1, &Ok(String::new())),
        "test-org/test-repo (# 7)\n"
    );
}

#[test]
fn listing_asks_for_the_patch_unless_a_summary_is_wanted() {
    colored::control::set_override(false);
    let ls = ReviewAction::Ls { change_id_ptns: vec![], buffer: 1 };
    let step = example(7).review(&ls, true, &here(), &[]);
    assert_eq!(result_of(step), Some(Ok("test-org/test-repo (# 7)".to_string())));
    let step = example(7).review(&ls, false, &here(), &[]);
    assert_eq!(args_of(step), vec!["pr", "diff", "7", "-R", "test-org/test-repo", "--patch"]);
    let step = example(7).review(&ls, false, &here(), &[failed("gone")]);
    assert_eq!(
        result_of(step),
        Some(Ok("test-org/test-repo (# 7)\n  (Could not fetch PR diff: Failed to fetch PR diff for \
                 test-org/test-repo#7: gone)\n"
            .to_string()))
    );
    let unreadable = ok("+++ b/f\n@@ -99999999999999999999999999 +1 @@\n");
    assert_eq!(result_of(example(7).review(&ls, false, &here(), &[unreadable])), None);
}

#[test]
fn cloning_goes_below_the_working_directory() {
    let clone = ReviewAction::Clone { change_id: "SLAM-test".to_string(), all: false };
    assert!(matches!(
        example(7).review(&clone, false, &here(), &[]),
        Step::Ask(Request::Look(p)) if p == "/w/test-org/test-repo"
    ));
    let url = "git@github.com:test-org/test-repo.git";
    let replies = [ok(""), ok(url), ok(""), ok("")];
    assert_eq!(
        result_of(example(7).review(&clone, false, &here(), &replies)),
        Some(Ok("ensure clone test-org/test-repo -> test-org/test-repo and checkout to SLAM-test"
            .to_string()))
    );
    let nowhere = Err("no directory".to_string());
    assert_eq!(
        result_of(example(7).review(&clone, false, &nowhere, &[])),
        Some(Err("no directory".to_string()))
    );
}

fn status(draft: bool, mergeable: bool, reviewed: bool, checked: bool) -> PrStatus {
    PrStatus { draft, mergeable, reviewed, checked }
}

#[test]
fn a_pull_request_must_be_ready_to_be_approved() {
    let repo = example(7);
    assert_eq!(
        objection_to(&repo, &status(true, false, false, false), false),
        Some("PR 7 in repo 'test-org/test-repo' is a draft and cannot be approved.".to_string())
    );
    assert_eq!(
        objection_to(&repo, &status(false, false, false, false), false),
        Some("PR 7 in repo 'test-org/test-repo' is not mergeable; a rebase is required."
            .to_string())
    );
    assert_eq!(
        objection_to(&repo, &status(false, true, false, false), false),
        Some("PR 7 in repo 'test-org/test-repo' has not passed all status checks.".to_string())
    );
    assert_eq!(objection_to(&repo, &status(false, true, false, true), false), None);
    assert_eq!(objection_to(&repo, &status(false, true, false, false), true), None);
    assert!(objection_to(&repo, &status(false, false, false, false), true).is_some());
    assert!(objection_to(&repo, &status(true, true, false, true), true).is_some());
}

#[test]
fn approving_merges_and_approves_only_once() {
    let approve =
        ReviewAction::Approve { change_id: "SLAM-test".to_string(), admin_override: false };
    let open = || {
        ok("{\"isDraft\":false,\"mergeable\":\"MERGEABLE\",\"reviewDecision\":\"\"}")
    };
    let reviewed = || {
        ok("{\"isDraft\":false,\"mergeable\":\"MERGEABLE\",\"reviewDecision\":\"APPROVED\"}")
    };
    let step = example(7).review(&approve, true, &here(), &[open()]);
    assert_eq!(args_of(step)[1], "review");
    let step = example(7).review(&approve, true, &here(), &[open(), ok("")]);
    assert_eq!(
        args_of(step),
        vec![
            "pr",
            "merge",
            "7",
            "--squash",
            "--delete-branch",
            "--repo",
            "test-org/test-repo"
        ]
    );
    let step = example(7).review(&approve, true, &here(), &[reviewed()]);
    assert_eq!(args_of(step)[1], "merge");
    let merged = ok("{\"state\":\"MERGED\",\"mergedAt\":null}");
    let step = example(7).review(&approve, true, &here(), &[reviewed(), ok(""), merged]);
    assert_eq!(
        result_of(step),
        Some(Ok("Repo: test-org/test-repo -> Approved and merged PR: SLAM-test (# 7)".to_string()))
    );
    let draft = ok("{\"isDraft\":true}");
    assert_eq!(
        result_of(example(7).review(&approve, true, &here(), &[draft])),
        Some(Err("PR 7 in repo 'test-org/test-repo' is a draft and cannot be approved."
            .to_string()))
    );
}

#[test]
fn an_override_merges_in_spite_of_failing_checks() {
    let approve = |admin_override: bool| ReviewAction::Approve {
        change_id: "SLAM-test".to_string(),
        admin_override,
    };
    let unchecked = || {
        ok("{\"isDraft\":false,\"mergeable\":\"MERGEABLE\",\"reviewDecision\":\"APPROVED\",\
            \"statusCheckRollup\":[{\"conclusion\":\"FAILURE\"}]}")
    };
    assert_eq!(
        result_of(example(7).review(&approve(false), true, &here(), &[unchecked()])),
        Some(Err("PR 7 in repo 'test-org/test-repo' has not passed all status checks."
            .to_string()))
    );
    assert_eq!(
        args_of(example(7).review(&approve(true), true, &here(), &[unchecked()])),
        vec![
            "pr",
            "merge",
            "7",
            "--admin",
            "--squash",
            "--delete-branch",
            "--repo",
            "test-org/test-repo"
        ]
    );
    let merged = ok("{\"state\":\"MERGED\",\"mergedAt\":null}");
    let step = example(7).review(&approve(true), true, &here(), &[unchecked(), ok(""), merged]);
    assert_eq!(
        result_of(step),
        Some(Ok("Repo: test-org/test-repo -> Approved and merged PR: SLAM-test (# 7)".to_string()))
    );
}

#[test]
fn deleting_closes_the_pull_request_if_there_is_one() {
    let delete = ReviewAction::Delete { change_id: "SLAM-test".to_string() };
    let step = example(7).review(&delete, true, &here(), &[]);
    assert_eq!(args_of(step)[1], "close");
    assert_eq!(
        result_of(example(7).review(&delete, true, &here(), &[ok(""), ok("")])),
        Some(Ok("Closed PR #7 for repo 'test-org/test-repo'\nDeleted remote branch 'SLAM-test' for \
                 repo 'test-org/test-repo'"
            .to_string()))
    );
    assert_eq!(
        result_of(example(0).review(&delete, true, &here(), &[ok("")])),
        Some(Ok("No open PR found for repo 'test-org/test-repo'\nDeleted remote branch 'SLAM-test' \
                 for repo 'test-org/test-repo'"
            .to_string()))
    );
}

#[test]
fn purging_joins_what_was_done() {
    let replies = [ok("[{\"number\":3}]"), ok(""), ok("SLAM-a\n"), ok("")];
    assert_eq!(
        result_of(example(0).review(&ReviewAction::Purge {}, true, &here(), &replies)),
        Some(Ok("Closed PR #3 for repo 'test-org/test-repo'\nDeleted remote branch 'SLAM-a' for \
                 repo 'test-org/test-repo'"
            .to_string()))
    );
}
