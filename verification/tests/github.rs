use slam::command::{Invocation, Output, Reply, Request, Step};
use slam::github;
use slam::github::{get_prs_for_repos, merge_run, PrStatus};
use slam::hooks;
use slam::hooks::MAX_RETRY;

fn ok(stdout: &str) -> Reply {
    Ok(Output { code: Some(0), stdout: stdout.as_bytes().to_vec(), stderr: vec![] })
}

fn failed(stderr: &str) -> Reply {
    Ok(Output { code: Some(1), stdout: vec![], stderr: stderr.as_bytes().to_vec() })
}

fn refused(words: &str) -> Reply {
    Err(words.to_string())
}

fn run_of<T>(step: Step<T>) -> Invocation {
    match step {
        Step::Ask(Request::Run(i)) => i,
        _ => panic!("no run of a program"),
    }
}

fn result_of<T>(step: Step<T>) -> T {
    match step {
        Step::Done(t, _) => t,
        Step::Ask(_) => panic!("no result yet"),
    }
}

#[test]
fn test_max_retry_constant() {
    assert_eq!(MAX_RETRY, 5);
}

#[test]
fn test_pr_status_debug() {
    let status = PrStatus {
        draft: false,
        mergeable: true,
        reviewed: true,
        checked: false,
    };

    let debug_str = format!("{:?}", status);
    assert!(debug_str.contains("draft: false"));
    assert!(debug_str.contains("mergeable: true"));
    assert!(debug_str.contains("reviewed: true"));
    assert!(debug_str.contains("checked: false"));
}

#[test]
fn test_pr_status_deserialize() {
    let status = PrStatus {
        draft: true,
        mergeable: false,
        reviewed: false,
        checked: true,
    };

    assert!(status.draft);
    assert!(!status.mergeable);
    assert!(!status.reviewed);
    assert!(status.checked);
}

#[test]
fn test_merge_pr_args_construction() {
    let pr_number = 123u64;
    let repo = "test-org/test-repo";

    // Test without admin override
    let args = merge_run(repo, pr_number, false).args;

    assert_eq!(args.len(), 7);
    assert_eq!(args[0], "pr");
    assert_eq!(args[1], "merge");
    assert_eq!(args[2], "123");
    assert_eq!(args[3], "--squash");
    assert_eq!(args[4], "--delete-branch");
    assert_eq!(args[5], "--repo");
    assert_eq!(args[6], repo);

    // Test with admin override
    let args = merge_run(repo, pr_number, true).args;
    assert_eq!(args.len(), 8);
    assert_eq!(args[3], "--admin");
}

#[test]
fn test_create_pr_body_format() {
    let commit_msg = "Test commit message";

    let args = run_of(github::create_pr("/w/r", "SLAM-x", commit_msg, &[])).args;
    let expected_body = &args[5];

    assert!(expected_body.contains(commit_msg));
    assert!(expected_body.contains("docs: https://github.com/scottidler/slam"));
    assert!(expected_body.contains("README.md"));
    assert_eq!(
        *expected_body,
        format!(
            "{}\n\ndocs: https://github.com/scottidler/slam/blob/main/README.md",
            commit_msg
        )
    );
    assert_eq!(args[3], "SLAM-x");
}

#[test]
fn test_api_endpoint_format() {
    let repo = "test-org/test-repo";
    let branch = "SLAM-test-branch";

    let args = run_of(github::delete_remote_branch_gh(repo, branch, &[])).args;
    let api_endpoint = &args[3];
    assert_eq!(*api_endpoint, "repos/test-org/test-repo/git/refs/heads/SLAM-test-branch");
}

fn status(json: &str) -> PrStatus {
    result_of(github::get_pr_status("o/r", 1, &[ok(json)])).unwrap()
}

#[test]
fn test_pr_status_json_parsing_logic() {
    // Test draft detection
    assert!(!status("{\"isDraft\":false}").draft);
    assert!(status("{\"isDraft\":true}").draft);

    // Test mergeable detection
    assert!(status("{\"mergeable\":\"MERGEABLE\"}").mergeable);
    assert!(!status("{\"mergeable\":\"CONFLICTING\"}").mergeable);

    // Test review decision
    assert!(status("{\"reviewDecision\":\"APPROVED\"}").reviewed);
    assert!(!status("{\"reviewDecision\":\"REVIEW_REQUIRED\"}").reviewed);

    // Test status check conclusions
    assert!(status("{\"statusCheckRollup\":[{\"conclusion\":\"SUCCESS\"}]}").checked);
    assert!(status("{\"statusCheckRollup\":[{\"conclusion\":\"SKIPPED\"}]}").checked);
    assert!(!status("{\"statusCheckRollup\":[{\"conclusion\":\"FAILURE\"}]}").checked);
}

#[test]
fn a_status_that_says_nothing_is_neither_mergeable_nor_reviewed() {
    let expected = PrStatus { draft: false, mergeable: false, reviewed: false, checked: true };
    assert_eq!(status("{}"), expected);
    assert_eq!(status("[1, 2]"), expected);
    assert!(status("{\"statusCheckRollup\":[{\"state\":\"X\"},{\"conclusion\":null}]}").checked);
    assert!(
        !status("{\"statusCheckRollup\":[{\"conclusion\":\"SUCCESS\"},{\"conclusion\":\"\"}]}")
            .checked
    );
}

#[test]
fn a_status_that_cannot_be_had_is_an_error() {
    assert_eq!(
        result_of(github::get_pr_status("o/r", 7, &[failed("gone")])),
        Err("Failed to get PR status for o/r PR #7: gone".to_string())
    );
    assert_eq!(
        result_of(github::get_pr_status("o/r", 7, &[refused("no gh")])),
        Err("Failed to execute gh pr view: no gh".to_string())
    );
    let err = result_of(github::get_pr_status("o/r", 7, &[ok("{")])).unwrap_err();
    assert!(err.starts_with("Failed to parse PR JSON: EOF while parsing"));
    let i = run_of(github::get_pr_status("o/r", 7, &[]));
    assert_eq!(
        i.args,
        vec![
            "pr",
            "view",
            "7",
            "--repo",
            "o/r",
            "--json",
            "isDraft,mergeable,reviewDecision,statusCheckRollup"
        ]
    );
}

#[test]
fn the_number_of_a_pull_request_is_read_from_a_list() {
    let number = |json: &str| github::get_pr_number_for_repo("o/r", "b", &[ok(json)]);
    assert_eq!(result_of(number("[{\"number\":42},{\"number\":7}]")), Ok(42));
    assert_eq!(result_of(number("[]")), Ok(0));
    assert_eq!(result_of(number("{\"number\":42}")), Ok(0));
    assert_eq!(result_of(number("[{\"number\":-1}]")), Ok(0));
    assert_eq!(result_of(number("[{\"number\":1.5}]")), Ok(0));
    assert_eq!(
        result_of(github::get_pr_number_for_repo("o/r", "b", &[failed("")])),
        Err("Failed to list PRs in repo 'o/r'".to_string())
    );
    assert_eq!(
        result_of(github::_get_closed_pr_number_for_repo("o/r", "b", &[failed("")])),
        Err("Failed to list closed PRs in repo 'o/r'".to_string())
    );
    let i = run_of(github::_get_closed_pr_number_for_repo("o/r", "b", &[]));
    assert_eq!(i.args[7], "closed");
}

#[test]
fn a_closed_pull_request_is_reopened() {
    assert_eq!(
        result_of(github::_reopen_pr("o/r", "b", &[ok("[]")])),
        Err("No closed PR found for repo 'o/r' with change_id 'b'".to_string())
    );
    assert_eq!(
        run_of(github::reopen_pr("o/r", 3, &[])).args,
        vec!["pr", "reopen", "3", "--repo", "o/r"]
    );
    assert_eq!(result_of(github::reopen_pr("o/r", 3, &[ok("")])), Ok(()));
    assert_eq!(
        result_of(github::reopen_pr("o/r", 3, &[refused("gone")])),
        Err("Failed to execute gh pr reopen: gone".to_string())
    );
    let i = run_of(github::_reopen_pr("o/r", "b", &[ok("[{\"number\":3}]")]));
    assert_eq!(i.args, vec!["pr", "reopen", "3", "--repo", "o/r"]);
    assert_eq!(
        result_of(github::_reopen_pr("o/r", "b", &[ok("[{\"number\":3}]"), failed("no")])),
        Err("Failed to reopen PR #3 for repo 'o/r': no".to_string())
    );
}

#[test]
fn a_patch_is_trimmed() {
    assert_eq!(
        result_of(github::get_pr_diff("o/r", 5, &[ok("\ndiff --git\n\n")])),
        Ok("diff --git".to_string())
    );
    assert_eq!(
        result_of(github::get_pr_diff("o/r", 5, &[failed(" no \n")])),
        Err("Failed to fetch PR diff for o/r#5: no".to_string())
    );
    assert_eq!(
        run_of(github::get_pr_diff("o/r", 5, &[])).args,
        vec!["pr", "diff", "5", "-R", "o/r", "--patch"]
    );
}

#[test]
fn a_merge_is_checked_afterwards() {
    let merged = || ok("{\"state\":\"MERGED\",\"mergedAt\":null}");
    assert_eq!(result_of(github::merge_pr("o/r", 1, true, &[ok(""), merged()])), Ok(()));
    let at = ok("{\"state\":\"OPEN\",\"mergedAt\":\"2024\"}");
    assert_eq!(result_of(github::merge_pr("o/r", 1, true, &[ok(""), at])), Ok(()));
    let open = ok("{\"state\":\"OPEN\",\"mergedAt\":null}");
    assert_eq!(
        result_of(github::merge_pr("o/r", 1, true, &[ok(""), open])),
        Err("PR merge not confirmed; merge blocked by review requirements".to_string())
    );
    assert_eq!(
        result_of(github::merge_pr("o/r", 1, true, &[failed("X: Review REQUIRED.")])),
        Err("Merge blocked: review required (GitHub rules not satisfied)".to_string())
    );
    assert_eq!(
        result_of(github::merge_pr("o/r", 1, true, &[failed("conflict"), failed("gone")])),
        Err("Failed to verify PR status: gone".to_string())
    );
    let i = run_of(github::merge_pr("o/r", 1, true, &[ok("")]));
    assert_eq!(i.args, vec!["pr", "view", "1", "--repo", "o/r", "--json", "state,mergedAt"]);
}

#[test]
fn approving_and_closing() {
    assert_eq!(
        run_of(github::approve_pr("o/r", 9, &[])).args,
        vec!["pr", "review", "9", "--approve", "--repo", "o/r"]
    );
    assert_eq!(result_of(github::approve_pr("o/r", 9, &[failed("x")])), Ok(()));
    assert_eq!(result_of(github::approve_pr("o/r", 9, &[refused("x")])), Err("x".to_string()));
    assert_eq!(
        run_of(github::close_pr("o/r", 9, &[])).args,
        vec![
            "pr",
            "close",
            "9",
            "--repo",
            "o/r",
            "--delete-branch",
            "--comment",
            "Closing old PR in favor of new changes"
        ]
    );
    assert_eq!(
        result_of(github::close_pr("o/r", 9, &[failed("x")])),
        Err("Failed to close PR 9 for o/r: x".to_string())
    );
    assert_eq!(result_of(github::delete_remote_branch_gh("o/r", "b", &[failed("x")])), Ok(()));
}

#[test]
fn a_new_pull_request_has_an_address() {
    assert_eq!(
        result_of(github::create_pr("/r", "b", "m", &[ok("https://x/1\n")])),
        Some("https://x/1".to_string())
    );
    assert_eq!(result_of(github::create_pr("/r", "b", "m", &[failed("")])), None);
    assert_eq!(result_of(github::__create_pr("/r", "b", &[refused("")])), None);
    let i = run_of(github::__create_pr("/r", "b", &[]));
    assert_eq!(i.args[3], "SLAM: Automated Update");
    assert_eq!(i.dir, Some("/r".to_string()));
}

#[test]
fn archived_repositories_are_left_out() {
    let json = "[{\"name\":\"a\",\"isArchived\":false},{\"name\":\"b\",\"isArchived\":true},\
                {\"name\":\"c\"},{\"isArchived\":false}]";
    assert_eq!(
        result_of(github::find_repos_in_org("org", &[ok(json)])),
        Ok(vec!["org/a".to_string(), "org/c".to_string()])
    );
    assert_eq!(result_of(github::find_repos_in_org("org", &[ok("null")])), Ok(vec![]));
    assert_eq!(
        result_of(github::find_repos_in_org("org", &[failed("")])),
        Err("Failed to list repos in org 'org'".to_string())
    );
    let err = result_of(github::find_repos_in_org("org", &[ok("nope")])).unwrap_err();
    assert_eq!(err, "expected ident at line 1 column 2");
}

#[test]
fn pull_requests_are_grouped_by_title() {
    let slugs = vec!["o/a".to_string(), "o/b".to_string(), "o/c".to_string(), "o/d".to_string()];
    let replies = [
        ok("[{\"title\":\"X\",\"number\":1,\"author\":{\"login\":\"me\"}},\
            {\"title\":\"Y\",\"number\":2},{\"title\":\"Z\"}]"),
        failed("x"),
        ok("[{\"title\":\"X\",\"number\":3,\"author\":{}},{\"title\":\"X\",\"number\":4}]"),
        ok("garbage"),
    ];
    let groups = get_prs_for_repos(&slugs, &replies);
    let who = |slug: &str, n: u64, author: &str| (slug.to_string(), n, author.to_string());
    assert_eq!(
        groups,
        vec![
            (
                "X".to_string(),
                vec![who("o/a", 1, "me"), who("o/c", 3, "unknown"), who("o/c", 4, "unknown")]
            ),
            ("Y".to_string(), vec![who("o/a", 2, "unknown")]),
        ]
    );
    for (closed_too, state) in [(false, "open"), (true, "all")] {
        match github::pr_list_request("o/a", closed_too) {
            Request::Run(i) => {
                assert_eq!(i.args[5], state);
                assert_eq!(i.args[7], "title,number,author");
            }
            _ => panic!("no run"),
        }
    }
}

#[test]
fn remote_branches_are_unquoted() {
    assert_eq!(
        run_of(github::list_remote_branches_with_prefix("o/r", "SLAM", &[])).args,
        vec!["api", "repos/o/r/branches", "--paginate", "--jq", ".[] | .name"]
    );
    let listed = ok("\"SLAM-1\"\n main \n  SLAM-2\n");
    assert_eq!(
        result_of(github::list_remote_branches_with_prefix("o/r", "SLAM", &[listed])),
        Ok(vec!["SLAM-1".to_string(), "SLAM-2".to_string()])
    );
    assert_eq!(
        result_of(github::list_remote_branches_with_prefix("o/r", "SLAM", &[failed("")])),
        Err("Failed to list remote branches for repo 'o/r'".to_string())
    );
    assert_eq!(
        result_of(github::list_remote_branches_with_prefix("o/r", "SLAM", &[refused("x")])),
        Err("Failed to execute gh api for repo 'o/r': x".to_string())
    );
}

#[test]
fn a_purge_closes_every_pull_request_and_deletes_every_branch() {
    let prs = || ok("[{\"number\":1},{\"number\":2}]");
    let i = run_of(github::purge_repo("o/r", &[]));
    assert_eq!(i.args[4..], ["--state", "open", "--json", "number", "--limit", "1000"]);
    let i = run_of(github::purge_repo("o/r", &[prs()]));
    assert_eq!(i.args[2], "1");
    let i = run_of(github::purge_repo("o/r", &[prs(), ok("")]));
    assert_eq!(i.args[2], "2");
    let i = run_of(github::purge_repo("o/r", &[prs(), ok(""), ok("")]));
    assert_eq!(i.args[1], "repos/o/r/branches");
    let branches = || ok("SLAM-1\n");
    let replies = [prs(), ok(""), ok(""), branches()];
    let i = run_of(github::purge_repo("o/r", &replies));
    assert_eq!(i.args[3], "repos/o/r/git/refs/heads/SLAM-1");
    let replies = [prs(), ok(""), ok(""), branches(), failed("")];
    assert_eq!(
        result_of(github::purge_repo("o/r", &replies)),
        Ok(vec![
            "Closed PR #1 for repo 'o/r'".to_string(),
            "Closed PR #2 for repo 'o/r'".to_string(),
            "Deleted remote branch 'SLAM-1' for repo 'o/r'".to_string(),
        ])
    );
}

#[test]
fn a_purge_takes_plain_numbers_and_refuses_anything_else() {
    let i = run_of(github::purge_repo("o/r", &[ok("[7]")]));
    assert_eq!(i.args[2], "7");
    assert_eq!(
        result_of(github::purge_repo("o/r", &[ok("[{\"number\":\"x\"}]")])),
        Err(
            "Failed to parse open PRs JSON for repo 'o/r': invalid type: map, expected u64 at \
             line 1 column 1"
                .to_string()
        )
    );
    assert_eq!(
        result_of(github::purge_repo("o/r", &[failed("")])),
        Err("Failed to list open PRs for repo 'o/r'".to_string())
    );
    assert_eq!(
        result_of(github::purge_repo("o/r", &[ok("[1]"), failed("no")])),
        Err("Failed to close PR 1 for o/r: no".to_string())
    );
}

#[test]
fn test_run_pre_commit_with_retry_max_attempts() {
    // Test that MAX_RETRY is used as the upper bound
    let max_attempts = MAX_RETRY;
    assert_eq!(max_attempts, 5);

    // Test retry logic bounds
    let mut replies: Vec<Reply> = vec![];
    for attempt in 1..=max_attempts {
        assert!(attempt >= 1);
        assert!(attempt <= MAX_RETRY);
        let i = run_of(hooks::run_pre_commit_with_retry("/r", 2, &replies));
        assert_eq!(i.args, vec!["run", "--all-files"]);
        replies.push(failed(&format!("{}", attempt)));
    }
    assert_eq!(
        result_of(hooks::run_pre_commit_with_retry("/r", 2, &replies)),
        Err(
            "Pre-commit hook failed after 5 attempts. Last failure:\nExit code: Some(1)\nstdout:\n\
             \nstderr:\n5"
                .to_string()
        )
    );
}

#[test]
fn identical_failures_are_given_up_early() {
    let replies = [failed("same"), failed("same"), failed("same")];
    assert!(matches!(
        hooks::run_pre_commit_with_retry("/r", 2, &replies),
        Step::Done(Err(_), 3)
    ));
    let replies = [failed("same"), failed("same"), failed("other"), failed("other")];
    assert!(matches!(hooks::run_pre_commit_with_retry("/r", 2, &replies), Step::Ask(_)));
    let replies = [failed("same"), ok("")];
    assert!(matches!(
        hooks::run_pre_commit_with_retry("/r", 2, &replies),
        Step::Done(Ok(()), 2)
    ));
    assert_eq!(
        result_of(hooks::run_pre_commit_with_retry("/r", 2, &[refused("none")])),
        Err("Failed to execute pre-commit: none".to_string())
    );
    let killed = || Ok(Output { code: None, stdout: b"out".to_vec(), stderr: vec![] });
    let err = result_of(hooks::run_pre_commit_with_retry("/r", 1, &[killed(), killed()]));
    assert_eq!(
        err,
        Err(
            "Pre-commit hook failed after 5 attempts. Last failure:\nExit code: None\nstdout:\nout\
             \nstderr:\n"
                .to_string()
        )
    );
}

#[test]
fn an_exit_code_can_be_negative() {
    let odd = || Ok(Output { code: Some(-2147483648), stdout: vec![], stderr: vec![] });
    let err = result_of(hooks::run_pre_commit_with_retry("/r", 1, &[odd(), odd()])).unwrap_err();
    assert!(err.contains("Exit code: Some(-2147483648)\n"));
}

#[test]
fn hooks_are_installed_where_their_file_is_there_afterwards() {
    assert!(matches!(
        hooks::install_pre_commit_hooks("/r", &[ok("")]),
        Step::Ask(Request::Look(p)) if p == "/r/.git/hooks/pre-commit"
    ));
    assert_eq!(result_of(hooks::install_pre_commit_hooks("/r", &[ok(""), ok("")])), Ok(true));
    assert_eq!(result_of(hooks::install_pre_commit_hooks("/r", &[ok(""), failed("")])), Ok(false));
    assert_eq!(result_of(hooks::install_pre_commit_hooks("/r", &[failed("")])), Ok(false));
    assert_eq!(
        result_of(hooks::install_pre_commit_hooks("/r", &[refused("x")])),
        Err("Failed to execute pre-commit install: x".to_string())
    );
}
