use slam::command::{Invocation, Output, Reply, Request, Step};
use slam::git;
use slam::git::{first_field_of, parse_local_branches, repo_url, slug_of_url};

fn ok(stdout: &str) -> Reply {
    Ok(Output { code: Some(0), stdout: stdout.as_bytes().to_vec(), stderr: vec![] })
}

fn failed(stderr: &str) -> Reply {
    Ok(Output { code: Some(1), stdout: vec![], stderr: stderr.as_bytes().to_vec() })
}

fn refused(words: &str) -> Reply {
    Err(words.to_string())
}

fn run_of<T>(step: Step<T>) -> Invocation {
    match step {
        Step::Ask(Request::Run(i)) => i,
        _ => panic!("no run of a program"),
    }
}

fn result_of<T>(step: Step<T>) -> T {
    match step {
        Step::Done(t, _) => t,
        Step::Ask(_) => panic!("no result yet"),
    }
}

fn words(i: &Invocation) -> String {
    i.args.join(" ")
}

#[test]
fn test_get_repo_slug_valid_ssh_url() {
    let test_url = "git@github.com:tatari-tv/test-repo.git";
    assert_eq!(slug_of_url(test_url), Ok("tatari-tv/test-repo".to_string()));

    let replies = [ok("git@github.com:tatari-tv/test-repo.git\n")];
    let step = git::get_repo_slug("/w/test-repo", &replies);
    assert_eq!(result_of(step), Ok("tatari-tv/test-repo".to_string()));
}

#[test]
fn test_get_repo_slug_invalid_url() {
    let test_url = "https://github.com/tatari-tv/test-repo.git";
    assert_eq!(
        slug_of_url(test_url),
        Err("Unexpected remote URL format: https://github.com/tatari-tv/test-repo.git".to_string())
    );
}

#[test]
fn get_repo_slug_tells_what_went_wrong() {
    let step = git::get_repo_slug("/w/r", &[refused("no such file")]);
    assert_eq!(
        result_of(step),
        Err("Failed to get remote origin url for /w/r: no such file".to_string())
    );
    let step = git::get_repo_slug("/w/r", &[failed("not a repository")]);
    assert_eq!(
        result_of(step),
        Err("Failed to get remote origin url for /w/r: not a repository".to_string())
    );
}

#[test]
fn test_list_local_branches_with_prefix_parsing() {
    // Test the branch name parsing logic
    let mock_output = "  main\n* SLAM-feature-1\n  SLAM-feature-2\n  other-branch\n";

    let branches: Vec<String> = parse_local_branches(mock_output, "SLAM");

    assert_eq!(branches.len(), 2);
    assert!(branches.contains(&"SLAM-feature-1".to_string()));
    assert!(branches.contains(&"SLAM-feature-2".to_string()));

    let step = git::list_local_branches_with_prefix("/w/r", "SLAM", &[]);
    assert_eq!(words(&run_of(step)), "branch --list");
    let step = git::list_local_branches_with_prefix("/w/r", "SLAM", &[ok(mock_output)]);
    assert_eq!(
        result_of(step),
        Ok(vec!["SLAM-feature-1".to_string(), "SLAM-feature-2".to_string()])
    );
    let step = git::list_local_branches_with_prefix("/w/r", "SLAM", &[failed("bad")]);
    assert_eq!(result_of(step), Err("Failed to list local branches in '/w/r': bad".to_string()));
}

#[test]
fn test_stash_save_return_value() {
    // Test the expected stash reference format
    let expected_stash_ref = result_of(git::stash_save("/w/r", &[ok("Saved")])).unwrap();
    assert_eq!(expected_stash_ref, "stash@{0}");
    assert!(expected_stash_ref.starts_with("stash@"));
    assert!(expected_stash_ref.contains("{0}"));

    assert_eq!(
        words(&run_of(git::stash_save("/w/r", &[]))),
        "stash push -m SLAM pre-branch-stash"
    );
    assert_eq!(
        result_of(git::stash_save("/w/r", &[failed("no")])),
        Err("Failed to stash changes: no".to_string())
    );
    assert_eq!(
        result_of(git::stash_save("/w/r", &[refused("no")])),
        Err("Failed to run git stash push: no".to_string())
    );
}

#[test]
fn test_github_url_format() {
    let reposlug = "test-org/test-repo";
    let url = repo_url(reposlug);

    assert_eq!(url, "git@github.com:test-org/test-repo.git");
    assert!(url.starts_with("git@github.com:"));
    assert!(url.ends_with(".git"));
}

#[test]
fn a_slug_survives_its_url_unless_it_ends_in_git() {
    assert_eq!(slug_of_url(&repo_url("org/repo")), Ok("org/repo".to_string()));
    assert_eq!(slug_of_url(&repo_url("org/repo.git")), Ok("org/repo".to_string()));
}

#[test]
fn runs_of_git_take_place_in_the_repository() {
    let i = run_of(git::checkout("/w/r", "main", &[]));
    assert_eq!(i.program, "git");
    assert_eq!(i.dir, Some("/w/r".to_string()));
    assert_eq!(i.args, vec!["checkout", "main"]);
    assert!(i.captured);
    assert!(i.ssh_command.is_none());
}

#[test]
fn simple_runs_ask_for_what_their_names_say() {
    assert_eq!(words(&run_of(git::checkout_branch("/r", "b", &[]))), "checkout -B b --quiet");
    assert_eq!(words(&run_of(git::branch_exists("/r", "b", &[]))), "rev-parse --verify refs/heads/b");
    assert_eq!(
        words(&run_of(git::remote_branch_exists("/r", "b", &[]))),
        "ls-remote --exit-code --heads origin refs/heads/b"
    );
    assert_eq!(words(&run_of(git::current_branch("/r", &[]))), "symbolic-ref --short HEAD");
    assert_eq!(words(&run_of(git::delete_local_branch("/r", "b", &[]))), "branch -D b");
    assert_eq!(words(&run_of(git::delete_remote_branch("/r", "b", &[]))), "push origin :b");
    assert_eq!(words(&run_of(git::reset_commit("/r", &[]))), "reset --soft HEAD~1");
    assert_eq!(words(&run_of(git::reset_hard("/r", &[]))), "reset --hard HEAD");
    assert_eq!(words(&run_of(git::pull("/r", &[]))), "pull");
    assert_eq!(words(&run_of(git::commit_all("/r", "m", &[]))), "commit -am m");
    assert_eq!(words(&run_of(git::has_untracked_files("/r", &[]))), "status --porcelain");
    assert_eq!(words(&run_of(git::has_modified_files("/r", &[]))), "diff-index --quiet HEAD --");
    assert_eq!(words(&run_of(git::stash_pop("/r", "s", &[]))), "stash pop s");
    assert_eq!(words(&run_of(git::remote_prune("/r", &[]))), "remote prune origin");
    assert_eq!(words(&run_of(git::get_head_sha("/r", &[]))), "rev-parse HEAD");
    assert_eq!(
        words(&run_of(git::push_branch("/r", "b", &[]))),
        "push --set-upstream origin b"
    );
    assert_eq!(words(&run_of(git::_has_staged_files("/r", &[]))), "diff --cached --quiet");
    assert_eq!(words(&run_of(git::_stage_files("/r", &[]))), "add .");
    assert_eq!(words(&run_of(git::_commit_changes("/r", "m", &[]))), "commit -m m");
    assert_eq!(words(&run_of(git::_get_branch_commit("/r", "b", &[]))), "rev-parse b");
    assert_eq!(words(&run_of(git::_create_branch("/r", "b", "c", &[]))), "checkout -b b c");
    assert_eq!(words(&run_of(git::_unstage_all("/r", &[]))), "reset");
    let push = run_of(git::_push_branch("/r", "b", &[]));
    assert_eq!(words(&push), "push --set-upstream origin b");
    assert!(!push.captured);
}

#[test]
fn simple_runs_tell_what_went_wrong() {
    assert_eq!(result_of(git::checkout("/r", "b", &[ok("")])), Ok(()));
    assert_eq!(
        result_of(git::checkout("/r", "b", &[failed("bad\n")])),
        Err("Failed to checkout branch 'b' in '/r': bad\n".to_string())
    );
    assert_eq!(
        result_of(git::checkout("/r", "b", &[refused("gone")])),
        Err("Failed to execute git checkout: gone".to_string())
    );
    assert_eq!(
        result_of(git::checkout_branch("/r", "b", &[failed("bad")])),
        Err("Failed to checkout branch b: bad".to_string())
    );
    assert_eq!(
        result_of(git::delete_local_branch("/r", "b", &[refused("gone")])),
        Err("gone".to_string())
    );
    assert_eq!(
        result_of(git::delete_local_branch("/r", "b", &[failed("bad")])),
        Err("Failed to delete local branch 'b' in '/r': bad".to_string())
    );
    assert_eq!(result_of(git::delete_remote_branch("/r", "b", &[failed("bad")])), Ok(()));
    assert_eq!(
        result_of(git::delete_remote_branch("/r", "b", &[refused("gone")])),
        Err("gone".to_string())
    );
    assert_eq!(
        result_of(git::reset_commit("/r", &[failed("bad")])),
        Err("Failed to reset commit in '/r': bad".to_string())
    );
    assert_eq!(
        result_of(git::reset_hard("/r", &[failed("bad")])),
        Err("Failed to reset hard: bad".to_string())
    );
    assert_eq!(
        result_of(git::pull("/r", &[failed("bad")])),
        Err("Failed to pull changes: bad".to_string())
    );
    assert_eq!(
        result_of(git::commit_all("/r", "m", &[failed("bad")])),
        Err("Failed to commit changes: bad".to_string())
    );
    assert_eq!(
        result_of(git::stash_pop("/r", "s", &[failed("bad")])),
        Err("Failed to pop stash s: bad".to_string())
    );
    assert_eq!(
        result_of(git::remote_prune("/r", &[failed("bad")])),
        Err("Failed to prune remote branches in '/r': bad".to_string())
    );
    assert_eq!(
        result_of(git::get_head_sha("/r", &[failed("bad")])),
        Err("git rev-parse HEAD failed: bad".to_string())
    );
    assert_eq!(
        result_of(git::get_head_sha("/r", &[ok(" 0123456789\n")])),
        Ok("0123456789".to_string())
    );
    assert_eq!(
        result_of(git::_get_branch_commit("/r", "b", &[failed("bad")])),
        Err("Failed to get commit hash for branch 'b'".to_string())
    );
    assert_eq!(
        result_of(git::_create_branch("/r", "b", "c", &[failed("bad")])),
        Err("Failed to create branch 'b' at commit c: bad".to_string())
    );
    assert_eq!(
        result_of(git::_unstage_all("/r", &[failed("bad")])),
        Err("Failed to unstage files in '/r': bad".to_string())
    );
    assert_eq!(
        result_of(git::current_branch("/r", &[failed("bad")])),
        Err("Failed to determine current branch in '/r'".to_string())
    );
}

#[test]
fn questions_are_answered_by_the_exit_code() {
    assert_eq!(result_of(git::branch_exists("/r", "b", &[ok("")])), Ok(true));
    assert_eq!(result_of(git::branch_exists("/r", "b", &[failed("")])), Ok(false));
    assert_eq!(result_of(git::remote_branch_exists("/r", "b", &[failed("")])), Ok(false));
    assert_eq!(result_of(git::has_modified_files("/r", &[ok("")])), Ok(false));
    assert_eq!(result_of(git::has_modified_files("/r", &[failed("")])), Ok(true));
    assert_eq!(result_of(git::_has_staged_files("/r", &[failed("")])), Ok(true));
    let killed = Ok(Output { code: None, stdout: vec![], stderr: vec![] });
    assert_eq!(result_of(git::branch_exists("/r", "b", &[killed])), Ok(false));
}

#[test]
fn untracked_files_are_marked_with_question_marks() {
    assert_eq!(result_of(git::has_untracked_files("/r", &[ok(" M a\n?? b\n")])), Ok(true));
    assert_eq!(result_of(git::has_untracked_files("/r", &[ok(" M a??\n")])), Ok(false));
    assert_eq!(result_of(git::has_untracked_files("/r", &[failed("")])), Ok(false));
    assert_eq!(
        result_of(git::has_untracked_files("/r", &[refused("x")])),
        Err("Failed to run git status: x".to_string())
    );
}

#[test]
fn a_push_only_fails_where_git_cannot_be_run() {
    assert_eq!(result_of(git::push_branch("/r", "b", &[failed("rejected")])), Ok(()));
    assert_eq!(
        result_of(git::push_branch("/r", "a\"b", &[refused("gone")])),
        Err(
            "Failed to execute git [\"push\", \"--set-upstream\", \"origin\", \"a\\\"b\"]: gone"
                .to_string()
        )
    );
    assert_eq!(
        result_of(git::_commit_changes("/r", "m\n", &[refused("gone")])),
        Err("Failed to execute git [\"commit\", \"-m\", \"m\\n\"]: gone".to_string())
    );
    assert!(result_of(git::_push_branch("/r", "b", &[failed("rejected")])));
    assert!(!result_of(git::_push_branch("/r", "b", &[refused("gone")])));
}

#[test]
fn the_head_branch_is_what_the_remote_says_or_a_common_name() {
    let said = ok("refs/remotes/origin/trunk\n");
    assert_eq!(result_of(git::get_head_branch("/r", &[said])), Ok("trunk".to_string()));

    let i = run_of(git::get_head_branch("/r", &[failed("")]));
    assert_eq!(words(&i), "rev-parse --verify origin/main");
    let step = git::get_head_branch("/r", &[ok("something else"), ok("")]);
    assert_eq!(result_of(step), Ok("main".to_string()));
    let i = run_of(git::get_head_branch("/r", &[failed(""), failed("")]));
    assert_eq!(words(&i), "rev-parse --verify origin/master");
    let step = git::get_head_branch("/r", &[refused("x"), failed(""), ok("")]);
    assert_eq!(result_of(step), Ok("master".to_string()));
    let step = git::get_head_branch("/r", &[failed(""), failed(""), refused("x")]);
    assert_eq!(
        result_of(step),
        Err("Unable to determine head branch for repository".to_string())
    );
}

#[test]
fn the_current_branch_is_left_before_it_is_deleted() {
    let i = run_of(git::safe_delete_local_branch("/r", "b", &[ok("other\n")]));
    assert_eq!(words(&i), "branch -D b");

    let here = || ok("b\n");
    let head = || ok("refs/remotes/origin/main");
    let i = run_of(git::safe_delete_local_branch("/r", "b", &[here(), head()]));
    assert_eq!(words(&i), "checkout main");
    let i = run_of(git::safe_delete_local_branch("/r", "b", &[here(), head(), ok("")]));
    assert_eq!(words(&i), "branch -D b");
    let step = git::safe_delete_local_branch("/r", "b", &[here(), head(), ok(""), ok("")]);
    assert!(matches!(step, Step::Done(Ok(()), 4)));
    let step = git::safe_delete_local_branch("/r", "b", &[here(), head(), failed("no")]);
    assert_eq!(
        result_of(step),
        Err("Failed to checkout branch 'main' in '/r': no".to_string())
    );
}

#[test]
fn a_clone_uses_the_configured_ssh_command() {
    let i = run_of(git::clone_repo("o/r", "/w/o/r", &[]));
    assert_eq!(words(&i), "config --get core.sshCommand");
    assert_eq!(i.dir, None);
    let i = run_of(git::clone_repo("o/r", "/w/o/r", &[ok("ssh -i key\n")]));
    assert_eq!(i.ssh_command, Some("ssh -i key".to_string()));
    assert_eq!(words(&i), "clone --quiet git@github.com:o/r.git /w/o/r");
    assert!(!i.captured);
    let i = run_of(git::clone_repo("o/r", "/w/o/r", &[failed("")]));
    assert_eq!(i.ssh_command, Some("ssh".to_string()));
    let step = git::clone_repo("o/r", "/w/o/r", &[failed(""), failed("")]);
    assert_eq!(
        result_of(step),
        Err("git clone failed for o/r via git@github.com:o/r.git".to_string())
    );
}

#[test]
fn a_clone_that_is_there_is_brought_up_to_date() {
    assert!(matches!(
        git::clone_or_update_repo("o/r", "/w/o/r", "b", &[]),
        Step::Ask(Request::Look(p)) if p == "/w/o/r"
    ));
    let url = || ok("git@github.com:o/r.git\n");
    let i = run_of(git::clone_or_update_repo("o/r", "/w/o/r", "b", &[ok(""), url()]));
    assert_eq!(words(&i), "fetch origin --quiet");
    let i = run_of(git::clone_or_update_repo("o/r", "/w/o/r", "b", &[ok(""), ok("old")]));
    assert_eq!(words(&i), "remote set-url origin git@github.com:o/r.git");
    let step = git::clone_or_update_repo("o/r", "/w/o/r", "b", &[ok(""), ok("old"), failed("no")]);
    assert_eq!(result_of(step), Err("Failed to update remote URL for o/r: no".to_string()));
    let step = git::clone_or_update_repo("o/r", "/w/o/r", "b", &[ok(""), url(), failed("")]);
    assert_eq!(result_of(step), Err("Failed to fetch remote for o/r".to_string()));
    let i = run_of(git::clone_or_update_repo("o/r", "/w/o/r", "b", &[ok(""), url(), ok("")]));
    assert_eq!(words(&i), "checkout -B b --quiet");
    let step = git::clone_or_update_repo("o/r", "/w/o/r", "b", &[ok(""), url(), ok(""), ok("")]);
    assert!(matches!(step, Step::Done(Ok(()), 4)));
}

#[test]
fn a_clone_that_is_not_there_is_made() {
    let i = run_of(git::clone_or_update_repo("o/r", "/w/o/r", "b", &[failed("")]));
    assert_eq!(words(&i), "config --get core.sshCommand");
    let replies = [failed(""), failed(""), ok("")];
    let i = run_of(git::clone_or_update_repo("o/r", "/w/o/r", "b", &replies));
    assert_eq!(words(&i), "fetch origin --quiet");
}

#[test]
fn a_working_tree_is_clean_where_nothing_is_changed() {
    assert!(result_of(git::_is_working_tree_clean("/r", &[ok(""), ok("")])));
    assert!(!result_of(git::_is_working_tree_clean("/r", &[failed(""), ok("")])));
    assert!(!result_of(git::_is_working_tree_clean("/r", &[ok(""), refused("x")])));
    let i = run_of(git::_is_working_tree_clean("/r", &[failed("")]));
    assert_eq!(words(&i), "diff --quiet");
}

#[test]
fn preflight_checks_stash_switch_and_pull() {
    let head = || ok("refs/remotes/origin/main");
    let i = run_of(git::_preflight_checks("/r", &[head(), ok("old\n"), ok(" M a\n")]));
    assert_eq!(words(&i), "stash push -m SLAM pre-branch-stash");
    let i = run_of(git::_preflight_checks("/r", &[head(), ok("old\n"), ok("\n")]));
    assert_eq!(words(&i), "checkout main");
    let i = run_of(git::_preflight_checks("/r", &[head(), ok("main\n"), ok("")]));
    assert_eq!(words(&i), "pull");
    let step = git::_preflight_checks("/r", &[head(), ok("main\n"), ok(""), ok("")]);
    assert!(matches!(step, Step::Done(Ok(()), 4)));
    let step = git::_preflight_checks("/r", &[head(), ok("main\n"), ok("?? x\n")]);
    assert_eq!(
        result_of(step),
        Err("Untracked files present in repo /r. Please commit or remove them.".to_string())
    );
    let step = git::_preflight_checks("/r", &[head(), failed("")]);
    assert_eq!(result_of(step), Err("Failed to determine current branch for repo /r".to_string()));
    let step = git::_preflight_checks("/r", &[head(), ok("x"), refused("e")]);
    assert_eq!(result_of(step), Err("Failed to get status for repo /r: e".to_string()));
    let step = git::_preflight_checks("/r", &[head(), ok("x"), ok(""), failed("")]);
    assert_eq!(
        result_of(step),
        Err("Failed to checkout branch main in repo /r".to_string())
    );
}

#[test]
fn a_branch_is_made_or_switched_to() {
    let i = run_of(git::_create_or_switch_branch("/r", "b", &[ok("main"), failed("")]));
    assert_eq!(words(&i), "checkout -b b");
    assert!(!i.captured);
    let i = run_of(git::_create_or_switch_branch("/r", "b", &[ok("main"), ok("")]));
    assert_eq!(words(&i), "checkout b");
    assert!(!result_of(git::_create_or_switch_branch("/r", "b", &[failed("")])));
    let replies = [ok("main"), ok(""), failed("")];
    assert!(result_of(git::_create_or_switch_branch("/r", "b", &replies)));
    let replies = [ok("main"), ok(""), refused("gone")];
    assert!(!result_of(git::_create_or_switch_branch("/r", "b", &replies)));
}

#[test]
fn output_that_is_no_utf8_is_read_with_replacements() {
    let reply = Ok(Output { code: Some(0), stdout: vec![b'a', 0xff, b'b'], stderr: vec![] });
    assert_eq!(result_of(git::current_branch("/r", &[reply])), Ok("a\u{fffd}b".to_string()));
}

#[test]
fn what_was_done_can_be_taken_back() {
    assert_eq!(words(&run_of(git::stage_all("/r", &[]))), "add .");
    assert_eq!(
        words(&run_of(git::publish_branch("/r", "b", &[]))),
        "push --set-upstream origin b"
    );
    assert_eq!(words(&run_of(git::unpublish_branch("/r", "b", &[]))), "push origin :b");
    assert_eq!(
        result_of(git::unpublish_branch("/r", "b", &[failed("rejected")])),
        Err("Failed to delete remote branch 'b' in '/r': rejected".to_string())
    );
    assert_eq!(words(&run_of(git::restore_branch("/r", "b", "c", &[]))), "branch b c");
    assert_eq!(
        words(&run_of(git::restore_remote_branch("/r", "b", "c", &[]))),
        "push origin c:refs/heads/b"
    );
    assert_eq!(words(&run_of(git::reset_to("/r", "c", &[]))), "reset --hard c");

    assert_eq!(result_of(git::publish_branch("/r", "b", &[ok("")])), Ok(()));
    assert_eq!(
        result_of(git::publish_branch("/r", "b", &[failed("rejected")])),
        Err("Failed to push branch 'b' in '/r': rejected".to_string())
    );
    assert_eq!(
        result_of(git::publish_branch("/r", "b", &[refused("gone")])),
        Err("Failed to execute git push: gone".to_string())
    );
    assert_eq!(
        result_of(git::stage_all("/r", &[failed("bad")])),
        Err("Failed to stage files in '/r': bad".to_string())
    );
    assert_eq!(
        result_of(git::restore_branch("/r", "b", "c", &[failed("bad")])),
        Err("Failed to restore branch 'b' in '/r': bad".to_string())
    );
    assert_eq!(
        result_of(git::restore_remote_branch("/r", "b", "c", &[failed("bad")])),
        Err("Failed to restore remote branch 'b' in '/r': bad".to_string())
    );
    assert_eq!(
        result_of(git::reset_to("/r", "c", &[failed("bad")])),
        Err("Failed to reset '/r' to c: bad".to_string())
    );
}

#[test]
fn a_local_branch_is_at_a_commit() {
    assert_eq!(
        words(&run_of(git::local_branch_commit("/r", "b", &[]))),
        "rev-parse refs/heads/b"
    );
    assert_eq!(
        result_of(git::local_branch_commit("/r", "b", &[ok("c0ffee\n")])),
        Ok("c0ffee".to_string())
    );
    assert_eq!(
        result_of(git::local_branch_commit("/r", "b", &[failed("bad")])),
        Err("Failed to get commit hash for branch 'b'".to_string())
    );
    assert_eq!(
        words(&run_of(git::_get_branch_commit("/r", "origin/main", &[]))),
        "rev-parse origin/main"
    );
}

#[test]
fn the_remote_says_which_commit_a_branch_is_at() {
    assert_eq!(
        words(&run_of(git::remote_branch_commit("/r", "b", &[]))),
        "ls-remote --exit-code --heads origin refs/heads/b"
    );
    assert_eq!(
        result_of(git::remote_branch_commit("/r", "b", &[ok("c0ffee\trefs/heads/b\n")])),
        Ok(Some("c0ffee".to_string()))
    );
    assert_eq!(result_of(git::remote_branch_commit("/r", "b", &[failed("")])), Ok(None));
    assert_eq!(
        result_of(git::remote_branch_commit("/r", "b", &[refused("gone")])),
        Err("Failed to execute git ls-remote: gone".to_string())
    );
    assert_eq!(first_field_of("a\tb\tc"), "a");
    assert_eq!(first_field_of("none"), "none");
    assert_eq!(first_field_of("\tx"), "");
}
