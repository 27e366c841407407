use slam::command::{Output, Reply, Request, Step};
use slam::sandbox::{
    generate_clone_status, org, refresh_repo, refresh_warning, repos_wanted, set_up_repo, shorten,
};

fn ok(stdout: &str) -> Reply {
    Ok(Output { code: Some(0), stdout: stdout.as_bytes().to_vec(), stderr: vec![] })
}

fn failed(stderr: &str) -> Reply {
    Ok(Output { code: Some(1), stdout: vec![], stderr: stderr.as_bytes().to_vec() })
}

type Told = Option<Result<String, String>>;

fn words(request: &Request) -> String {
    match request {
        Request::Run(i) => format!("{} {}", i.program, i.args.join(" ")),
        Request::Look(path) => format!("look {}", path),
        _ => panic!("nothing is edited here"),
    }
}

/// Carries a conversation out. A request is answered by the first script entry
/// whose words it starts with, and else with an empty success.
fn converse(
    talk: &dyn Fn(&[Reply]) -> Step<Told>,
    script: &[(&str, bool, &str)],
) -> (Vec<String>, Told) {
    let mut said = vec![];
    let mut replies: Vec<Reply> = vec![];
    loop {
        match talk(&replies) {
            Step::Ask(request) => {
                let asked = words(&request);
                let mut reply = ok("");
                for (start, good, out) in script {
                    if asked.starts_with(start) {
                        reply = if *good { ok(out) } else { failed(out) };
                        break;
                    }
                }
                said.push(asked);
                replies.push(reply);
            }
            Step::Done(told, n) => {
                assert_eq!(n, replies.len());
                return (said, told);
            }
        }
    }
}

const HEAD: (&str, bool, &str) =
    ("git symbolic-ref refs/remotes/origin/HEAD", true, "refs/remotes/origin/main\n");
const URL: (&str, bool, &str) =
    ("git config --get remote.origin.url", true, "git@github.com:tatari-tv/test-repo.git\n");
const SHA: (&str, bool, &str) = ("git rev-parse HEAD", true, "abc1234def\n");

#[test]
fn test_sandbox_setup_empty_patterns() {
    let all_repos = vec![
        "tatari-tv/repo1".to_string(),
        "tatari-tv/repo2".to_string(),
        "tatari-tv/another-repo".to_string(),
    ];

    let empty_patterns: Vec<String> = vec![];
    let filtered: Vec<String> = repos_wanted(&all_repos, &empty_patterns);

    assert_eq!(filtered.len(), 3);
    assert!(filtered.contains(&"tatari-tv/repo1".to_string()));
    assert!(filtered.contains(&"tatari-tv/repo2".to_string()));
    assert!(filtered.contains(&"tatari-tv/another-repo".to_string()));
}

#[test]
fn test_sandbox_setup_with_patterns() {
    let all_repos = vec![
        "tatari-tv/repo1".to_string(),
        "tatari-tv/repo2".to_string(),
        "tatari-tv/another-repo".to_string(),
        "tatari-tv/different".to_string(),
    ];

    let patterns = vec!["repo".to_string()];
    let filtered: Vec<String> = repos_wanted(&all_repos, &patterns);

    assert_eq!(filtered.len(), 3);
    assert!(filtered.contains(&"tatari-tv/repo1".to_string()));
    assert!(filtered.contains(&"tatari-tv/repo2".to_string()));
    assert!(filtered.contains(&"tatari-tv/another-repo".to_string()));
    assert!(!filtered.contains(&"tatari-tv/different".to_string()));
}

#[test]
fn test_sandbox_setup_multiple_patterns() {
    let all_repos = vec![
        "tatari-tv/frontend-app".to_string(),
        "tatari-tv/backend-service".to_string(),
        "tatari-tv/mobile-app".to_string(),
        "tatari-tv/docs".to_string(),
    ];

    let patterns = vec!["app".to_string(), "service".to_string()];
    let filtered: Vec<String> = repos_wanted(&all_repos, &patterns);

    assert_eq!(filtered.len(), 3);
    assert!(filtered.contains(&"tatari-tv/frontend-app".to_string()));
    assert!(filtered.contains(&"tatari-tv/backend-service".to_string()));
    assert!(filtered.contains(&"tatari-tv/mobile-app".to_string()));
    assert!(!filtered.contains(&"tatari-tv/docs".to_string()));
}

#[test]
fn test_refresh_repo_status_format() {
    colored::control::set_override(false);
    let expected_parts = 4; // branch, sha, emoji, reposlug

    let (_, told) = converse(&|r| refresh_repo("/w/test-repo", r), &[HEAD, URL, SHA]);
    let result = told.unwrap().unwrap();
    assert_eq!(result, "  main abc1234 📥 tatari-tv/test-repo");
    let parts: Vec<&str> = result.split_whitespace().collect();
    assert_eq!(parts.len(), expected_parts);
}

#[test]
fn test_org_constant() {
    // Test that the hardcoded org is what we expect
    assert_eq!(org(), "tatari-tv");
    assert_eq!("tatari-tv".len(), 9); // Basic sanity check
}

#[test]
fn sandbox_test_emoji_constants() {
    colored::control::set_override(false);
    let success_emoji = "📥";
    let error_emoji = "❗";
    let missing_emoji = "❓";

    let hooks = |script: &[(&str, bool, &str)]| {
        let mut full = script.to_vec();
        full.append(&mut vec![HEAD, URL, SHA]);
        let (_, told) = converse(&|r| refresh_repo("/w/r", r), &full);
        told.unwrap().unwrap()
    };
    assert_eq!(hooks(&[]), format!("  main abc1234 {} tatari-tv/test-repo", success_emoji));
    assert_eq!(
        hooks(&[("pre-commit install", false, "")]),
        format!("  main abc1234 {} tatari-tv/test-repo", error_emoji)
    );
    assert_eq!(
        hooks(&[("look /w/r/.git/hooks/pre-commit", false, "")]),
        format!("  main abc1234 {} tatari-tv/test-repo", error_emoji)
    );
    assert_eq!(
        hooks(&[("look /w/r/.pre-commit-config.yaml", false, "")]),
        format!("  main abc1234 {} tatari-tv/test-repo", missing_emoji)
    );

    // Ensure they're not empty
    assert!(!success_emoji.is_empty());
    assert!(!error_emoji.is_empty());
    assert!(!missing_emoji.is_empty());
}

#[test]
fn test_pre_commit_config_filename() {
    // Test the expected pre-commit config filename
    let config_file = ".pre-commit-config.yaml";
    let (said, _) = converse(&|r| refresh_repo("/w/r", r), &[HEAD, URL, SHA]);
    assert!(said.contains(&format!("look /w/r/{}", config_file)));
    assert!(config_file.starts_with('.'));
    assert!(config_file.ends_with(".yaml"));
}

#[test]
fn test_generate_clone_status_emoji_constants() {
    colored::control::set_override(false);
    // Verify the emojis used in generate_clone_status match refresh_repo
    for (script, emoji) in [
        (vec![HEAD, URL, SHA], "📥"),
        (vec![("pre-commit install", false, ""), HEAD, URL, SHA], "❗"),
        (vec![("look /w/r/.pre-commit-config.yaml", false, ""), HEAD, URL, SHA], "❓"),
    ] {
        let (_, told) = converse(&|r| generate_clone_status("/w/r", r), &script);
        let (_, again) = converse(&|r| refresh_repo("/w/r", r), &script);
        assert_eq!(told, Some(Ok(format!("  main abc1234 {} tatari-tv/test-repo", emoji))));
        assert_eq!(told, again);
    }
}

#[test]
fn test_setup_and_refresh_output_consistency() {
    colored::control::set_override(false);
    let (_, refreshed) = converse(&|r| refresh_repo("/w/r", r), &[HEAD, URL, SHA]);
    let (_, existing) =
        converse(&|r| set_up_repo("/w", "tatari-tv/r", r), &[HEAD, URL, SHA]);
    let (_, cloned) = converse(
        &|r| set_up_repo("/w", "tatari-tv/r", r),
        &[("look /w/tatari-tv/r/", true, ""), ("look", false, ""), HEAD, URL, SHA],
    );

    // All should have the same structure
    for output in [refreshed, existing, cloned] {
        let output = output.unwrap().unwrap();
        let parts: Vec<&str> = output.split_whitespace().collect();
        assert_eq!(parts.len(), 4, "Output should have 4 parts: branch, sha, emoji, reposlug");

        // Branch part (first part)
        assert!(!parts[0].is_empty(), "Branch name should not be empty");

        // SHA part (second part) - should be 7 characters
        assert_eq!(parts[1].len(), 7, "SHA should be 7 characters");

        // Emoji part (third part)
        assert!(!parts[2].is_empty(), "Emoji should not be empty");

        // Repo slug part (fourth part)
        assert!(parts[3].contains('/'), "Repo slug should contain org/repo format");
    }
}

#[test]
fn test_setup_handles_existing_and_new_repos() {
    let (said, _) = converse(&|r| set_up_repo("/w", "tatari-tv/r", r), &[HEAD, URL, SHA]);
    assert_eq!(said[0], "look /w/tatari-tv/r");
    assert_eq!(said[1], "git remote prune origin");

    let missing = [("look /w/tatari-tv/r", false, ""), HEAD, URL, SHA];
    let (said, _) = converse(&|r| set_up_repo("/w", "tatari-tv/r", r), &missing);
    assert_eq!(said[1], "git config --get core.sshCommand");
    assert_eq!(said[2], "git clone --quiet git@github.com:tatari-tv/r.git /w/tatari-tv/r");
    assert_eq!(said[3], "git symbolic-ref refs/remotes/origin/HEAD");
}

#[test]
fn test_error_handling_consistency() {
    let error_msg_refresh = "Error processing repo";
    let error_msg_setup_refresh = "Failed to refresh repository";
    let error_msg_setup_clone = "Failed to clone repository";
    let error_msg_setup_status = "Failed to generate status for cloned repository";

    assert_eq!(refresh_warning("/w/r \n", "bad"), format!("{} /w/r: bad", error_msg_refresh));
    let set_up = |script: &[(&str, bool, &str)]| {
        let (_, told) = converse(&|r| set_up_repo("/w", "o/r", r), script);
        told.unwrap().unwrap_err()
    };
    assert_eq!(
        set_up(&[("git remote prune", false, "bad")]),
        format!(
            "{} o/r: Failed to prune remote branches in '/w/o/r': bad",
            error_msg_setup_refresh
        )
    );
    assert_eq!(
        set_up(&[("look", false, ""), ("git clone", false, "")]),
        format!(
            "{} o/r: git clone failed for o/r via git@github.com:o/r.git",
            error_msg_setup_clone
        )
    );
    assert_eq!(
        set_up(&[("look", false, ""), HEAD, ("git rev-parse HEAD", false, "bad")]),
        format!("{} o/r: git rev-parse HEAD failed: bad", error_msg_setup_status)
    );

    // All error messages should be descriptive and non-empty
    for msg in
        [error_msg_refresh, error_msg_setup_refresh, error_msg_setup_clone, error_msg_setup_status]
    {
        assert!(!msg.is_empty(), "Error message should not be empty");
        assert!(msg.len() > 10, "Error message should be descriptive");
    }
}

#[test]
fn a_refresh_deletes_local_branches_that_the_remote_lacks() {
    let (said, _) = converse(
        &|r| refresh_repo("/w/r", r),
        &[
            ("git branch --list", true, "* SLAM-1\n  SLAM-2\n  main\n"),
            ("git ls-remote --exit-code --heads origin refs/heads/SLAM-1", false, ""),
            ("git symbolic-ref --short HEAD", true, "SLAM-1\n"),
            HEAD,
            URL,
            SHA,
        ],
    );
    assert_eq!(
        said[..9],
        [
            "git remote prune origin",
            "git branch --list",
            "git ls-remote --exit-code --heads origin refs/heads/SLAM-1",
            "git symbolic-ref --short HEAD",
            "git symbolic-ref refs/remotes/origin/HEAD",
            "git checkout main",
            "git branch -D SLAM-1",
            "git ls-remote --exit-code --heads origin refs/heads/SLAM-2",
            "git symbolic-ref refs/remotes/origin/HEAD",
        ]
    );
    assert_eq!(
        said[9..13],
        ["git rev-parse HEAD", "git reset --hard HEAD", "git checkout main", "git pull"]
    );
}

#[test]
fn a_refresh_goes_on_where_branches_cannot_be_listed() {
    colored::control::set_override(false);
    let (_, told) = converse(
        &|r| refresh_repo("/w/r", r),
        &[("git branch --list", false, "x"), HEAD, URL, SHA],
    );
    assert_eq!(told, Some(Ok("  main abc1234 📥 tatari-tv/test-repo".to_string())));
}

#[test]
fn a_refresh_says_what_went_wrong() {
    let problem = |script: &[(&str, bool, &str)]| {
        let (_, told) = converse(&|r| refresh_repo("/w/r", r), script);
        told.unwrap().unwrap_err()
    };
    assert_eq!(
        problem(&[HEAD, URL, SHA, ("git pull", false, "conflict")]),
        "Failed to pull changes: conflict"
    );
    assert_eq!(
        problem(&[HEAD, SHA, ("git config", true, "https://x")]),
        "Unexpected remote URL format: https://x"
    );
}

#[test]
fn a_hash_is_cut_to_seven_bytes() {
    assert_eq!(shorten("0123456789"), Some("0123456".to_string()));
    assert_eq!(shorten("0123456"), Some("0123456".to_string()));
    assert_eq!(shorten("012345"), None);
    assert_eq!(shorten("012345é"), None);
    assert_eq!(shorten("01234é9"), Some("01234é".to_string()));
    let (_, told) = converse(
        &|r| refresh_repo("/w/r", r),
        &[HEAD, URL, ("git rev-parse HEAD", true, "short\n")],
    );
    assert_eq!(told, None);
}
