use slam::command::{Output, Reply, Request};
use slam::create::CreateRun;
use slam::repo::{Change, Repo};

fn ok(stdout: &str) -> Reply {
    Ok(Output { code: Some(0), stdout: stdout.as_bytes().to_vec(), stderr: vec![] })
}

fn failed(stderr: &str) -> Reply {
    Ok(Output { code: Some(1), stdout: vec![], stderr: stderr.as_bytes().to_vec() })
}

fn words(request: &Request) -> String {
    match request {
        Request::Run(i) => format!("{} {}", i.program, i.args.join(" ")),
        Request::Look(path) => format!("look {}", path),
        Request::Read(path) => format!("read {}", path),
        Request::MakeDirs(path) => format!("mkdir {}", path),
        Request::Write(path, text) => format!("write {} {:?}", path, text),
        Request::Remove(path) => format!("remove {}", path),
    }
}

fn example(change: Change, files: &[&str], change_id: &str) -> Repo {
    Repo {
        reposlug: "org/r".to_string(),
        change_id: change_id.to_string(),
        change: Some(change),
        files: files.iter().map(|f| f.to_string()).collect(),
        pr_number: 0,
    }
}

fn substitution() -> Repo {
    example(Change::Sub("old".to_string(), "new".to_string()), &["f"], "x")
}

/// Carries a run out. A request is answered by the first script entry whose words
/// it starts with, and else with an empty success.
fn carry_out(run: &mut CreateRun, script: &[(&str, Reply)]) -> Vec<String> {
    let mut said = vec![];
    while let Some(request) = run.next() {
        let asked = words(&request);
        let mut reply = ok("");
        for (start, answer) in script {
            if asked.starts_with(start) {
                reply = match answer {
                    Ok(o) => Ok(Output {
                        code: o.code,
                        stdout: o.stdout.clone(),
                        stderr: o.stderr.clone(),
                    }),
                    Err(e) => Err(e.clone()),
                };
                break;
            }
        }
        said.push(asked);
        assert!(run.outcome().is_none());
        run.hear(reply);
        assert!(said.len() < 100);
    }
    said
}

fn common() -> Vec<(&'static str, Reply)> {
    vec![
        ("read", ok("old\n")),
        ("git symbolic-ref refs/remotes/origin/HEAD", ok("refs/remotes/origin/main\n")),
        ("git symbolic-ref --short HEAD", ok("main\n")),
        ("git rev-parse HEAD", ok("ba5e\n")),
        ("git rev-parse --verify", failed("")),
        ("git ls-remote", failed("")),
        ("gh pr list", ok("[]")),
        ("gh pr create", ok("https://pr/1\n")),
    ]
}

fn with(first: Vec<(&'static str, Reply)>) -> Vec<(&'static str, Reply)> {
    let mut script = first;
    script.append(&mut common());
    script
}

const REPORT: &str = "org/r\n  M f\n    -   1 | old\n    +   1 | new\n";

#[test]
fn a_run_that_goes_well_ends_in_a_pull_request() {
    colored::control::set_override(false);
    let mut run = substitution().create("/w", 1, &Some("msg".to_string()), false);
    let said = carry_out(&mut run, &common());
    assert_eq!(
        said,
        vec![
            "read /w/org/r/f",
            "git status --porcelain",
            "git diff-index --quiet HEAD --",
            "git symbolic-ref refs/remotes/origin/HEAD",
            "git symbolic-ref --short HEAD",
            "git rev-parse HEAD",
            "git pull",
            "git rev-parse --verify refs/heads/SLAM-x",
            "git ls-remote --exit-code --heads origin refs/heads/SLAM-x",
            "git symbolic-ref --short HEAD",
            "git checkout -B SLAM-x --quiet",
            "read /w/org/r/f",
            "write /w/org/r/f \"new\\n\"",
            "git add .",
            "pre-commit run --all-files",
            "git commit -am msg",
            "git push --set-upstream origin SLAM-x",
            "gh pr list --repo org/r --head SLAM-x --state open --json number --limit 1",
            "gh pr create --title SLAM-x --body msg\n\ndocs: https://github.com/scottidler/slam/blob/main/README.md --base main",
        ]
    );
    assert_eq!(run.outcome(), Some(&Ok(Some(REPORT.to_string()))));
    assert!(run.undo.committed);
}

#[test]
fn a_dry_run_is_undone_and_reported() {
    colored::control::set_override(false);
    let mut run = substitution().create("/w", 1, &None, false);
    let said = carry_out(&mut run, &common());
    assert_eq!(
        said[5..],
        [
            "git rev-parse HEAD",
            "git pull",
            "git rev-parse --verify refs/heads/SLAM-x",
            "git symbolic-ref --short HEAD",
            "git checkout -B SLAM-x --quiet",
            "read /w/org/r/f",
            "write /w/org/r/f \"new\\n\"",
            "git add .",
            "pre-commit run --all-files",
            "git add .",
            "git reset --hard HEAD",
            "git checkout main",
            "git branch -D SLAM-x",
            "git reset --hard ba5e",
        ]
    );
    assert_eq!(run.outcome(), Some(&Ok(Some(REPORT.to_string()))));
}

#[test]
fn a_dry_run_brings_back_the_local_branch_and_leaves_the_remote_alone() {
    let mut run = substitution().create("/w", 1, &None, false);
    let said = carry_out(
        &mut run,
        &with(vec![
            ("git diff-index", failed("")),
            ("git symbolic-ref --short HEAD", ok("feature\n")),
            ("git rev-parse --verify", ok("")),
            ("git rev-parse refs/heads/SLAM-x", ok("c0ffee\n")),
        ]),
    );
    assert!(said.contains(&"git branch -D SLAM-x".to_string()));
    assert_eq!(
        said[said.len() - 8..],
        [
            "git add .",
            "git reset --hard HEAD",
            "git checkout feature",
            "git branch -D SLAM-x",
            "git branch SLAM-x c0ffee",
            "git reset --hard ba5e",
            "git checkout feature",
            "git stash pop stash@{0}",
        ]
    );
    assert!(!said.iter().any(|s| s.contains("push origin") || s.contains("ls-remote")));
    assert!(!said.iter().any(|s| s.starts_with("gh ") || s.starts_with("git commit")));
}

#[test]
fn a_run_without_a_change_ends_at_once() {
    let mut run = substitution().create("/w", 1, &Some("m".to_string()), false);
    let said = carry_out(&mut run, &[("read", ok("nothing to replace\n"))]);
    assert_eq!(said, vec!["read /w/org/r/f"]);
    assert_eq!(run.outcome(), Some(&Ok(None)));

    let run = example(Change::Delete, &[], "x").create("/w", 1, &None, false);
    assert!(run.next().is_none());
    assert_eq!(run.outcome(), Some(&Ok(None)));
}

#[test]
fn untracked_files_end_a_run() {
    let mut run = substitution().create("/w", 1, &Some("m".to_string()), false);
    let said = carry_out(&mut run, &with(vec![("git status", ok("?? new\n"))]));
    assert_eq!(said.len(), 2);
    assert_eq!(
        run.outcome(),
        Some(&Err("Untracked files exist in '/w/org/r'. Aborting.".to_string()))
    );
}

#[test]
fn everything_is_undone_in_reverse_where_the_pull_request_fails() {
    let mut run = substitution().create("/w", 1, &Some("m".to_string()), false);
    let said = carry_out(
        &mut run,
        &with(vec![
            ("git diff-index", failed("")),
            ("git symbolic-ref --short HEAD", ok("feature\n")),
            ("git rev-parse --verify", ok("")),
            ("git rev-parse refs/heads/SLAM-x", ok("c0ffee\n")),
            ("git ls-remote", ok("f00d\trefs/heads/SLAM-x\n")),
            ("gh pr list", ok("[{\"number\":12}]")),
            ("gh pr create", failed("no")),
        ]),
    );
    let start = said.iter().position(|s| s.starts_with("gh pr create")).unwrap();
    assert_eq!(
        said[start + 1..],
        [
            "gh pr reopen 12 --repo org/r",
            "git push origin :SLAM-x",
            "git reset --soft HEAD~1",
            "git add .",
            "git reset --hard HEAD",
            "git checkout feature",
            "git branch -D SLAM-x",
            "git push origin f00d:refs/heads/SLAM-x",
            "gh pr reopen 12 --repo org/r",
            "git branch SLAM-x c0ffee",
            "git reset --hard ba5e",
            "git checkout feature",
            "git stash pop stash@{0}",
        ]
    );
    assert_eq!(
        run.outcome(),
        Some(&Err("Failed to create PR for repo 'org/r'".to_string()))
    );
    assert!(said.len() <= 4 + 44);
}

#[test]
fn a_push_that_is_rejected_undoes_the_run() {
    let mut run = substitution().create("/w", 1, &Some("m".to_string()), false);
    let said = carry_out(&mut run, &with(vec![("git push --set-upstream", failed("rejected"))]));
    let start = said.iter().position(|s| s.starts_with("git push --set-upstream")).unwrap();
    assert_eq!(
        said[start + 1..],
        [
            "git reset --soft HEAD~1",
            "git add .",
            "git reset --hard HEAD",
            "git checkout main",
            "git branch -D SLAM-x",
            "git reset --hard ba5e",
        ]
    );
    assert_eq!(
        run.outcome(),
        Some(&Err("Failed to push branch 'SLAM-x' in '/w/org/r': rejected".to_string()))
    );
}

#[test]
fn a_remote_branch_that_cannot_be_deleted_undoes_the_run() {
    let mut run = substitution().create("/w", 1, &Some("m".to_string()), false);
    let said = carry_out(
        &mut run,
        &with(vec![
            ("git ls-remote", ok("f00d\trefs/heads/SLAM-x\n")),
            ("git push origin :SLAM-x", failed("protected")),
        ]),
    );
    assert_eq!(
        said[said.len() - 3..],
        [
            "gh pr list --repo org/r --head SLAM-x --state open --json number --limit 1",
            "git push origin :SLAM-x",
            "git reset --hard ba5e",
        ]
    );
    assert_eq!(
        run.outcome(),
        Some(&Err("Failed to delete remote branch 'SLAM-x' in '/w/org/r': protected".to_string()))
    );
}

#[test]
fn each_file_is_written_before_the_next_is_read() {
    let sub = Change::Sub("a".to_string(), "aa".to_string());
    let repo = example(sub, &["f", "link", "other"], "x");
    let mut run = repo.create("/w", 1, &Some("m".to_string()), false);
    let mut held = "a\n".to_string();
    let mut touched = vec![];
    while let Some(request) = run.next() {
        let asked = words(&request);
        let reply = match &request {
            Request::Read(path) if path == "/w/org/r/other" => ok("nothing\n"),
            Request::Read(_) => ok(&held),
            Request::Write(_, text) => {
                held = text.clone();
                ok("")
            }
            _ if asked.starts_with("git symbolic-ref refs") => ok("refs/remotes/origin/main\n"),
            _ if asked.starts_with("git symbolic-ref") => ok("main\n"),
            _ if asked.starts_with("git rev-parse --verify") => failed(""),
            _ if asked.starts_with("git ls-remote") => failed(""),
            _ if asked.starts_with("gh pr list") => ok("[]"),
            _ if asked.starts_with("gh pr create") => ok("https://pr/1\n"),
            _ => ok(""),
        };
        if !matches!(request, Request::Run(_)) {
            touched.push(asked);
        }
        run.hear(reply);
    }
    assert_eq!(
        touched[3..],
        [
            "read /w/org/r/f",
            "write /w/org/r/f \"aa\\n\"",
            "read /w/org/r/link",
            "write /w/org/r/link \"aaaa\\n\"",
            "read /w/org/r/other",
        ]
    );
    assert_eq!(held, "aaaa\n");
    assert!(matches!(run.outcome(), Some(Ok(Some(_)))));
}

#[test]
fn files_that_cannot_be_changed_are_passed_over() {
    let mut run = substitution().create("/w", 1, &None, false);
    carry_out(&mut run, &with(vec![("write", Err("read-only".to_string()))]));
    assert!(matches!(run.outcome(), Some(Ok(Some(_)))));
}

#[test]
fn a_new_file_that_cannot_be_written_is_complained_of() {
    let repo = example(Change::Add("d/n.txt".to_string(), "text".to_string()), &[], "x");
    let mut run = repo.create("/w", 1, &None, false);
    let mut complaints = vec![];
    while let Some(request) = run.next() {
        let asked = words(&request);
        let mut reply = ok("");
        if asked.starts_with("mkdir") || asked.starts_with("write") {
            reply = Err("full".to_string());
        } else if asked.starts_with("git symbolic-ref refs") {
            reply = ok("refs/remotes/origin/main\n");
        } else if asked.starts_with("git symbolic-ref --short") {
            reply = ok("main\n");
        }
        if let Some(complaint) = run.complaint(&reply) {
            complaints.push(complaint);
        }
        run.hear(reply);
    }
    assert_eq!(
        complaints,
        vec![
            "failed to create directories for /w/org/r/d/n.txt: full",
            "failed to write /w/org/r/d/n.txt: full",
        ]
    );

    let mut run = substitution().create("/w", 1, &None, false);
    while let Some(request) = run.next() {
        let reply = if words(&request).starts_with("read") { ok("old\n") } else { ok("main\n") };
        assert!(run.complaint(&Err("no".to_string())).is_none());
        run.hear(if words(&request).starts_with("git status") { ok("") } else { reply });
    }
}

#[test]
fn a_failure_in_the_middle_undoes_what_was_done_by_then() {
    let mut run = substitution().create("/w", 1, &Some("m".to_string()), false);
    let said =
        carry_out(&mut run, &with(vec![("git diff-index", failed("")), ("git pull", failed("x"))]));
    assert_eq!(said.last().unwrap(), "git stash pop stash@{0}");
    assert_eq!(run.outcome(), Some(&Err("Failed to pull changes: x".to_string())));
}

#[test]
fn failing_to_undo_does_not_stop_the_rest() {
    let mut run = substitution().create("/w", 1, &Some("m".to_string()), false);
    let said = carry_out(
        &mut run,
        &with(vec![
            ("git commit", failed("x")),
            ("git reset --hard", failed("y")),
            ("git checkout main", failed("z")),
            ("git branch -D", failed("w")),
        ]),
    );
    assert_eq!(
        said[said.len() - 5..],
        [
            "git add .",
            "git reset --hard HEAD",
            "git checkout main",
            "git branch -D SLAM-x",
            "git reset --hard ba5e",
        ]
    );
    assert_eq!(run.outcome(), Some(&Err("Failed to commit changes: x".to_string())));
}

#[test]
fn old_branches_and_pull_requests_make_room() {
    let repo = example(
        Change::Add("d/n.txt".to_string(), "text".to_string()),
        &[],
        "SLAM-given",
    );
    let mut run = repo.create("/w", 1, &Some("m".to_string()), false);
    let said = carry_out(
        &mut run,
        &with(vec![
            ("git rev-parse --verify refs/heads/SLAM-given", ok("")),
            ("git ls-remote", ok("f00d\trefs/heads/SLAM-given\n")),
            ("gh pr list", ok("[{\"number\":12}]")),
        ]),
    );
    assert!(said.contains(&"git branch -D SLAM-given".to_string()));
    assert!(said.contains(&"git push origin :SLAM-given".to_string()));
    assert!(said.contains(&"mkdir /w/org/r/d".to_string()));
    let at = said.iter().position(|s| s == "write /w/org/r/d/n.txt \"text\\n\"").unwrap();
    assert_eq!(said[at + 1], "git add .");
    assert!(said.iter().any(|s| s.starts_with("gh pr close 12 ")));
    assert!(matches!(run.outcome(), Some(Ok(Some(_)))));
}

#[test]
fn deleted_files_are_removed() {
    let repo = example(Change::Delete, &["a", "b"], "SLAM");
    let mut run = repo.create("/w", 1, &Some("m".to_string()), false);
    let said = carry_out(&mut run, &common());
    let at = said.iter().position(|s| s == "remove /w/org/r/a").unwrap();
    assert_eq!(
        said[at - 2..at + 3],
        [
            "read /w/org/r/a",
            "read /w/org/r/b",
            "remove /w/org/r/a",
            "remove /w/org/r/b",
            "git add .",
        ]
    );
    assert!(said.contains(&"git checkout -B SLAM --quiet".to_string()));
}

#[test]
fn hooks_that_keep_failing_undo_the_run() {
    let mut run = substitution().create("/w", 1, &Some("m".to_string()), false);
    let said = carry_out(&mut run, &with(vec![("pre-commit", failed("lint"))]));
    assert_eq!(said.iter().filter(|s| s.starts_with("pre-commit")).count(), 3);
    assert_eq!(
        said[said.len() - 5..],
        [
            "git add .",
            "git reset --hard HEAD",
            "git checkout main",
            "git branch -D SLAM-x",
            "git reset --hard ba5e",
        ]
    );
    assert!(matches!(run.outcome(), Some(Err(_))));
    assert!(said.len() <= 4 + 44);
}

#[test]
fn a_repository_at_another_branch_is_switched_first() {
    let mut run = substitution().create("/w", 1, &None, true);
    let said = carry_out(
        &mut run,
        &with(vec![("git symbolic-ref --short HEAD", ok("feature\n"))]),
    );
    let at = said.iter().position(|s| s == "git checkout main").unwrap();
    assert_eq!(said[at + 1..at + 3], ["git rev-parse HEAD", "git pull"]);
    assert_eq!(
        said[said.len() - 4..],
        [
            "git checkout feature",
            "git branch -D SLAM-x",
            "git reset --hard ba5e",
            "git checkout feature",
        ]
    );
    assert_eq!(run.outcome(), Some(&Ok(Some("org/r\n  >< f\n".to_string()))));
}
