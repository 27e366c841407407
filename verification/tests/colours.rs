//! Outputs in colour. Whether colours show is one setting for all that runs at the
//! same time, so these tests stand apart from those without colours.
use slam::command::{Output, Reply, Request, Step};
use slam::diff::generate_diff;
use slam::sandbox::{format_status, generate_clone_status, refresh_repo};

fn ok(stdout: &str) -> Reply {
    Ok(Output { code: Some(0), stdout: stdout.as_bytes().to_vec(), stderr: vec![] })
}

fn failed(stderr: &str) -> Reply {
    Ok(Output { code: Some(1), stdout: vec![], stderr: stderr.as_bytes().to_vec() })
}

type Told = Option<Result<String, String>>;

fn words(request: &Request) -> String {
    match request {
        Request::Run(i) => format!("{} {}", i.program, i.args.join(" ")),
        Request::Look(path) => format!("look {}", path),
        _ => panic!("nothing is edited here"),
    }
}

/// Carries a conversation out. A request is answered by the first script entry
/// whose words it starts with, and else with an empty success.
fn converse(
    talk: &dyn Fn(&[Reply]) -> Step<Told>,
    script: &[(&str, bool, &str)],
) -> (Vec<String>, Told) {
    let mut said = vec![];
    let mut replies: Vec<Reply> = vec![];
    loop {
        match talk(&replies) {
            Step::Ask(request) => {
                let asked = words(&request);
                let mut reply = ok("");
                for (start, good, out) in script {
                    if asked.starts_with(start) {
                        reply = if *good { ok(out) } else { failed(out) };
                        break;
                    }
                }
                said.push(asked);
                replies.push(reply);
            }
            Step::Done(told, n) => {
                assert_eq!(n, replies.len());
                return (said, told);
            }
        }
    }
}

const HEAD: (&str, bool, &str) =
    ("git symbolic-ref refs/remotes/origin/HEAD", true, "refs/remotes/origin/main\n");
const URL: (&str, bool, &str) =
    ("git config --get remote.origin.url", true, "git@github.com:tatari-tv/test-repo.git\n");
const SHA: (&str, bool, &str) = ("git rev-parse HEAD", true, "abc1234def\n");

#[test]
fn a_diff_is_coloured_where_colours_show() {
    colored::control::set_override(true);
    assert_eq!(
        generate_diff("a\nb\n", "a\nc\n", 1),
        "\x1B[2m    1\x1B[0m | \x1B[2ma\x1B[0m\n\
         \x1B[31m-   2\x1B[0m | \x1B[31mb\x1B[0m\n\
         \x1B[32m+   2\x1B[0m | \x1B[32mc\x1B[0m\n"
    );
}

#[test]
fn a_tone_is_taken_up_after_a_reset() {
    colored::control::set_override(true);
    assert_eq!(
        generate_diff("a\x1B[0mb", "", 1),
        "\x1B[31m-   1\x1B[0m | \x1B[31ma\x1B[0m\x1B[31mb\x1B[0m\n"
    );
}

#[test]
fn test_generate_clone_status_format() {
    colored::control::set_override(true);
    let (said, told) = converse(&|r| generate_clone_status("/w/r", r), &[HEAD, URL, SHA]);
    assert_eq!(
        told,
        Some(Ok("\x1B[35m  main\x1B[0m \x1B[1;32mabc1234\x1B[0m 📥 tatari-tv/test-repo".to_string()))
    );
    assert_eq!(
        said,
        vec![
            "git symbolic-ref refs/remotes/origin/HEAD",
            "git rev-parse HEAD",
            "look /w/r/.pre-commit-config.yaml",
            "pre-commit install",
            "look /w/r/.git/hooks/pre-commit",
            "git config --get remote.origin.url",
        ]
    );
    assert_eq!(format_status("  main", "sha", "x", "o/r"), "  main sha x o/r");
}

#[test]
fn an_unchanged_commit_is_dimmed_and_a_new_one_is_bold() {
    colored::control::set_override(true);
    let replies = |before: &str, after: &str| {
        vec![
            ok(""),
            ok(""),
            ok("refs/remotes/origin/trunk\n"),
            ok(before),
            ok(""),
            ok(""),
            ok(""),
            ok(after),
            failed(""),
            ok("git@github.com:o/r.git"),
        ]
    };
    match refresh_repo("/w/r", &replies("1234567a", "1234567a")) {
        Step::Done(told, _) => assert_eq!(
            told,
            Some(Ok("\x1B[35m trunk\x1B[0m \x1B[2m1234567\x1B[0m ❓ o/r".to_string()))
        ),
        Step::Ask(_) => panic!("no result yet"),
    }
    match refresh_repo("/w/r", &replies("1234567a", "7654321a")) {
        Step::Done(told, _) => assert_eq!(
            told,
            Some(Ok("\x1B[35m trunk\x1B[0m \x1B[1;32m7654321\x1B[0m ❓ o/r".to_string()))
        ),
        Step::Ask(_) => panic!("no result yet"),
    }
}
