use slam::cli::ReviewAction;
use slam::command::{Output, Reply, Request};
use slam::commands::{
    pr_requests, process_create_command, process_review_command, CreatePlan, Discovered, ReviewNews,
    ReviewStage,
};
use slam::repo::Change;

fn ok(stdout: &str) -> Reply {
    Ok(Output { code: Some(0), stdout: stdout.as_bytes().to_vec(), stderr: vec![] })
}

fn texts(items: &[&str]) -> Vec<String> {
    items.iter().map(|s| s.to_string()).collect()
}

fn clone_at(path: &str, found: &[&str]) -> Discovered {
    let entries = found.iter().map(|f| Ok(format!("{}/{}", path, f))).collect();
    Discovered { path: path.to_string(), found: vec![Ok(entries)] }
}

#[test]
fn without_a_change_repositories_are_listed() {
    let clones = vec![
        clone_at("/w/org/b", &["y"]),
        clone_at("/w/org/a", &["x", "w"]),
        clone_at("/w/org/c", &[]),
        Discovered { path: "/w/org/d".to_string(), found: vec![Err("bad pattern".to_string())] },
        clone_at("/elsewhere", &["z"]),
    ];
    let plan = process_create_command(true, "x", &vec![], &None, "/w", &clones);
    match plan {
        CreatePlan::Listing(lines) => assert_eq!(
            lines,
            vec![
                "Matched repositories:",
                "  org/a",
                "    w",
                "    x",
                "  org/b",
                "    y",
                "\n  2📄 | 3🔍"
            ]
        ),
        CreatePlan::Work(_) => panic!("there is no change"),
    }
}

#[test]
fn a_change_is_made_to_the_repositories_selected() {
    let clones = vec![
        Discovered { path: "/w/org/b".to_string(), found: vec![] },
        Discovered { path: "/w/org/a".to_string(), found: vec![] },
    ];
    let change = Some(Change::Add("f".to_string(), "text".to_string()));
    let plan = process_create_command(false, "id", &texts(&["a"]), &change, "/w", &clones);
    match plan {
        CreatePlan::Work(s) => {
            assert_eq!(s.repos.len(), 1);
            assert_eq!(s.repos[0].reposlug, "org/a");
            assert_eq!(s.repos[0].change_id, "id");
            assert!(matches!(s.repos[0].change, Some(Change::Add(_, _))));
            assert_eq!(s.status, "1📝 | 1📦 | 2🔍");
        }
        CreatePlan::Listing(_) => panic!("there is a change"),
    }
}

fn slugs_of(stage: &ReviewStage) -> Vec<String> {
    match stage {
        ReviewStage::Asking { slugs } => slugs.clone(),
        ReviewStage::Summing { repos } | ReviewStage::Working { repos } => {
            repos.iter().map(|r| r.reposlug.clone()).collect()
        }
        _ => vec![],
    }
}

const PRS: &str = "[{\"title\":\"SLAM-1\",\"number\":7}]";

#[test]
fn a_review_goes_from_stage_to_stage() {
    let clone = ReviewAction::Clone { change_id: "SLAM-1".to_string(), all: false };
    let ptns = texts(&["o/*"]);
    let found = ReviewNews::Repos(Ok(texts(&["o/a", "p/x", "o/b"])));
    let (stage, lines) = process_review_command(&clone, &ptns, ReviewStage::Listing, found);
    assert!(matches!(stage, ReviewStage::Asking { .. }));
    assert_eq!(slugs_of(&stage), vec!["o/a", "o/b"]);
    assert!(lines.is_empty());

    let answers = ReviewNews::Answers(vec![ok(PRS), ok(PRS)]);
    let (stage, lines) = process_review_command(&clone, &ptns, stage, answers);
    assert!(matches!(stage, ReviewStage::Summing { .. }));
    assert_eq!(slugs_of(&stage), vec!["o/a", "o/b"]);
    assert_eq!(lines, vec!["Summary:"]);

    let said = ReviewNews::Said(vec![Ok("fine".to_string()), Err("bad".to_string())]);
    let (stage, lines) = process_review_command(&clone, &ptns, stage, said);
    assert!(matches!(stage, ReviewStage::Working { .. }));
    assert_eq!(lines, vec!["  fine", "  Error: bad", ""]);

    let said = ReviewNews::Said(vec![Ok("fine".to_string()), Err("bad".to_string())]);
    let (stage, lines) = process_review_command(&clone, &ptns, stage, said);
    assert!(matches!(stage, ReviewStage::Over { result: Ok(()) }));
    assert_eq!(lines, vec!["fine", "Error processing o/b: bad", ""]);
}

#[test]
fn a_listing_has_no_summary() {
    let ls = ReviewAction::Ls { change_id_ptns: vec![], buffer: 1 };
    let stage = ReviewStage::Asking { slugs: texts(&["o/a", "o/b"]) };
    let answers = ReviewNews::Answers(vec![ok(PRS), ok(PRS)]);
    let (stage, lines) = process_review_command(&ls, &vec![], stage, answers);
    assert!(matches!(stage, ReviewStage::Working { .. }));
    assert!(lines.is_empty());
    let said = ReviewNews::Said(vec![Ok("a".to_string()), Ok("b".to_string())]);
    let (stage, lines) = process_review_command(&ls, &vec![], stage, said);
    assert!(matches!(stage, ReviewStage::Over { result: Ok(()) }));
    assert_eq!(lines, vec!["a", "b"]);
}

#[test]
fn a_purge_asks_for_no_pull_requests() {
    let purge = ReviewAction::Purge {};
    let ptns = texts(&[""]);
    let found = ReviewNews::Repos(Ok(texts(&["o/a", "o/b"])));
    let (stage, lines) = process_review_command(&purge, &ptns, ReviewStage::Listing, found);
    assert!(matches!(stage, ReviewStage::Summing { .. }));
    assert_eq!(lines, vec!["Summary:"]);
    let said = ReviewNews::Said(vec![Ok("a".to_string()), Ok("b".to_string())]);
    let (stage, lines) = process_review_command(&purge, &ptns, stage, said);
    assert!(matches!(stage, ReviewStage::Over { result: Ok(()) }));
    assert_eq!(lines, vec!["  a", "  b", ""]);

    let found = ReviewNews::Repos(Ok(texts(&["o/a"])));
    let (stage, lines) = process_review_command(&purge, &ptns, ReviewStage::Listing, found);
    assert!(matches!(stage, ReviewStage::Summing { .. }));
    assert_eq!(slugs_of(&stage), vec!["o/a"]);
    assert_eq!(lines, vec!["Summary:"]);
    let said = ReviewNews::Said(vec![Ok("a".to_string())]);
    let (stage, lines) = process_review_command(&purge, &ptns, stage, said);
    assert!(matches!(stage, ReviewStage::Over { result: Ok(()) }));
    assert_eq!(lines, vec!["  a", ""]);
}

#[test]
fn a_review_of_one_repository_acts() {
    let approve =
        ReviewAction::Approve { change_id: "SLAM-1".to_string(), admin_override: false };
    let delete = ReviewAction::Delete { change_id: "SLAM-1".to_string() };
    for action in [approve, delete] {
        let stage = ReviewStage::Asking { slugs: texts(&["o/a"]) };
        let answers = ReviewNews::Answers(vec![ok(PRS)]);
        let (stage, _) = process_review_command(&action, &vec![], stage, answers);
        assert!(matches!(stage, ReviewStage::Summing { .. }));
        assert_eq!(slugs_of(&stage), vec!["o/a"]);
    }
    let clone = ReviewAction::Clone { change_id: "SLAM-1".to_string(), all: false };
    let stage = ReviewStage::Asking { slugs: texts(&["o/a"]) };
    let answers = ReviewNews::Answers(vec![ok(PRS)]);
    let (stage, lines) = process_review_command(&clone, &vec![], stage, answers);
    assert!(matches!(stage, ReviewStage::Working { .. }));
    assert!(lines.is_empty());
}

#[test]
fn only_a_clone_of_all_asks_for_closed_pull_requests() {
    let states = |action: &ReviewAction| -> Vec<String> {
        pr_requests(action, &texts(&["o/a", "o/b"]))
            .into_iter()
            .map(|request| match request {
                Request::Run(i) => format!("{} {}", i.args[3], i.args[5]),
                _ => panic!("no run"),
            })
            .collect()
    };
    let clone = |all: bool| ReviewAction::Clone { change_id: "SLAM-1".to_string(), all };
    assert_eq!(states(&clone(true)), vec!["o/a all", "o/b all"]);
    assert_eq!(states(&clone(false)), vec!["o/a open", "o/b open"]);
    let delete = ReviewAction::Delete { change_id: "SLAM-1".to_string() };
    assert_eq!(states(&delete), vec!["o/a open", "o/b open"]);
}

#[test]
fn a_review_of_nothing_says_so() {
    let delete = ReviewAction::Delete { change_id: "none".to_string() };
    let stage = ReviewStage::Asking { slugs: texts(&["o/a"]) };
    let answers = ReviewNews::Answers(vec![ok(PRS)]);
    let (stage, lines) = process_review_command(&delete, &vec![], stage, answers);
    assert!(matches!(stage, ReviewStage::Over { result: Ok(()) }));
    assert_eq!(lines, vec!["No repositories with matching PRs found."]);

    let failed = ReviewNews::Repos(Err("no gh".to_string()));
    let (stage, lines) =
        process_review_command(&delete, &vec![], ReviewStage::Listing, failed);
    assert!(matches!(stage, ReviewStage::Over { result: Err(e) } if e == "no gh"));
    assert!(lines.is_empty());
}
