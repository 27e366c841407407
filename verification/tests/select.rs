use slam::cli::ReviewAction;
use slam::repo::Repo;
use slam::select::{
    advice_lines, advice_on, count_line, extract_reponame, filter_repos_by_spec, filter_slugs,
    list_selection, needs_prs, output_of, pick_slugs, report_outcomes, review_rounds, select_repos,
    select_targets, summary_of, Advice,
};

// Helper function to create test repos
fn create_test_repo(reposlug: &str) -> Repo {
    Repo {
        reposlug: reposlug.to_string(),
        change_id: "test-change".to_string(),
        change: None,
        files: vec![],
        pr_number: 0,
    }
}

fn texts(items: &[&str]) -> Vec<String> {
    items.iter().map(|s| s.to_string()).collect()
}

#[test]
fn test_extract_reponame() {
    assert_eq!(extract_reponame("org/repo"), "repo");
    assert_eq!(extract_reponame("tatari-tv/frontend"), "frontend");
    assert_eq!(extract_reponame("single"), "single");
    assert_eq!(extract_reponame(""), "");
    assert_eq!(extract_reponame("a/b/c"), "b"); // Only gets first split
}

#[test]
fn test_extract_reponame_edge_cases() {
    assert_eq!(extract_reponame("/repo"), "repo");
    assert_eq!(extract_reponame("org/"), "");
    assert_eq!(extract_reponame("/"), "");
}

#[test]
fn test_filter_repos_by_spec_empty() {
    let repos = vec![create_test_repo("org/repo1"), create_test_repo("org/repo2")];

    let result = filter_repos_by_spec(repos.clone(), &vec![]);
    assert_eq!(result.len(), 2);
    assert_eq!(result[0].reposlug, "org/repo1");
    assert_eq!(result[1].reposlug, "org/repo2");
}

#[test]
fn test_filter_repos_by_spec_exact_match() {
    let repos = vec![
        create_test_repo("org/frontend"),
        create_test_repo("org/backend"),
        create_test_repo("org/mobile"),
    ];

    let specs = vec!["frontend".to_string()];
    let result = filter_repos_by_spec(repos, &specs);

    assert_eq!(result.len(), 1);
    assert_eq!(result[0].reposlug, "org/frontend");
}

#[test]
fn test_filter_repos_by_spec_starts_with() {
    let repos = vec![
        create_test_repo("org/frontend-web"),
        create_test_repo("org/frontend-mobile"),
        create_test_repo("org/backend"),
    ];

    let specs = vec!["front".to_string()];
    let result = filter_repos_by_spec(repos, &specs);

    assert_eq!(result.len(), 2);
    assert!(result.iter().any(|r| r.reposlug == "org/frontend-mobile"));
    assert!(result.iter().any(|r| r.reposlug == "org/frontend-web"));
}

#[test]
fn test_filter_repos_by_spec_full_slug_exact() {
    let repos = vec![create_test_repo("org1/repo"), create_test_repo("org2/repo")];

    let specs = vec!["org1/repo".to_string()];
    let result = filter_repos_by_spec(repos, &specs);

    assert_eq!(result.len(), 1);
    assert_eq!(result[0].reposlug, "org1/repo");
}

#[test]
fn test_filter_repos_by_spec_full_slug_starts_with() {
    let repos = vec![
        create_test_repo("tatari-tv/frontend"),
        create_test_repo("tatari-tv/backend"),
        create_test_repo("other-org/frontend"),
    ];

    let specs = vec!["tatari".to_string()];
    let result = filter_repos_by_spec(repos, &specs);

    assert_eq!(result.len(), 2);
    assert!(result.iter().any(|r| r.reposlug == "tatari-tv/backend"));
    assert!(result.iter().any(|r| r.reposlug == "tatari-tv/frontend"));
}

#[test]
fn test_filter_repos_by_spec_multiple_specs() {
    let repos = vec![
        create_test_repo("org/frontend"),
        create_test_repo("org/backend"),
        create_test_repo("org/mobile"),
        create_test_repo("org/docs"),
    ];

    let specs = vec!["frontend".to_string(), "backend".to_string()];
    let result = filter_repos_by_spec(repos, &specs);

    assert_eq!(result.len(), 2);
    assert!(result.iter().any(|r| r.reposlug == "org/backend"));
    assert!(result.iter().any(|r| r.reposlug == "org/frontend"));
}

#[test]
fn test_filter_repos_by_spec_sorting() {
    let repos = vec![
        create_test_repo("org/zebra"),
        create_test_repo("org/alpha"),
        create_test_repo("org/beta"),
    ];

    let result = filter_repos_by_spec(repos, &vec![]);

    // Should be sorted alphabetically by reposlug
    assert_eq!(result[0].reposlug, "org/alpha");
    assert_eq!(result[1].reposlug, "org/beta");
    assert_eq!(result[2].reposlug, "org/zebra");
}

#[test]
fn an_earlier_level_shadows_the_later_ones() {
    let repos = vec![
        create_test_repo("org/app"),
        create_test_repo("org/app-web"),
        create_test_repo("app/other"),
    ];
    let slugs = |found: Vec<Repo>| -> Vec<String> {
        found.into_iter().map(|r| r.reposlug).collect()
    };
    assert_eq!(slugs(filter_repos_by_spec(repos.clone(), &texts(&["app"]))), vec!["org/app"]);
    assert_eq!(
        slugs(filter_repos_by_spec(repos.clone(), &texts(&["ap"]))),
        vec!["org/app", "org/app-web"]
    );
    assert_eq!(slugs(filter_repos_by_spec(repos.clone(), &texts(&["app/"]))), vec!["app/other"]);
    assert!(filter_repos_by_spec(repos, &texts(&["none"])).is_empty());
}

#[test]
fn sorting_keeps_the_order_of_equal_slugs() {
    let mut first = create_test_repo("org/a");
    first.pr_number = 1;
    let mut second = create_test_repo("org/a");
    second.pr_number = 2;
    let sorted = filter_repos_by_spec(vec![create_test_repo("org/é"), first, second], &vec![]);
    let numbers: Vec<u64> = sorted.iter().map(|r| r.pr_number).collect();
    assert_eq!(numbers, vec![1, 2, 0]);
}

#[test]
fn main_test_emoji_constants() {
    // Test the emoji constants used to count repositories
    let total_emoji = "🔍";
    let repos_emoji = "📦";
    let files_emoji = "📄";
    let diffs_emoji = "📝";

    assert_eq!(count_line(1, None, None, None), format!("1{}", total_emoji));
    assert_eq!(
        count_line(4, Some(3), Some(2), Some(1)),
        format!("1{} | 2{} | 3{} | 4{}", diffs_emoji, files_emoji, repos_emoji, total_emoji)
    );
    assert_eq!(count_line(4, None, Some(0), None), "0📄 | 4🔍");
}

#[test]
fn a_selection_is_counted_and_listed() {
    let mut a = create_test_repo("org/a");
    a.files = texts(&["x", "y"]);
    let all = vec![create_test_repo("org/b"), a, create_test_repo("org/c")];

    let s = select_repos(all.clone(), &vec![], true, false);
    assert_eq!(s.status, "1📄 | 3🔍");
    assert_eq!(
        list_selection(&s, true),
        vec!["Matched repositories:", "  org/a", "    x", "    y", "\n  1📄 | 3🔍"]
    );

    let s = select_repos(all.clone(), &texts(&["a", "b"]), false, true);
    assert_eq!(s.status, "2📝 | 2📦 | 3🔍");
    assert_eq!(
        list_selection(&s, false),
        vec!["Matched repositories:", "  org/a", "  org/b", "\n  2📝 | 2📦 | 3🔍"]
    );

    let s = select_repos(all, &texts(&["zzz"]), false, false);
    assert_eq!(list_selection(&s, false), vec!["No repositories matched your criteria."]);
}

#[test]
fn outcomes_are_reported_apart_from_errors() {
    let outcomes =
        vec![Ok(Some("one".to_string())), Err("bad".to_string()), Ok(None), Ok(Some("two".to_string()))];
    let (errors, lines) = report_outcomes(&outcomes, "3🔍");
    assert_eq!(errors, vec!["Error: bad"]);
    assert_eq!(lines, vec!["one", "two", "  3🔍"]);
}

#[test]
fn slugs_are_matched_with_wildcards() {
    let slugs = texts(&["org/app-web", "org/app-api", "org/docs"]);
    assert_eq!(filter_slugs(slugs.clone(), &texts(&["", " "])), slugs);
    assert_eq!(filter_slugs(slugs.clone(), &vec![]), slugs);
    assert_eq!(
        filter_slugs(slugs.clone(), &texts(&["org/app-*"])),
        vec!["org/app-web", "org/app-api"]
    );
    assert_eq!(filter_slugs(slugs.clone(), &texts(&["*doc?", "[bad"])), vec!["org/docs"]);
    assert!(filter_slugs(slugs.clone(), &texts(&["app-web"])).is_empty());
    assert!(filter_slugs(slugs.clone(), &texts(&["***"])).is_empty());
    assert_eq!(pick_slugs(&slugs, &vec![true, false, true]), vec!["org/app-web", "org/docs"]);
}

fn groups() -> Vec<(String, Vec<(String, u64, String)>)> {
    let pr = |slug: &str, n: u64| (slug.to_string(), n, "me".to_string());
    vec![
        ("SLAM-1".to_string(), vec![pr("org/a", 1), pr("org/b", 2)]),
        ("SLAM-10".to_string(), vec![pr("org/c", 3)]),
        ("other".to_string(), vec![pr("org/a", 4)]),
    ]
}

#[test]
fn a_review_is_about_the_titles_it_names() {
    let slugs = texts(&["org/a", "org/b"]);
    let picked = |action: &ReviewAction| -> Vec<(String, String, u64)> {
        select_targets(action, &groups(), &slugs)
            .into_iter()
            .map(|r| (r.reposlug, r.change_id, r.pr_number))
            .collect()
    };
    let target = |slug: &str, id: &str, n: u64| (slug.to_string(), id.to_string(), n);

    let ls = ReviewAction::Ls { change_id_ptns: texts(&["SLAM"]), buffer: 1 };
    assert_eq!(
        picked(&ls),
        vec![target("org/a", "SLAM-1", 1), target("org/b", "SLAM-1", 2), target("org/c", "SLAM-10", 3)]
    );
    assert_eq!(picked(&ReviewAction::Ls { change_id_ptns: vec![], buffer: 1 }).len(), 4);
    let clone = ReviewAction::Clone { change_id: "SLAM-1".to_string(), all: true };
    assert_eq!(picked(&clone).len(), 2);
    let approve =
        ReviewAction::Approve { change_id: "SLAM-10".to_string(), admin_override: true };
    assert_eq!(picked(&approve), vec![target("org/c", "SLAM-10", 3)]);
    let delete = ReviewAction::Delete { change_id: "SLAM".to_string() };
    assert!(picked(&delete).is_empty());
    assert_eq!(
        picked(&ReviewAction::Purge {}),
        vec![target("org/a", "SLAM", 0), target("org/b", "SLAM", 0)]
    );
    assert!(!needs_prs(&ReviewAction::Purge {}));
    assert!(needs_prs(&delete));
}

#[test]
fn cloning_closed_pull_requests_too_names_each_repository_once() {
    let pr = |slug: &str, n: u64| (slug.to_string(), n, "me".to_string());
    let found = vec![(
        "SLAM-1".to_string(),
        vec![pr("org/a", 9), pr("org/a", 4), pr("org/b", 2)],
    )];
    let numbers = |all: bool| -> Vec<u64> {
        let clone = ReviewAction::Clone { change_id: "SLAM-1".to_string(), all };
        select_targets(&clone, &found, &vec![]).into_iter().map(|r| r.pr_number).collect()
    };
    assert_eq!(numbers(true), vec![9, 2]);
    assert_eq!(numbers(false), vec![9, 4, 2]);
}

#[test]
fn patterns_with_backslashes_do_not_disturb_the_others() {
    let slugs = texts(&["org/app-web", "org/docs"]);
    assert_eq!(filter_slugs(slugs, &texts(&["a\\b", "*docs"])), vec!["org/docs"]);
}

#[test]
fn rounds_of_a_review() {
    let ls = ReviewAction::Ls { change_id_ptns: vec![], buffer: 1 };
    let clone = ReviewAction::Clone { change_id: "x".to_string(), all: false };
    let delete = ReviewAction::Delete { change_id: "x".to_string() };
    assert_eq!(review_rounds(&ls, 5), (false, true));
    assert_eq!(review_rounds(&clone, 1), (false, true));
    assert_eq!(review_rounds(&clone, 2), (true, true));
    assert_eq!(review_rounds(&delete, 2), (true, false));
    assert_eq!(review_rounds(&delete, 1), (true, false));
    let approve = ReviewAction::Approve { change_id: "x".to_string(), admin_override: false };
    assert_eq!(review_rounds(&approve, 1), (true, false));
    assert_eq!(review_rounds(&ReviewAction::Purge {}, 1), (true, false));
}

#[test]
fn what_is_said_of_a_review() {
    let repo = create_test_repo("org/a");
    assert_eq!(summary_of(&Ok("fine".to_string())), "  fine");
    assert_eq!(summary_of(&Err("bad".to_string())), "  Error: bad");
    assert_eq!(output_of(&repo, &Ok("fine".to_string())), "fine");
    assert_eq!(output_of(&repo, &Err("bad".to_string())), "Error processing org/a: bad");
}

#[test]
fn errors_come_with_advice() {
    assert_eq!(advice_on("x: Failed to parse open PRs JSON for y"), Advice::Json);
    assert_eq!(advice_on("invalid type: map, expected u64 at line 1"), Advice::Json);
    assert_eq!(advice_on("Failed to list open PRs for repo 'r'"), Advice::Access);
    assert_eq!(advice_on("Failed to list remote branches for repo 'r'"), Advice::Access);
    assert_eq!(advice_on("something else"), Advice::Plain);
    assert_eq!(
        advice_lines("x"),
        vec![
            "Error: x",
            "",
            "💡 For detailed troubleshooting information, run with debug logging:",
            "   RUST_LOG=debug slam [your command]",
        ]
    );
    assert_eq!(advice_lines("Failed to list open PRs").len(), 7);
    assert_eq!(advice_lines("Failed to parse open PRs JSON").len(), 8);
}
