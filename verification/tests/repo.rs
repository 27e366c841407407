use slam::command::Request;
use slam::repo::{
    find_files_in_repo, if_changed, process_file, search_pattern, update, Change, Repo,
};

fn writes(edits: &[Request]) -> Vec<(String, String)> {
    let mut found = vec![];
    for edit in edits {
        if let Request::Write(path, text) = edit {
            found.push((path.clone(), text.clone()));
        }
    }
    found
}

fn example(change: Option<Change>, files: &[&str]) -> Repo {
    Repo {
        reposlug: "test-repo".to_string(),
        change_id: "test-change".to_string(),
        change,
        files: files.iter().map(|f| f.to_string()).collect(),
        pr_number: 0,
    }
}

#[test]
fn test_change_debug() {
    let delete = Change::Delete;
    let add = Change::Add("test.txt".to_string(), "content".to_string());
    let sub = Change::Sub("old".to_string(), "new".to_string());
    let regex = Change::Regex(r"\d+".to_string(), "X".to_string());

    // Ensure Debug is implemented
    assert!(!format!("{:?}", delete).is_empty());
    assert!(!format!("{:?}", add).is_empty());
    assert!(!format!("{:?}", sub).is_empty());
    assert!(!format!("{:?}", regex).is_empty());
}

#[test]
fn test_change_clone() {
    let original = Change::Add("test.txt".to_string(), "content".to_string());
    let cloned = original.clone();

    match (&original, &cloned) {
        (Change::Add(path1, content1), Change::Add(path2, content2)) => {
            assert_eq!(path1, path2);
            assert_eq!(content1, content2);
        }
        _ => panic!("Clone failed"),
    }
}

#[test]
fn test_repo_create_repo_from_remote_with_pr() {
    let repo = Repo::create_repo_from_remote_with_pr("test-org/test-repo", "SLAM-test", 123);

    assert_eq!(repo.reposlug, "test-org/test-repo");
    assert_eq!(repo.change_id, "SLAM-test");
    assert_eq!(repo.pr_number, 123);
    assert!(repo.change.is_none());
    assert!(repo.files.is_empty());
}

#[test]
fn test_repo_create_repo_from_local_basic() {
    let change = Some(Change::Delete);
    let change_id = "test-change";

    let result =
        Repo::create_repo_from_local("/tmp/x/test-repo", "/tmp/x", &change, &vec![], change_id);

    assert!(result.is_some());
    let repo = result.unwrap();
    assert_eq!(repo.reposlug, "test-repo");
    assert_eq!(repo.change_id, "test-change");
    assert!(matches!(repo.change, Some(Change::Delete)));
    assert!(repo.files.is_empty());
    assert_eq!(repo.pr_number, 0);
}

#[test]
fn test_repo_create_repo_from_local_with_files() {
    assert_eq!(search_pattern("/tmp/x/test-repo", "*.txt"), "/tmp/x/test-repo/*.txt");
    let found = vec![Ok(vec![
        Ok("/tmp/x/test-repo/test1.txt".to_string()),
        Ok("/tmp/x/test-repo/test2.txt".to_string()),
    ])];

    let result =
        Repo::create_repo_from_local("/tmp/x/test-repo", "/tmp/x", &None, &found, "test-change");

    assert!(result.is_some());
    let repo = result.unwrap();
    assert_eq!(repo.files.len(), 2);
    assert!(repo.files.contains(&"test1.txt".to_string()));
    assert!(repo.files.contains(&"test2.txt".to_string()));
    assert!(!repo.files.contains(&"other.md".to_string()));
}

#[test]
fn test_repo_create_repo_from_local_invalid_prefix() {
    let result = Repo::create_repo_from_local(
        "/completely/different/path",
        "/tmp/x",
        &None,
        &vec![],
        "test-change",
    );

    assert!(result.is_none());
}

#[test]
fn files_of_several_patterns_are_sorted_and_listed_once() {
    let path = |name: &str| Ok(format!("/w/org/r/{}", name));
    let found = vec![
        Ok(vec![path("b.txt"), path("a.txt"), Err("locked".to_string())]),
        Ok(vec![path("c/d.txt"), path("a.txt")]),
    ];
    let repo = Repo::create_repo_from_local("/w/org/r", "/w", &None, &found, "x").unwrap();
    assert_eq!(repo.reposlug, "org/r");
    assert_eq!(repo.files, vec!["a.txt", "b.txt", "c/d.txt"]);

    let broken = vec![Ok(vec![path("a.txt")]), Err("bad pattern".to_string())];
    assert!(Repo::create_repo_from_local("/w/org/r", "/w", &None, &broken, "x").is_none());
    let outside = vec![Ok(vec![Ok("/etc/passwd".to_string())])];
    assert!(Repo::create_repo_from_local("/w/org/r", "/w", &None, &outside, "x").is_none());
}

#[test]
fn test_find_files_in_repo() {
    let found =
        Ok(vec![Ok("/tmp/x/file1.txt".to_string()), Ok("/tmp/x/file2.txt".to_string())]);
    let result = find_files_in_repo("/tmp/x", &found);
    assert!(result.is_ok());

    let files = result.unwrap();
    assert_eq!(files.len(), 2);
    assert!(files.iter().any(|f| f == "file1.txt"));
    assert!(files.iter().any(|f| f == "file2.txt"));

    assert_eq!(find_files_in_repo("/tmp/x", &Err("no".to_string())), Err("no".to_string()));
    assert_eq!(
        find_files_in_repo("/tmp/x", &Ok(vec![Ok("/tmp/y/f".to_string())])),
        Err("prefix not found".to_string())
    );
}

#[test]
fn test_process_file_delete_no_commit() {
    let content = Ok("test content".to_string());
    let (result, edits) = process_file("/r/test.txt", &Change::Delete, &content, 1, false);

    assert!(result.is_none());
    assert!(edits.is_empty()); // File should still exist
}

#[test]
fn test_process_file_delete_with_commit() {
    let content = Ok("test content".to_string());
    let (result, edits) = process_file("/r/test.txt", &Change::Delete, &content, 1, true);

    assert!(result.is_none());
    assert_eq!(edits.len(), 1); // File should be deleted
    assert!(matches!(&edits[0], Request::Remove(path) if path == "/r/test.txt"));
}

#[test]
fn test_process_file_add_no_commit() {
    let change = Change::Add("new.txt".to_string(), "new content".to_string());
    let missing = Err("No such file or directory (os error 2)".to_string());
    let (result, edits) = process_file("/r/new.txt", &change, &missing, 1, false);

    assert!(result.is_some());
    let diff = result.unwrap();
    assert!(diff.contains("new content"));
    assert!(edits.is_empty()); // File should not be created
}

#[test]
fn test_process_file_add_with_commit() {
    let change = Change::Add("new.txt".to_string(), "new content".to_string());
    let missing = Err("No such file or directory (os error 2)".to_string());
    let (result, edits) = process_file("/r/new.txt", &change, &missing, 1, true);

    assert!(result.is_some());
    // File should be created, with a trailing newline
    assert_eq!(writes(&edits), vec![("/r/new.txt".to_string(), "new content\n".to_string())]);
}

#[test]
fn an_added_file_gets_its_directory_first() {
    let change = Change::Add("a/b.txt".to_string(), "x\n\n".to_string());
    let (_, edits) = process_file("/r/a/b.txt", &change, &Ok(String::new()), 1, true);
    assert_eq!(edits.len(), 2);
    assert!(matches!(&edits[0], Request::MakeDirs(dir) if dir == "/r/a"));
    assert!(matches!(&edits[1], Request::Write(_, text) if text == "x\n\n"));
}

#[test]
fn test_process_file_sub_no_match() {
    let content = Ok("original content".to_string());
    let change = Change::Sub("nonexistent".to_string(), "replacement".to_string());
    let (result, _) = process_file("/r/test.txt", &change, &content, 1, false);

    assert!(result.is_none());
}

#[test]
fn test_process_file_sub_with_match() {
    let content = Ok("original content".to_string());
    let change = Change::Sub("original".to_string(), "modified".to_string());
    let (result, _) = process_file("/r/test.txt", &change, &content, 1, false);

    assert!(result.is_some());
    let diff = result.unwrap();
    assert!(diff.contains("original"));
    assert!(diff.contains("modified"));
}

#[test]
fn test_process_file_regex_valid() {
    let content = Ok("version 123".to_string());
    let change = Change::Regex(r"\d+".to_string(), "456".to_string());
    let (result, _) = process_file("/r/test.txt", &change, &content, 1, false);

    assert!(result.is_some());
    let diff = result.unwrap();
    assert!(diff.contains("123"));
    assert!(diff.contains("456"));
}

#[test]
fn test_process_file_regex_invalid() {
    let content = Ok("test content".to_string());
    let change = Change::Regex("[invalid".to_string(), "replacement".to_string());
    let (result, _) = process_file("/r/test.txt", &change, &content, 1, false);

    assert!(result.is_none()); // Invalid regex should return None
}

#[test]
fn a_regex_replaces_every_match_and_knows_its_groups() {
    let content = Ok("a1 b22\n".to_string());
    let change = Change::Regex(r"([a-z])(\d+)".to_string(), "${2}$1".to_string());
    let (_, edits) = process_file("/r/f", &change, &content, 1, true);
    assert_eq!(writes(&edits), vec![("/r/f".to_string(), "1a 22b\n".to_string())]);

    let change = Change::Regex("zzz".to_string(), "y".to_string());
    let (result, edits) = process_file("/r/f", &change, &content, 1, true);
    assert!(result.is_none() && edits.is_empty());
}

#[test]
fn a_substitution_replaces_every_occurrence() {
    let content = Ok("aaa b\n".to_string());
    let change = Change::Sub("aa".to_string(), "a".to_string());
    let (_, edits) = process_file("/r/f", &change, &content, 1, true);
    assert_eq!(writes(&edits), vec![("/r/f".to_string(), "aa b\n".to_string())]);

    let change = Change::Sub("".to_string(), "-".to_string());
    let (_, edits) = process_file("/r/f", &change, &Ok("ab".to_string()), 1, true);
    assert_eq!(writes(&edits), vec![("/r/f".to_string(), "-a-b-".to_string())]);

    let change = Change::Sub("b".to_string(), "b".to_string());
    let (result, edits) = process_file("/r/f", &change, &content, 1, true);
    assert!(result.is_none() && edits.is_empty());

    let change = Change::Sub("b".to_string(), "c".to_string());
    let (result, edits) = process_file("/r/f", &change, &Err("gone".to_string()), 1, true);
    assert!(result.is_none() && edits.is_empty());
}

#[test]
fn what_stays_the_same_is_no_change() {
    assert_eq!(if_changed("a", "b".to_string()), Some("b".to_string()));
    assert_eq!(if_changed("a", "a".to_string()), None);
    let regex = Change::Regex("b+".to_string(), "c".to_string());
    assert_eq!(update(&regex, "abba"), Some("aca".to_string()));
    assert_eq!(update(&Change::Regex("(".to_string(), "c".to_string()), "("), None);
    assert_eq!(update(&Change::Delete, "a"), None);
}

#[test]
fn test_repo_create_diff_no_change() {
    let repo = example(None, &["file1.txt", "file2.txt"]);

    let (diff, edits) = repo.create_diff("/w", 1, false, false, &vec![]);

    assert!(diff.contains("test-repo"));
    assert!(diff.contains(">< file1.txt"));
    assert!(diff.contains(">< file2.txt"));
    assert_eq!(diff, "test-repo\n  >< file1.txt\n  >< file2.txt\n");
    assert!(edits.is_empty());
}

#[test]
fn test_repo_create_diff_add_change() {
    let add = Change::Add("new.txt".to_string(), "content".to_string());
    let repo = example(Some(add), &[]);

    let (diff, _) = repo.create_diff("/w", 1, false, false, &vec![]);

    assert!(diff.contains("test-repo"));
    assert!(diff.contains("A new.txt"));
    assert!(diff.contains("content"));
}

#[test]
fn reports_without_colours() {
    colored::control::set_override(false);
    let add = Change::Add("new.txt".to_string(), "one\ntwo".to_string());
    let (diff, edits) = example(Some(add), &[]).create_diff("/w", 1, true, false, &vec![]);
    assert_eq!(diff, "test-repo\n  A new.txt\n    +   1 | one\n    +   2 | two\n");
    assert_eq!(
        writes(&edits),
        vec![("/w/test-repo/new.txt".to_string(), "one\ntwo\n".to_string())]
    );

    let repo = example(Some(Change::Delete), &["a", "b"]);
    assert_eq!(repo.files_to_read("/w"), vec!["/w/test-repo/a", "/w/test-repo/b"]);
    let contents = vec![Ok("x\n".to_string()), Err("gone".to_string())];
    let (diff, edits) = repo.create_diff("/w", 1, true, false, &contents);
    assert_eq!(
        diff,
        "test-repo\n  D a\n    -   1 | x\n  D b\n  (Could not read file for diff: gone)\n"
    );
    assert_eq!(edits.len(), 2);
    let (_, edits) = repo.create_diff("/w", 1, false, false, &contents);
    assert!(edits.is_empty());

    let sub = Change::Sub("x".to_string(), "y".to_string());
    let repo = example(Some(sub), &["a", "b", "c"]);
    let contents = vec![Ok("x\n".to_string()), Ok("z\n".to_string()), Err("gone".to_string())];
    let (diff, edits) = repo.create_diff("/w", 1, true, false, &contents);
    assert_eq!(diff, "test-repo\n  M a\n    -   1 | x\n    +   1 | y\n");
    assert_eq!(writes(&edits), vec![("/w/test-repo/a".to_string(), "y\n".to_string())]);
    let (diff, _) = repo.create_diff("/w", 1, false, true, &contents);
    assert_eq!(diff, "test-repo\n  >< a\n");
}

#[test]
fn a_simplified_report_only_names_the_files() {
    let add = Change::Add("new.txt".to_string(), "one\ntwo".to_string());
    let (diff, edits) = example(Some(add), &[]).create_diff("/w", 1, true, true, &vec![]);
    assert_eq!(diff, "test-repo\n  A new.txt\n");
    assert_eq!(
        writes(&edits),
        vec![("/w/test-repo/new.txt".to_string(), "one\ntwo\n".to_string())]
    );
    let contents = vec![Ok("x\n".to_string()), Err("gone".to_string())];
    let repo = example(Some(Change::Delete), &["a", "b"]);
    let (diff, edits) = repo.create_diff("/w", usize::MAX, true, true, &contents);
    assert_eq!(diff, "test-repo\n  D a\n  D b\n");
    assert_eq!(edits.len(), 2);
    let regex = Change::Regex("x+".to_string(), "y".to_string());
    let repo = example(Some(regex), &["a", "b"]);
    let (diff, _) = repo.create_diff("/w", usize::MAX, false, true, &contents);
    assert_eq!(diff, "test-repo\n  >< a\n");
}

#[test]
fn a_change_that_matches_nothing_reports_nothing() {
    let sub = Change::Sub("x".to_string(), "y".to_string());
    let repo = example(Some(sub), &["a"]);
    let (diff, edits) = repo.create_diff("/w", 1, true, false, &vec![Ok("none\n".to_string())]);
    assert_eq!(diff, "");
    assert!(edits.is_empty());
    assert_eq!(example(None, &[]).create_diff("/w", 1, true, false, &vec![]).0, "");
}

#[test]
fn test_repo_debug() {
    let repo = Repo {
        reposlug: "test-repo".to_string(),
        change_id: "test-change".to_string(),
        change: Some(Change::Delete),
        files: vec!["test.txt".to_string()],
        pr_number: 42,
    };

    let debug_str = format!("{:?}", repo);
    assert!(debug_str.contains("test-repo"));
    assert!(debug_str.contains("test-change"));
    assert!(debug_str.contains("Delete"));
    assert!(debug_str.contains("42"));
}

#[test]
fn a_file_is_shown_the_same_with_and_without_a_commit() {
    colored::control::set_override(false);
    let content = Ok("one\ntwo\n".to_string());
    let changes = [
        Change::Delete,
        Change::Add("f".to_string(), "text".to_string()),
        Change::Sub("two".to_string(), "2".to_string()),
        Change::Sub("three".to_string(), "3".to_string()),
        Change::Regex("o.e".to_string(), "1".to_string()),
    ];
    for change in changes {
        let (without, edits) = process_file("/r/f", &change, &content, 1, false);
        assert!(edits.is_empty());
        let (with, _) = process_file("/r/f", &change, &content, 1, true);
        assert_eq!(with, without);
    }
}
