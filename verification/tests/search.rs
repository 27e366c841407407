use slam::search::{find_git_repositories, Entry};

/// Searches a tree that is given as the paths of its directories.
fn search(root: &str, dirs: &[&str]) -> Vec<String> {
    let mut search = find_git_repositories(root);
    while let Some(next) = search.next() {
        let dir = next.clone();
        let mut entries = vec![];
        for path in dirs {
            if let Some(rest) = path.strip_prefix(&format!("{}/", dir)) {
                if !rest.contains('/') {
                    entries.push(Entry {
                        path: path.to_string(),
                        is_dir: true,
                        has_git: dirs.contains(&format!("{}/.git", path).as_str()),
                    });
                }
            }
        }
        entries.push(Entry { path: format!("{}/file", dir), is_dir: false, has_git: false });
        search.list(&entries);
    }
    search.repositories()
}

#[test]
fn test_find_git_repositories_empty_dir() {
    let result = search("/t", &[]);
    assert!(result.is_empty());
}

#[test]
fn test_find_git_repositories_with_git_repo() {
    let result = search("/t", &["/t/test-repo", "/t/test-repo/.git"]);
    assert_eq!(result.len(), 1);
    assert_eq!(result[0], "/t/test-repo");
}

#[test]
fn test_find_git_repositories_nested() {
    let result = search("/t", &["/t/nested", "/t/nested/repo", "/t/nested/repo/.git"]);
    assert_eq!(result.len(), 1);
    assert_eq!(result[0], "/t/nested/repo");
}

#[test]
fn test_find_git_repositories_multiple() {
    let mut result = search("/t", &["/t/repo1", "/t/repo1/.git", "/t/repo2", "/t/repo2/.git"]);
    result.sort(); // Sort for consistent ordering

    assert_eq!(result.len(), 2);
    assert!(result.contains(&"/t/repo1".to_string()));
    assert!(result.contains(&"/t/repo2".to_string()));
}

#[test]
fn test_find_git_repositories_ignores_non_git_dirs() {
    let result = search("/t", &["/t/not-a-repo", "/t/git-repo", "/t/git-repo/.git"]);
    assert_eq!(result.len(), 1);
    assert_eq!(result[0], "/t/git-repo");
}

#[test]
fn clones_are_found_depth_first_and_not_looked_into() {
    let result = search(
        "/t",
        &[
            "/t/a",
            "/t/a/x",
            "/t/a/x/.git",
            "/t/a/x/inner",
            "/t/a/x/inner/.git",
            "/t/a/y",
            "/t/a/y/.git",
            "/t/b",
            "/t/b/.git",
        ],
    );
    assert_eq!(result, vec!["/t/a/x", "/t/a/y", "/t/b"]);
}
