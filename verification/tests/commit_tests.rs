use git_commitizen::commit::{
    build_commit_message, build_commit_types, check_commit_status, check_worktree,
    format_commit_types, git_commit_args, CommitError,
};

#[test]
fn commit_types_in_order() {
    let types = build_commit_types();
    let names: Vec<&str> = types.iter().map(|(t, _)| *t).collect();
    assert_eq!(
        names,
        vec!["feat", "fix", "docs", "style", "refactor", "perf", "test", "chore", "ci", "build", "revert"]
    );
    assert_eq!(types[0].1, "A new feature");
    assert_eq!(types[10].1, "Reverts a previous commit");
}

#[test]
fn menu_lines_are_aligned() {
    let lines = format_commit_types(build_commit_types());
    assert_eq!(lines.len(), 11);
    assert_eq!(lines[0], "feat         - A new feature");
    assert_eq!(
        lines[4],
        "refactor     - A code change that neither fixes a bug nor adds a feature"
    );
    assert_eq!(lines[8], "ci           - Changes to our CI configuration files and scripts");
    for line in &lines {
        assert_eq!(line.find(" - "), Some(12));
    }
}

#[test]
fn menu_of_nothing_is_empty() {
    assert!(format_commit_types(Vec::new()).is_empty());
}

#[test]
fn menu_width_counts_bytes_and_pads_characters() {
    // "é" is two bytes: the column is 2 + 4 wide, and "a" is padded to 6 characters.
    let lines = format_commit_types(vec![("é", "x"), ("a", "y")]);
    assert_eq!(lines[0], "é      - x");
    assert_eq!(lines[1], "a      - y");
}

#[test]
fn menu_type_longer_than_column_is_not_cut() {
    let lines = format_commit_types(vec![("abc", "d")]);
    assert_eq!(lines[0], "abc     - d");
}

#[test]
fn message_with_everything() {
    let m = build_commit_message("feat", "parser", "add option", "Longer text.", "fix: #12");
    assert_eq!(m, "feat(parser): add option\n\nLonger text.\n\nfix: #12");
}

#[test]
fn message_header_only() {
    assert_eq!(build_commit_message("fix", "", "typo", "", ""), "fix: typo");
}

#[test]
fn message_footer_without_body() {
    assert_eq!(
        build_commit_message("docs", "", "readme", "", "close: #3"),
        "docs: readme\n\nclose: #3"
    );
}

#[test]
fn message_body_without_footer() {
    assert_eq!(
        build_commit_message("ci", "gh", "cache", "why", ""),
        "ci(gh): cache\n\nwhy"
    );
}

#[test]
fn nothing_to_commit() {
    let e = check_worktree(0).unwrap_err();
    assert!(matches!(e, CommitError::NothingToCommit));
    assert_eq!(e.message(), "Nothing to commit, working directory clean");
    assert!(check_worktree(3).is_ok());
}

#[test]
fn failed_commit_reports_status() {
    assert!(check_commit_status(true, "exit status: 0").is_ok());
    let e = check_commit_status(false, "exit status: 1").unwrap_err();
    assert_eq!(e.message(), "git commit failed with status exit status: 1");
}

#[test]
fn git_arguments() {
    assert_eq!(git_commit_args("feat: x"), vec!["commit", "-m", "feat: x"]);
}

#[test]
fn menu_matches_std_formatting() {
    let cases: Vec<Vec<(&str, &str)>> = vec![
        build_commit_types(),
        vec![("é", "x"), ("日本", "y"), ("a", "")],
        vec![("", "empty type")],
        vec![("🦀🦀", "crab"), ("ab", "cd")],
    ];
    for types in cases {
        let max = types.iter().map(|(t, _)| t.len()).max().unwrap_or(0);
        let expected: Vec<String> = types
            .iter()
            .map(|(t, d)| format!("{:<width$} - {}", t, d, width = max + 4))
            .collect();
        assert_eq!(format_commit_types(types), expected);
    }
}
