use gatomic::diff::load::split_into_file_diffs;
use gatomic::fixup::{match_files_to_commits, FileCommitMatch};
use gatomic::git::commit::{parse_log_output, CommitInfo, FilesByCommit};
use gatomic::git::status::{parse_porcelain_status, FileEntry, FileStatusKind};

#[test]
fn splits_two_file_diffs_apart() {
    let raw = "diff --git a/a.txt b/a.txt\n--- a/a.txt\n+++ b/a.txt\n@@ -1 +1 @@\n-a\n+A\ndiff --git a/b.txt b/b.txt\n--- a/b.txt\n+++ b/b.txt\n@@ -1 +1 @@\n-b\n+B\n";
    let chunks = split_into_file_diffs(raw);
    assert_eq!(chunks.len(), 2);
    assert!(chunks[0].starts_with("diff --git a/a.txt"));
    assert!(chunks[1].starts_with("diff --git a/b.txt"));
}

#[test]
fn parses_log_output() {
    let raw = "abc123\x012026-09-13\x01Alice\x01Fix bug\nd4e5f6\x012026-09-12\x01Bob\x01Add feature\n";
    let commits = parse_log_output(raw);
    assert_eq!(commits.len(), 2);
    assert_eq!(commits[0].short_sha, "abc123");
    assert_eq!(commits[0].author, "Alice");
    assert_eq!(commits[0].message, "Fix bug");
    assert_eq!(commits[1].message, "Add feature");
}

#[test]
fn parses_untracked_files() {
    let raw = "?? a.txt\0?? c.txt\0";
    let entries = parse_porcelain_status(raw);
    assert_eq!(entries.len(), 2);
    assert_eq!(entries[0].path, "a.txt");
    assert_eq!(entries[0].kind, FileStatusKind::Untracked);
    assert!(!entries[0].staged);
}

#[test]
fn parses_rename_with_two_paths() {
    let raw = "RM b.txt\0a.txt\0";
    let entries = parse_porcelain_status(raw);
    assert_eq!(entries.len(), 1);
    assert_eq!(entries[0].path, "b.txt");
    assert_eq!(entries[0].old_path.as_deref(), Some("a.txt"));
    assert_eq!(entries[0].kind, FileStatusKind::Renamed);
    assert!(entries[0].staged);
    assert!(entries[0].has_unstaged_changes);
}

#[test]
fn parses_modified_and_added() {
    let raw = " M modified.txt\0A  added.txt\0";
    let entries = parse_porcelain_status(raw);
    assert_eq!(entries[0].kind, FileStatusKind::Modified);
    assert!(!entries[0].staged);
    assert!(entries[0].has_unstaged_changes);
    assert_eq!(entries[1].kind, FileStatusKind::Added);
    assert!(entries[1].staged);
}

fn file(path: &str, kind: FileStatusKind) -> FileEntry {
    FileEntry {
        path: path.to_string(),
        old_path: None,
        kind,
        staged: false,
        has_unstaged_changes: true,
    }
}

fn commit(sha: &str) -> CommitInfo {
    CommitInfo {
        short_sha: sha.to_string(),
        date: "2026-01-01".to_string(),
        author: "tester".to_string(),
        message: "msg".to_string(),
    }
}

#[test]
fn untracked_files_are_never_matched() {
    let files = vec![file("new.txt", FileStatusKind::Untracked)];
    let matches = match_files_to_commits(&files, &Vec::new(), &FilesByCommit::new());
    assert!(matches.is_empty());
}

#[test]
fn is_evident_true_only_for_a_single_matching_commit() {
    let one = FileCommitMatch {
        file: "a.txt".to_string(),
        matching_commits: vec![commit("aaa")],
    };
    let two = FileCommitMatch {
        file: "b.txt".to_string(),
        matching_commits: vec![commit("aaa"), commit("bbb")],
    };
    assert!(one.is_evident());
    assert!(!two.is_evident());
}
