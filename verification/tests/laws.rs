use gatomic::diff::model::LineKind;
use gatomic::diff::parser::parse_file_diff;
use gatomic::diff::patch::build_patch;
use gatomic::diff::split::split_hunk;
use gatomic::fixup::match_files_to_commits;
use gatomic::git::commit::{parse_files_changed, parse_log_output, touches, CommitInfo};
use gatomic::git::status::{FileEntry, FileStatusKind};
use gatomic::selection::FileSelection;
use gatomic::tui::commit_form::CommitFormState;

#[test]
fn a_log_line_reads_back_as_its_commit() {
    let line = "a1b2\u{1}2026-02-03\u{1}Zoe\u{1}subject with \u{1} inside";
    let commits = parse_log_output(line);
    assert_eq!(commits.len(), 1);
    assert_eq!(commits[0].short_sha, "a1b2");
    assert_eq!(commits[0].date, "2026-02-03");
    assert_eq!(commits[0].author, "Zoe");
    assert_eq!(commits[0].message, "subject with \u{1} inside");
    assert!(parse_log_output("only\u{1}two\u{1}fields\n").is_empty());
}

#[test]
fn splitting_keeps_every_changed_line() {
    let raw = "diff --git a/f.txt b/f.txt\n--- a/f.txt\n+++ b/f.txt\n@@ -1,16 +1,17 @@\n-a\n+A\n c1\n c2\n c3\n c4\n c5\n c6\n-m\n+M\n+N\n c7\n c8\n c9\n c10\n c11\n c12\n-z\n";
    let diff = parse_file_diff(raw).unwrap();
    let hunk = &diff.hunks[0];
    let pieces = split_hunk(hunk, 2).unwrap();
    assert_eq!(pieces.len(), 3);
    let changes = |lines: &Vec<gatomic::diff::model::DiffLine>| {
        lines.iter().filter(|l| l.kind != LineKind::Context).map(|l| l.content.clone()).collect::<Vec<_>>()
    };
    let kept: Vec<String> = pieces.iter().flat_map(|p| changes(&p.lines)).collect();
    assert_eq!(kept, changes(&hunk.lines));
}

#[test]
fn parsed_lines_carry_the_numbers_of_their_kind() {
    let raw = "diff --git a/f.txt b/f.txt\n--- a/f.txt\n+++ b/f.txt\n@@ -3,3 +3,3 @@\n x\n-y\n+Y\n z\n";
    let diff = parse_file_diff(raw).unwrap();
    for line in &diff.hunks[0].lines {
        match line.kind {
            LineKind::Context => assert!(line.old_lineno.is_some() && line.new_lineno.is_some()),
            LineKind::Removed => assert!(line.old_lineno.is_some() && line.new_lineno.is_none()),
            LineKind::Added => assert!(line.old_lineno.is_none() && line.new_lineno.is_some()),
        }
    }
}

#[test]
fn matches_only_list_commits_that_touched_the_file() {
    let files = vec![
        FileEntry { path: "a.txt".into(), old_path: None, kind: FileStatusKind::Modified, staged: false, has_unstaged_changes: true },
        FileEntry { path: "n.txt".into(), old_path: None, kind: FileStatusKind::Untracked, staged: false, has_unstaged_changes: true },
    ];
    let commits: Vec<CommitInfo> = ["c1", "c2"]
        .iter()
        .map(|s| CommitInfo { short_sha: s.to_string(), date: String::new(), author: String::new(), message: String::new() })
        .collect();
    let fbc = parse_files_changed("\u{1}c1\n\na.txt\nn.txt\n\u{1}c2\n\nb.txt\n");
    let matches = match_files_to_commits(&files, &commits, &fbc);
    assert_eq!(matches.len(), 1);
    assert_eq!(matches[0].file, "a.txt");
    assert_eq!(matches[0].matching_commits.len(), 1);
    for c in &matches[0].matching_commits {
        assert!(touches(&fbc, &c.short_sha, &matches[0].file));
    }
}

#[test]
fn undecided_and_rejected_stage_the_same_patch() {
    let raw = "diff --git a/f.txt b/f.txt\n--- a/f.txt\n+++ b/f.txt\n@@ -1,2 +1,2 @@\n-a\n+A\n b\n@@ -10,2 +10,2 @@\n-x\n+X\n y\n";
    let diff = parse_file_diff(raw).unwrap();
    let mut undecided = FileSelection::all_undecided("f.txt", &diff);
    undecided.accept_hunk(0);
    let mut rejected = FileSelection::all_undecided("f.txt", &diff);
    rejected.accept_hunk(0);
    rejected.reject_hunk(1);
    assert_eq!(build_patch(&diff, &undecided), build_patch(&diff, &rejected));
}

#[test]
fn toggling_a_line_twice_restores_the_selection() {
    let raw = "diff --git a/f.txt b/f.txt\n--- a/f.txt\n+++ b/f.txt\n@@ -1,2 +1,2 @@\n-a\n+A\n b\n";
    let diff = parse_file_diff(raw).unwrap();
    let mut sel = FileSelection::all_undecided("f.txt", &diff);
    sel.toggle_line(0, 1);
    sel.toggle_line(0, 1);
    assert_eq!(sel.progress(), (0, 1));
    assert!(!sel.hunks[0].line_selected[1]);
    let mut acc = FileSelection::all_undecided("f.txt", &diff);
    acc.accept_hunk(0);
    acc.reject_hunk(0);
    let mut rej = FileSelection::all_undecided("f.txt", &diff);
    rej.reject_hunk(0);
    assert_eq!(acc.hunks[0].decision, rej.hunks[0].decision);
    assert_eq!(acc.hunks[0].line_selected, rej.hunks[0].line_selected);
}

#[test]
fn backspace_undoes_typing_and_line_cuts() {
    let mut form = CommitFormState::new("ab\ncd", String::new());
    form.move_right();
    let before = (form.message(), form.cursor());
    form.insert_char('x');
    form.backspace();
    assert_eq!((form.message(), form.cursor()), before);
    form.insert_newline();
    form.backspace();
    assert_eq!((form.message(), form.cursor()), before);
}
