use gatomic::diff::model::FileDiff;
use gatomic::diff::parser::parse_file_diff;
use gatomic::selection::{FileSelection, HunkDecision};

fn sample_diff() -> FileDiff {
    let raw = "diff --git a/f.txt b/f.txt\n--- a/f.txt\n+++ b/f.txt\n@@ -1,2 +1,2 @@\n-a\n+A\n b\n";
    parse_file_diff(raw).unwrap()
}

fn two_hunk_diff() -> FileDiff {
    let raw = "diff --git a/f.txt b/f.txt\n--- a/f.txt\n+++ b/f.txt\n@@ -1,2 +1,2 @@\n-a\n+A\n b\n@@ -10,2 +10,2 @@\n-x\n+X\n y\n";
    parse_file_diff(raw).unwrap()
}

#[test]
fn starts_all_undecided() {
    let diff = sample_diff();
    let sel = FileSelection::all_undecided("f.txt", &diff);
    assert_eq!(sel.hunks[0].decision, HunkDecision::Undecided);
    assert!(sel.hunks[0].line_selected.iter().all(|&s| !s));
    assert!(!sel.all_decided());
}

#[test]
fn accept_hunk_selects_all_its_lines() {
    let diff = sample_diff();
    let mut sel = FileSelection::all_undecided("f.txt", &diff);
    sel.accept_hunk(0);
    assert_eq!(sel.hunks[0].decision, HunkDecision::Accepted);
    assert!(sel.hunks[0].line_selected.iter().all(|&s| s));
    assert!(sel.all_decided());
}

#[test]
fn reject_hunk_deselects_all_its_lines_but_counts_as_decided() {
    let diff = sample_diff();
    let mut sel = FileSelection::all_undecided("f.txt", &diff);
    sel.reject_hunk(0);
    assert_eq!(sel.hunks[0].decision, HunkDecision::Rejected);
    assert!(sel.hunks[0].line_selected.iter().all(|&s| !s));
    assert!(sel.all_decided());
}

#[test]
fn accept_hunk_and_rest_covers_all_following_hunks() {
    let diff = two_hunk_diff();
    let mut sel = FileSelection::all_undecided("f.txt", &diff);
    sel.accept_hunk_and_rest(0);
    assert_eq!(sel.hunks[0].decision, HunkDecision::Accepted);
    assert_eq!(sel.hunks[1].decision, HunkDecision::Accepted);
    assert!(sel.all_decided());
}

#[test]
fn progress_counts_decided_hunks_out_of_total() {
    let diff = two_hunk_diff();
    let mut sel = FileSelection::all_undecided("f.txt", &diff);
    assert_eq!(sel.progress(), (0, 2));
    sel.accept_hunk(0);
    assert_eq!(sel.progress(), (1, 2));
    sel.reject_hunk(1);
    assert_eq!(sel.progress(), (2, 2));
}

#[test]
fn toggling_one_line_marks_hunk_as_partial() {
    let diff = sample_diff();
    let mut sel = FileSelection::all_undecided("f.txt", &diff);
    sel.toggle_line(0, 1);
    assert_eq!(sel.hunks[0].decision, HunkDecision::Partial);
    assert!(sel.hunks[0].line_selected[1]);
    assert!(!sel.hunks[0].line_selected[0]);
}

#[test]
fn toggling_every_non_context_line_on_reaches_accepted() {
    let diff = sample_diff();
    let mut sel = FileSelection::all_undecided("f.txt", &diff);
    sel.toggle_line(0, 0);
    sel.toggle_line(0, 1);
    assert_eq!(sel.hunks[0].decision, HunkDecision::Accepted);
}

#[test]
fn toggling_every_non_context_line_back_off_reaches_undecided_not_rejected() {
    let diff = sample_diff();
    let mut sel = FileSelection::all_undecided("f.txt", &diff);
    sel.toggle_line(0, 0);
    sel.toggle_line(0, 1);
    assert_eq!(sel.hunks[0].decision, HunkDecision::Accepted);
    sel.toggle_line(0, 0);
    sel.toggle_line(0, 1);
    assert_eq!(sel.hunks[0].decision, HunkDecision::Undecided);
}

#[test]
fn explicit_reject_hunk_still_counts_as_decided() {
    let diff = sample_diff();
    let mut sel = FileSelection::all_undecided("f.txt", &diff);
    sel.reject_hunk(0);
    assert_eq!(sel.hunks[0].decision, HunkDecision::Rejected);
    assert_eq!(sel.progress(), (1, 1));
}

#[test]
fn next_undecided_hunk_skips_decided_ones_and_wraps() {
    let diff = two_hunk_diff();
    let mut sel = FileSelection::all_undecided("f.txt", &diff);
    assert_eq!(sel.next_undecided_hunk(0), Some(1));
    sel.accept_hunk(1);
    assert_eq!(sel.next_undecided_hunk(1), Some(0));
    sel.accept_hunk(0);
    assert_eq!(sel.next_undecided_hunk(0), None);
}

#[test]
fn previous_undecided_hunk_wraps_backward() {
    let diff = two_hunk_diff();
    let sel = FileSelection::all_undecided("f.txt", &diff);
    assert_eq!(sel.previous_undecided_hunk(0), Some(1));
    assert_eq!(sel.previous_undecided_hunk(1), Some(0));
}
