use gatomic::diff::model::FileDiff;
use gatomic::diff::parser::parse_file_diff;
use gatomic::diff::patch::build_patch;
use gatomic::selection::FileSelection;

fn diff_with_three_hunks() -> FileDiff {
    let raw = "diff --git a/f.txt b/f.txt\n--- a/f.txt\n+++ b/f.txt\n@@ -1,2 +1,2 @@\n-a\n+A\n b\n@@ -10,2 +10,3 @@\n x\n+y\n z\n@@ -20,2 +21,2 @@\n-m\n+M\n n\n";
    parse_file_diff(raw).unwrap()
}

fn all_accepted(file: &str, diff: &FileDiff) -> FileSelection {
    let mut selection = FileSelection::all_undecided(file, diff);
    selection.accept_hunk_and_rest(0);
    selection
}

#[test]
fn fully_selected_patch_matches_original_hunks() {
    let diff = diff_with_three_hunks();
    let selection = all_accepted("f.txt", &diff);
    let patch = build_patch(&diff, &selection).unwrap();
    assert!(patch.contains("@@ -1,2 +1,2 @@"));
    assert!(patch.contains("@@ -10,2 +10,3 @@"));
    assert!(patch.contains("@@ -20,2 +21,2 @@"));
}

#[test]
fn dropping_a_net_zero_hunk_does_not_shift_others() {
    let diff = diff_with_three_hunks();
    let mut selection = all_accepted("f.txt", &diff);
    selection.reject_hunk(0);
    let patch = build_patch(&diff, &selection).unwrap();
    assert!(!patch.contains("@@ -1,2"));
    assert!(patch.contains("@@ -10,2 +10,3 @@"));
    assert!(patch.contains("@@ -20,2 +21,2 @@"));
}

#[test]
fn skipping_middle_hunk_shifts_last_hunk_offset() {
    let diff = diff_with_three_hunks();
    let mut selection = all_accepted("f.txt", &diff);
    selection.reject_hunk(1);
    let patch = build_patch(&diff, &selection).unwrap();
    assert!(patch.contains("@@ -1,2 +1,2 @@"));
    assert!(!patch.contains("@@ -10,2"));
    assert!(patch.contains("@@ -20,2 +20,2 @@"));
}

#[test]
fn deselecting_removed_line_retrogrades_it_to_context() {
    let raw = "diff --git a/f.txt b/f.txt\n--- a/f.txt\n+++ b/f.txt\n@@ -1,2 +1,2 @@\n-a\n+A\n b\n";
    let diff = parse_file_diff(raw).unwrap();
    let mut selection = all_accepted("f.txt", &diff);
    selection.toggle_line(0, 0);
    let patch = build_patch(&diff, &selection).unwrap();
    assert!(patch.contains(" a\n"));
    assert!(!patch.contains("-a\n"));
}

#[test]
fn nothing_selected_produces_no_patch() {
    let diff = diff_with_three_hunks();
    let selection = FileSelection::all_undecided("f.txt", &diff);
    assert!(build_patch(&diff, &selection).is_none());
}

#[test]
fn new_file_partial_selection_keeps_zero_old_start() {
    let raw = "diff --git a/new.txt b/new.txt\nnew file mode 100644\n--- /dev/null\n+++ b/new.txt\n@@ -0,0 +1,2 @@\n+line1\n+line2\n";
    let diff = parse_file_diff(raw).unwrap();
    let mut selection = all_accepted("new.txt", &diff);
    selection.toggle_line(0, 1);
    let patch = build_patch(&diff, &selection).unwrap();
    assert!(patch.contains("@@ -0,0 +1,1 @@"));
    assert!(patch.contains("+line1"));
    assert!(!patch.contains("+line2"));
}
