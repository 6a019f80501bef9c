use gatomic::diff::model::LineKind;
use gatomic::diff::parser::parse_file_diff;

#[test]
fn parses_single_hunk() {
    let raw = "diff --git a/f.txt b/f.txt\nindex 111..222 100644\n--- a/f.txt\n+++ b/f.txt\n@@ -1,3 +1,4 @@\n line1\n-line2\n+line2 modified\n+line3\n line4\n";
    let diff = parse_file_diff(raw).unwrap();
    assert_eq!(diff.old_path, "f.txt");
    assert_eq!(diff.new_path, "f.txt");
    assert!(!diff.is_new_file);
    assert_eq!(diff.hunks.len(), 1);
    let hunk = &diff.hunks[0];
    assert_eq!(hunk.old_start, 1);
    assert_eq!(hunk.old_lines, 3);
    assert_eq!(hunk.new_start, 1);
    assert_eq!(hunk.new_lines, 4);
    assert_eq!(hunk.lines.len(), 5);
    assert_eq!(hunk.lines[0].kind, LineKind::Context);
    assert_eq!(hunk.lines[0].old_lineno, Some(1));
    assert_eq!(hunk.lines[0].new_lineno, Some(1));
    assert_eq!(hunk.lines[1].kind, LineKind::Removed);
    assert_eq!(hunk.lines[1].old_lineno, Some(2));
    assert_eq!(hunk.lines[1].new_lineno, None);
    assert_eq!(hunk.lines[2].kind, LineKind::Added);
    assert_eq!(hunk.lines[2].new_lineno, Some(2));
    assert_eq!(hunk.lines[3].kind, LineKind::Added);
    assert_eq!(hunk.lines[3].new_lineno, Some(3));
    assert_eq!(hunk.lines[4].kind, LineKind::Context);
    assert_eq!(hunk.lines[4].old_lineno, Some(3));
    assert_eq!(hunk.lines[4].new_lineno, Some(4));
}

#[test]
fn parses_multiple_hunks() {
    let raw = "diff --git a/f.txt b/f.txt\n--- a/f.txt\n+++ b/f.txt\n@@ -1,2 +1,2 @@\n-a\n+A\n b\n@@ -10,2 +10,2 @@\n-x\n+X\n y\n";
    let diff = parse_file_diff(raw).unwrap();
    assert_eq!(diff.hunks.len(), 2);
    assert_eq!(diff.hunks[1].old_start, 10);
}

#[test]
fn parses_new_file() {
    let raw = "diff --git a/new.txt b/new.txt\nnew file mode 100644\nindex 000..111\n--- /dev/null\n+++ b/new.txt\n@@ -0,0 +1,2 @@\n+line1\n+line2\n";
    let diff = parse_file_diff(raw).unwrap();
    assert!(diff.is_new_file);
    assert_eq!(diff.old_path, "/dev/null");
    assert_eq!(diff.new_path, "new.txt");
    assert_eq!(diff.hunks[0].old_start, 0);
    assert_eq!(diff.hunks[0].old_lines, 0);
}

#[test]
fn detects_binary_file() {
    let raw = "diff --git a/img.png b/img.png\nindex 111..222 100644\nBinary files a/img.png and b/img.png differ\n";
    let diff = parse_file_diff(raw).unwrap();
    assert!(diff.is_binary);
    assert!(diff.hunks.is_empty());
}

#[test]
fn handles_no_newline_at_eof_marker() {
    let raw = "diff --git a/f.txt b/f.txt\n--- a/f.txt\n+++ b/f.txt\n@@ -1,1 +1,1 @@\n-old\n\\ No newline at end of file\n+new\n\\ No newline at end of file\n";
    let diff = parse_file_diff(raw).unwrap();
    let hunk = &diff.hunks[0];
    assert_eq!(hunk.lines.len(), 2);
    assert!(hunk.lines[0].no_newline_at_eof);
    assert!(hunk.lines[1].no_newline_at_eof);
}

#[test]
fn implicit_hunk_line_counts_default_to_one() {
    let raw = "diff --git a/f.txt b/f.txt\n--- a/f.txt\n+++ b/f.txt\n@@ -5 +5,2 @@\n-x\n+y\n+z\n";
    let diff = parse_file_diff(raw).unwrap();
    assert_eq!(diff.hunks[0].old_lines, 1);
    assert_eq!(diff.hunks[0].new_lines, 2);
}

#[test]
fn handles_crlf_line_endings() {
    let raw = "diff --git a/f.txt b/f.txt\r\n--- a/f.txt\r\n+++ b/f.txt\r\n@@ -1,1 +1,1 @@\r\n-old\r\n+new\r\n";
    let diff = parse_file_diff(raw).unwrap();
    assert_eq!(diff.hunks[0].lines.len(), 2);
    assert_eq!(diff.hunks[0].lines[1].content, "new");
}

#[test]
fn empty_diff_has_no_hunks() {
    let diff = parse_file_diff("").unwrap();
    assert!(diff.hunks.is_empty());
    assert!(!diff.is_binary);
}
