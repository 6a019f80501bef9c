use gatomic::diff::model::Hunk;
use gatomic::diff::parser::parse_file_diff;
use gatomic::diff::split::split_hunk;

fn hunk_with_gap(gap_lines: usize) -> Hunk {
    let context: String = (0..gap_lines).map(|i| format!(" ctx{i}\n")).collect();
    let raw = format!(
        "diff --git a/f.txt b/f.txt\n--- a/f.txt\n+++ b/f.txt\n@@ -1,{} +1,{} @@\n-a\n+A\n{context}-z\n+Z\n",
        gap_lines + 2,
        gap_lines + 2
    );
    parse_file_diff(&raw).unwrap().hunks.into_iter().next().unwrap()
}

#[test]
fn splits_when_gap_is_wide_enough() {
    let hunk = hunk_with_gap(10);
    let sub_hunks = split_hunk(&hunk, 2).expect("gap of 10 >= 2*2 should split");
    assert_eq!(sub_hunks.len(), 2);
    assert_eq!(sub_hunks[0].old_start, hunk.old_start);
    assert!(sub_hunks[0].lines.iter().any(|l| l.content == "a" || l.content == "A"));
    assert!(sub_hunks[1].lines.iter().any(|l| l.content == "z" || l.content == "Z"));
}

#[test]
fn does_not_split_when_gap_is_too_narrow() {
    let hunk = hunk_with_gap(2);
    assert!(split_hunk(&hunk, 3).is_none());
}

#[test]
fn single_change_block_is_not_splittable() {
    let raw = "diff --git a/f.txt b/f.txt\n--- a/f.txt\n+++ b/f.txt\n@@ -1,2 +1,2 @@\n-a\n+A\n b\n";
    let hunk = parse_file_diff(raw).unwrap().hunks.into_iter().next().unwrap();
    assert!(split_hunk(&hunk, 1).is_none());
}

#[test]
fn sub_hunk_line_counts_are_correct() {
    let hunk = hunk_with_gap(10);
    let sub_hunks = split_hunk(&hunk, 2).unwrap();
    assert_eq!(sub_hunks[0].old_lines, 3);
    assert_eq!(sub_hunks[0].new_lines, 3);
    assert_eq!(sub_hunks[1].old_lines, 3);
    assert_eq!(sub_hunks[1].new_lines, 3);
}
