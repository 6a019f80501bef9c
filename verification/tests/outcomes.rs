use gatomic::diff::parser::parse_file_diff;
use gatomic::fixup::FileCommitMatch;
use gatomic::git::commit::{branch_base_from_outcomes, CommitInfo};
use gatomic::selection::{FileSelection, HunkDecision};
use gatomic::tui::commit_form::CommitFormState;
use gatomic::git::commit::parse_files_changed;
use gatomic::tui::layout::{
    assemble_commit_form_layout, assemble_review_layout, assemble_triage_layout, commit_form_layout,
    commit_form_plan, help_plan, help_popup_area, review_layout, review_plan, triage_layout,
    triage_plan, Axis, CommitFormLayout, Cut, Packing, ReviewLayout, Size, TriageLayout,
};
use gatomic::tui::review::Area;
use gatomic::tui::triage_screen::TriageState;

fn area(x: u16, y: u16, width: u16, height: u16) -> Area {
    Area { x, y, width, height }
}

fn inside(piece: Area, outer: Area) -> bool {
    outer.x <= piece.x
        && piece.x as u32 + piece.width as u32 <= outer.x as u32 + outer.width as u32
        && outer.y <= piece.y
        && piece.y as u32 + piece.height as u32 <= outer.y as u32 + outer.height as u32
}

// --- Layout assembly ------------------------------------------------------------

#[test]
fn review_panes_come_from_the_right_pieces() {
    let rows = vec![area(0, 0, 100, 37), area(0, 37, 100, 3)];
    let left = vec![area(0, 0, 70, 5), area(0, 5, 70, 32)];
    let right = vec![area(70, 0, 30, 18), area(70, 18, 30, 19)];
    assert_eq!(
        assemble_review_layout(&rows, &left, &right),
        ReviewLayout {
            files: left[0],
            hunks: left[1],
            commits: right[0],
            commit_show: right[1],
            help: rows[1],
        }
    );
}

#[test]
fn triage_panes_come_from_the_right_pieces() {
    let columns = vec![area(0, 0, 55, 40), area(55, 0, 45, 40)];
    let left = vec![area(0, 0, 55, 37), area(0, 37, 55, 3)];
    let left_top = vec![area(0, 0, 55, 18), area(0, 18, 55, 19)];
    assert_eq!(
        assemble_triage_layout(&columns, &left, &left_top),
        TriageLayout { list: left_top[0], file_diff: left_top[1], help: left[1], show: columns[1] }
    );
}

#[test]
fn commit_form_parts_come_from_the_right_pieces() {
    let popup = area(7, 3, 85, 34);
    let sections = vec![area(7, 3, 85, 5), area(7, 8, 85, 26), area(7, 34, 85, 3)];
    let buttons = vec![area(7, 34, 57, 3), area(64, 34, 13, 3), area(77, 34, 2, 3), area(79, 34, 13, 3)];
    assert_eq!(
        assemble_commit_form_layout(popup, &sections, &buttons),
        CommitFormLayout {
            popup,
            text: sections[0],
            diff: sections[1],
            validate_button: buttons[1],
            cancel_button: buttons[3],
        }
    );
}

#[test]
fn every_pane_lies_on_the_screen_even_when_cramped() {
    for (width, height) in [(100, 40), (30, 8), (20, 9), (7, 3), (1, 1), (0, 0)] {
        let screen = area(2, 1, width, height);
        let review = review_layout(screen, 4);
        for piece in [review.files, review.hunks, review.commits, review.commit_show, review.help] {
            assert!(inside(piece, screen));
        }
        let triage = triage_layout(screen);
        for piece in [triage.list, triage.file_diff, triage.help, triage.show] {
            assert!(inside(piece, screen));
        }
        let form = commit_form_layout(screen, 2);
        assert!(inside(form.popup, screen));
        for piece in [form.text, form.diff, form.validate_button, form.cancel_button] {
            assert!(inside(piece, form.popup));
        }
        assert!(inside(help_popup_area(screen, 12), screen));
    }
}

// --- Branch base ----------------------------------------------------------------

fn ok(out: &str) -> (bool, String) {
    (true, out.to_string())
}

fn failed() -> (bool, String) {
    (false, String::new())
}

#[test]
fn branch_base_is_the_first_answer() {
    assert_eq!(
        branch_base_from_outcomes(&vec![ok(" origin/topic\n")]),
        Some("origin/topic".to_string())
    );
    assert_eq!(
        branch_base_from_outcomes(&vec![failed(), ok("origin/HEAD-target\n"), ok("")]),
        Some("origin/HEAD-target".to_string())
    );
    assert_eq!(
        branch_base_from_outcomes(&vec![ok("  \n"), failed(), ok(""), ok("")]),
        Some("origin/main".to_string())
    );
    assert_eq!(
        branch_base_from_outcomes(&vec![failed(), failed(), failed(), ok("")]),
        Some("origin/master".to_string())
    );
}

#[test]
fn branch_base_is_none_when_no_probe_answers() {
    assert_eq!(branch_base_from_outcomes(&vec![]), None);
    assert_eq!(branch_base_from_outcomes(&vec![failed(), ok("\n"), failed(), failed()]), None);
}

#[test]
fn later_outcomes_do_not_change_an_answer() {
    let first = vec![failed(), ok("origin/dev")];
    let mut more = first.clone();
    more.push(ok(""));
    more.push(ok(""));
    assert_eq!(branch_base_from_outcomes(&first), branch_base_from_outcomes(&more));
}

// --- Commit form cursor --------------------------------------------------------

#[test]
fn cursor_cell_is_kept_inside_the_border() {
    let mut form = CommitFormState::new("", String::new());
    let text = area(10, 5, 20, 6);
    assert_eq!(form.cursor_cell(text), (11, 6));
    for c in "hello".chars() {
        form.insert_char(c);
    }
    form.insert_newline();
    form.insert_char('x');
    assert_eq!(form.cursor_cell(text), (12, 7));
    for _ in 0..40 {
        form.insert_char('y');
    }
    assert_eq!(form.cursor_cell(text), (28, 7));
    for _ in 0..10 {
        form.insert_newline();
    }
    assert_eq!(form.cursor_cell(text), (11, 9));
    assert_eq!(form.cursor_cell(area(3, 4, 1, 0)), (3, 4));
}

// --- Selection after a run of operations ---------------------------------------

#[test]
fn decisions_agree_with_selected_lines_after_any_operations() {
    let raw = "diff --git a/f.txt b/f.txt\n--- a/f.txt\n+++ b/f.txt\n@@ -1,2 +1,2 @@\n-a\n+A\n b\n@@ -10,2 +10,2 @@\n-x\n+X\n y\n@@ -20,1 +20,1 @@\n-p\n+P\n";
    let diff = parse_file_diff(raw).unwrap();
    let mut sel = FileSelection::all_undecided("f.txt", &diff);
    sel.accept_hunk_and_rest(1);
    sel.toggle_line(1, 0);
    sel.toggle_hunk(0);
    sel.reject_hunk(2);
    sel.toggle_line(0, 1);
    assert_eq!(sel.decision_of(0), HunkDecision::Partial);
    assert!(sel.line_is_selected(0, 0) && !sel.line_is_selected(0, 1));
    assert_eq!(sel.decision_of(1), HunkDecision::Partial);
    assert!(!sel.line_is_selected(1, 0) && sel.line_is_selected(1, 1));
    assert_eq!(sel.decision_of(2), HunkDecision::Rejected);
    assert!(!sel.line_is_selected(2, 0) && !sel.line_is_selected(2, 1));
    sel.toggle_line(1, 0);
    assert_eq!(sel.decision_of(1), HunkDecision::Accepted);
    sel.toggle_line(1, 0);
    sel.toggle_line(1, 1);
    assert_eq!(sel.decision_of(1), HunkDecision::Undecided);
    for h in 0..3 {
        assert_eq!(sel.hunks[h].hunk_index, h);
        assert_eq!(sel.hunks[h].line_selected.len(), diff.hunks[h].lines.len());
    }
}

// --- Triage after toggles -------------------------------------------------------

fn commit(sha: &str) -> CommitInfo {
    CommitInfo {
        short_sha: sha.to_string(),
        date: "2026-01-01".to_string(),
        author: "tester".to_string(),
        message: format!("msg {sha}"),
    }
}

fn matched(file: &str, sha: &str) -> FileCommitMatch {
    FileCommitMatch { file: file.to_string(), matching_commits: vec![commit(sha)] }
}

fn strings(paths: &[&str]) -> Vec<String> {
    paths.iter().map(|p| p.to_string()).collect()
}

#[test]
fn accepted_groups_follow_first_appearance_after_toggles() {
    let matches = vec![
        matched("b.rs", "222"),
        matched("a.rs", "111"),
        matched("c.rs", "222"),
        matched("d.rs", "111"),
        matched("e.rs", "333"),
    ];
    let mut triage = TriageState::new(matches, vec![(1, 0); 5]);
    assert_eq!(
        triage.accepted_groups(),
        vec![
            ("222".to_string(), strings(&["b.rs", "c.rs"])),
            ("111".to_string(), strings(&["a.rs", "d.rs"])),
            ("333".to_string(), strings(&["e.rs"])),
        ]
    );
    // Rows: 222, b, c, 111, a, d, 333, e.
    triage.select_row(2);
    triage.toggle_current();
    triage.select_row(6);
    triage.toggle_current();
    triage.move_up();
    triage.toggle_current();
    triage.toggle_current();
    assert_eq!(
        triage.accepted_groups(),
        vec![("222".to_string(), strings(&["b.rs"])), ("111".to_string(), strings(&["a.rs", "d.rs"]))]
    );
}

// --- Layout plans ----------------------------------------------------------------

fn is_cut(cut: &Cut, axis: Axis, packing: Packing, sizes: &[Size]) -> bool {
    cut.axis == axis && cut.packing == packing && cut.sizes == sizes.to_vec()
}

#[test]
fn review_plan_cuts_body_columns_and_panes() {
    let (rows, outer, left, right) = review_plan(3);
    assert!(is_cut(&rows, Axis::Vertical, Packing::Start, &[Size::Min(0), Size::Length(3)]));
    assert!(is_cut(&outer, Axis::Horizontal, Packing::Start, &[Size::Percentage(70), Size::Percentage(30)]));
    assert!(is_cut(&left, Axis::Vertical, Packing::Start, &[Size::Length(5), Size::Min(0)]));
    assert!(is_cut(&right, Axis::Vertical, Packing::Start, &[Size::Percentage(50), Size::Percentage(50)]));
    let (_, _, crowded, _) = review_plan(40);
    assert!(is_cut(&crowded, Axis::Vertical, Packing::Start, &[Size::Length(12), Size::Min(0)]));
}

#[test]
fn triage_plan_cuts_columns_then_the_left_one() {
    let (columns, left, left_top) = triage_plan();
    assert!(is_cut(&columns, Axis::Horizontal, Packing::Start, &[Size::Percentage(55), Size::Percentage(45)]));
    assert!(is_cut(&left, Axis::Vertical, Packing::Start, &[Size::Min(0), Size::Length(3)]));
    assert!(is_cut(&left_top, Axis::Vertical, Packing::Start, &[Size::Percentage(50), Size::Percentage(50)]));
}

#[test]
fn commit_form_plan_centres_the_popup_and_places_the_buttons() {
    let (band, columns, sections, buttons) = commit_form_plan(1);
    assert!(is_cut(&band, Axis::Vertical, Packing::Center, &[Size::Percentage(85)]));
    assert!(is_cut(&columns, Axis::Horizontal, Packing::Center, &[Size::Percentage(85)]));
    assert!(is_cut(&sections, Axis::Vertical, Packing::Start, &[Size::Length(5), Size::Min(3), Size::Length(3)]));
    assert!(is_cut(
        &buttons,
        Axis::Horizontal,
        Packing::Start,
        &[Size::Min(0), Size::Length(13), Size::Length(2), Size::Length(13)]
    ));
    let (_, _, tall, _) = commit_form_plan(8);
    assert_eq!(tall.sizes[0], Size::Length(10));
}

#[test]
fn help_plan_is_as_tall_as_its_lines_and_sixty_percent_wide() {
    let (band, columns) = help_plan(6);
    assert!(is_cut(&band, Axis::Vertical, Packing::Center, &[Size::Length(10)]));
    assert!(is_cut(&columns, Axis::Horizontal, Packing::Center, &[Size::Percentage(60)]));
}

// --- Files by commit --------------------------------------------------------------

#[test]
fn a_file_listed_twice_for_a_commit_is_kept_once() {
    let raw = "\u{1}abc\n\nb.txt\na.txt\nb.txt\n\u{1}def\n\nc.txt\nc.txt\n";
    let map = parse_files_changed(raw);
    assert_eq!(map.get(&"abc".to_string()).unwrap(), &vec!["b.txt".to_string(), "a.txt".to_string()]);
    assert_eq!(map.get(&"def".to_string()).unwrap(), &vec!["c.txt".to_string()]);
}
