use gatomic::cli::Cli;
use gatomic::diff::model::FileDiff;
use gatomic::diff::parser::parse_file_diff;
use gatomic::diff::patch::{apply_selection_commands, build_patch, patch_fits_check};
use gatomic::diff::split::{split_hunk, split_hunk_checked};
use gatomic::fixup::FileCommitMatch;
use gatomic::git::commit::CommitInfo;
use gatomic::git::status::{FileEntry, FileStatusKind};
use gatomic::i18n::Lang;
use gatomic::selection::{FileSelection, HunkDecision};
use gatomic::tui::commit_form::CommitFormState;
use gatomic::tui::hunk_pane::{build_rows, checkbox, decision_glyph, header_row_position, row_text, toggle_row, HunkRow, RowStyle, RowToggle};
use gatomic::tui::layout::{commit_form_layout, help_popup_area, review_layout, triage_layout};
use gatomic::tui::panes::{
    clamp_scroll, commit_row_text, count_texts, file_stat, hunk_progress, line_tint, progress_text,
    staged_indicator, status_letter, FileStat, LineTint,
};
use gatomic::tui::review::{
    after_decision, review_click, AfterDecision, ListExtent, ReviewClick, TriageRegion,
    area_contains, cycle_pane, evident_matches, help_lines, help_lines_short, hunk_cursor_target,
    key_action, next_in, prev_in, restored_index, review_region, row_at, splice_hunks, Area,
    FormEdit, Key, KeyAction, KeyContext, Pane, ReviewAreas, ReviewRegion, Screen, TriageCommand,
};
use gatomic::tui::triage_screen::{commit_glyph, TriageFocus, TriageRow, TriageState};

fn two_hunk_diff() -> FileDiff {
    let raw = "diff --git a/f.txt b/f.txt\n--- a/f.txt\n+++ b/f.txt\n@@ -1,2 +1,2 @@\n-a\n+A\n b\n@@ -10,2 +10,2 @@\n-x\n+X\n y\n";
    parse_file_diff(raw).unwrap()
}

fn commit(sha: &str) -> CommitInfo {
    CommitInfo {
        short_sha: sha.to_string(),
        date: "2026-01-01".to_string(),
        author: "tester".to_string(),
        message: format!("msg {sha}"),
    }
}

fn matched(file: &str, shas: &[&str]) -> FileCommitMatch {
    FileCommitMatch {
        file: file.to_string(),
        matching_commits: shas.iter().map(|s| commit(s)).collect(),
    }
}

fn entry(path: &str, kind: FileStatusKind, staged: bool, unstaged: bool) -> FileEntry {
    FileEntry { path: path.to_string(), old_path: None, kind, staged, has_unstaged_changes: unstaged }
}

// --- Hunk rows --------------------------------------------------------------

#[test]
fn rows_are_a_header_then_lines_per_hunk() {
    let diff = two_hunk_diff();
    let rows = build_rows(&diff);
    assert_eq!(rows.len(), 8);
    assert_eq!(rows[0], HunkRow::Header(0));
    assert_eq!(rows[1], HunkRow::Line(0, 0));
    assert_eq!(rows[4], HunkRow::Header(1));
    assert_eq!(rows[7].hunk_index(), 1);
    assert_eq!(header_row_position(&rows, 1), Some(4));
    assert_eq!(header_row_position(&rows, 2), None);
}

#[test]
fn row_texts_show_decision_and_checkboxes() {
    let diff = two_hunk_diff();
    let mut sel = FileSelection::all_undecided("f.txt", &diff);
    let (header, style) = row_text(&HunkRow::Header(0), &diff, &sel);
    assert_eq!(header, "[?] @@ -1,2 +1,2 @@");
    assert_eq!(style, RowStyle::Header);
    sel.accept_hunk(1);
    assert_eq!(row_text(&HunkRow::Header(1), &diff, &sel).0, "[x] @@ -10,2 +10,2 @@");
    assert_eq!(row_text(&HunkRow::Line(1, 0), &diff, &sel), (" [x] - x".to_string(), RowStyle::Removed));
    assert_eq!(row_text(&HunkRow::Line(0, 1), &diff, &sel), (" [ ] + A".to_string(), RowStyle::Added));
    assert_eq!(row_text(&HunkRow::Line(0, 2), &diff, &sel), ("       b".to_string(), RowStyle::Context));
    assert_eq!(decision_glyph(HunkDecision::Partial), "[~]");
    assert_eq!(decision_glyph(HunkDecision::Rejected), "[ ]");
    assert_eq!(checkbox(true), "[x]");
}

// --- Triage -----------------------------------------------------------------

fn triage() -> TriageState {
    TriageState::new(
        vec![matched("a.txt", &["c1"]), matched("b.txt", &["c2"]), matched("c.txt", &["c1"])],
        vec![(1, 2), (3, 4), (5, 6)],
    )
}

#[test]
fn triage_groups_files_under_their_commit_in_first_seen_order() {
    let t = triage();
    assert_eq!(t.groups().len(), 2);
    assert_eq!(t.groups()[0].commit.short_sha, "c1");
    assert_eq!(t.groups()[0].files.len(), 2);
    assert_eq!(t.groups()[0].files[1].file, "c.txt");
    assert_eq!(t.groups()[0].files[1].added, 5);
    assert_eq!(t.groups()[1].files[0].removed, 4);
    assert!(t.groups().iter().all(|g| g.files.iter().all(|f| f.checked)));
    assert_eq!(t.row_count(), 5);
    assert_eq!(t.rows()[2], TriageRow::File(0, 1));
    assert_eq!(t.selected(), Some(0));
    assert_eq!(t.focus(), TriageFocus::List);
    assert_eq!(commit_glyph(&t.groups()[0]), "[x]");
}

#[test]
fn empty_triage_selects_nothing() {
    let t = TriageState::new(Vec::new(), Vec::new());
    assert_eq!(t.row_count(), 0);
    assert_eq!(t.selected(), None);
    assert!(t.accepted_groups().is_empty());
}

#[test]
fn toggling_a_file_twice_restores_it() {
    let mut t = triage();
    t.move_down();
    assert_eq!(t.current_row(), Some(TriageRow::File(0, 0)));
    assert_eq!(t.current_selected_file_path().as_deref(), Some("a.txt"));
    t.toggle_current();
    assert!(!t.groups()[0].files[0].checked);
    assert_eq!(commit_glyph(&t.groups()[0]), "[~]");
    t.toggle_current();
    assert!(t.groups()[0].files[0].checked);
}

#[test]
fn toggling_a_commit_row_sets_all_its_files() {
    let mut t = triage();
    t.toggle_current();
    assert!(t.groups()[0].files.iter().all(|f| !f.checked));
    assert_eq!(commit_glyph(&t.groups()[0]), "[ ]");
    t.select_row(1);
    t.toggle_current();
    t.select_row(0);
    t.toggle_current();
    assert!(t.groups()[0].files.iter().all(|f| f.checked));
}

#[test]
fn accepted_groups_list_checked_paths_by_commit() {
    let mut t = triage();
    t.select_row(3);
    assert_eq!(t.current_commit_sha().as_deref(), Some("c2"));
    t.toggle_current();
    let groups = t.accepted_groups();
    assert_eq!(groups.len(), 1);
    assert_eq!(groups[0].0, "c1");
    assert_eq!(groups[0].1, vec!["a.txt".to_string(), "c.txt".to_string()]);
}

#[test]
fn triage_cursor_and_previews() {
    let mut t = triage();
    t.move_up();
    assert_eq!(t.selected(), Some(0));
    for _ in 0..10 {
        t.move_down();
    }
    assert_eq!(t.selected(), Some(4));
    t.select_row(99);
    assert_eq!(t.selected(), Some(4));
    t.toggle_focus();
    assert_eq!(t.focus(), TriageFocus::FileDiff);
    t.scroll_focused_pane_down();
    t.scroll_focused_pane_down();
    assert_eq!(t.file_diff_scroll(), 2);
    t.scroll_focused_pane_up();
    assert_eq!(t.file_diff_scroll(), 1);
    t.toggle_focus();
    t.scroll_focused_pane_up();
    assert_eq!(t.show_scroll(), 0);
    t.toggle_focus();
    assert_eq!(t.focus(), TriageFocus::List);
    t.set_focus(TriageFocus::Show);
    assert_eq!(t.focus(), TriageFocus::Show);
    t.set_focus(TriageFocus::List);
    t.scroll_focused_pane_up();
    assert_eq!(t.selected(), Some(3));
    assert_eq!(t.file_diff_scroll(), 0);
    t.set_list_offset(2);
    assert_eq!(t.list_offset(), 2);
}

// --- Commit form --------------------------------------------------------------

#[test]
fn commit_form_starts_from_the_template() {
    let form = CommitFormState::new("Subject\n\nBody\n", String::new());
    assert_eq!(form.line_count(), 3);
    assert_eq!(form.message(), "Subject\n\nBody");
    assert_eq!(form.cursor(), (0, 0));
    let empty = CommitFormState::new("", "diff".to_string());
    assert_eq!(empty.line_count(), 1);
    assert_eq!(empty.message(), "");
    assert_eq!(empty.diff(), "diff");
    assert!(empty.submission().is_none());
}

#[test]
fn typing_and_editing_the_message() {
    let mut form = CommitFormState::new("", String::new());
    for c in "Fix".chars() {
        form.insert_char(c);
    }
    form.insert_newline();
    form.insert_char('b');
    assert_eq!(form.message(), "Fix\nb");
    assert_eq!(form.cursor(), (1, 1));
    form.backspace();
    form.backspace();
    assert_eq!(form.message(), "Fix");
    assert_eq!(form.cursor(), (0, 3));
    form.move_left();
    form.insert_newline();
    assert_eq!(form.message(), "Fi\nx");
    form.move_up();
    assert_eq!(form.cursor(), (0, 0));
    form.move_end();
    assert_eq!(form.cursor(), (0, 2));
    form.move_right();
    assert_eq!(form.cursor(), (1, 0));
    form.move_home();
    form.move_down();
    assert_eq!(form.cursor(), (1, 0));
    assert_eq!(form.line_text(1), "x");
    assert_eq!(form.submission().as_deref(), Some("Fi\nx"));
}

#[test]
fn a_blank_message_is_not_submitted() {
    let mut form = CommitFormState::new("", String::new());
    form.insert_char(' ');
    form.insert_newline();
    form.insert_char('\t');
    assert!(form.submission().is_none());
}

// --- Keys, mouse and cursors --------------------------------------------------

fn review(pane: Pane) -> KeyContext {
    KeyContext { screen: Screen::Review, pane, form_open: false, help_shown: false }
}

#[test]
fn keys_of_the_review_screen() {
    assert_eq!(key_action(review(Pane::Files), Key::Char('q'), false), KeyAction::Quit);
    assert_eq!(key_action(review(Pane::Files), Key::Tab, false), KeyAction::CyclePane(true));
    assert_eq!(key_action(review(Pane::Hunks), Key::Char('y'), false), KeyAction::DecideHunk(true, false));
    assert_eq!(key_action(review(Pane::Hunks), Key::Char('d'), false), KeyAction::DecideHunk(false, true));
    assert_eq!(key_action(review(Pane::Files), Key::Char('y'), false), KeyAction::Nothing);
    assert_eq!(key_action(review(Pane::Hunks), Key::Char('j'), false), KeyAction::MoveHunkCursor(true));
    assert_eq!(key_action(review(Pane::Files), Key::Char('j'), false), KeyAction::MoveDown);
    assert_eq!(key_action(review(Pane::Hunks), Key::Char('K'), false), KeyAction::JumpUndecided(false));
    assert_eq!(key_action(review(Pane::Commits), Key::Char('x'), false), KeyAction::FixupSelected);
    assert_eq!(key_action(review(Pane::Hunks), Key::Char('x'), false), KeyAction::Nothing);
    assert_eq!(key_action(review(Pane::Files), Key::Char('t'), false), KeyAction::OpenTriage);
    assert_eq!(key_action(review(Pane::Commits), Key::PageDown, false), KeyAction::ScrollShow(true));
    assert_eq!(key_action(review(Pane::Hunks), Key::Enter, false), KeyAction::ToggleRow);
    assert_eq!(key_action(review(Pane::Hunks), Key::Char('s'), false), KeyAction::SplitHunk);
    assert_eq!(key_action(review(Pane::Files), Key::Char('c'), false), KeyAction::OpenCommitForm);
    assert_eq!(key_action(review(Pane::Files), Key::Char('?'), false), KeyAction::ShowHelp);
    assert_eq!(key_action(review(Pane::Files), Key::Char('y'), true), KeyAction::Nothing);
}

#[test]
fn keys_of_the_triage_screen_form_and_help() {
    let tri = KeyContext { screen: Screen::Triage, pane: Pane::Files, form_open: false, help_shown: false };
    assert_eq!(key_action(tri, Key::Char('a'), false), KeyAction::Triage(TriageCommand::Accept));
    assert_eq!(key_action(tri, Key::Esc, false), KeyAction::Triage(TriageCommand::Skip));
    assert_eq!(key_action(tri, Key::Char('j'), false), KeyAction::Triage(TriageCommand::ScrollDown));
    assert_eq!(key_action(tri, Key::Char('l'), false), KeyAction::CycleLanguage);
    let form = KeyContext { screen: Screen::Review, pane: Pane::Hunks, form_open: true, help_shown: false };
    assert_eq!(key_action(form, Key::Char('q'), false), KeyAction::Form(FormEdit::Insert('q')));
    assert_eq!(key_action(form, Key::Enter, true), KeyAction::FormSubmit);
    assert_eq!(key_action(form, Key::Enter, false), KeyAction::Form(FormEdit::Newline));
    assert_eq!(key_action(form, Key::Esc, false), KeyAction::FormCancel);
    assert_eq!(key_action(form, Key::Char('c'), true), KeyAction::Quit);
    let help = KeyContext { screen: Screen::Review, pane: Pane::Hunks, form_open: false, help_shown: true };
    assert_eq!(key_action(help, Key::Char('q'), false), KeyAction::CloseHelp);
}

#[test]
fn panes_cycle_both_ways() {
    assert_eq!(cycle_pane(Pane::Files, true), Pane::Hunks);
    assert_eq!(cycle_pane(Pane::Commits, true), Pane::Files);
    assert_eq!(cycle_pane(Pane::Files, false), Pane::Commits);
    assert_eq!(cycle_pane(cycle_pane(Pane::Hunks, true), false), Pane::Hunks);
}

#[test]
fn clicks_land_on_rows_inside_borders() {
    let a = Area { x: 0, y: 0, width: 20, height: 6 };
    assert!(area_contains(a, 19, 5));
    assert!(!area_contains(a, 20, 5));
    assert_eq!(row_at(a, 0, 0, 10), None);
    assert_eq!(row_at(a, 0, 1, 10), Some(0));
    assert_eq!(row_at(a, 3, 4, 10), Some(6));
    assert_eq!(row_at(a, 0, 5, 10), None);
    assert_eq!(row_at(a, 0, 3, 2), None);
    let areas = ReviewAreas {
        files: Area { x: 0, y: 0, width: 10, height: 5 },
        hunks: Area { x: 0, y: 5, width: 10, height: 5 },
        commits: Area { x: 10, y: 0, width: 10, height: 5 },
        commit_show: Area { x: 10, y: 5, width: 10, height: 5 },
    };
    assert_eq!(review_region(&areas, 12, 7), Some(ReviewRegion::CommitShow));
    assert_eq!(review_region(&areas, 3, 6), Some(ReviewRegion::Hunks));
    assert_eq!(review_region(&areas, 30, 6), None);
}

#[test]
fn list_cursors_stay_in_the_list() {
    assert_eq!(next_in(None, 3), Some(0));
    assert_eq!(next_in(Some(2), 3), Some(2));
    assert_eq!(prev_in(Some(0), 3), Some(0));
    assert_eq!(prev_in(next_in(Some(0), 3), 3), Some(0));
    assert_eq!(next_in(Some(5), 0), Some(5));
    assert_eq!(hunk_cursor_target(0, 3, true), 1);
    assert_eq!(hunk_cursor_target(2, 3, true), 2);
    assert_eq!(hunk_cursor_target(0, 3, false), 0);
}

#[test]
fn restored_index_finds_the_previous_file_by_path() {
    let files = vec![
        entry("a.txt", FileStatusKind::Modified, false, true),
        entry("b.txt", FileStatusKind::Modified, false, true),
    ];
    assert_eq!(restored_index(Some(&"b.txt".to_string()), &files), Some(1));
    assert_eq!(restored_index(Some(&"gone.txt".to_string()), &files), Some(0));
    assert_eq!(restored_index(None, &files), Some(0));
    assert_eq!(restored_index(None, &Vec::new()), None);
}

#[test]
fn evident_matches_keep_single_commit_ones() {
    let all = vec![matched("a", &["c1"]), matched("b", &["c1", "c2"]), matched("c", &["c3"])];
    let evident = evident_matches(all);
    assert_eq!(evident.len(), 2);
    assert_eq!(evident[1].file, "c");
}

#[test]
fn splicing_split_hunks_into_the_diff() {
    let raw = "diff --git a/f.txt b/f.txt\n--- a/f.txt\n+++ b/f.txt\n@@ -1,14 +1,14 @@\n-a\n+A\n c1\n c2\n c3\n c4\n c5\n c6\n c7\n c8\n c9\n c10\n-z\n+Z\n";
    let mut diff = parse_file_diff(raw).unwrap();
    let parts = split_hunk(&diff.hunks[0], 3).unwrap();
    assert_eq!(parts.len(), 2);
    splice_hunks(&mut diff, 0, parts);
    assert_eq!(diff.hunks.len(), 2);
    assert_eq!(diff.hunks[1].old_start, 9);
    assert_eq!(diff.hunks[1].new_start, 9);
    assert_eq!(build_rows(&diff).len(), 2 + 5 + 5);
}

#[test]
fn splitting_without_context_has_no_numbered_start() {
    let raw = "diff --git a/f.txt b/f.txt\n--- a/f.txt\n+++ b/f.txt\n@@ -1,3 +1,3 @@\n-a\n+A\n c\n-z\n+Z\n";
    let diff = parse_file_diff(raw).unwrap();
    assert!(split_hunk_checked(&diff.hunks[0], 0).is_none());
    assert!(split_hunk_checked(&diff.hunks[0], 1).unwrap().is_none());
}

#[test]
fn help_lines_per_pane() {
    let strings = Lang::En.strings();
    assert_eq!(help_lines(Pane::Files, &strings).len(), 6);
    assert_eq!(help_lines(Pane::Hunks, &strings).len(), 9);
    assert_eq!(help_lines_short(Pane::Commits, &strings).len(), 6);
    assert_eq!(help_lines(Pane::Hunks, &strings)[4], strings.help_hunk_split);
    assert_eq!(help_lines_short(Pane::Hunks, &strings)[4], strings.short_hunk_split);
}

// --- Panes ------------------------------------------------------------------

#[test]
fn file_rows_show_status_staging_and_stats() {
    assert_eq!(status_letter(&FileStatusKind::Untracked), "?");
    assert_eq!(status_letter(&FileStatusKind::Conflicted), "U");
    assert_eq!(staged_indicator(&entry("a", FileStatusKind::Modified, true, false)), "+");
    assert_eq!(staged_indicator(&entry("a", FileStatusKind::Modified, true, true)), "~");
    assert_eq!(staged_indicator(&entry("a", FileStatusKind::Modified, false, true)), " ");
    assert_eq!(file_stat(&FileStatusKind::Added, Some((1, 1))), FileStat::New);
    assert_eq!(file_stat(&FileStatusKind::Deleted, None), FileStat::Deleted);
    assert_eq!(file_stat(&FileStatusKind::Modified, None), FileStat::Counts(0, 0));
    assert_eq!(file_stat(&FileStatusKind::Renamed, Some((4, 2))), FileStat::Counts(4, 2));
    assert_eq!(count_texts(4, 2), ("+4".to_string(), "-2".to_string()));
}

#[test]
fn hunk_progress_prefers_the_live_selection() {
    assert_eq!(hunk_progress(Some((1, 3)), Some(5)), Some((1, 3)));
    assert_eq!(hunk_progress(None, Some(5)), Some((0, 5)));
    assert_eq!(hunk_progress(None, Some(0)), None);
    assert_eq!(hunk_progress(Some((0, 0)), Some(5)), None);
    assert_eq!(hunk_progress(None, None), None);
    assert_eq!(progress_text(2, 3), "hunks 2/3");
}

#[test]
fn commit_rows_and_line_tints() {
    assert_eq!(commit_row_text(&commit("abc")), "abc 2026-01-01 msg abc");
    assert_eq!(line_tint("commit 123"), LineTint::CommitHeader);
    assert_eq!(line_tint("+++ b/f"), LineTint::FileHeader);
    assert_eq!(line_tint("--- a/f"), LineTint::FileHeader);
    assert_eq!(line_tint("+x"), LineTint::Added);
    assert_eq!(line_tint("-x"), LineTint::Removed);
    assert_eq!(line_tint("@@ -1 +1 @@"), LineTint::HunkHeader);
    assert_eq!(line_tint(" ctx"), LineTint::Plain);
}

#[test]
fn text_pane_scroll_stops_at_the_end() {
    assert_eq!(clamp_scroll(50, 30, 12), 20);
    assert_eq!(clamp_scroll(5, 30, 12), 5);
    assert_eq!(clamp_scroll(5, 3, 12), 0);
    assert_eq!(clamp_scroll(7, 10, 1), 7);
}

// --- Languages and options ------------------------------------------------------

#[test]
fn languages_cycle_and_keep_placeholders() {
    assert_eq!(Lang::default(), Lang::En);
    assert_eq!(Lang::En.cycle(), Lang::Fr);
    assert_eq!(Lang::Fr.cycle(), Lang::En);
    assert_eq!(Lang::En.label(), "EN");
    assert_eq!(Lang::Fr.label(), "FR");
    for lang in [Lang::En, Lang::Fr] {
        let s = lang.strings();
        assert!(s.hunks_title_with_path.contains("{path}"));
        assert!(s.show_error.contains("{err}"));
        assert!(s.status_fixup_created.contains("{n}"));
        assert!(s.status_hunk_split.contains("{n}"));
    }
    assert_eq!(Lang::Fr.strings().files_title, "Fichiers");
    assert_eq!(Lang::En.strings().files_title, "Files");
}

#[test]
fn default_options() {
    let cli = Cli::default();
    assert_eq!(cli.last_commits, None);
    assert_eq!(cli.context_lines, 3);
}

// --- Staging plan -----------------------------------------------------------------

#[test]
fn applying_a_selection_resets_then_applies_the_patch() {
    let diff = two_hunk_diff();
    assert!(patch_fits_check(&diff));
    let mut sel = FileSelection::all_undecided("f.txt", &diff);
    let steps = apply_selection_commands("f.txt", &diff, &sel);
    assert_eq!(steps.len(), 1);
    assert_eq!(steps[0].args, vec!["reset", "-q", "--", "f.txt"]);
    sel.accept_hunk(0);
    let steps = apply_selection_commands("f.txt", &diff, &sel);
    assert_eq!(steps.len(), 2);
    assert_eq!(steps[1].args, vec!["apply", "--cached", "--recount", "-"]);
    assert_eq!(steps[1].stdin, build_patch(&diff, &sel));
}

#[test]
fn toggling_rows_of_the_hunk_pane() {
    let diff = two_hunk_diff();
    let mut sel = FileSelection::all_undecided("f.txt", &diff);
    assert_eq!(toggle_row(&mut sel, &diff, HunkRow::Line(0, 2)), RowToggle::Skipped);
    assert_eq!(sel.hunks[0].decision, HunkDecision::Undecided);
    assert_eq!(toggle_row(&mut sel, &diff, HunkRow::Line(0, 0)), RowToggle::Line);
    assert_eq!(sel.hunks[0].decision, HunkDecision::Partial);
    assert_eq!(toggle_row(&mut sel, &diff, HunkRow::Header(0)), RowToggle::Hunk);
    assert_eq!(sel.hunks[0].decision, HunkDecision::Accepted);
    toggle_row(&mut sel, &diff, HunkRow::Header(0));
    assert_eq!(sel.hunks[0].decision, HunkDecision::Rejected);
}

#[test]
fn clicks_on_the_review_screen() {
    let areas = ReviewAreas {
        files: Area { x: 0, y: 0, width: 10, height: 5 },
        hunks: Area { x: 0, y: 5, width: 10, height: 5 },
        commits: Area { x: 10, y: 0, width: 10, height: 5 },
        commit_show: Area { x: 10, y: 5, width: 10, height: 5 },
    };
    let list = ListExtent { offset: 0, len: 3 };
    assert_eq!(review_click(&areas, 2, 2, list, list, list), ReviewClick::Files(Some(1)));
    assert_eq!(review_click(&areas, 2, 0, list, list, list), ReviewClick::Files(None));
    assert_eq!(review_click(&areas, 2, 6, list, list, list), ReviewClick::Hunks(Some(0)));
    assert_eq!(
        review_click(&areas, 12, 2, list, list, ListExtent { offset: 1, len: 3 }),
        ReviewClick::Commits(Some(2))
    );
    assert_eq!(review_click(&areas, 12, 8, list, list, list), ReviewClick::CommitShow);
    assert_eq!(review_click(&areas, 40, 8, list, list, list), ReviewClick::Nowhere);
}

#[test]
fn clicks_and_wheel_on_the_triage_screen() {
    let mut t = triage();
    t.click(TriageRegion::List, Some(1));
    assert_eq!(t.selected(), Some(1));
    assert!(!t.groups()[0].files[0].checked);
    t.click(TriageRegion::Show, Some(3));
    assert_eq!(t.focus(), TriageFocus::Show);
    assert_eq!(t.selected(), Some(1));
    t.wheel(TriageRegion::FileDiff, true);
    assert_eq!(t.focus(), TriageFocus::FileDiff);
    assert_eq!(t.file_diff_scroll(), 1);
    t.wheel(TriageRegion::List, true);
    assert_eq!(t.selected(), Some(2));
    assert_eq!(t.file_diff_scroll(), 0);
}

#[test]
fn where_the_review_goes_after_a_decision() {
    assert_eq!(after_decision(false, false, Some(0), 3), AfterDecision::NextHunk);
    assert_eq!(after_decision(false, true, Some(0), 3), AfterDecision::NextFile(1));
    assert_eq!(after_decision(true, false, Some(1), 3), AfterDecision::NextFile(2));
    assert_eq!(after_decision(true, false, Some(2), 3), AfterDecision::ReviewComplete);
    assert_eq!(after_decision(true, false, None, 0), AfterDecision::ReviewComplete);
}

#[test]
fn screen_layouts() {
    let screen = Area { x: 0, y: 0, width: 100, height: 40 };
    let review = review_layout(screen, 3);
    assert_eq!(review.files, Area { x: 0, y: 0, width: 70, height: 5 });
    assert_eq!(review.hunks, Area { x: 0, y: 5, width: 70, height: 32 });
    assert_eq!(review.help, Area { x: 0, y: 37, width: 100, height: 3 });
    assert_eq!(review.commits.x, 70);
    assert_eq!(review.commits.height + review.commit_show.height, 37);
    assert_eq!(review_layout(screen, 50).files.height, 12);
    assert_eq!(review_layout(screen, 0).files.height, 4);
    let triage = triage_layout(screen);
    assert_eq!(triage.show.x, 55);
    assert_eq!(triage.help.height, 3);
    let form = commit_form_layout(screen, 1);
    assert_eq!(form.text.height, 5);
    assert_eq!(form.validate_button.width, 13);
    assert_eq!(form.cancel_button.x + form.cancel_button.width, form.popup.x + form.popup.width);
    let help = help_popup_area(screen, 6);
    assert_eq!(help.height, 10);
    assert_eq!(help.width, 60);
    assert_eq!(help.x, 20);
}

#[test]
fn bordered_pane_heights_are_clamped() {
    use_bordered();
}

fn use_bordered() {
    assert_eq!(gatomic::tui::layout::bordered(3, 4, 12), 5);
    assert_eq!(gatomic::tui::layout::bordered(0, 4, 12), 4);
    assert_eq!(gatomic::tui::layout::bordered(100, 5, 12), 12);
    assert_eq!(gatomic::tui::layout::bordered(65536 + 3, 4, 12), 5);
}
