//! The decisions of the interactive screens: what a key press or a mouse
//! event asks for, how list cursors move, which row a click lands on, and
//! the help lines of each pane. The program around the library performs
//! what they decide.

use vstd::prelude::*;

use crate::diff::model::{FileDiff, Hunk, hunks_view};
use crate::fixup::{FileCommitMatch, FileCommitMatchView};
use crate::git::status::{FileEntry, FileEntryView};
use crate::i18n::Strings;

verus! {

#[derive(Debug, Clone, Copy, PartialEq, Eq, Structural)]
pub enum Pane {
    Files,
    Hunks,
    Commits,
}

#[derive(Debug, Clone, Copy, PartialEq, Eq, Structural)]
pub enum Screen {
    Triage,
    Review,
}

/// A key, as the screens tell keys apart.
#[derive(Debug, Clone, Copy, PartialEq, Eq, Structural)]
pub enum Key {
    Char(char),
    Enter,
    Esc,
    Tab,
    BackTab,
    Up,
    Down,
    Left,
    Right,
    Home,
    End,
    Backspace,
    PageUp,
    PageDown,
    Other,
}

/// An edit of the commit form.
#[derive(Debug, Clone, Copy, PartialEq, Eq, Structural)]
pub enum FormEdit {
    Newline,
    Backspace,
    Left,
    Right,
    Up,
    Down,
    Home,
    End,
    Insert(char),
}

/// A command of the triage screen.
#[derive(Debug, Clone, Copy, PartialEq, Eq, Structural)]
pub enum TriageCommand {
    ToggleFocus,
    ScrollDown,
    ScrollUp,
    Toggle,
    Accept,
    Skip,
}

/// What a key press asks for.
#[derive(Debug, Clone, Copy, PartialEq, Eq, Structural)]
pub enum KeyAction {
    Nothing,
    Quit,
    CloseHelp,
    CycleLanguage,
    FormSubmit,
    FormCancel,
    Form(FormEdit),
    Triage(TriageCommand),
    CyclePane(bool),
    MoveDown,
    MoveUp,
    ToggleRow,
    FixupSelected,
    OpenCommitForm,
    OpenTriage,
    ShowHelp,
    DecideHunk(bool, bool),
    MoveHunkCursor(bool),
    JumpUndecided(bool),
    SplitHunk,
    ScrollShow(bool),
}

/// What a key press depends on besides the key.
#[derive(Debug, Clone, Copy, PartialEq, Eq, Structural)]
pub struct KeyContext {
    pub screen: Screen,
    pub pane: Pane,
    pub form_open: bool,
    pub help_shown: bool,
}

/// A screen rectangle.
#[derive(Debug, Clone, Copy, PartialEq, Eq, Structural)]
pub struct Area {
    pub x: u16,
    pub y: u16,
    pub width: u16,
    pub height: u16,
}

/// Where the panes of the review screen are.
#[derive(Debug, Clone, Copy, PartialEq, Eq, Structural)]
pub struct ReviewAreas {
    pub files: Area,
    pub hunks: Area,
    pub commits: Area,
    pub commit_show: Area,
}

/// Where the panes of the triage screen are.
#[derive(Debug, Clone, Copy, PartialEq, Eq, Structural)]
pub struct TriageAreas {
    pub list: Area,
    pub file_diff: Area,
    pub show: Area,
}

/// The region of the review screen under the pointer.
#[derive(Debug, Clone, Copy, PartialEq, Eq, Structural)]
pub enum ReviewRegion {
    Files,
    Hunks,
    Commits,
    CommitShow,
}

/// What a left click on the review screen lands on: a pane, with the row
/// clicked in its list when the click is on one.
#[derive(Debug, Clone, Copy, PartialEq, Eq, Structural)]
pub enum ReviewClick {
    Files(Option<usize>),
    Hunks(Option<usize>),
    Commits(Option<usize>),
    CommitShow,
    Nowhere,
}

/// Where the review goes after a hunk decision.
#[derive(Debug, Clone, Copy, PartialEq, Eq, Structural)]
pub enum AfterDecision {
    /// On to the file at this index.
    NextFile(usize),
    /// The last file is done: nothing left to review.
    ReviewComplete,
    /// On to the next hunk of this file.
    NextHunk,
}

/// Where a list is scrolled to and how many items it has.
#[derive(Debug, Clone, Copy, PartialEq, Eq, Structural)]
pub struct ListExtent {
    pub offset: usize,
    pub len: usize,
}

/// The region of the triage screen under the pointer.
#[derive(Debug, Clone, Copy, PartialEq, Eq, Structural)]
pub enum TriageRegion {
    List,
    FileDiff,
    Show,
}

// ---------------------------------------------------------------------
// Specification
// ---------------------------------------------------------------------

pub open spec fn cycle_pane_spec(pane: Pane, forward: bool) -> Pane {
    match (pane, forward) {
        (Pane::Files, true) => Pane::Hunks,
        (Pane::Hunks, true) => Pane::Commits,
        (Pane::Commits, true) => Pane::Files,
        (Pane::Files, false) => Pane::Commits,
        (Pane::Hunks, false) => Pane::Files,
        (Pane::Commits, false) => Pane::Hunks,
    }
}

/// A key in the commit form: Ctrl+Enter submits, Esc cancels, the other
/// keys edit; any other Ctrl combination does nothing.
pub open spec fn form_key_spec(key: Key, ctrl: bool) -> KeyAction {
    if ctrl {
        if key == Key::Enter {
            KeyAction::FormSubmit
        } else {
            KeyAction::Nothing
        }
    } else {
        match key {
            Key::Esc => KeyAction::FormCancel,
            Key::Enter => KeyAction::Form(FormEdit::Newline),
            Key::Backspace => KeyAction::Form(FormEdit::Backspace),
            Key::Left => KeyAction::Form(FormEdit::Left),
            Key::Right => KeyAction::Form(FormEdit::Right),
            Key::Up => KeyAction::Form(FormEdit::Up),
            Key::Down => KeyAction::Form(FormEdit::Down),
            Key::Home => KeyAction::Form(FormEdit::Home),
            Key::End => KeyAction::Form(FormEdit::End),
            Key::Char(c) => KeyAction::Form(FormEdit::Insert(c)),
            _ => KeyAction::Nothing,
        }
    }
}

/// A key on the triage screen.
pub open spec fn triage_key_spec(key: Key) -> KeyAction {
    match key {
        Key::Tab | Key::BackTab => KeyAction::Triage(TriageCommand::ToggleFocus),
        Key::Down | Key::Char('j') => KeyAction::Triage(TriageCommand::ScrollDown),
        Key::Up | Key::Char('k') => KeyAction::Triage(TriageCommand::ScrollUp),
        Key::Char(' ') => KeyAction::Triage(TriageCommand::Toggle),
        Key::Char('a') => KeyAction::Triage(TriageCommand::Accept),
        Key::Enter | Key::Char('d') | Key::Char('t') | Key::Esc => KeyAction::Triage(
            TriageCommand::Skip,
        ),
        _ => KeyAction::Nothing,
    }
}

/// A key on the review screen; some keys act only in one pane.
pub open spec fn review_key_spec(pane: Pane, key: Key) -> KeyAction {
    let hunks = pane == Pane::Hunks;
    let commits = pane == Pane::Commits;
    match key {
        Key::Char('q') | Key::Esc => KeyAction::Quit,
        Key::Tab => KeyAction::CyclePane(true),
        Key::BackTab => KeyAction::CyclePane(false),
        Key::Down => KeyAction::MoveDown,
        Key::Up => KeyAction::MoveUp,
        Key::Char(' ') | Key::Enter => KeyAction::ToggleRow,
        Key::Char('x') => if commits {
            KeyAction::FixupSelected
        } else {
            KeyAction::Nothing
        },
        Key::Char('c') => KeyAction::OpenCommitForm,
        Key::Char('t') => if pane == Pane::Files {
            KeyAction::OpenTriage
        } else {
            KeyAction::Nothing
        },
        Key::Char('?') => KeyAction::ShowHelp,
        Key::Char('y') => if hunks {
            KeyAction::DecideHunk(true, false)
        } else {
            KeyAction::Nothing
        },
        Key::Char('n') => if hunks {
            KeyAction::DecideHunk(false, false)
        } else {
            KeyAction::Nothing
        },
        Key::Char('a') => if hunks {
            KeyAction::DecideHunk(true, true)
        } else {
            KeyAction::Nothing
        },
        Key::Char('d') => if hunks {
            KeyAction::DecideHunk(false, true)
        } else {
            KeyAction::Nothing
        },
        Key::Char('j') => if hunks {
            KeyAction::MoveHunkCursor(true)
        } else {
            KeyAction::MoveDown
        },
        Key::Char('k') => if hunks {
            KeyAction::MoveHunkCursor(false)
        } else {
            KeyAction::MoveUp
        },
        Key::Char('J') => if hunks {
            KeyAction::JumpUndecided(true)
        } else {
            KeyAction::Nothing
        },
        Key::Char('K') => if hunks {
            KeyAction::JumpUndecided(false)
        } else {
            KeyAction::Nothing
        },
        Key::Char('s') => if hunks {
            KeyAction::SplitHunk
        } else {
            KeyAction::Nothing
        },
        Key::PageDown => if commits {
            KeyAction::ScrollShow(true)
        } else {
            KeyAction::Nothing
        },
        Key::PageUp => if commits {
            KeyAction::ScrollShow(false)
        } else {
            KeyAction::Nothing
        },
        _ => KeyAction::Nothing,
    }
}

/// What a key press asks for. Ctrl+C always quits; an open commit form
/// takes every other key (it needs Ctrl+Enter); other Ctrl combinations
/// are ignored; a shown help popup closes on any key; `l` cycles the
/// language on either screen.
pub open spec fn key_action_spec(ctx: KeyContext, key: Key, ctrl: bool) -> KeyAction {
    if ctrl && key == Key::Char('c') {
        KeyAction::Quit
    } else if ctx.form_open {
        form_key_spec(key, ctrl)
    } else if ctrl {
        KeyAction::Nothing
    } else if ctx.help_shown {
        KeyAction::CloseHelp
    } else if key == Key::Char('l') {
        KeyAction::CycleLanguage
    } else if ctx.screen == Screen::Triage {
        triage_key_spec(key)
    } else {
        review_key_spec(ctx.pane, key)
    }
}

/// The row of a list at screen row `y`, as a `usize`.
pub open spec fn row_in(area: Area, list: ListExtent, y: u16) -> Option<usize> {
    match row_at_spec(area, list.offset as int, y as int, list.len as int) {
        Some(i) => Some(i as usize),
        None => None,
    }
}

/// What a left click at `(x, y)` lands on.
pub open spec fn review_click_spec(
    areas: ReviewAreas,
    x: u16,
    y: u16,
    files: ListExtent,
    hunks: ListExtent,
    commits: ListExtent,
) -> ReviewClick {
    if contains_spec(areas.files, x as int, y as int) {
        ReviewClick::Files(row_in(areas.files, files, y))
    } else if contains_spec(areas.hunks, x as int, y as int) {
        ReviewClick::Hunks(row_in(areas.hunks, hunks, y))
    } else if contains_spec(areas.commits, x as int, y as int) {
        ReviewClick::Commits(row_in(areas.commits, commits, y))
    } else if contains_spec(areas.commit_show, x as int, y as int) {
        ReviewClick::CommitShow
    } else {
        ReviewClick::Nowhere
    }
}

pub open spec fn contains_spec(a: Area, x: int, y: int) -> bool {
    a.x <= x < a.x + a.width && a.y <= y < a.y + a.height
}

/// The list index shown at screen row `y` of a bordered list drawn in
/// `area` from index `offset`: nothing on the borders or past the last
/// item.
pub open spec fn row_at_spec(area: Area, offset: int, y: int, len: int) -> Option<int> {
    let top = area.y + 1;
    let bottom = area.y + if area.height >= 1 {
        area.height - 1
    } else {
        0
    };
    if y < top || y >= bottom || offset + (y - top) >= len {
        None
    } else {
        Some(offset + (y - top))
    }
}

/// The cursor of a list of `len` items after moving down: onto the first
/// item when there was none, never past the last; unchanged in an empty
/// list.
pub open spec fn next_in_spec(selected: Option<usize>, len: int) -> Option<usize> {
    if len == 0 {
        selected
    } else {
        match selected {
            None => Some(0),
            Some(i) => Some(
                if i + 1 < len {
                    (i + 1) as usize
                } else {
                    (len - 1) as usize
                },
            ),
        }
    }
}

/// The cursor after moving up: never before the first item.
pub open spec fn prev_in_spec(selected: Option<usize>, len: int) -> Option<usize> {
    if len == 0 {
        selected
    } else {
        match selected {
            None => Some(0),
            Some(i) => Some(
                if i > 0 {
                    (i - 1) as usize
                } else {
                    0
                },
            ),
        }
    }
}

/// Index of the first entry with path `path`.
pub open spec fn position_of(files: Seq<FileEntryView>, path: Seq<char>, k: int) -> int
    decreases files.len() - k,
{
    if k < 0 || k >= files.len() {
        files.len() as int
    } else if files[k].path == path {
        k
    } else {
        position_of(files, path, k + 1)
    }
}

/// The file to select after the file list is read again: the one selected
/// before, found by its path, else the first file, else none.
pub open spec fn restored_index_spec(previous: Option<Seq<char>>, files: Seq<FileEntryView>) -> Option<
    int,
> {
    let found = match previous {
        Some(p) => if position_of(files, p, 0) < files.len() {
            Some(position_of(files, p, 0))
        } else {
            None
        },
        None => None,
    };
    match found {
        Some(i) => Some(i),
        None => if files.len() == 0 {
            None
        } else {
            Some(0)
        },
    }
}

/// The evident matches among `matches`, in order.
pub open spec fn evident_spec(matches: Seq<FileCommitMatchView>) -> Seq<FileCommitMatchView>
    decreases matches.len(),
{
    if matches.len() == 0 {
        Seq::empty()
    } else {
        let rest = evident_spec(matches.drop_last());
        if matches.last().matching_commits.len() == 1 {
            rest.push(matches.last())
        } else {
            rest
        }
    }
}

// ---------------------------------------------------------------------
// Implementation
// ---------------------------------------------------------------------

/// The next pane, forward (Tab) or backward (Shift+Tab).
pub fn cycle_pane(pane: Pane, forward: bool) -> (r: Pane)
    ensures
        r == cycle_pane_spec(pane, forward),
{
    match (pane, forward) {
        (Pane::Files, true) => Pane::Hunks,
        (Pane::Hunks, true) => Pane::Commits,
        (Pane::Commits, true) => Pane::Files,
        (Pane::Files, false) => Pane::Commits,
        (Pane::Hunks, false) => Pane::Files,
        (Pane::Commits, false) => Pane::Hunks,
    }
}

fn form_key(key: Key, ctrl: bool) -> (r: KeyAction)
    ensures
        r == form_key_spec(key, ctrl),
{
    if ctrl {
        return if key == Key::Enter {
            KeyAction::FormSubmit
        } else {
            KeyAction::Nothing
        };
    }
    match key {
        Key::Esc => KeyAction::FormCancel,
        Key::Enter => KeyAction::Form(FormEdit::Newline),
        Key::Backspace => KeyAction::Form(FormEdit::Backspace),
        Key::Left => KeyAction::Form(FormEdit::Left),
        Key::Right => KeyAction::Form(FormEdit::Right),
        Key::Up => KeyAction::Form(FormEdit::Up),
        Key::Down => KeyAction::Form(FormEdit::Down),
        Key::Home => KeyAction::Form(FormEdit::Home),
        Key::End => KeyAction::Form(FormEdit::End),
        Key::Char(c) => KeyAction::Form(FormEdit::Insert(c)),
        _ => KeyAction::Nothing,
    }
}

fn triage_key(key: Key) -> (r: KeyAction)
    ensures
        r == triage_key_spec(key),
{
    match key {
        Key::Tab | Key::BackTab => KeyAction::Triage(TriageCommand::ToggleFocus),
        Key::Down | Key::Char('j') => KeyAction::Triage(TriageCommand::ScrollDown),
        Key::Up | Key::Char('k') => KeyAction::Triage(TriageCommand::ScrollUp),
        Key::Char(' ') => KeyAction::Triage(TriageCommand::Toggle),
        Key::Char('a') => KeyAction::Triage(TriageCommand::Accept),
        Key::Enter | Key::Char('d') | Key::Char('t') | Key::Esc => KeyAction::Triage(
            TriageCommand::Skip,
        ),
        _ => KeyAction::Nothing,
    }
}

fn review_key(pane: Pane, key: Key) -> (r: KeyAction)
    ensures
        r == review_key_spec(pane, key),
{
    let hunks = pane == Pane::Hunks;
    let commits = pane == Pane::Commits;
    match key {
        Key::Char('q') | Key::Esc => KeyAction::Quit,
        Key::Tab => KeyAction::CyclePane(true),
        Key::BackTab => KeyAction::CyclePane(false),
        Key::Down => KeyAction::MoveDown,
        Key::Up => KeyAction::MoveUp,
        Key::Char(' ') | Key::Enter => KeyAction::ToggleRow,
        Key::Char('x') if commits => KeyAction::FixupSelected,
        Key::Char('c') => KeyAction::OpenCommitForm,
        Key::Char('t') if pane == Pane::Files => KeyAction::OpenTriage,
        Key::Char('?') => KeyAction::ShowHelp,
        Key::Char('y') if hunks => KeyAction::DecideHunk(true, false),
        Key::Char('n') if hunks => KeyAction::DecideHunk(false, false),
        Key::Char('a') if hunks => KeyAction::DecideHunk(true, true),
        Key::Char('d') if hunks => KeyAction::DecideHunk(false, true),
        Key::Char('j') if hunks => KeyAction::MoveHunkCursor(true),
        Key::Char('k') if hunks => KeyAction::MoveHunkCursor(false),
        Key::Char('J') if hunks => KeyAction::JumpUndecided(true),
        Key::Char('K') if hunks => KeyAction::JumpUndecided(false),
        Key::Char('s') if hunks => KeyAction::SplitHunk,
        Key::Char('j') => KeyAction::MoveDown,
        Key::Char('k') => KeyAction::MoveUp,
        Key::PageDown if commits => KeyAction::ScrollShow(true),
        Key::PageUp if commits => KeyAction::ScrollShow(false),
        _ => KeyAction::Nothing,
    }
}

/// What the key `key` (with Ctrl held or not) asks for in context `ctx`.
pub fn key_action(ctx: KeyContext, key: Key, ctrl: bool) -> (r: KeyAction)
    ensures
        r == key_action_spec(ctx, key, ctrl),
{
    if ctrl && key == Key::Char('c') {
        KeyAction::Quit
    } else if ctx.form_open {
        form_key(key, ctrl)
    } else if ctrl {
        KeyAction::Nothing
    } else if ctx.help_shown {
        KeyAction::CloseHelp
    } else if key == Key::Char('l') {
        KeyAction::CycleLanguage
    } else if ctx.screen == Screen::Triage {
        triage_key(key)
    } else {
        review_key(ctx.pane, key)
    }
}

/// Whether the point `(x, y)` lies in `area`.
pub fn area_contains(area: Area, x: u16, y: u16) -> (r: bool)
    ensures
        r == contains_spec(area, x as int, y as int),
{
    (x as u32) >= (area.x as u32) && (x as u32) < (area.x as u32) + (area.width as u32) && (y as u32)
        >= (area.y as u32) && (y as u32) < (area.y as u32) + (area.height as u32)
}

/// The index of the item at screen row `y` of a bordered list drawn in
/// `area` from index `offset`, if an item is there.
pub fn row_at(area: Area, offset: usize, y: u16, len: usize) -> (r: Option<usize>)
    ensures
        match r {
            Some(i) => row_at_spec(area, offset as int, y as int, len as int) == Some(i as int),
            None => row_at_spec(area, offset as int, y as int, len as int) is None,
        },
{
    let top: u32 = area.y as u32 + 1;
    let bottom: u32 = area.y as u32 + if area.height >= 1 {
        area.height as u32 - 1
    } else {
        0
    };
    if (y as u32) < top || (y as u32) >= bottom {
        return None;
    }
    let d: usize = (y as u32 - top) as usize;
    if d >= len || offset >= len - d {
        None
    } else {
        Some(offset + d)
    }
}

/// The region of the review screen that contains `(x, y)`, if any.
pub fn review_region(areas: &ReviewAreas, x: u16, y: u16) -> (r: Option<ReviewRegion>)
    ensures
        r == if contains_spec(areas.files, x as int, y as int) {
            Some(ReviewRegion::Files)
        } else if contains_spec(areas.hunks, x as int, y as int) {
            Some(ReviewRegion::Hunks)
        } else if contains_spec(areas.commits, x as int, y as int) {
            Some(ReviewRegion::Commits)
        } else if contains_spec(areas.commit_show, x as int, y as int) {
            Some(ReviewRegion::CommitShow)
        } else {
            None
        },
{
    if area_contains(areas.files, x, y) {
        Some(ReviewRegion::Files)
    } else if area_contains(areas.hunks, x, y) {
        Some(ReviewRegion::Hunks)
    } else if area_contains(areas.commits, x, y) {
        Some(ReviewRegion::Commits)
    } else if area_contains(areas.commit_show, x, y) {
        Some(ReviewRegion::CommitShow)
    } else {
        None
    }
}

/// Where the review goes after a decision: to the next file when the file
/// is done or when the decision covered the rest of it (`git add -p`'s
/// per-file flow), to the next hunk otherwise. When there is no next file
/// the review is complete.
pub fn after_decision(force_next_file: bool, all_decided: bool, selected_file: Option<usize>, file_count: usize) -> (r:
    AfterDecision)
    ensures
        r == if force_next_file || all_decided {
            let next = next_in_spec(selected_file, file_count as int);
            if next == selected_file {
                AfterDecision::ReviewComplete
            } else {
                AfterDecision::NextFile(next->0)
            }
        } else {
            AfterDecision::NextHunk
        },
{
    if force_next_file || all_decided {
        let next = next_in(selected_file, file_count);
        match next {
            Some(i) => if next == selected_file {
                AfterDecision::ReviewComplete
            } else {
                AfterDecision::NextFile(i)
            },
            None => AfterDecision::ReviewComplete,
        }
    } else {
        AfterDecision::NextHunk
    }
}

/// What a left click at `(x, y)` on the review screen lands on: the pane
/// it focuses, and the row of that pane's list it selects, if any.
pub fn review_click(
    areas: &ReviewAreas,
    x: u16,
    y: u16,
    files: ListExtent,
    hunks: ListExtent,
    commits: ListExtent,
) -> (r: ReviewClick)
    ensures
        r == review_click_spec(*areas, x, y, files, hunks, commits),
{
    match review_region(areas, x, y) {
        Some(ReviewRegion::Files) => ReviewClick::Files(row_at(areas.files, files.offset, y, files.len)),
        Some(ReviewRegion::Hunks) => ReviewClick::Hunks(row_at(areas.hunks, hunks.offset, y, hunks.len)),
        Some(ReviewRegion::Commits) => ReviewClick::Commits(
            row_at(areas.commits, commits.offset, y, commits.len),
        ),
        Some(ReviewRegion::CommitShow) => ReviewClick::CommitShow,
        None => ReviewClick::Nowhere,
    }
}

/// The region of the triage screen that contains `(x, y)`, if any.
pub fn triage_region(areas: &TriageAreas, x: u16, y: u16) -> (r: Option<TriageRegion>)
    ensures
        r == if contains_spec(areas.list, x as int, y as int) {
            Some(TriageRegion::List)
        } else if contains_spec(areas.file_diff, x as int, y as int) {
            Some(TriageRegion::FileDiff)
        } else if contains_spec(areas.show, x as int, y as int) {
            Some(TriageRegion::Show)
        } else {
            None
        },
{
    if area_contains(areas.list, x, y) {
        Some(TriageRegion::List)
    } else if area_contains(areas.file_diff, x, y) {
        Some(TriageRegion::FileDiff)
    } else if area_contains(areas.show, x, y) {
        Some(TriageRegion::Show)
    } else {
        None
    }
}

/// The cursor of a list of `len` items moved down one item.
pub fn next_in(selected: Option<usize>, len: usize) -> (r: Option<usize>)
    ensures
        r == next_in_spec(selected, len as int),
{
    if len == 0 {
        return selected;
    }
    match selected {
        None => Some(0),
        Some(i) => Some(
            if i < len - 1 {
                i + 1
            } else {
                len - 1
            },
        ),
    }
}

/// The cursor of a list of `len` items moved up one item.
pub fn prev_in(selected: Option<usize>, len: usize) -> (r: Option<usize>)
    ensures
        r == prev_in_spec(selected, len as int),
{
    if len == 0 {
        return selected;
    }
    match selected {
        None => Some(0),
        Some(i) => Some(
            if i > 0 {
                i - 1
            } else {
                0
            },
        ),
    }
}

/// The hunk the `j`/`k` keys move to from hunk `current`, without
/// deciding: the next or previous one, clamped to the file's hunks.
pub fn hunk_cursor_target(current: usize, hunk_count: usize, forward: bool) -> (r: usize)
    requires
        hunk_count > 0,
    ensures
        r == if forward {
            if current + 1 < hunk_count {
                current + 1
            } else {
                hunk_count - 1
            }
        } else {
            if current > 0 {
                current - 1
            } else {
                0
            }
        },
{
    if forward {
        if current < hunk_count - 1 {
            current + 1
        } else {
            hunk_count - 1
        }
    } else if current > 0 {
        current - 1
    } else {
        0
    }
}

/// The text of an optional string.
pub open spec fn opt_string(s: Option<&String>) -> Option<Seq<char>> {
    match s {
        Some(t) => Some(t@),
        None => None,
    }
}

/// Which file to select after the file list is read again: the one that
/// was selected, found by its path; else the first; else none.
pub fn restored_index(previous: Option<&String>, files: &Vec<FileEntry>) -> (r: Option<usize>)
    ensures
        match restored_index_spec(opt_string(previous), files@.map_values(|f: FileEntry| f@)) {
            Some(i) => r == Some(i as usize),
            None => r is None,
        },
{
    let ghost fv = files@.map_values(|f: FileEntry| f@);
    if let Some(p) = previous {
        let mut k: usize = 0;
        while k < files.len()
            invariant
                0 <= k <= files.len(),
                fv == files@.map_values(|f: FileEntry| f@),
                previous == Some(p),
                position_of(fv, p@, 0) == position_of(fv, p@, k as int),
            decreases files.len() - k,
        {
            assert(fv[k as int].path == files@[k as int].path@);
            if files[k].path == *p {
                return Some(k);
            }
            k += 1;
        }
    }
    if files.len() == 0 {
        None
    } else {
        Some(0)
    }
}

/// The matches whose file only one commit touched.
pub fn evident_matches(matches: Vec<FileCommitMatch>) -> (r: Vec<FileCommitMatch>)
    ensures
        r@.map_values(|m: FileCommitMatch| m@) == evident_spec(
            matches@.map_values(|m: FileCommitMatch| m@),
        ),
{
    let ghost mv = matches@.map_values(|m: FileCommitMatch| m@);
    let mut out: Vec<FileCommitMatch> = Vec::new();
    let mut rest = matches;
    let ghost n = rest.len();
    let mut i: usize = 0;
    assert(mv.take(0) =~= Seq::<FileCommitMatchView>::empty());
    assert(out@.map_values(|m: FileCommitMatch| m@) =~= Seq::<FileCommitMatchView>::empty());
    while rest.len() > 0
        invariant
            i + rest.len() == n,
            n == mv.len(),
            rest@.map_values(|m: FileCommitMatch| m@) == mv.subrange(i as int, n as int),
            out@.map_values(|m: FileCommitMatch| m@) == evident_spec(mv.take(i as int)),
        decreases rest.len(),
    {
        let ghost prev = rest@;
        assert(rest@.map_values(|m: FileCommitMatch| m@)[0] == mv[i as int]);
        let m = rest.remove(0);
        assert(rest@ =~= prev.subrange(1, prev.len() as int));
        assert(rest@.map_values(|m: FileCommitMatch| m@) =~= prev.map_values(|m: FileCommitMatch| m@).subrange(
            1,
            prev.len() as int,
        ));
        assert(rest@.map_values(|m: FileCommitMatch| m@) =~= mv.subrange(i + 1, n as int));
        assert(mv.take(i + 1).drop_last() =~= mv.take(i as int));
        assert(mv.take(i + 1).last() == m@);
        if m.is_evident() {
            let ghost before = out@.map_values(|m: FileCommitMatch| m@);
            let ghost v = m@;
            out.push(m);
            assert(out@.map_values(|m: FileCommitMatch| m@) =~= before.push(v));
        }
        i += 1;
    }
    assert(mv.take(n as int) =~= mv);
    out
}

/// Replaces hunk `index` of `diff` by `parts`, the pieces it was split
/// into.
pub fn splice_hunks(diff: &mut FileDiff, index: usize, parts: Vec<Hunk>)
    requires
        index < old(diff)@.hunks.len(),
    ensures
        final(diff)@.hunks == old(diff)@.hunks.take(index as int) + hunks_view(parts@) + old(
            diff,
        )@.hunks.skip(index + 1),
        final(diff)@.old_path == old(diff)@.old_path,
        final(diff)@.new_path == old(diff)@.new_path,
        final(diff)@.is_new_file == old(diff)@.is_new_file,
        final(diff)@.is_deleted_file == old(diff)@.is_deleted_file,
        final(diff)@.is_binary == old(diff)@.is_binary,
        final(diff)@.raw_header_lines == old(diff)@.raw_header_lines,
{
    let ghost before = diff@.hunks;
    let mut tail = diff.hunks.split_off(index);
    assert(hunks_view(diff.hunks@) =~= before.take(index as int));
    let _removed = tail.remove(0);
    assert(hunks_view(tail@) =~= before.skip(index + 1));
    let mut parts = parts;
    let ghost pv = hunks_view(parts@);
    diff.hunks.append(&mut parts);
    diff.hunks.append(&mut tail);
    assert(hunks_view(diff.hunks@) =~= before.take(index as int) + pv + before.skip(index + 1));
}

/// The full help lines of `pane`, for the popup.
pub fn help_lines(pane: Pane, strings: &Strings) -> (r: Vec<&'static str>)
    ensures
        r@ == match pane {
            Pane::Files => seq![
                strings.help_switch_pane,
                strings.help_navigate,
                strings.help_reopen_triage,
                strings.help_new_commit,
                strings.help_language,
                strings.help_quit,
            ],
            Pane::Hunks => seq![
                strings.help_hunk_accept_reject_advance,
                strings.help_hunk_accept_reject_rest,
                strings.help_hunk_next_prev,
                strings.help_hunk_next_prev_undecided,
                strings.help_hunk_split,
                strings.help_hunk_toggle,
                strings.help_new_commit,
                strings.help_language,
                strings.help_quit,
            ],
            Pane::Commits => seq![
                strings.help_commit_fixup,
                strings.help_commit_green_check,
                strings.help_navigate,
                strings.help_new_commit,
                strings.help_language,
                strings.help_quit,
            ],
        },
{
    let mut v: Vec<&'static str> = Vec::new();
    match pane {
        Pane::Files => {
            v.push(strings.help_switch_pane);
            v.push(strings.help_navigate);
            v.push(strings.help_reopen_triage);
            v.push(strings.help_new_commit);
            v.push(strings.help_language);
            v.push(strings.help_quit);
        },
        Pane::Hunks => {
            v.push(strings.help_hunk_accept_reject_advance);
            v.push(strings.help_hunk_accept_reject_rest);
            v.push(strings.help_hunk_next_prev);
            v.push(strings.help_hunk_next_prev_undecided);
            v.push(strings.help_hunk_split);
            v.push(strings.help_hunk_toggle);
            v.push(strings.help_new_commit);
            v.push(strings.help_language);
            v.push(strings.help_quit);
        },
        Pane::Commits => {
            v.push(strings.help_commit_fixup);
            v.push(strings.help_commit_green_check);
            v.push(strings.help_navigate);
            v.push(strings.help_new_commit);
            v.push(strings.help_language);
            v.push(strings.help_quit);
        },
    }
    v
}

/// The compact help lines of `pane`, for the help bar: the same keys in the
/// same order as `help_lines`.
pub fn help_lines_short(pane: Pane, strings: &Strings) -> (r: Vec<&'static str>)
    ensures
        r@ == match pane {
            Pane::Files => seq![
                strings.short_switch_pane,
                strings.short_navigate,
                strings.short_reopen_triage,
                strings.short_new_commit,
                strings.short_language,
                strings.short_quit,
            ],
            Pane::Hunks => seq![
                strings.short_hunk_accept_reject_advance,
                strings.short_hunk_accept_reject_rest,
                strings.short_hunk_next_prev,
                strings.short_hunk_next_prev_undecided,
                strings.short_hunk_split,
                strings.short_hunk_toggle,
                strings.short_new_commit,
                strings.short_language,
                strings.short_quit,
            ],
            Pane::Commits => seq![
                strings.short_commit_fixup,
                strings.short_commit_green_check,
                strings.short_navigate,
                strings.short_new_commit,
                strings.short_language,
                strings.short_quit,
            ],
        },
{
    let mut v: Vec<&'static str> = Vec::new();
    match pane {
        Pane::Files => {
            v.push(strings.short_switch_pane);
            v.push(strings.short_navigate);
            v.push(strings.short_reopen_triage);
            v.push(strings.short_new_commit);
            v.push(strings.short_language);
            v.push(strings.short_quit);
        },
        Pane::Hunks => {
            v.push(strings.short_hunk_accept_reject_advance);
            v.push(strings.short_hunk_accept_reject_rest);
            v.push(strings.short_hunk_next_prev);
            v.push(strings.short_hunk_next_prev_undecided);
            v.push(strings.short_hunk_split);
            v.push(strings.short_hunk_toggle);
            v.push(strings.short_new_commit);
            v.push(strings.short_language);
            v.push(strings.short_quit);
        },
        Pane::Commits => {
            v.push(strings.short_commit_fixup);
            v.push(strings.short_commit_green_check);
            v.push(strings.short_navigate);
            v.push(strings.short_new_commit);
            v.push(strings.short_language);
            v.push(strings.short_quit);
        },
    }
    v
}

// ---------------------------------------------------------------------
// Laws
// ---------------------------------------------------------------------

/// Ctrl+C quits from anywhere, even with the commit form open.
pub proof fn law_ctrl_c_always_quits(ctx: KeyContext)
    ensures
        key_action_spec(ctx, Key::Char('c'), true) == KeyAction::Quit,
{
}

/// While the commit form is open, no key but Ctrl+C leaves the program:
/// every key edits the form, submits it, cancels it or does nothing.
pub proof fn law_form_captures_keys(ctx: KeyContext, key: Key, ctrl: bool)
    requires
        ctx.form_open,
        !(ctrl && key == Key::Char('c')),
    ensures
        match key_action_spec(ctx, key, ctrl) {
            KeyAction::Form(_) | KeyAction::FormSubmit | KeyAction::FormCancel | KeyAction::Nothing => true,
            _ => false,
        },
{
}

/// A shown help popup closes on any plain key, and does nothing else.
pub proof fn law_help_closes_on_any_key(ctx: KeyContext, key: Key)
    requires
        !ctx.form_open,
        ctx.help_shown,
    ensures
        key_action_spec(ctx, key, false) == KeyAction::CloseHelp,
{
}

/// `l` switches the language on either screen when nothing is open.
pub proof fn law_language_key_on_both_screens(ctx: KeyContext)
    requires
        !ctx.form_open,
        !ctx.help_shown,
    ensures
        key_action_spec(ctx, Key::Char('l'), false) == KeyAction::CycleLanguage,
{
}

/// Tab then Shift+Tab comes back to the same pane, and three Tabs visit
/// every pane and come back.
pub proof fn law_pane_cycle(pane: Pane)
    ensures
        cycle_pane_spec(cycle_pane_spec(pane, true), false) == pane,
        cycle_pane_spec(cycle_pane_spec(cycle_pane_spec(pane, true), true), true) == pane,
        cycle_pane_spec(pane, true) != pane,
{
}

/// A list cursor stays on an item: after moving in a non-empty list from
/// an item or from no item, it is on one of its items.
pub proof fn law_cursor_stays_in_list(selected: Option<usize>, len: usize)
    requires
        len > 0,
        selected matches Some(i) ==> i < len,
    ensures
        next_in_spec(selected, len as int) matches Some(i) && i < len,
        prev_in_spec(selected, len as int) matches Some(i) && i < len,
{
}

/// Down then up comes back to the same item unless the cursor was on the
/// last one.
pub proof fn law_down_then_up_in_list(i: usize, len: usize)
    requires
        i + 1 < len,
    ensures
        prev_in_spec(next_in_spec(Some(i), len as int), len as int) == Some(i),
{
}

/// A row found by a click is a real item, shown inside the area.
pub proof fn law_clicked_row_is_an_item(area: Area, offset: int, y: int, len: int)
    requires
        row_at_spec(area, offset, y, len) is Some,
        offset >= 0,
    ensures
        0 <= row_at_spec(area, offset, y, len)->0 < len,
        area.y < y < area.y + area.height,
{
}

} // verus!
