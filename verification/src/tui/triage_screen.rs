//! The startup triage screen: commits with the files whose changes
//! evidently belong to them, each pre-checked, so that they can be staged
//! and fixed up in bulk before the hunk-by-hunk review of the rest.

use vstd::prelude::*;

use crate::fixup::{FileCommitMatch, FileCommitMatchView};
use crate::git::command::{push_arg, GitCommand, plain_command};
use crate::git::commit::{CommitInfo, CommitInfoView};
use crate::tui::review::TriageRegion;
use crate::text::{
    chars_of, find_from, find_char, lemma_find_from_bounds, parse_u32, parse_u32_spec, split_lines,
    text_lines,
};

verus! {

pub struct TriageFileNode {
    pub file: String,
    pub checked: bool,
    pub added: u32,
    pub removed: u32,
}

pub struct TriageCommitGroup {
    pub commit: CommitInfo,
    pub files: Vec<TriageFileNode>,
}

/// A row of the commit/file tree: a commit, or one of its files.
#[derive(Debug, Clone, Copy, PartialEq, Eq, Structural)]
pub enum TriageRow {
    Commit(usize),
    File(usize, usize),
}

/// The screen's three panes: the commit/file tree, the diff of the
/// selected file, and the `git show` of the commit in scope.
#[derive(Debug, Clone, Copy, PartialEq, Eq, Structural)]
pub enum TriageFocus {
    List,
    FileDiff,
    Show,
}

/// The state of the triage screen. The cursor of the tree is its selected
/// row and the first row drawn (`offset`), which drawing may move.
pub struct TriageState {
    groups: Vec<TriageCommitGroup>,
    rows: Vec<TriageRow>,
    selected: Option<usize>,
    offset: usize,
    focus: TriageFocus,
    file_diff_scroll: u16,
    show_scroll: u16,
}

pub struct TriageFileNodeView {
    pub file: Seq<char>,
    pub checked: bool,
    pub added: u32,
    pub removed: u32,
}

pub struct TriageGroupView {
    pub commit: CommitInfoView,
    pub files: Seq<TriageFileNodeView>,
}

pub struct TriageStateView {
    pub groups: Seq<TriageGroupView>,
    pub selected: Option<usize>,
    pub offset: usize,
    pub focus: TriageFocus,
    pub file_diff_scroll: u16,
    pub show_scroll: u16,
}

impl View for TriageFileNode {
    type V = TriageFileNodeView;

    open spec fn view(&self) -> TriageFileNodeView {
        TriageFileNodeView {
            file: self.file@,
            checked: self.checked,
            added: self.added,
            removed: self.removed,
        }
    }
}

pub open spec fn nodes_view(files: Seq<TriageFileNode>) -> Seq<TriageFileNodeView> {
    files.map_values(|f: TriageFileNode| f@)
}

impl View for TriageCommitGroup {
    type V = TriageGroupView;

    open spec fn view(&self) -> TriageGroupView {
        TriageGroupView { commit: self.commit@, files: nodes_view(self.files@) }
    }
}

pub open spec fn groups_view(groups: Seq<TriageCommitGroup>) -> Seq<TriageGroupView> {
    groups.map_values(|g: TriageCommitGroup| g@)
}

impl View for TriageState {
    type V = TriageStateView;

    closed spec fn view(&self) -> TriageStateView {
        TriageStateView {
            groups: groups_view(self.groups@),
            selected: self.selected,
            offset: self.offset,
            focus: self.focus,
            file_diff_scroll: self.file_diff_scroll,
            show_scroll: self.show_scroll,
        }
    }
}

// ---------------------------------------------------------------------
// Specification
// ---------------------------------------------------------------------

/// The rows of group `g` with `n` files: the commit, then its files.
pub open spec fn group_rows(g: int, n: int) -> Seq<TriageRow> {
    seq![TriageRow::Commit(g as usize)] + Seq::new(n as nat, |f: int| TriageRow::File(g as usize, f as usize))
}

/// The rows of the tree, group after group.
pub open spec fn triage_rows(groups: Seq<TriageGroupView>) -> Seq<TriageRow>
    decreases groups.len(),
{
    if groups.len() == 0 {
        Seq::empty()
    } else {
        triage_rows(groups.drop_last()) + group_rows(groups.len() - 1, groups.last().files.len() as int)
    }
}

/// Index of the first group whose commit has short sha `sha` (the number
/// of groups when there is none).
pub open spec fn find_group(groups: Seq<TriageGroupView>, sha: Seq<char>, k: int) -> int
    decreases groups.len() - k,
{
    if k < 0 || k >= groups.len() {
        groups.len() as int
    } else if groups[k].commit.short_sha == sha {
        k
    } else {
        find_group(groups, sha, k + 1)
    }
}

/// `groups` with `node` filed under `commit`: appended to the group of
/// that commit, or in a new group at the end.
pub open spec fn file_under(
    groups: Seq<TriageGroupView>,
    commit: CommitInfoView,
    node: TriageFileNodeView,
) -> Seq<TriageGroupView> {
    let k = find_group(groups, commit.short_sha, 0);
    if k < groups.len() {
        groups.update(k, TriageGroupView { commit: groups[k].commit, files: groups[k].files.push(node) })
    } else {
        groups.push(TriageGroupView { commit, files: seq![node] })
    }
}

/// The tree built from evident matches and the `(added, removed)` line
/// counts of their files: each file, checked, under the first commit of
/// its match; commits in the order first met.
pub open spec fn groups_spec(matches: Seq<FileCommitMatchView>, stats: Seq<(u32, u32)>) -> Seq<
    TriageGroupView,
>
    decreases matches.len(),
{
    if matches.len() == 0 || stats.len() == 0 {
        Seq::empty()
    } else {
        let m = matches.last();
        file_under(
            groups_spec(matches.drop_last(), stats.drop_last()),
            m.matching_commits[0],
            TriageFileNodeView {
                file: m.file,
                checked: true,
                added: stats.last().0,
                removed: stats.last().1,
            },
        )
    }
}

/// Every file of the group is checked.
pub open spec fn all_checked(files: Seq<TriageFileNodeView>) -> bool {
    forall|i: int| 0 <= i < files.len() ==> #[trigger] files[i].checked
}

/// No file of the group is checked.
pub open spec fn none_checked(files: Seq<TriageFileNodeView>) -> bool {
    forall|i: int| 0 <= i < files.len() ==> !(#[trigger] files[i].checked)
}

/// Every file of the group set to `checked`.
pub open spec fn all_set(files: Seq<TriageFileNodeView>, checked: bool) -> Seq<TriageFileNodeView> {
    files.map_values(|f: TriageFileNodeView| TriageFileNodeView { checked, ..f })
}

/// The checked files of a group, in order.
pub open spec fn checked_paths(files: Seq<TriageFileNodeView>) -> Seq<Seq<char>>
    decreases files.len(),
{
    if files.len() == 0 {
        Seq::empty()
    } else {
        let rest = checked_paths(files.drop_last());
        if files.last().checked {
            rest.push(files.last().file)
        } else {
            rest
        }
    }
}

/// The groups with at least one checked file, as the short sha of their
/// commit and their checked paths, in order.
pub open spec fn accepted_spec(groups: Seq<TriageGroupView>) -> Seq<(Seq<char>, Seq<Seq<char>>)>
    decreases groups.len(),
{
    if groups.len() == 0 {
        Seq::empty()
    } else {
        let rest = accepted_spec(groups.drop_last());
        let paths = checked_paths(groups.last().files);
        if paths.len() == 0 {
            rest
        } else {
            rest.push((groups.last().commit.short_sha, paths))
        }
    }
}

/// What a `git diff --numstat` line says: the added and removed line
/// counts, its first two tab-separated fields; nothing when either is not a
/// number (a binary file shows `-`).
pub open spec fn numstat_spec(line: Seq<char>) -> Option<(u32, u32)> {
    let a = find_from(line, 0, '\t');
    let b = find_from(line, a + 1, '\t');
    if a >= line.len() {
        None
    } else {
        match (parse_u32_spec(line.subrange(0, a)), parse_u32_spec(line.subrange(a + 1, b))) {
            (Some(x), Some(y)) => Some((x, y)),
            _ => None,
        }
    }
}

impl TriageStateView {
    pub open spec fn rows(self) -> Seq<TriageRow> {
        triage_rows(self.groups)
    }

    /// The row under the cursor.
    pub open spec fn current_row(self) -> Option<TriageRow> {
        match self.selected {
            Some(i) => if i < self.rows().len() {
                Some(self.rows()[i as int])
            } else {
                None
            },
            None => None,
        }
    }

    /// The selection moved to row `i`, both previews scrolled back to the
    /// top.
    pub open spec fn at_row(self, i: usize) -> TriageStateView {
        TriageStateView { selected: Some(i), file_diff_scroll: 0, show_scroll: 0, ..self }
    }

    pub open spec fn moved_down(self) -> TriageStateView {
        let len = self.rows().len();
        if len == 0 {
            self
        } else {
            self.at_row(
                match self.selected {
                    None => 0,
                    Some(i) => if i + 1 < len {
                        (i + 1) as usize
                    } else {
                        (len - 1) as usize
                    },
                },
            )
        }
    }

    pub open spec fn moved_up(self) -> TriageStateView {
        if self.rows().len() == 0 {
            self
        } else {
            self.at_row(
                match self.selected {
                    None => 0,
                    Some(i) => if i > 0 {
                        (i - 1) as usize
                    } else {
                        0
                    },
                },
            )
        }
    }

    /// The effect of the toggle key: a file row flips its file; a commit
    /// row unchecks all its files when they are all checked, and checks
    /// them all otherwise.
    pub open spec fn toggled(self) -> TriageStateView {
        match self.current_row() {
            Some(TriageRow::File(g, f)) => if g < self.groups.len() && f
                < self.groups[g as int].files.len() {
                let grp = self.groups[g as int];
                let node = grp.files[f as int];
                TriageStateView {
                    groups: self.groups.update(
                        g as int,
                        TriageGroupView {
                            files: grp.files.update(
                                f as int,
                                TriageFileNodeView { checked: !node.checked, ..node },
                            ),
                            ..grp
                        },
                    ),
                    ..self
                }
            } else {
                self
            },
            Some(TriageRow::Commit(g)) => if g < self.groups.len() {
                let grp = self.groups[g as int];
                TriageStateView {
                    groups: self.groups.update(
                        g as int,
                        TriageGroupView {
                            files: all_set(grp.files, !all_checked(grp.files)),
                            ..grp
                        },
                    ),
                    ..self
                }
            } else {
                self
            },
            None => self,
        }
    }

    /// The focused pane scrolled down: the tree moves its cursor, a preview
    /// scrolls by one line (saturating).
    pub open spec fn scrolled_down(self) -> TriageStateView {
        match self.focus {
            TriageFocus::List => self.moved_down(),
            TriageFocus::FileDiff => TriageStateView {
                file_diff_scroll: if self.file_diff_scroll < u16::MAX {
                    (self.file_diff_scroll + 1) as u16
                } else {
                    u16::MAX
                },
                ..self
            },
            TriageFocus::Show => TriageStateView {
                show_scroll: if self.show_scroll < u16::MAX {
                    (self.show_scroll + 1) as u16
                } else {
                    u16::MAX
                },
                ..self
            },
        }
    }

    /// The focused pane scrolled up.
    pub open spec fn scrolled_up(self) -> TriageStateView {
        match self.focus {
            TriageFocus::List => self.moved_up(),
            TriageFocus::FileDiff => TriageStateView {
                file_diff_scroll: if self.file_diff_scroll > 0 {
                    (self.file_diff_scroll - 1) as u16
                } else {
                    0
                },
                ..self
            },
            TriageFocus::Show => TriageStateView {
                show_scroll: if self.show_scroll > 0 {
                    (self.show_scroll - 1) as u16
                } else {
                    0
                },
                ..self
            },
        }
    }

    /// The pane a region of the screen stands for.
    pub open spec fn focus_of(region: TriageRegion) -> TriageFocus {
        match region {
            TriageRegion::List => TriageFocus::List,
            TriageRegion::FileDiff => TriageFocus::FileDiff,
            TriageRegion::Show => TriageFocus::Show,
        }
    }

    pub open spec fn next_focus(self) -> TriageFocus {
        match self.focus {
            TriageFocus::List => TriageFocus::FileDiff,
            TriageFocus::FileDiff => TriageFocus::Show,
            TriageFocus::Show => TriageFocus::List,
        }
    }
}

// ---------------------------------------------------------------------
// Implementation
// ---------------------------------------------------------------------

proof fn lemma_find_group_bounds(groups: Seq<TriageGroupView>, sha: Seq<char>, k: int)
    requires
        0 <= k <= groups.len(),
    ensures
        k <= find_group(groups, sha, k) <= groups.len(),
        find_group(groups, sha, k) < groups.len() ==> groups[find_group(groups, sha, k)].commit.short_sha
            == sha,
    decreases groups.len() - k,
{
    if k < groups.len() && groups[k].commit.short_sha != sha {
        lemma_find_group_bounds(groups, sha, k + 1);
    }
}

/// Index of the group of the commit with short sha `sha`, if any.
fn find_group_exec(groups: &Vec<TriageCommitGroup>, sha: &String) -> (r: Option<usize>)
    ensures
        match r {
            Some(k) => k == find_group(groups_view(groups@), sha@, 0) && k < groups.len(),
            None => find_group(groups_view(groups@), sha@, 0) == groups.len(),
        },
{
    let ghost gv = groups_view(groups@);
    proof {
        lemma_find_group_bounds(gv, sha@, 0);
    }
    let mut k: usize = 0;
    while k < groups.len()
        invariant
            0 <= k <= groups.len(),
            gv == groups_view(groups@),
            find_group(gv, sha@, 0) == find_group(gv, sha@, k as int),
        decreases groups.len() - k,
    {
        if groups[k].commit.short_sha == *sha {
            return Some(k);
        }
        k += 1;
    }
    None
}

/// The rows of the tree of `groups`.
fn build_triage_rows(groups: &Vec<TriageCommitGroup>) -> (r: Vec<TriageRow>)
    ensures
        r@ == triage_rows(groups_view(groups@)),
{
    let ghost gv = groups_view(groups@);
    let mut rows: Vec<TriageRow> = Vec::new();
    let mut g: usize = 0;
    assert(gv.take(0) =~= Seq::<TriageGroupView>::empty());
    while g < groups.len()
        invariant
            0 <= g <= groups.len(),
            gv == groups_view(groups@),
            rows@ == triage_rows(gv.take(g as int)),
        decreases groups.len() - g,
    {
        let ghost before = rows@;
        rows.push(TriageRow::Commit(g));
        let n = groups[g].files.len();
        let mut f: usize = 0;
        while f < n
            invariant
                0 <= f <= n,
                g < usize::MAX,
                rows@ == before + group_rows(g as int, f as int),
            decreases n - f,
        {
            rows.push(TriageRow::File(g, f));
            assert(group_rows(g as int, f + 1) =~= group_rows(g as int, f as int).push(
                TriageRow::File(g, f),
            ));
            f += 1;
        }
        assert(gv.take(g + 1).drop_last() =~= gv.take(g as int));
        assert(gv.take(g + 1).last() == gv[g as int]);
        assert(gv[g as int].files.len() == n);
        g += 1;
    }
    assert(gv.take(g as int) =~= gv);
    rows
}

impl TriageState {
    /// The rows are those of the groups, and the selection is on a row.
    pub closed spec fn wf(&self) -> bool {
        &&& self.rows@ == triage_rows(groups_view(self.groups@))
        &&& match self.selected {
            Some(i) => i < self.rows@.len(),
            None => true,
        }
    }

    /// The screen for the evident matches `matches`, with `stats[i]` the
    /// `(added, removed)` line counts of the file of `matches[i]`: every
    /// file checked, the first row selected.
    pub fn new(matches: Vec<FileCommitMatch>, stats: Vec<(u32, u32)>) -> (r: TriageState)
        requires
            matches.len() == stats.len(),
            forall|i: int| 0 <= i < matches.len() ==> #[trigger] matches@[i].matching_commits@.len() > 0,
        ensures
            r.wf(),
            r@.groups == groups_spec(matches@.map_values(|m: FileCommitMatch| m@), stats@),
            r@.selected == if r@.rows().len() > 0 {
                Some(0usize)
            } else {
                None::<usize>
            },
            r@.offset == 0,
            r@.focus == TriageFocus::List,
            r@.file_diff_scroll == 0,
            r@.show_scroll == 0,
    {
        let ghost mv = matches@.map_values(|m: FileCommitMatch| m@);
        let mut groups: Vec<TriageCommitGroup> = Vec::new();
        let mut i: usize = 0;
        assert(mv.take(0) =~= Seq::<FileCommitMatchView>::empty());
        assert(groups_view(groups@) =~= groups_spec(mv.take(0), stats@.take(0)));
        while i < matches.len()
            invariant
                0 <= i <= matches.len(),
                matches.len() == stats.len(),
                mv == matches@.map_values(|m: FileCommitMatch| m@),
                forall|k: int| 0 <= k < matches.len() ==> #[trigger] matches@[k].matching_commits@.len() > 0,
                groups_view(groups@) == groups_spec(mv.take(i as int), stats@.take(i as int)),
            decreases matches.len() - i,
        {
            let m = &matches[i];
            assert(m.matching_commits@.len() > 0);
            let commit = m.matching_commits[0].copy();
            let node = TriageFileNode {
                file: m.file.clone(),
                checked: true,
                added: stats[i].0,
                removed: stats[i].1,
            };
            let ghost gv = groups_view(groups@);
            let ghost nv = node@;
            assert(mv.take(i + 1).drop_last() =~= mv.take(i as int));
            assert(stats@.take(i + 1).drop_last() =~= stats@.take(i as int));
            assert(mv.take(i + 1).last() == mv[i as int]);
            assert(mv[i as int].matching_commits[0] == commit@);
            proof {
                lemma_find_group_bounds(gv, commit@.short_sha, 0);
            }
            match find_group_exec(&groups, &commit.short_sha) {
                Some(k) => {
                    let mut grp = groups.remove(k);
                    let ghost old_grp = grp@;
                    grp.files.push(node);
                    assert(nodes_view(grp.files@) =~= old_grp.files.push(nv));
                    groups.insert(k, grp);
                    assert(groups_view(groups@) =~= file_under(gv, commit@, nv));
                },
                None => {
                    let mut files: Vec<TriageFileNode> = Vec::new();
                    files.push(node);
                    assert(nodes_view(files@) =~= seq![nv]);
                    let grp = TriageCommitGroup { commit, files };
                    let ghost gw = grp@;
                    groups.push(grp);
                    assert(groups_view(groups@) =~= gv.push(gw));
                },
            }
            i += 1;
        }
        assert(mv.take(i as int) =~= mv);
        assert(stats@.take(i as int) =~= stats@);
        let rows = build_triage_rows(&groups);
        let selected = if rows.len() > 0 {
            Some(0)
        } else {
            None
        };
        TriageState {
            groups,
            rows,
            selected,
            offset: 0,
            focus: TriageFocus::List,
            file_diff_scroll: 0,
            show_scroll: 0,
        }
    }

    /// Focus moves to the next pane: tree, file diff, `git show`, tree.
    pub fn toggle_focus(&mut self)
        requires
            old(self).wf(),
        ensures
            final(self).wf(),
            final(self)@ == (TriageStateView { focus: old(self)@.next_focus(), ..old(self)@ }),
    {
        self.focus = match self.focus {
            TriageFocus::List => TriageFocus::FileDiff,
            TriageFocus::FileDiff => TriageFocus::Show,
            TriageFocus::Show => TriageFocus::List,
        };
    }

    /// Focuses `focus` directly, as a click on that pane does.
    pub fn set_focus(&mut self, focus: TriageFocus)
        requires
            old(self).wf(),
        ensures
            final(self).wf(),
            final(self)@ == (TriageStateView { focus, ..old(self)@ }),
    {
        self.focus = focus;
    }

    /// The first row of the tree that is drawn.
    pub fn list_offset(&self) -> (r: usize)
        ensures
            r == self@.offset,
    {
        self.offset
    }

    /// Records how far drawing let the two previews scroll.
    pub fn set_preview_scrolls(&mut self, file_diff_scroll: u16, show_scroll: u16)
        requires
            old(self).wf(),
        ensures
            final(self).wf(),
            final(self)@ == (TriageStateView { file_diff_scroll, show_scroll, ..old(self)@ }),
    {
        self.file_diff_scroll = file_diff_scroll;
        self.show_scroll = show_scroll;
    }

    /// Records where drawing scrolled the tree to.
    pub fn set_list_offset(&mut self, offset: usize)
        requires
            old(self).wf(),
        ensures
            final(self).wf(),
            final(self)@ == (TriageStateView { offset, ..old(self)@ }),
    {
        self.offset = offset;
    }

    pub fn row_count(&self) -> (r: usize)
        requires
            self.wf(),
        ensures
            r == self@.rows().len(),
    {
        self.rows.len()
    }

    /// The row under the cursor.
    pub fn selected(&self) -> (r: Option<usize>)
        ensures
            r == self@.selected,
    {
        self.selected
    }

    pub fn focus(&self) -> (r: TriageFocus)
        ensures
            r == self@.focus,
    {
        self.focus
    }

    pub fn file_diff_scroll(&self) -> (r: u16)
        ensures
            r == self@.file_diff_scroll,
    {
        self.file_diff_scroll
    }

    pub fn show_scroll(&self) -> (r: u16)
        ensures
            r == self@.show_scroll,
    {
        self.show_scroll
    }

    /// Selects row `index`, as a click on it does, and scrolls both
    /// previews back to the top; an index past the last row changes
    /// nothing.
    pub fn select_row(&mut self, index: usize)
        requires
            old(self).wf(),
        ensures
            final(self).wf(),
            final(self)@ == if index < old(self)@.rows().len() {
                old(self)@.at_row(index)
            } else {
                old(self)@
            },
    {
        if index < self.rows.len() {
            self.selected = Some(index);
            self.file_diff_scroll = 0;
            self.show_scroll = 0;
        }
    }

    /// Moves the cursor one row down, stopping at the last row.
    pub fn move_down(&mut self)
        requires
            old(self).wf(),
        ensures
            final(self).wf(),
            final(self)@ == old(self)@.moved_down(),
    {
        let len = self.rows.len();
        if len == 0 {
            return;
        }
        let next = match self.selected {
            None => 0,
            Some(i) => if i + 1 < len {
                i + 1
            } else {
                len - 1
            },
        };
        self.selected = Some(next);
        self.file_diff_scroll = 0;
        self.show_scroll = 0;
    }

    /// Moves the cursor one row up, stopping at the first row.
    pub fn move_up(&mut self)
        requires
            old(self).wf(),
        ensures
            final(self).wf(),
            final(self)@ == old(self)@.moved_up(),
    {
        let len = self.rows.len();
        if len == 0 {
            return;
        }
        let prev = match self.selected {
            None => 0,
            Some(i) => if i > 0 {
                i - 1
            } else {
                0
            },
        };
        self.selected = Some(prev);
        self.file_diff_scroll = 0;
        self.show_scroll = 0;
    }

    /// Scrolls the focused pane down: the tree moves its cursor, a preview
    /// scrolls by one line (saturating).
    pub fn scroll_focused_pane_down(&mut self)
        requires
            old(self).wf(),
        ensures
            final(self).wf(),
            final(self)@ == old(self)@.scrolled_down(),
    {
        match self.focus {
            TriageFocus::List => self.move_down(),
            TriageFocus::FileDiff => self.file_diff_scroll = self.file_diff_scroll.saturating_add(1),
            TriageFocus::Show => self.show_scroll = self.show_scroll.saturating_add(1),
        }
    }

    /// Scrolls the focused pane up: the tree moves its cursor, a preview
    /// scrolls by one line (saturating).
    pub fn scroll_focused_pane_up(&mut self)
        requires
            old(self).wf(),
        ensures
            final(self).wf(),
            final(self)@ == old(self)@.scrolled_up(),
    {
        match self.focus {
            TriageFocus::List => self.move_up(),
            TriageFocus::FileDiff => self.file_diff_scroll = self.file_diff_scroll.saturating_sub(1),
            TriageFocus::Show => self.show_scroll = self.show_scroll.saturating_sub(1),
        }
    }

    /// Toggles the row under the cursor: a file row flips its file; a
    /// commit row unchecks all its files when they are all checked, and
    /// checks them all otherwise.
    pub fn toggle_current(&mut self)
        requires
            old(self).wf(),
        ensures
            final(self).wf(),
            final(self)@ == old(self)@.toggled(),
    {
        let ghost before = self@;
        let row = match self.selected {
            Some(i) => if i < self.rows.len() {
                self.rows[i]
            } else {
                return ;
            },
            None => {
                return ;
            },
        };
        assert(before.current_row() == Some(row));
        match row {
            TriageRow::File(g, f) => {
                if g < self.groups.len() && f < self.groups[g].files.len() {
                    let mut grp = self.groups.remove(g);
                    let node = grp.files.remove(f);
                    let flipped = TriageFileNode {
                        file: node.file,
                        checked: !node.checked,
                        added: node.added,
                        removed: node.removed,
                    };
                    grp.files.insert(f, flipped);
                    self.groups.insert(g, grp);
                    proof {
                        lemma_rows_same_shape(groups_view(self.groups@), before.groups);
                    }
                    assert(groups_view(self.groups@) =~= before.toggled().groups) by {
                        assert(nodes_view(self.groups@[g as int].files@) =~= before.groups[g as int].files.update(
                            f as int,
                            TriageFileNodeView { checked: !before.groups[g as int].files[f as int].checked, ..before.groups[g as int].files[f as int] },
                        ));
                    }
                }
            },
            TriageRow::Commit(g) => {
                if g < self.groups.len() {
                    let mut grp = self.groups.remove(g);
                    let ghost gv = grp@;
                    let mut all: bool = true;
                    let mut k: usize = 0;
                    while k < grp.files.len()
                        invariant
                            0 <= k <= grp.files.len(),
                            gv == grp@,
                            all == forall|j: int| 0 <= j < k ==> #[trigger] gv.files[j].checked,
                        decreases grp.files.len() - k,
                    {
                        assert(gv.files[k as int].checked == grp.files@[k as int].checked);
                        if !grp.files[k].checked {
                            all = false;
                        }
                        k += 1;
                    }
                    assert(all == all_checked(gv.files));
                    let mut files: Vec<TriageFileNode> = Vec::new();
                    let mut old_files = grp.files;
                    let ghost n = old_files.len();
                    let mut k: usize = 0;
                    while old_files.len() > 0
                        invariant
                            k + old_files.len() == n,
                            n == gv.files.len(),
                            nodes_view(old_files@) == gv.files.subrange(k as int, n as int),
                            nodes_view(files@) == all_set(gv.files.take(k as int), !all),
                        decreases old_files.len(),
                    {
                        let ghost first = old_files@[0]@;
                        let ghost prev = old_files@;
                        assert(nodes_view(old_files@)[0] == first);
                        assert(first == gv.files[k as int]);
                        let node = old_files.remove(0);
                        let ghost nv = node@;
                        assert(nv == first);
                        assert(nodes_view(old_files@) =~= nodes_view(prev).subrange(1, prev.len() as int));
                        let ghost before_f = nodes_view(files@);
                        files.push(TriageFileNode {
                            file: node.file,
                            checked: !all,
                            added: node.added,
                            removed: node.removed,
                        });
                        assert(nodes_view(files@) =~= before_f.push(TriageFileNodeView { checked: !all, ..nv }));
                        assert(gv.files.take(k + 1) =~= gv.files.take(k as int).push(gv.files[k as int]));
                        assert(nodes_view(files@) =~= all_set(gv.files.take(k + 1), !all));
                        assert(nodes_view(old_files@) =~= gv.files.subrange(k + 1, n as int));
                        k += 1;
                    }
                    assert(gv.files.take(n as int) =~= gv.files);
                    let new_grp = TriageCommitGroup { commit: grp.commit, files };
                    self.groups.insert(g, new_grp);
                    assert(groups_view(self.groups@) =~= before.toggled().groups);
                    proof {
                        lemma_rows_same_shape(groups_view(self.groups@), before.groups);
                    }
                }
            },
        }
    }

    /// A click: on the tree it focuses the tree, selects the clicked row
    /// (`row`, when the click is on one) and toggles the selected row; on a
    /// preview it focuses that preview.
    pub fn click(&mut self, region: TriageRegion, row: Option<usize>)
        requires
            old(self).wf(),
        ensures
            final(self).wf(),
            final(self)@ == ({
                let focused = TriageStateView { focus: TriageStateView::focus_of(region), ..old(self)@ };
                match (region, row) {
                    (TriageRegion::List, Some(i)) => (if i < focused.rows().len() {
                        focused.at_row(i)
                    } else {
                        focused
                    }).toggled(),
                    _ => focused,
                }
            }),
    {
        let focus = match region {
            TriageRegion::List => TriageFocus::List,
            TriageRegion::FileDiff => TriageFocus::FileDiff,
            TriageRegion::Show => TriageFocus::Show,
        };
        self.set_focus(focus);
        match (region, row) {
            (TriageRegion::List, Some(i)) => {
                self.select_row(i);
                self.toggle_current();
            },
            _ => {},
        }
    }

    /// The mouse wheel over a pane: focuses it, then scrolls it.
    pub fn wheel(&mut self, region: TriageRegion, down: bool)
        requires
            old(self).wf(),
        ensures
            final(self).wf(),
            final(self)@ == ({
                let focused = TriageStateView { focus: TriageStateView::focus_of(region), ..old(self)@ };
                if down {
                    focused.scrolled_down()
                } else {
                    focused.scrolled_up()
                }
            }),
    {
        let focus = match region {
            TriageRegion::List => TriageFocus::List,
            TriageRegion::FileDiff => TriageFocus::FileDiff,
            TriageRegion::Show => TriageFocus::Show,
        };
        self.set_focus(focus);
        if down {
            self.scroll_focused_pane_down();
        } else {
            self.scroll_focused_pane_up();
        }
    }

    /// The paths still checked, grouped by the short sha of their target
    /// commit, in the order the commits were first met; groups with nothing
    /// checked are left out.
    pub fn accepted_groups(&self) -> (r: Vec<(String, Vec<String>)>)
        ensures
            r@.map_values(|p: (String, Vec<String>)| (p.0@, p.1.deep_view())) == accepted_spec(
                self@.groups,
            ),
    {
        let ghost gv = self@.groups;
        let mut out: Vec<(String, Vec<String>)> = Vec::new();
        let mut g: usize = 0;
        assert(gv.take(0) =~= Seq::<TriageGroupView>::empty());
        assert(out@.map_values(|p: (String, Vec<String>)| (p.0@, p.1.deep_view())) =~= Seq::<
            (Seq<char>, Seq<Seq<char>>),
        >::empty());
        while g < self.groups.len()
            invariant
                0 <= g <= self.groups.len(),
                gv == self@.groups,
                gv == groups_view(self.groups@),
                out@.map_values(|p: (String, Vec<String>)| (p.0@, p.1.deep_view())) == accepted_spec(
                    gv.take(g as int),
                ),
            decreases self.groups.len() - g,
        {
            let grp = &self.groups[g];
            let ghost fv = nodes_view(grp.files@);
            let mut paths: Vec<String> = Vec::new();
            let mut k: usize = 0;
            assert(fv.take(0) =~= Seq::<TriageFileNodeView>::empty());
            while k < grp.files.len()
                invariant
                    0 <= k <= grp.files.len(),
                    fv == nodes_view(grp.files@),
                    paths.deep_view() == checked_paths(fv.take(k as int)),
                decreases grp.files.len() - k,
            {
                assert(fv.take(k + 1).drop_last() =~= fv.take(k as int));
                assert(fv.take(k + 1).last() == grp.files@[k as int]@);
                if grp.files[k].checked {
                    let ghost before = paths.deep_view();
                    paths.push(grp.files[k].file.clone());
                    assert(paths.deep_view() =~= before.push(grp.files@[k as int].file@));
                }
                k += 1;
            }
            assert(fv.take(k as int) =~= fv);
            assert(gv.take(g + 1).drop_last() =~= gv.take(g as int));
            assert(gv.take(g + 1).last() == gv[g as int]);
            assert(gv[g as int].files == fv);
            if paths.len() > 0 {
                let ghost before = out@.map_values(|p: (String, Vec<String>)| (p.0@, p.1.deep_view()));
                let ghost pv = paths.deep_view();
                out.push((grp.commit.short_sha.clone(), paths));
                assert(out@.map_values(|p: (String, Vec<String>)| (p.0@, p.1.deep_view())) =~= before.push(
                    (gv[g as int].commit.short_sha, pv),
                ));
            }
            g += 1;
        }
        assert(gv.take(g as int) =~= gv);
        out
    }

    /// The row under the cursor.
    pub fn current_row(&self) -> (r: Option<TriageRow>)
        requires
            self.wf(),
        ensures
            r == self@.current_row(),
    {
        match self.selected {
            Some(i) => if i < self.rows.len() {
                Some(self.rows[i])
            } else {
                None
            },
            None => None,
        }
    }

    /// The short sha of the commit in scope: that of the selected commit
    /// row, or of the commit of the selected file row.
    pub fn current_commit_sha(&self) -> (r: Option<String>)
        requires
            self.wf(),
        ensures
            match self@.current_row() {
                Some(TriageRow::Commit(g)) => r matches Some(s) && g < self@.groups.len() && s@
                    == self@.groups[g as int].commit.short_sha,
                Some(TriageRow::File(g, _)) => r matches Some(s) && g < self@.groups.len() && s@
                    == self@.groups[g as int].commit.short_sha,
                None => r is None,
            },
    {
        proof {
            self.lemma_wf_rows_valid();
        }
        match self.current_row() {
            Some(TriageRow::Commit(g)) => Some(self.groups[g].commit.short_sha.clone()),
            Some(TriageRow::File(g, _)) => Some(self.groups[g].commit.short_sha.clone()),
            None => None,
        }
    }

    /// The path of the selected file row; `None` on a commit row.
    pub fn current_selected_file_path(&self) -> (r: Option<String>)
        requires
            self.wf(),
        ensures
            match self@.current_row() {
                Some(TriageRow::File(g, f)) => r matches Some(s) && g < self@.groups.len() && f
                    < self@.groups[g as int].files.len() && s@ == self@.groups[g as int].files[f as int].file,
                _ => r is None,
            },
    {
        proof {
            self.lemma_wf_rows_valid();
        }
        match self.current_row() {
            Some(TriageRow::File(g, f)) => Some(self.groups[g].files[f].file.clone()),
            _ => None,
        }
    }

    proof fn lemma_wf_rows_valid(&self)
        requires
            self.wf(),
        ensures
            triage_rows_valid(self@.rows(), self@.groups),
    {
        let gv = self@.groups;
        assert(gv.len() == self.groups.len());
        assert forall|g: int| 0 <= g < gv.len() implies #[trigger] gv[g].files.len() <= usize::MAX by {
            assert(gv[g] == self.groups@[g]@);
            assert(gv[g].files.len() == self.groups@[g].files.len());
        }
        lemma_triage_rows_valid(gv);
    }

    /// The groups of the tree, for drawing.
    pub fn groups(&self) -> (r: &Vec<TriageCommitGroup>)
        ensures
            groups_view(r@) == self@.groups,
    {
        &self.groups
    }

    /// The rows of the tree, for drawing.
    pub fn rows(&self) -> (r: &Vec<TriageRow>)
        requires
            self.wf(),
        ensures
            r@ == self@.rows(),
    {
        &self.rows
    }
}

/// The rows depend only on how many files each group has.
proof fn lemma_rows_same_shape(a: Seq<TriageGroupView>, b: Seq<TriageGroupView>)
    requires
        a.len() == b.len(),
        forall|i: int| 0 <= i < a.len() ==> #[trigger] a[i].files.len() == b[i].files.len(),
    ensures
        triage_rows(a) == triage_rows(b),
    decreases a.len(),
{
    if a.len() > 0 {
        let (da, db) = (a.drop_last(), b.drop_last());
        assert forall|i: int| 0 <= i < da.len() implies #[trigger] da[i].files.len() == db[i].files.len() by {
            assert(da[i] == a[i] && db[i] == b[i]);
        }
        lemma_rows_same_shape(da, db);
        assert(a.last().files.len() == b.last().files.len());
    }
}

/// Every row of the tree points at an existing group and file.
pub open spec fn triage_rows_valid(rows: Seq<TriageRow>, groups: Seq<TriageGroupView>) -> bool {
    forall|i: int|
        0 <= i < rows.len() ==> match #[trigger] rows[i] {
            TriageRow::Commit(g) => g < groups.len(),
            TriageRow::File(g, f) => g < groups.len() && f < groups[g as int].files.len(),
        }
}

proof fn lemma_triage_rows_valid(groups: Seq<TriageGroupView>)
    requires
        groups.len() <= usize::MAX,
        forall|g: int| 0 <= g < groups.len() ==> #[trigger] groups[g].files.len() <= usize::MAX,
    ensures
        triage_rows_valid(triage_rows(groups), groups),
    decreases groups.len(),
{
    if groups.len() > 0 {
        let d = groups.drop_last();
        assert forall|g: int| 0 <= g < d.len() implies #[trigger] d[g].files.len() <= usize::MAX by {
            assert(d[g] == groups[g]);
        }
        lemma_triage_rows_valid(d);
        let r = triage_rows(groups);
        let rd = triage_rows(d);
        let n = groups.len() - 1;
        assert forall|i: int| 0 <= i < r.len() implies match #[trigger] r[i] {
            TriageRow::Commit(g) => g < groups.len(),
            TriageRow::File(g, f) => g < groups.len() && f < groups[g as int].files.len(),
        } by {
            if i < rd.len() {
                assert(r[i] == rd[i]);
                match rd[i] {
                    TriageRow::Commit(g) => {},
                    TriageRow::File(g, f) => {
                        assert(d[g as int] == groups[g as int]);
                    },
                }
            } else {
                let k = i - rd.len();
                assert(r[i] == group_rows(n, groups.last().files.len() as int)[k]);
                assert((n as usize) as int == n);
                if k > 0 {
                    assert(((k - 1) as usize) as int == k - 1);
                }
            }
        }
    }
}

/// The glyph of a commit row: checked when all its files are, unchecked
/// when none is, partial otherwise.
pub open spec fn commit_glyph_spec(files: Seq<TriageFileNodeView>) -> Seq<char> {
    if all_checked(files) {
        "[x]"@
    } else if none_checked(files) {
        "[ ]"@
    } else {
        "[~]"@
    }
}

pub fn commit_glyph(group: &TriageCommitGroup) -> (r: &'static str)
    ensures
        r@ == commit_glyph_spec(group@.files),
{
    let ghost fv = group@.files;
    let mut all: bool = true;
    let mut none: bool = true;
    let mut k: usize = 0;
    while k < group.files.len()
        invariant
            0 <= k <= group.files.len(),
            fv == group@.files,
            all == forall|j: int| 0 <= j < k ==> #[trigger] fv[j].checked,
            none == forall|j: int| 0 <= j < k ==> !(#[trigger] fv[j].checked),
        decreases group.files.len() - k,
    {
        assert(fv[k as int].checked == group.files@[k as int].checked);
        if group.files[k].checked {
            none = false;
        } else {
            all = false;
        }
        k += 1;
    }
    if all {
        "[x]"
    } else if none {
        "[ ]"
    } else {
        "[~]"
    }
}

pub fn checkbox(checked: bool) -> (r: &'static str)
    ensures
        r@ == if checked {
            "[x]"@
        } else {
            "[ ]"@
        },
{
    if checked {
        "[x]"
    } else {
        "[ ]"
    }
}

/// `git diff --no-color --numstat -- <path>`: the added and removed line
/// counts of a file's unstaged changes.
pub fn numstat_command(path: &str) -> (r: GitCommand)
    ensures
        r@ == plain_command(seq!["diff"@, "--no-color"@, "--numstat"@, "--"@, path@]),
{
    let mut args: Vec<String> = Vec::new();
    push_arg(&mut args, "diff");
    push_arg(&mut args, "--no-color");
    push_arg(&mut args, "--numstat");
    push_arg(&mut args, "--");
    push_arg(&mut args, path);
    assert(args.deep_view() =~= seq!["diff"@, "--no-color"@, "--numstat"@, "--"@, path@]);
    GitCommand::plain(args)
}

/// The added and removed counts of one `git diff --numstat` line.
pub fn parse_numstat_line(line: &Vec<char>) -> (r: Option<(u32, u32)>)
    ensures
        r == numstat_spec(line@),
{
    proof {
        lemma_find_from_bounds(line@, 0, '\t');
    }
    let a = match find_char(line, 0, '\t') {
        Some(a) => a,
        None => return None,
    };
    proof {
        lemma_find_from_bounds(line@, a + 1, '\t');
    }
    let b = match find_char(line, a + 1, '\t') {
        Some(b) => b,
        None => line.len(),
    };
    match (parse_u32(line, 0, a), parse_u32(line, a + 1, b)) {
        (Some(x), Some(y)) => Some((x, y)),
        _ => None,
    }
}

/// The counts a `git diff --numstat` output gives its first file, `(0, 0)`
/// when it gives none (no change, or a binary file).
pub fn numstat_of_output(raw: &str) -> (r: (u32, u32))
    ensures
        r == if text_lines(raw@).len() > 0 {
            match numstat_spec(text_lines(raw@)[0]) {
                Some(p) => p,
                None => (0u32, 0u32),
            }
        } else {
            (0u32, 0u32)
        },
{
    let lines = split_lines(&chars_of(raw));
    if lines.len() == 0 {
        return (0, 0);
    }
    assert(lines@[0]@ == text_lines(raw@)[0]) by {
        assert(lines@[0].deep_view() =~= lines@[0]@);
    }
    match parse_numstat_line(&lines[0]) {
        Some(p) => p,
        None => (0, 0),
    }
}

// ---------------------------------------------------------------------
// Laws
// ---------------------------------------------------------------------

/// Toggling the same file row twice gives back the state it started from.
pub proof fn law_toggle_file_twice(s: TriageStateView, g: usize, f: usize)
    requires
        s.current_row() == Some(TriageRow::File(g, f)),
        g < s.groups.len(),
        f < s.groups[g as int].files.len(),
    ensures
        s.toggled().toggled() == s,
{
    let t = s.toggled();
    lemma_rows_same_shape(t.groups, s.groups);
    assert(t.current_row() == s.current_row());
    let grp = s.groups[g as int];
    assert(t.groups[g as int].files[f as int].checked == !grp.files[f as int].checked);
    assert(t.toggled().groups[g as int].files =~= grp.files);
    assert(t.toggled().groups =~= s.groups);
}

/// After a commit row is toggled, its files are either all checked or all
/// unchecked: unchecked when they all were checked, checked otherwise.
pub proof fn law_toggle_commit_makes_group_uniform(s: TriageStateView, g: usize)
    requires
        s.current_row() == Some(TriageRow::Commit(g)),
        g < s.groups.len(),
    ensures
        forall|i: int|
            0 <= i < s.groups[g as int].files.len() ==> #[trigger] s.toggled().groups[g as int].files[i].checked
                == !all_checked(s.groups[g as int].files),
        s.toggled().groups[g as int].files.len() == s.groups[g as int].files.len(),
{
}

/// Toggling a commit row whose files all agree, twice, gives back the
/// state it started from.
pub proof fn law_toggle_uniform_commit_twice(s: TriageStateView, g: usize)
    requires
        s.current_row() == Some(TriageRow::Commit(g)),
        g < s.groups.len(),
        s.groups[g as int].files.len() > 0,
        all_checked(s.groups[g as int].files) || none_checked(s.groups[g as int].files),
    ensures
        s.toggled().toggled() == s,
{
    let t = s.toggled();
    lemma_rows_same_shape(t.groups, s.groups);
    assert(t.current_row() == s.current_row());
    let files = s.groups[g as int].files;
    let was_all = all_checked(files);
    assert(files[0].checked == was_all);
    assert(t.groups[g as int].files[0].checked == !was_all);
    assert(all_checked(t.groups[g as int].files) == !was_all);
    assert forall|i: int| 0 <= i < files.len() implies #[trigger] files[i].checked == was_all by {
        if !was_all {
            assert(none_checked(files));
        }
    }
    let tg = t.groups[g as int];
    assert(t.toggled().groups[g as int].files == all_set(tg.files, was_all));
    assert forall|i: int| 0 <= i < files.len() implies #[trigger] all_set(tg.files, was_all)[i] == files[i] by {
        assert(tg.files == all_set(files, !was_all));
        assert(tg.files.len() == files.len());
        assert(tg.files[i] == TriageFileNodeView { checked: !was_all, ..files[i] });
        assert(files[i].checked == was_all);
        assert(all_set(tg.files, was_all)[i] == TriageFileNodeView { checked: was_all, ..tg.files[i] });
    }
    assert(all_set(tg.files, was_all) =~= files);
    assert(t.toggled().groups =~= s.groups);
}

/// Toggling never changes the tree's shape, the cursor or the focus.
pub proof fn law_toggle_keeps_rows(s: TriageStateView)
    ensures
        s.toggled().rows() == s.rows(),
        s.toggled().selected == s.selected,
        s.toggled().focus == s.focus,
{
    lemma_rows_same_shape(s.toggled().groups, s.groups);
}

/// Every file of a freshly built tree is checked, and it holds one file per
/// match.
pub proof fn law_fresh_tree_all_checked(matches: Seq<FileCommitMatchView>, stats: Seq<(u32, u32)>)
    requires
        matches.len() == stats.len(),
    ensures
        forall|g: int| 0 <= g < groups_spec(matches, stats).len() ==> all_checked(
            #[trigger] groups_spec(matches, stats)[g].files,
        ),
        total_files(groups_spec(matches, stats)) == matches.len(),
    decreases matches.len(),
{
    if matches.len() > 0 {
        let (dm, ds) = (matches.drop_last(), stats.drop_last());
        law_fresh_tree_all_checked(dm, ds);
        let prev = groups_spec(dm, ds);
        let m = matches.last();
        let node = TriageFileNodeView {
            file: m.file,
            checked: true,
            added: stats.last().0,
            removed: stats.last().1,
        };
        let k = find_group(prev, m.matching_commits[0].short_sha, 0);
        lemma_find_group_bounds(prev, m.matching_commits[0].short_sha, 0);
        let next = groups_spec(matches, stats);
        assert(next == file_under(prev, m.matching_commits[0], node));
        assert forall|g: int| 0 <= g < next.len() implies all_checked(#[trigger] next[g].files) by {
            if g < prev.len() && g != k {
                assert(next[g] == prev[g]);
            } else if g == k && k < prev.len() {
                assert(next[g].files == prev[g].files.push(node));
                assert(all_checked(prev[g].files));
            }
        }
        if k < prev.len() {
            lemma_total_files_update(prev, k, next[k]);
        } else {
            assert(next.drop_last() =~= prev);
        }
    }
}

/// The number of files of all groups together.
pub open spec fn total_files(groups: Seq<TriageGroupView>) -> nat
    decreases groups.len(),
{
    if groups.len() == 0 {
        0
    } else {
        total_files(groups.drop_last()) + groups.last().files.len()
    }
}

proof fn lemma_total_files_update(groups: Seq<TriageGroupView>, k: int, grp: TriageGroupView)
    requires
        0 <= k < groups.len(),
    ensures
        total_files(groups.update(k, grp)) == total_files(groups) - groups[k].files.len()
            + grp.files.len(),
    decreases groups.len(),
{
    let u = groups.update(k, grp);
    if k < groups.len() - 1 {
        assert(u.drop_last() =~= groups.drop_last().update(k, grp));
        lemma_total_files_update(groups.drop_last(), k, grp);
    } else {
        assert(u.drop_last() =~= groups.drop_last());
    }
}

/// Moving down then up comes back to the same row, unless the cursor was
/// already on the last row.
pub proof fn law_down_then_up(s: TriageStateView, i: usize)
    requires
        s.selected == Some(i),
        i + 1 < s.rows().len(),
        s.rows().len() <= usize::MAX,
    ensures
        s.moved_down().moved_up().selected == s.selected,
{
    assert(s.moved_down().groups == s.groups);
    assert(s.moved_down().selected == Some((i + 1) as usize));
}


/// The short sha of the commit a match files its file under: its first.
pub open spec fn target_sha(m: FileCommitMatchView) -> Seq<char> {
    m.matching_commits[0].short_sha
}

/// The target commits of the matches, each once, in the order first met.
pub open spec fn commit_order(matches: Seq<FileCommitMatchView>) -> Seq<Seq<char>>
    decreases matches.len(),
{
    if matches.len() == 0 {
        Seq::empty()
    } else {
        let prev = commit_order(matches.drop_last());
        let sha = target_sha(matches.last());
        if prev.contains(sha) {
            prev
        } else {
            prev.push(sha)
        }
    }
}

/// The files of the matches that target the commit `sha`, in order.
pub open spec fn files_targeting(matches: Seq<FileCommitMatchView>, sha: Seq<char>) -> Seq<Seq<char>>
    decreases matches.len(),
{
    if matches.len() == 0 {
        Seq::empty()
    } else {
        let prev = files_targeting(matches.drop_last(), sha);
        if target_sha(matches.last()) == sha {
            prev.push(matches.last().file)
        } else {
            prev
        }
    }
}

/// The paths of a group's files, in order.
pub open spec fn file_paths(files: Seq<TriageFileNodeView>) -> Seq<Seq<char>> {
    files.map_values(|f: TriageFileNodeView| f.file)
}

/// The same tree, but for which files are checked.
pub open spec fn same_tree(a: Seq<TriageGroupView>, b: Seq<TriageGroupView>) -> bool {
    &&& a.len() == b.len()
    &&& forall|g: int|
        0 <= g < a.len() ==> {
            &&& (#[trigger] a[g]).commit == b[g].commit
            &&& a[g].files.len() == b[g].files.len()
            &&& forall|f: int|
                0 <= f < a[g].files.len() ==> (#[trigger] a[g].files[f]).file == b[g].files[f].file
        }
}

/// The pairs with at least one path, in order.
pub open spec fn drop_empty(pairs: Seq<(Seq<char>, Seq<Seq<char>>)>) -> Seq<(Seq<char>, Seq<Seq<char>>)>
    decreases pairs.len(),
{
    if pairs.len() == 0 {
        Seq::empty()
    } else {
        let rest = drop_empty(pairs.drop_last());
        if pairs.last().1.len() == 0 {
            rest
        } else {
            rest.push(pairs.last())
        }
    }
}

/// One of the actions of the triage screen's tree.
pub enum TriageOp {
    Toggle,
    Down,
    Up,
    Select(usize),
    ScrollDown,
    ScrollUp,
}

/// The screen after one action, as the method performing it states.
pub open spec fn apply_triage_op(s: TriageStateView, op: TriageOp) -> TriageStateView {
    match op {
        TriageOp::Toggle => s.toggled(),
        TriageOp::Down => s.moved_down(),
        TriageOp::Up => s.moved_up(),
        TriageOp::Select(i) => if i < s.rows().len() {
            s.at_row(i)
        } else {
            s
        },
        TriageOp::ScrollDown => s.scrolled_down(),
        TriageOp::ScrollUp => s.scrolled_up(),
    }
}

/// The screen after the actions, in order.
pub open spec fn apply_triage_ops(s: TriageStateView, ops: Seq<TriageOp>) -> TriageStateView
    decreases ops.len(),
{
    if ops.len() == 0 {
        s
    } else {
        apply_triage_ops(apply_triage_op(s, ops[0]), ops.drop_first())
    }
}

proof fn lemma_op_keeps_tree(s: TriageStateView, op: TriageOp)
    ensures
        same_tree(apply_triage_op(s, op).groups, s.groups),
{
}

proof fn lemma_ops_keep_tree(s: TriageStateView, ops: Seq<TriageOp>)
    ensures
        same_tree(apply_triage_ops(s, ops).groups, s.groups),
    decreases ops.len(),
{
    if ops.len() > 0 {
        let t = apply_triage_op(s, ops[0]);
        lemma_op_keeps_tree(s, ops[0]);
        lemma_ops_keep_tree(t, ops.drop_first());
    }
}

proof fn lemma_commit_order_distinct(matches: Seq<FileCommitMatchView>)
    ensures
        forall|i: int, j: int|
            0 <= i < j < commit_order(matches).len() ==> commit_order(matches)[i]
                != commit_order(matches)[j],
    decreases matches.len(),
{
    if matches.len() > 0 {
        lemma_commit_order_distinct(matches.drop_last());
        let prev = commit_order(matches.drop_last());
        let sha = target_sha(matches.last());
        if !prev.contains(sha) {
            let order = prev.push(sha);
            assert forall|i: int, j: int| 0 <= i < j < order.len() implies order[i] != order[j] by {
                if j == prev.len() && order[i] == order[j] {
                    assert(prev[i] == sha);
                }
            }
        }
    }
}

proof fn lemma_untargeted_has_no_files(matches: Seq<FileCommitMatchView>, sha: Seq<char>)
    requires
        !commit_order(matches).contains(sha),
    ensures
        files_targeting(matches, sha) == Seq::<Seq<char>>::empty(),
    decreases matches.len(),
{
    if matches.len() > 0 {
        let prev = commit_order(matches.drop_last());
        if prev.contains(sha) {
            let i = choose|i: int| 0 <= i < prev.len() && prev[i] == sha;
            assert(commit_order(matches)[i] == sha);
        }
        if target_sha(matches.last()) == sha {
            let order = commit_order(matches);
            if !prev.contains(sha) {
                assert(order[order.len() - 1] == sha);
            }
            assert(order.contains(sha));
        }
        lemma_untargeted_has_no_files(matches.drop_last(), sha);
    }
}

proof fn lemma_find_group_missing(groups: Seq<TriageGroupView>, sha: Seq<char>, k: int)
    requires
        0 <= k <= groups.len(),
        find_group(groups, sha, k) == groups.len(),
    ensures
        forall|j: int| k <= j < groups.len() ==> groups[j].commit.short_sha != sha,
    decreases groups.len() - k,
{
    if k < groups.len() {
        lemma_find_group_missing(groups, sha, k + 1);
    }
}

/// The fresh tree of `matches` as it is grouped: one group per target
/// commit, in the order first met, each with the paths of the files that
/// target it, in the order of the matches.
proof fn lemma_fresh_tree_grouping(matches: Seq<FileCommitMatchView>, stats: Seq<(u32, u32)>)
    requires
        matches.len() == stats.len(),
    ensures
        groups_spec(matches, stats).len() == commit_order(matches).len(),
        forall|g: int|
            0 <= g < groups_spec(matches, stats).len() ==> {
                &&& (#[trigger] groups_spec(matches, stats)[g]).commit.short_sha == commit_order(matches)[g]
                &&& file_paths(groups_spec(matches, stats)[g].files) == files_targeting(
                    matches,
                    commit_order(matches)[g],
                )
            },
    decreases matches.len(),
{
    if matches.len() > 0 {
        let (dm, ds) = (matches.drop_last(), stats.drop_last());
        lemma_fresh_tree_grouping(dm, ds);
        lemma_commit_order_distinct(dm);
        let prev = groups_spec(dm, ds);
        let order = commit_order(dm);
        let m = matches.last();
        let sha = target_sha(m);
        let node = TriageFileNodeView {
            file: m.file,
            checked: true,
            added: stats.last().0,
            removed: stats.last().1,
        };
        let next = groups_spec(matches, stats);
        assert(next == file_under(prev, m.matching_commits[0], node));
        let k = find_group(prev, sha, 0);
        lemma_find_group_bounds(prev, sha, 0);
        assert(matches.drop_last() == dm);
        if k < prev.len() {
            assert(order.contains(sha)) by {
                assert(order[k] == sha);
            }
            assert(commit_order(matches) == order);
            assert forall|g: int| 0 <= g < next.len() implies {
                &&& (#[trigger] next[g]).commit.short_sha == commit_order(matches)[g]
                &&& file_paths(next[g].files) == files_targeting(matches, commit_order(matches)[g])
            } by {
                if g == k {
                    assert(file_paths(next[g].files) =~= file_paths(prev[g].files).push(m.file));
                } else {
                    assert(next[g] == prev[g]);
                    assert(order[g] != order[k]);
                }
            }
        } else {
            lemma_find_group_missing(prev, sha, 0);
            assert(!order.contains(sha)) by {
                if order.contains(sha) {
                    let j = choose|j: int| 0 <= j < order.len() && order[j] == sha;
                    assert(prev[j].commit.short_sha == sha);
                }
            }
            assert(commit_order(matches) == order.push(sha));
            lemma_untargeted_has_no_files(dm, sha);
            assert forall|g: int| 0 <= g < next.len() implies {
                &&& (#[trigger] next[g]).commit.short_sha == commit_order(matches)[g]
                &&& file_paths(next[g].files) == files_targeting(matches, commit_order(matches)[g])
            } by {
                if g == prev.len() {
                    assert(file_paths(next[g].files) =~= seq![m.file]);
                    assert(files_targeting(matches, sha) =~= seq![m.file]);
                } else {
                    assert(next[g] == prev[g]);
                    assert(order[g] != sha);
                }
            }
        }
    }
}

proof fn lemma_accepted_is_drop_empty(groups: Seq<TriageGroupView>)
    ensures
        accepted_spec(groups) == drop_empty(
            Seq::new(
                groups.len(),
                |g: int| (groups[g].commit.short_sha, checked_paths(groups[g].files)),
            ),
        ),
    decreases groups.len(),
{
    let pairs = Seq::new(
        groups.len(),
        |g: int| (groups[g].commit.short_sha, checked_paths(groups[g].files)),
    );
    if groups.len() > 0 {
        let d = groups.drop_last();
        lemma_accepted_is_drop_empty(d);
        assert(pairs.drop_last() =~= Seq::new(
            d.len(),
            |g: int| (d[g].commit.short_sha, checked_paths(d[g].files)),
        ));
    }
}

/// The paths whose flag is set, in order.
pub open spec fn kept(paths: Seq<Seq<char>>, flags: Seq<bool>) -> Seq<Seq<char>>
    decreases paths.len(),
{
    if paths.len() == 0 || flags.len() == 0 {
        Seq::empty()
    } else {
        let rest = kept(paths.drop_last(), flags.drop_last());
        if flags.last() {
            rest.push(paths.last())
        } else {
            rest
        }
    }
}

/// Whether each file of a group is checked, in order.
pub open spec fn check_flags(files: Seq<TriageFileNodeView>) -> Seq<bool> {
    files.map_values(|f: TriageFileNodeView| f.checked)
}

proof fn lemma_checked_paths_kept(files: Seq<TriageFileNodeView>)
    ensures
        checked_paths(files) == kept(file_paths(files), check_flags(files)),
    decreases files.len(),
{
    if files.len() > 0 {
        let d = files.drop_last();
        lemma_checked_paths_kept(d);
        assert(file_paths(files).drop_last() =~= file_paths(d));
        assert(check_flags(files).drop_last() =~= check_flags(d));
    }
}

proof fn lemma_all_checked_keeps_all(files: Seq<TriageFileNodeView>)
    requires
        all_checked(files),
    ensures
        checked_paths(files) == file_paths(files),
    decreases files.len(),
{
    if files.len() > 0 {
        let d = files.drop_last();
        assert(all_checked(d)) by {
            assert forall|i: int| 0 <= i < d.len() implies #[trigger] d[i].checked by {
                assert(d[i] == files[i]);
            }
        }
        lemma_all_checked_keeps_all(d);
        assert(file_paths(files) =~= file_paths(d).push(files.last().file));
    }
}

proof fn lemma_targeted_has_files(matches: Seq<FileCommitMatchView>, sha: Seq<char>)
    requires
        commit_order(matches).contains(sha),
    ensures
        files_targeting(matches, sha).len() > 0,
    decreases matches.len(),
{
    if matches.len() > 0 {
        let d = matches.drop_last();
        if target_sha(matches.last()) != sha {
            let order = commit_order(matches);
            let prev = commit_order(d);
            let i = choose|i: int| 0 <= i < order.len() && order[i] == sha;
            if !prev.contains(target_sha(matches.last())) && i == prev.len() {
                assert(order[i] == target_sha(matches.last()));
            }
            assert(prev[i] == sha);
            lemma_targeted_has_files(d, sha);
        }
    }
}

proof fn lemma_drop_empty_keeps_full(pairs: Seq<(Seq<char>, Seq<Seq<char>>)>)
    requires
        forall|i: int| 0 <= i < pairs.len() ==> (#[trigger] pairs[i]).1.len() > 0,
    ensures
        drop_empty(pairs) == pairs,
    decreases pairs.len(),
{
    if pairs.len() > 0 {
        let d = pairs.drop_last();
        assert forall|i: int| 0 <= i < d.len() implies (#[trigger] d[i]).1.len() > 0 by {
            assert(d[i] == pairs[i]);
        }
        lemma_drop_empty_keeps_full(d);
        assert(d.push(pairs.last()) =~= pairs);
    }
}

/// What `accepted_groups` returns (`accepted_spec` of the groups) after
/// the tree built from `matches` by `TriageState::new` (whose groups are
/// `groups_spec(matches, stats)`) goes through any toggles and moves: for
/// each target commit, in the order first met among the matches, the
/// files of the matches that target it, in the order of the matches, kept
/// where still checked; a commit with none left is dropped.
pub proof fn law_accepted_after_toggles(
    s: TriageStateView,
    matches: Seq<FileCommitMatchView>,
    stats: Seq<(u32, u32)>,
    ops: Seq<TriageOp>,
)
    requires
        matches.len() == stats.len(),
        s.groups == groups_spec(matches, stats),
    ensures
        ({
            let groups = apply_triage_ops(s, ops).groups;
            let order = commit_order(matches);
            &&& groups.len() == order.len()
            &&& forall|g: int|
                0 <= g < groups.len() ==> file_paths(#[trigger] groups[g].files) == files_targeting(
                    matches,
                    order[g],
                )
            &&& accepted_spec(groups) == drop_empty(
                Seq::new(
                    groups.len(),
                    |g: int|
                        (order[g], kept(files_targeting(matches, order[g]), check_flags(groups[g].files))),
                ),
            )
        }),
{
    let groups = apply_triage_ops(s, ops).groups;
    let order = commit_order(matches);
    lemma_ops_keep_tree(s, ops);
    lemma_fresh_tree_grouping(matches, stats);
    assert forall|g: int| 0 <= g < groups.len() implies file_paths(#[trigger] groups[g].files)
        == files_targeting(matches, order[g]) by {
        assert(groups[g].files.len() == s.groups[g].files.len());
        assert(file_paths(groups[g].files) =~= file_paths(s.groups[g].files));
    }
    lemma_accepted_is_drop_empty(groups);
    assert forall|g: int| 0 <= g < groups.len() implies checked_paths(#[trigger] groups[g].files) == kept(
        files_targeting(matches, order[g]),
        check_flags(groups[g].files),
    ) by {
        lemma_checked_paths_kept(groups[g].files);
    }
    assert(Seq::new(
        groups.len(),
        |g: int| (order[g], kept(files_targeting(matches, order[g]), check_flags(groups[g].files))),
    ) =~= Seq::new(
        groups.len(),
        |g: int| (groups[g].commit.short_sha, checked_paths(groups[g].files)),
    ));
}

/// What `accepted_groups` returns on the tree just built from `matches`:
/// every target commit, in the order first met, with all the files of the
/// matches that target it, in the order of the matches; so each match's
/// file is listed once, under its first commit.
pub proof fn law_fresh_accepted_groups(matches: Seq<FileCommitMatchView>, stats: Seq<(u32, u32)>)
    requires
        matches.len() == stats.len(),
    ensures
        accepted_spec(groups_spec(matches, stats)) == Seq::new(
            commit_order(matches).len(),
            |g: int| (commit_order(matches)[g], files_targeting(matches, commit_order(matches)[g])),
        ),
        total_files(groups_spec(matches, stats)) == matches.len(),
{
    let groups = groups_spec(matches, stats);
    let order = commit_order(matches);
    lemma_fresh_tree_grouping(matches, stats);
    law_fresh_tree_all_checked(matches, stats);
    lemma_accepted_is_drop_empty(groups);
    let pairs = Seq::new(groups.len(), |g: int| (groups[g].commit.short_sha, checked_paths(groups[g].files)));
    assert forall|g: int| 0 <= g < groups.len() implies (#[trigger] pairs[g]) == (
        order[g],
        files_targeting(matches, order[g]),
    ) by {
        lemma_all_checked_keeps_all(groups[g].files);
    }
    assert forall|i: int| 0 <= i < pairs.len() implies (#[trigger] pairs[i]).1.len() > 0 by {
        assert(order.contains(order[i]));
        lemma_targeted_has_files(matches, order[i]);
    }
    lemma_drop_empty_keeps_full(pairs);
    assert(pairs =~= Seq::new(order.len(), |g: int| (order[g], files_targeting(matches, order[g]))));
}

} // verus!
