//! Where the panes of each screen go. ratatui's layout solver cuts a
//! rectangle into pieces; the sizes asked for, and how the pieces nest, are
//! decided here.

use vstd::prelude::*;

use ratatui::layout::{Constraint, Direction, Flex, Layout, Rect};

use crate::tui::review::{Area, ReviewAreas, TriageAreas};

verus! {

/// The direction a rectangle is cut along.
#[derive(Debug, Clone, Copy, PartialEq, Eq, Structural)]
pub enum Axis {
    Vertical,
    Horizontal,
}

/// Where the pieces go when they do not fill the rectangle.
#[derive(Debug, Clone, Copy, PartialEq, Eq, Structural)]
pub enum Packing {
    Start,
    Center,
}

/// The size asked for one piece.
#[derive(Debug, Clone, Copy, PartialEq, Eq, Structural)]
pub enum Size {
    Min(u16),
    Length(u16),
    Percentage(u16),
}

/// `piece` lies inside `outer`, on both axes.
pub open spec fn within(piece: Area, outer: Area) -> bool {
    &&& outer.x <= piece.x
    &&& piece.x + piece.width <= outer.x + outer.width
    &&& outer.y <= piece.y
    &&& piece.y + piece.height <= outer.y + outer.height
}

/// Every piece of `pieces` lies inside `outer`.
pub open spec fn all_within(pieces: Seq<Area>, outer: Area) -> bool {
    forall|i: int| 0 <= i < pieces.len() ==> within(#[trigger] pieces[i], outer)
}

/// One cut of a rectangle, as handed to the layout solver: the axis it is
/// cut along, where the pieces go when they do not fill it, and the size
/// asked for each piece.
pub struct Cut {
    pub axis: Axis,
    pub packing: Packing,
    pub sizes: Vec<Size>,
}

/// Mathematical model of a `Cut`.
pub struct CutView {
    pub axis: Axis,
    pub packing: Packing,
    pub sizes: Seq<Size>,
}

impl View for Cut {
    type V = CutView;

    open spec fn view(&self) -> CutView {
        CutView { axis: self.axis, packing: self.packing, sizes: self.sizes@ }
    }
}

/// The cut along `axis`, packed as `packing` says, asking for `sizes`.
pub open spec fn cut_of(axis: Axis, packing: Packing, sizes: Seq<Size>) -> CutView {
    CutView { axis, packing, sizes }
}

/// Whether ratatui's layout solver can give `pieces` when it cuts `area` as
/// `cut` says. This is a relation, not a function: the solver may give
/// different pieces for the same area and cut (see `split_area`).
pub uninterp spec fn solver_may_give(area: Area, cut: CutView, pieces: Seq<Area>) -> bool;

/// Trusted: ratatui's `Layout::split` on a layout along `cut.axis`, packed
/// as `cut.packing` says, with one constraint per size of `cut.sizes`,
/// applied to `area`. It returns one rectangle per constraint, and the
/// solver's required constraints keep each of them inside `area`: along
/// the axis every bound lies between the area's two edges, and across it
/// the area's own coordinates are copied. The result is recorded as one
/// the solver can give for that area and cut; which one comes back when
/// several solutions are equally good depends on the order in which the
/// solver walks its hash maps, so nothing more is said of it.
#[verifier::external_body]
fn split_area(area: Area, cut: &Cut) -> (r: Vec<Area>)
    ensures
        r@.len() == cut.sizes@.len(),
        all_within(r@, area),
        solver_may_give(area, cut@, r@),
{
    let direction = match cut.axis { Axis::Vertical => Direction::Vertical, Axis::Horizontal => Direction::Horizontal };
    let flex = match cut.packing { Packing::Start => Flex::Start, Packing::Center => Flex::Center };
    let constraints = cut.sizes.iter().map(|s| match *s {
        Size::Min(n) => Constraint::Min(n),
        Size::Length(n) => Constraint::Length(n),
        Size::Percentage(n) => Constraint::Percentage(n),
    });
    Layout::default().direction(direction).flex(flex).constraints(constraints)
        .split(Rect::new(area.x, area.y, area.width, area.height))
        .iter().map(|r| Area { x: r.x, y: r.y, width: r.width, height: r.height }).collect()
}

/// The rectangles of the review screen.
#[derive(Debug, Clone, Copy, PartialEq, Eq, Structural)]
pub struct ReviewLayout {
    pub files: Area,
    pub hunks: Area,
    pub commits: Area,
    pub commit_show: Area,
    pub help: Area,
}

/// The rectangles of the triage screen.
#[derive(Debug, Clone, Copy, PartialEq, Eq, Structural)]
pub struct TriageLayout {
    pub list: Area,
    pub file_diff: Area,
    pub help: Area,
    pub show: Area,
}

/// The rectangles of the commit form.
#[derive(Debug, Clone, Copy, PartialEq, Eq, Structural)]
pub struct CommitFormLayout {
    pub popup: Area,
    pub text: Area,
    pub diff: Area,
    pub validate_button: Area,
    pub cancel_button: Area,
}

impl ReviewLayout {
    pub fn areas(&self) -> (r: ReviewAreas)
        ensures
            r == (ReviewAreas {
                files: self.files,
                hunks: self.hunks,
                commits: self.commits,
                commit_show: self.commit_show,
            }),
    {
        ReviewAreas {
            files: self.files,
            hunks: self.hunks,
            commits: self.commits,
            commit_show: self.commit_show,
        }
    }
}

impl TriageLayout {
    pub fn areas(&self) -> (r: TriageAreas)
        ensures
            r == (TriageAreas { list: self.list, file_diff: self.file_diff, show: self.show }),
    {
        TriageAreas { list: self.list, file_diff: self.file_diff, show: self.show }
    }
}

// ---------------------------------------------------------------------
// Specification
// ---------------------------------------------------------------------

/// `n + 2` lines (a count with its two border rows), clamped to
/// `[lo, hi]`; the count is taken modulo 2^16, as a `u16` holds it.
pub open spec fn bordered_height(n: int, lo: int, hi: int) -> int {
    let h = n % 0x10000 + 2;
    if h < lo {
        lo
    } else if h > hi {
        hi
    } else {
        h
    }
}

/// Every pane of the review screen lies on the screen.
pub open spec fn review_fits(r: ReviewLayout, screen: Area) -> bool {
    &&& within(r.files, screen)
    &&& within(r.hunks, screen)
    &&& within(r.commits, screen)
    &&& within(r.commit_show, screen)
    &&& within(r.help, screen)
}

/// Every pane of the triage screen lies on the screen.
pub open spec fn triage_fits(r: TriageLayout, screen: Area) -> bool {
    &&& within(r.list, screen)
    &&& within(r.file_diff, screen)
    &&& within(r.help, screen)
    &&& within(r.show, screen)
}

/// The popup lies on the screen, and its parts inside the popup.
pub open spec fn commit_form_fits(r: CommitFormLayout, screen: Area) -> bool {
    &&& within(r.popup, screen)
    &&& within(r.text, r.popup)
    &&& within(r.diff, r.popup)
    &&& within(r.validate_button, r.popup)
    &&& within(r.cancel_button, r.popup)
}

/// The cuts of the review screen: the screen into a body over a help bar
/// three rows high; the body into columns of 70% and 30%; the left column
/// into the Files pane (its `file_count` files plus borders, between 4 and
/// 12 rows) over the Hunks pane; the right one into halves.
pub open spec fn review_plan_spec(file_count: usize) -> (CutView, CutView, CutView, CutView) {
    (
        cut_of(Axis::Vertical, Packing::Start, seq![Size::Min(0), Size::Length(3)]),
        cut_of(Axis::Horizontal, Packing::Start, seq![Size::Percentage(70), Size::Percentage(30)]),
        cut_of(
            Axis::Vertical,
            Packing::Start,
            seq![Size::Length(bordered_height(file_count as int, 4, 12) as u16), Size::Min(0)],
        ),
        cut_of(Axis::Vertical, Packing::Start, seq![Size::Percentage(50), Size::Percentage(50)]),
    )
}

/// `rows`, `outer`, `left` and `right` are what the solver can give for
/// the review screen's cuts: the first cut of `screen`, the second of the
/// body `rows[0]`, the third of the left column `outer[0]`, the fourth of
/// the right column `outer[1]`.
pub open spec fn review_cut_from(
    screen: Area,
    file_count: usize,
    rows: Seq<Area>,
    outer: Seq<Area>,
    left: Seq<Area>,
    right: Seq<Area>,
) -> bool {
    let plan = review_plan_spec(file_count);
    &&& rows.len() == 2 && outer.len() == 2 && left.len() == 2 && right.len() == 2
    &&& solver_may_give(screen, plan.0, rows)
    &&& solver_may_give(rows[0], plan.1, outer)
    &&& solver_may_give(outer[0], plan.2, left)
    &&& solver_may_give(outer[1], plan.3, right)
}

/// Which piece is which pane of the review screen: Files over Hunks on the
/// left, Commits over `git show` on the right, the help bar below.
pub open spec fn review_wiring(rows: Seq<Area>, left: Seq<Area>, right: Seq<Area>) -> ReviewLayout {
    ReviewLayout { files: left[0], hunks: left[1], commits: right[0], commit_show: right[1], help: rows[1] }
}

/// The cuts of the triage screen: columns of 55% and 45%; the left one
/// into the tree pair over a help bar three rows high; the tree pair into
/// halves, the tree over the file's diff.
pub open spec fn triage_plan_spec() -> (CutView, CutView, CutView) {
    (
        cut_of(Axis::Horizontal, Packing::Start, seq![Size::Percentage(55), Size::Percentage(45)]),
        cut_of(Axis::Vertical, Packing::Start, seq![Size::Min(0), Size::Length(3)]),
        cut_of(Axis::Vertical, Packing::Start, seq![Size::Percentage(50), Size::Percentage(50)]),
    )
}

/// `columns`, `left` and `left_top` are what the solver can give for the
/// triage screen's cuts: the first of `screen`, the second of the left
/// column, the third of the left column's top piece.
pub open spec fn triage_cut_from(
    screen: Area,
    columns: Seq<Area>,
    left: Seq<Area>,
    left_top: Seq<Area>,
) -> bool {
    let plan = triage_plan_spec();
    &&& columns.len() == 2 && left.len() == 2 && left_top.len() == 2
    &&& solver_may_give(screen, plan.0, columns)
    &&& solver_may_give(columns[0], plan.1, left)
    &&& solver_may_give(left[0], plan.2, left_top)
}

/// Which piece is which pane of the triage screen: the tree over the
/// file's diff and the help bar on the left, the `git show` on the right.
pub open spec fn triage_wiring(columns: Seq<Area>, left: Seq<Area>, left_top: Seq<Area>) -> TriageLayout {
    TriageLayout { list: left_top[0], file_diff: left_top[1], help: left[1], show: columns[1] }
}

/// The cuts of the commit form: a centred band of 85% of the screen's
/// height; in it a centred popup of 85% of its width; the popup into the
/// message (its `line_count` lines plus borders, between 5 and 12 rows),
/// the staged diff (at least 3 rows) and a row of 3; that row into a gap,
/// the 13-column Validate button, a gap of 2 and the 13-column Cancel
/// button.
pub open spec fn commit_form_plan_spec(line_count: usize) -> (CutView, CutView, CutView, CutView) {
    (
        cut_of(Axis::Vertical, Packing::Center, seq![Size::Percentage(85)]),
        cut_of(Axis::Horizontal, Packing::Center, seq![Size::Percentage(85)]),
        cut_of(
            Axis::Vertical,
            Packing::Start,
            seq![
                Size::Length(bordered_height(line_count as int, 5, 12) as u16),
                Size::Min(3),
                Size::Length(3),
            ],
        ),
        cut_of(
            Axis::Horizontal,
            Packing::Start,
            seq![Size::Min(0), Size::Length(13), Size::Length(2), Size::Length(13)],
        ),
    )
}

/// `band`, `columns`, `sections` and `buttons` are what the solver can
/// give for the commit form's cuts: the first of `screen`, the second of
/// the band, the third of the popup `columns[0]`, the fourth of the button
/// row `sections[2]`.
pub open spec fn commit_form_cut_from(
    screen: Area,
    line_count: usize,
    band: Seq<Area>,
    columns: Seq<Area>,
    sections: Seq<Area>,
    buttons: Seq<Area>,
) -> bool {
    let plan = commit_form_plan_spec(line_count);
    &&& band.len() == 1 && columns.len() == 1 && sections.len() == 3 && buttons.len() == 4
    &&& solver_may_give(screen, plan.0, band)
    &&& solver_may_give(band[0], plan.1, columns)
    &&& solver_may_give(columns[0], plan.2, sections)
    &&& solver_may_give(sections[2], plan.3, buttons)
}

/// Which piece is which part of the commit form.
pub open spec fn commit_form_wiring(popup: Area, sections: Seq<Area>, buttons: Seq<Area>) -> CommitFormLayout {
    CommitFormLayout {
        popup,
        text: sections[0],
        diff: sections[1],
        validate_button: buttons[1],
        cancel_button: buttons[3],
    }
}

/// The cuts of the help popup: a centred band as tall as its `line_count`
/// lines plus borders and padding (the count read as a `u16`), then a
/// centred column of 60% of the band's width.
pub open spec fn help_plan_spec(line_count: usize) -> (CutView, CutView) {
    (
        cut_of(Axis::Vertical, Packing::Center, seq![Size::Length((line_count as int % 0x10000 + 4) as u16)]),
        cut_of(Axis::Horizontal, Packing::Center, seq![Size::Percentage(60)]),
    )
}

/// `band` and `columns` are what the solver can give for the help popup's
/// cuts: the first of `screen`, the second of the band.
pub open spec fn help_cut_from(screen: Area, line_count: usize, band: Seq<Area>, columns: Seq<Area>) -> bool {
    let plan = help_plan_spec(line_count);
    &&& band.len() == 1 && columns.len() == 1
    &&& solver_may_give(screen, plan.0, band)
    &&& solver_may_give(band[0], plan.1, columns)
}

// ---------------------------------------------------------------------
// Implementation
// ---------------------------------------------------------------------

/// The height of a bordered pane showing `n` lines: `n + 2` clamped to
/// `[lo, hi]`, `n` read as a `u16`.
pub fn bordered(n: usize, lo: u16, hi: u16) -> (r: u16)
    requires
        n % 0x10000 + 2 <= u16::MAX,
        lo <= hi,
    ensures
        r == bordered_height(n as int, lo as int, hi as int),
{
    let h: u16 = (n % 0x10000) as u16 + 2;
    if h < lo {
        lo
    } else if h > hi {
        hi
    } else {
        h
    }
}

fn cut1(axis: Axis, packing: Packing, a: Size) -> (r: Cut)
    ensures
        r@ == cut_of(axis, packing, seq![a]),
{
    let mut sizes: Vec<Size> = Vec::new();
    sizes.push(a);
    assert(sizes@ =~= seq![a]);
    Cut { axis, packing, sizes }
}

fn cut2(axis: Axis, packing: Packing, a: Size, b: Size) -> (r: Cut)
    ensures
        r@ == cut_of(axis, packing, seq![a, b]),
{
    let mut sizes: Vec<Size> = Vec::new();
    sizes.push(a);
    sizes.push(b);
    assert(sizes@ =~= seq![a, b]);
    Cut { axis, packing, sizes }
}

/// The cuts of the review screen, with `file_count` files listed.
pub fn review_plan(file_count: usize) -> (r: (Cut, Cut, Cut, Cut))
    requires
        file_count % 0x10000 + 2 <= u16::MAX,
    ensures
        (r.0@, r.1@, r.2@, r.3@) == review_plan_spec(file_count),
{
    let files_height = bordered(file_count, 4, 12);
    (
        cut2(Axis::Vertical, Packing::Start, Size::Min(0), Size::Length(3)),
        cut2(Axis::Horizontal, Packing::Start, Size::Percentage(70), Size::Percentage(30)),
        cut2(Axis::Vertical, Packing::Start, Size::Length(files_height), Size::Min(0)),
        cut2(Axis::Vertical, Packing::Start, Size::Percentage(50), Size::Percentage(50)),
    )
}

/// The review screen's panes, from the pieces its cuts gave back: `rows`
/// (the body over the help bar), `left` (the Files pane over the Hunks
/// pane) and `right` (the Commits pane over the `git show` pane).
pub fn assemble_review_layout(rows: &Vec<Area>, left: &Vec<Area>, right: &Vec<Area>) -> (r:
    ReviewLayout)
    requires
        rows.len() == 2,
        left.len() == 2,
        right.len() == 2,
    ensures
        r == review_wiring(rows@, left@, right@),
{
    ReviewLayout {
        files: left[0],
        hunks: left[1],
        commits: right[0],
        commit_show: right[1],
        help: rows[1],
    }
}

/// Where the panes of the review screen go, with `file_count` files
/// listed: the review screen's cuts, done in turn by the layout solver,
/// wired to the panes.
pub fn review_layout(screen: Area, file_count: usize) -> (r: ReviewLayout)
    requires
        file_count % 0x10000 + 2 <= u16::MAX,
    ensures
        exists|rows: Seq<Area>, outer: Seq<Area>, left: Seq<Area>, right: Seq<Area>|
            #[trigger] review_cut_from(screen, file_count, rows, outer, left, right) && r
                == review_wiring(rows, left, right),
        review_fits(r, screen),
{
    let plan = review_plan(file_count);
    let rows = split_area(screen, &plan.0);
    let outer = split_area(rows[0], &plan.1);
    let left = split_area(outer[0], &plan.2);
    let right = split_area(outer[1], &plan.3);
    assert(within(rows@[0], screen) && within(rows@[1], screen));
    assert(within(outer@[0], rows@[0]) && within(outer@[1], rows@[0]));
    assert(within(left@[0], outer@[0]) && within(left@[1], outer@[0]));
    assert(within(right@[0], outer@[1]) && within(right@[1], outer@[1]));
    assert(review_cut_from(screen, file_count, rows@, outer@, left@, right@));
    assemble_review_layout(&rows, &left, &right)
}

/// The cuts of the triage screen.
pub fn triage_plan() -> (r: (Cut, Cut, Cut))
    ensures
        (r.0@, r.1@, r.2@) == triage_plan_spec(),
{
    (
        cut2(Axis::Horizontal, Packing::Start, Size::Percentage(55), Size::Percentage(45)),
        cut2(Axis::Vertical, Packing::Start, Size::Min(0), Size::Length(3)),
        cut2(Axis::Vertical, Packing::Start, Size::Percentage(50), Size::Percentage(50)),
    )
}

/// The triage screen's panes, from the pieces its cuts gave back:
/// `columns` (left and right), `left` (the left column over its help bar)
/// and `left_top` (the tree over the file's diff).
pub fn assemble_triage_layout(columns: &Vec<Area>, left: &Vec<Area>, left_top: &Vec<Area>) -> (r:
    TriageLayout)
    requires
        columns.len() == 2,
        left.len() == 2,
        left_top.len() == 2,
    ensures
        r == triage_wiring(columns@, left@, left_top@),
{
    TriageLayout { list: left_top[0], file_diff: left_top[1], help: left[1], show: columns[1] }
}

/// Where the panes of the triage screen go: the triage screen's cuts, done
/// in turn by the layout solver, wired to the panes.
pub fn triage_layout(screen: Area) -> (r: TriageLayout)
    ensures
        exists|columns: Seq<Area>, left: Seq<Area>, left_top: Seq<Area>|
            #[trigger] triage_cut_from(screen, columns, left, left_top) && r == triage_wiring(
                columns,
                left,
                left_top,
            ),
        triage_fits(r, screen),
{
    let plan = triage_plan();
    let columns = split_area(screen, &plan.0);
    let left = split_area(columns[0], &plan.1);
    let left_top = split_area(left[0], &plan.2);
    assert(within(columns@[0], screen) && within(columns@[1], screen));
    assert(within(left@[0], columns@[0]) && within(left@[1], columns@[0]));
    assert(within(left_top@[0], left@[0]) && within(left_top@[1], left@[0]));
    assert(triage_cut_from(screen, columns@, left@, left_top@));
    assemble_triage_layout(&columns, &left, &left_top)
}

/// The cuts of the commit form, with `line_count` lines typed.
pub fn commit_form_plan(line_count: usize) -> (r: (Cut, Cut, Cut, Cut))
    requires
        line_count % 0x10000 + 2 <= u16::MAX,
    ensures
        (r.0@, r.1@, r.2@, r.3@) == commit_form_plan_spec(line_count),
{
    let text_height = bordered(line_count, 5, 12);
    let mut sections: Vec<Size> = Vec::new();
    sections.push(Size::Length(text_height));
    sections.push(Size::Min(3));
    sections.push(Size::Length(3));
    let mut buttons: Vec<Size> = Vec::new();
    buttons.push(Size::Min(0));
    buttons.push(Size::Length(13));
    buttons.push(Size::Length(2));
    buttons.push(Size::Length(13));
    let r = (
        cut1(Axis::Vertical, Packing::Center, Size::Percentage(85)),
        cut1(Axis::Horizontal, Packing::Center, Size::Percentage(85)),
        Cut { axis: Axis::Vertical, packing: Packing::Start, sizes: sections },
        Cut { axis: Axis::Horizontal, packing: Packing::Start, sizes: buttons },
    );
    assert(r.2.sizes@ =~= commit_form_plan_spec(line_count).2.sizes);
    assert(r.3.sizes@ =~= commit_form_plan_spec(line_count).3.sizes);
    r
}

/// The commit form's parts, from the pieces its cuts gave back: the
/// `popup`, its `sections` (message, diff, button row) and the `buttons`
/// row (a gap, Validate, a gap, Cancel).
pub fn assemble_commit_form_layout(popup: Area, sections: &Vec<Area>, buttons: &Vec<Area>) -> (r:
    CommitFormLayout)
    requires
        sections.len() == 3,
        buttons.len() == 4,
    ensures
        r == commit_form_wiring(popup, sections@, buttons@),
{
    CommitFormLayout {
        popup,
        text: sections[0],
        diff: sections[1],
        validate_button: buttons[1],
        cancel_button: buttons[3],
    }
}

/// Where the parts of the commit form go, with `line_count` lines typed:
/// the commit form's cuts, done in turn by the layout solver, wired to its
/// parts. Drawing and mouse handling share it, so that they agree on where
/// the buttons are.
pub fn commit_form_layout(screen: Area, line_count: usize) -> (r: CommitFormLayout)
    requires
        line_count % 0x10000 + 2 <= u16::MAX,
    ensures
        exists|band: Seq<Area>, columns: Seq<Area>, sections: Seq<Area>, buttons: Seq<Area>|
            #[trigger] commit_form_cut_from(screen, line_count, band, columns, sections, buttons)
                && r == commit_form_wiring(columns[0], sections, buttons),
        commit_form_fits(r, screen),
{
    let plan = commit_form_plan(line_count);
    let band = split_area(screen, &plan.0);
    let columns = split_area(band[0], &plan.1);
    let popup = columns[0];
    let sections = split_area(popup, &plan.2);
    let buttons = split_area(sections[2], &plan.3);
    assert(within(band@[0], screen));
    assert(within(columns@[0], band@[0]));
    assert(within(sections@[0], popup) && within(sections@[1], popup) && within(sections@[2], popup));
    assert(within(buttons@[1], sections@[2]) && within(buttons@[3], sections@[2]));
    assert(commit_form_cut_from(screen, line_count, band@, columns@, sections@, buttons@));
    assemble_commit_form_layout(popup, &sections, &buttons)
}

/// The cuts of the help popup, with `line_count` help lines.
pub fn help_plan(line_count: usize) -> (r: (Cut, Cut))
    requires
        line_count % 0x10000 + 4 <= u16::MAX,
    ensures
        (r.0@, r.1@) == help_plan_spec(line_count),
{
    let height: u16 = (line_count % 0x10000) as u16 + 4;
    (
        cut1(Axis::Vertical, Packing::Center, Size::Length(height)),
        cut1(Axis::Horizontal, Packing::Center, Size::Percentage(60)),
    )
}

/// Where the help popup goes, with `line_count` help lines: the help
/// popup's cuts, done in turn by the layout solver; the popup is the
/// column cut from the band.
pub fn help_popup_area(screen: Area, line_count: usize) -> (r: Area)
    requires
        line_count % 0x10000 + 4 <= u16::MAX,
    ensures
        exists|band: Seq<Area>, columns: Seq<Area>|
            #[trigger] help_cut_from(screen, line_count, band, columns) && r == columns[0],
        within(r, screen),
{
    let plan = help_plan(line_count);
    let band = split_area(screen, &plan.0);
    let columns = split_area(band[0], &plan.1);
    assert(within(band@[0], screen));
    assert(within(columns@[0], band@[0]));
    assert(help_cut_from(screen, line_count, band@, columns@));
    columns[0]
}

} // verus!
