//! The rows of the Hunks pane: one header row per hunk followed by one row
//! per line of it, and the text each row shows.

use vstd::prelude::*;

use crate::diff::model::{FileDiff, HunkView, LineKind};
use crate::selection::{FileSelection, HunkDecision};
use crate::text::{decimal, push_decimal, push_str};

verus! {

#[derive(Debug, Clone, Copy, PartialEq, Eq, Structural)]
pub enum HunkRow {
    Header(usize),
    Line(usize, usize),
}

/// What toggling a row did.
#[derive(Debug, Clone, Copy, PartialEq, Eq, Structural)]
pub enum RowToggle {
    /// A header row: the whole hunk was toggled.
    Hunk,
    /// A changed line was toggled.
    Line,
    /// A context line, which is never selected: nothing changed.
    Skipped,
}

/// How a row is drawn.
#[derive(Debug, Clone, Copy, PartialEq, Eq, Structural)]
pub enum RowStyle {
    Header,
    Added,
    Removed,
    Context,
}

impl HunkRow {
    pub open spec fn hunk_of(self) -> usize {
        match self {
            HunkRow::Header(h) => h,
            HunkRow::Line(h, _) => h,
        }
    }

    /// The hunk the row belongs to.
    pub fn hunk_index(&self) -> (r: usize)
        ensures
            r == self.hunk_of(),
    {
        match *self {
            HunkRow::Header(h) => h,
            HunkRow::Line(h, _) => h,
        }
    }
}

/// The rows of hunk `h` with `n` lines: its header, then its lines.
pub open spec fn hunk_rows(h: int, n: int) -> Seq<HunkRow> {
    seq![HunkRow::Header(h as usize)] + Seq::new(n as nat, |l: int| HunkRow::Line(h as usize, l as usize))
}

/// The rows of a list of hunks, in order.
pub open spec fn rows_of(hunks: Seq<HunkView>) -> Seq<HunkRow>
    decreases hunks.len(),
{
    if hunks.len() == 0 {
        Seq::empty()
    } else {
        rows_of(hunks.drop_last()) + hunk_rows(hunks.len() - 1, hunks.last().lines.len() as int)
    }
}

/// Every row of `rows_of(hunks)` points at an existing hunk and line.
pub open spec fn rows_valid(rows: Seq<HunkRow>, hunks: Seq<HunkView>) -> bool {
    forall|i: int|
        0 <= i < rows.len() ==> match #[trigger] rows[i] {
            HunkRow::Header(h) => h < hunks.len(),
            HunkRow::Line(h, l) => h < hunks.len() && l < hunks[h as int].lines.len(),
        }
}

/// The glyph of a hunk decision.
pub open spec fn decision_glyph_spec(decision: HunkDecision) -> Seq<char> {
    match decision {
        HunkDecision::Undecided => "[?]"@,
        HunkDecision::Accepted => "[x]"@,
        HunkDecision::Rejected => "[ ]"@,
        HunkDecision::Partial => "[~]"@,
    }
}

pub open spec fn checkbox_spec(selected: bool) -> Seq<char> {
    if selected {
        "[x]"@
    } else {
        "[ ]"@
    }
}

/// The text of a header row: the decision glyph and the hunk's range.
pub open spec fn header_text(decision: HunkDecision, hunk: HunkView) -> Seq<char> {
    decision_glyph_spec(decision) + " @@ -"@ + decimal(hunk.old_start as nat) + ","@ + decimal(
        hunk.old_lines as nat,
    ) + " +"@ + decimal(hunk.new_start as nat) + ","@ + decimal(hunk.new_lines as nat) + " @@"@
}

/// The text of a line row: a context line is indented past the checkbox
/// column; a change shows its checkbox and its sign.
pub open spec fn line_text(kind: LineKind, selected: bool, content: Seq<char>) -> Seq<char> {
    match kind {
        LineKind::Context => "       "@ + content,
        LineKind::Added => " "@ + checkbox_spec(selected) + " + "@ + content,
        LineKind::Removed => " "@ + checkbox_spec(selected) + " - "@ + content,
    }
}

proof fn lemma_rows_valid(hunks: Seq<HunkView>)
    requires
        hunks.len() <= usize::MAX,
        forall|h: int| 0 <= h < hunks.len() ==> #[trigger] hunks[h].lines.len() <= usize::MAX,
    ensures
        rows_valid(rows_of(hunks), hunks),
    decreases hunks.len(),
{
    if hunks.len() > 0 {
        let d = hunks.drop_last();
        assert forall|h: int| 0 <= h < d.len() implies #[trigger] d[h].lines.len() <= usize::MAX by {
            assert(d[h] == hunks[h]);
        }
        lemma_rows_valid(d);
        let r = rows_of(hunks);
        let rd = rows_of(d);
        let n = hunks.len() - 1;
        assert forall|i: int| 0 <= i < r.len() implies match #[trigger] r[i] {
            HunkRow::Header(h) => h < hunks.len(),
            HunkRow::Line(h, l) => h < hunks.len() && l < hunks[h as int].lines.len(),
        } by {
            if i < rd.len() {
                assert(r[i] == rd[i]);
                match rd[i] {
                    HunkRow::Header(h) => {},
                    HunkRow::Line(h, l) => {
                        assert(d[h as int] == hunks[h as int]);
                    },
                }
            } else {
                let k = i - rd.len();
                assert(r[i] == hunk_rows(n, hunks.last().lines.len() as int)[k]);
                assert((n as usize) as int == n);
                if k > 0 {
                    assert(((k - 1) as usize) as int == k - 1);
                }
            }
        }
    }
}

/// The rows of the Hunks pane for `diff`.
pub fn build_rows(diff: &FileDiff) -> (r: Vec<HunkRow>)
    ensures
        r@ == rows_of(diff@.hunks),
        rows_valid(r@, diff@.hunks),
{
    let ghost hs = diff@.hunks;
    let mut rows: Vec<HunkRow> = Vec::new();
    let mut h: usize = 0;
    assert(hs.take(0) =~= Seq::<HunkView>::empty());
    while h < diff.hunks.len()
        invariant
            0 <= h <= diff.hunks.len(),
            hs == diff@.hunks,
            rows@ == rows_of(hs.take(h as int)),
        decreases diff.hunks.len() - h,
    {
        let ghost before = rows@;
        rows.push(HunkRow::Header(h));
        let n = diff.hunks[h].lines.len();
        let mut l: usize = 0;
        while l < n
            invariant
                0 <= l <= n,
                h < usize::MAX,
                rows@ == before + hunk_rows(h as int, l as int),
            decreases n - l,
        {
            rows.push(HunkRow::Line(h, l));
            assert(hunk_rows(h as int, l + 1) =~= hunk_rows(h as int, l as int).push(
                HunkRow::Line(h, l),
            ));
            l += 1;
        }
        assert(hs.take(h + 1).drop_last() =~= hs.take(h as int));
        assert(hs.take(h + 1).last() == hs[h as int]);
        assert(hs[h as int].lines.len() == n);
        h += 1;
    }
    assert(hs.take(h as int) =~= hs);
    proof {
        assert forall|k: int| 0 <= k < hs.len() implies #[trigger] hs[k].lines.len() <= usize::MAX by {
            assert(hs[k] == diff.hunks@[k]@);
            assert(hs[k].lines.len() == diff.hunks@[k].lines.len());
        }
        lemma_rows_valid(hs);
    }
    rows
}

/// Position of the header row of hunk `hunk_index` in `rows`, if any.
pub fn header_row_position(rows: &Vec<HunkRow>, hunk_index: usize) -> (r: Option<usize>)
    ensures
        match r {
            Some(i) => i < rows.len() && rows@[i as int] == HunkRow::Header(hunk_index)
                && forall|k: int| 0 <= k < i ==> rows@[k] != HunkRow::Header(hunk_index),
            None => forall|k: int| 0 <= k < rows.len() ==> rows@[k] != HunkRow::Header(hunk_index),
        },
{
    let mut i: usize = 0;
    while i < rows.len()
        invariant
            0 <= i <= rows.len(),
            forall|k: int| 0 <= k < i ==> rows@[k] != HunkRow::Header(hunk_index),
        decreases rows.len() - i,
    {
        if rows[i] == HunkRow::Header(hunk_index) {
            return Some(i);
        }
        i += 1;
    }
    None
}

/// The glyph of a hunk decision.
pub fn decision_glyph(decision: HunkDecision) -> (r: &'static str)
    ensures
        r@ == decision_glyph_spec(decision),
{
    match decision {
        HunkDecision::Undecided => "[?]",
        HunkDecision::Accepted => "[x]",
        HunkDecision::Rejected => "[ ]",
        HunkDecision::Partial => "[~]",
    }
}

pub fn checkbox(selected: bool) -> (r: &'static str)
    ensures
        r@ == checkbox_spec(selected),
{
    if selected {
        "[x]"
    } else {
        "[ ]"
    }
}

/// The text and style of `row`.
pub fn row_text(row: &HunkRow, diff: &FileDiff, selection: &FileSelection) -> (r: (String, RowStyle))
    requires
        match *row {
            HunkRow::Header(h) => h < diff@.hunks.len(),
            HunkRow::Line(h, l) => h < diff@.hunks.len() && l < diff@.hunks[h as int].lines.len(),
        },
    ensures
        match *row {
            HunkRow::Header(h) => r.0@ == header_text(
                selection@.decision_of(h as int),
                diff@.hunks[h as int],
            ) && r.1 == RowStyle::Header,
            HunkRow::Line(h, l) => {
                let line = diff@.hunks[h as int].lines[l as int];
                &&& r.0@ == line_text(
                    line.kind,
                    selection@.line_is_selected(h as int, l as int),
                    line.content,
                )
                &&& r.1 == match line.kind {
                    LineKind::Added => RowStyle::Added,
                    LineKind::Removed => RowStyle::Removed,
                    LineKind::Context => RowStyle::Context,
                }
            },
        },
{
    match *row {
        HunkRow::Header(h) => {
            let hunk = &diff.hunks[h];
            let mut s = String::new();
            push_str(&mut s, decision_glyph(selection.decision_of(h)));
            push_str(&mut s, " @@ -");
            push_decimal(&mut s, hunk.old_start as u64);
            push_str(&mut s, ",");
            push_decimal(&mut s, hunk.old_lines as u64);
            push_str(&mut s, " +");
            push_decimal(&mut s, hunk.new_start as u64);
            push_str(&mut s, ",");
            push_decimal(&mut s, hunk.new_lines as u64);
            push_str(&mut s, " @@");
            assert(s@ =~= header_text(selection@.decision_of(h as int), diff@.hunks[h as int]));
            (s, RowStyle::Header)
        },
        HunkRow::Line(h, l) => {
            let line = &diff.hunks[h].lines[l];
            let selected = selection.line_is_selected(h, l);
            let mut s = String::new();
            let style = match line.kind {
                LineKind::Context => {
                    push_str(&mut s, "       ");
                    RowStyle::Context
                },
                LineKind::Added => {
                    push_str(&mut s, " ");
                    push_str(&mut s, checkbox(selected));
                    push_str(&mut s, " + ");
                    RowStyle::Added
                },
                LineKind::Removed => {
                    push_str(&mut s, " ");
                    push_str(&mut s, checkbox(selected));
                    push_str(&mut s, " - ");
                    RowStyle::Removed
                },
            };
            push_str(&mut s, line.content.as_str());
            assert(s@ =~= line_text(line@.kind, selected, line@.content));
            (s, style)
        },
    }
}

/// Toggles the hunk or line of `row` in `selection`: a header toggles its
/// hunk, a changed line toggles itself, a context line is left alone.
pub fn toggle_row(selection: &mut FileSelection, diff: &FileDiff, row: HunkRow) -> (r: RowToggle)
    requires
        match row {
            HunkRow::Header(_) => true,
            HunkRow::Line(h, l) => h < diff@.hunks.len() && l < diff@.hunks[h as int].lines.len(),
        },
    ensures
        match row {
            HunkRow::Header(h) => r == RowToggle::Hunk && final(selection)@ == old(
                selection,
            )@.toggled_hunk(h as int),
            HunkRow::Line(h, l) => if diff@.hunks[h as int].lines[l as int].kind == LineKind::Context {
                r == RowToggle::Skipped && final(selection)@ == old(selection)@
            } else {
                r == RowToggle::Line && final(selection)@ == old(selection)@.toggle_line(
                    h as int,
                    l as int,
                )
            },
        },
{
    match row {
        HunkRow::Header(h) => {
            selection.toggle_hunk(h);
            RowToggle::Hunk
        },
        HunkRow::Line(h, l) => {
            if diff.hunks[h].lines[l].kind == LineKind::Context {
                RowToggle::Skipped
            } else {
                selection.toggle_line(h, l);
                RowToggle::Line
            }
        },
    }
}

} // verus!
