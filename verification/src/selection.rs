//! Which hunks and lines of a file the user chose to stage.

use vstd::prelude::*;

use crate::diff::model::{FileDiff, LineKind};
use crate::text::{chars_of, string_of};

verus! {

/// Mirrors `git add -p`'s per-hunk decision. Purely informational for the
/// UI (checkbox glyph, `J`/`K` navigation) — staging truth always comes from
/// `line_selected`; `Undecided` and `Rejected` are equivalent there (both
/// mean "nothing from this hunk is staged").
#[derive(Debug, Clone, Copy, PartialEq, Eq, Structural)]
pub enum HunkDecision {
    Undecided,
    Accepted,
    Rejected,
    Partial,
}

#[derive(Debug, Clone)]
pub struct HunkSelection {
    pub hunk_index: usize,
    pub decision: HunkDecision,
    /// Aligned with `Hunk::lines`; only meaningful for Added/Removed lines.
    pub line_selected: Vec<bool>,
    /// Aligned with `Hunk::lines`; `true` for Context lines, which are
    /// never toggled and must be left out when `toggle_line` re-derives the
    /// hunk's `decision`.
    pub is_context: Vec<bool>,
}

#[derive(Debug, Clone)]
pub struct FileSelection {
    pub file: String,
    pub hunks: Vec<HunkSelection>,
}

/// Mathematical model of a `HunkSelection`.
pub struct HunkSelectionView {
    pub hunk_index: usize,
    pub decision: HunkDecision,
    pub line_selected: Seq<bool>,
    pub is_context: Seq<bool>,
}

/// Mathematical model of a `FileSelection`.
pub struct FileSelectionView {
    pub file: Seq<char>,
    pub hunks: Seq<HunkSelectionView>,
}

impl View for HunkSelection {
    type V = HunkSelectionView;

    open spec fn view(&self) -> HunkSelectionView {
        HunkSelectionView {
            hunk_index: self.hunk_index,
            decision: self.decision,
            line_selected: self.line_selected@,
            is_context: self.is_context@,
        }
    }
}



impl View for FileSelection {
    type V = FileSelectionView;

    open spec fn view(&self) -> FileSelectionView {
        FileSelectionView { file: self.file@, hunks: self.hunks@.map_values(|h: HunkSelection| h@) }
    }
}

// ---------------------------------------------------------------------
// Specification
// ---------------------------------------------------------------------

/// Some non-context line among the first `n` is in the given state.
pub open spec fn some_line(sel: Seq<bool>, ctx: Seq<bool>, n: int, selected: bool) -> bool {
    exists|i: int| 0 <= i < n && !ctx[i] && #[trigger] sel[i] == selected
}

/// The decision a hunk's line selection amounts to, the lines being paired
/// with their context flags as far as both go: every change line selected
/// is `Accepted`, none is `Undecided` (not an explicit "no"), anything else
/// is `Partial`.
pub open spec fn derived_decision(sel: Seq<bool>, ctx: Seq<bool>) -> HunkDecision {
    let n = if sel.len() <= ctx.len() {
        sel.len() as int
    } else {
        ctx.len() as int
    };
    let any_selected = some_line(sel, ctx, n, true);
    let any_unselected = some_line(sel, ctx, n, false);
    if any_selected && !any_unselected {
        HunkDecision::Accepted
    } else if !any_selected {
        HunkDecision::Undecided
    } else {
        HunkDecision::Partial
    }
}

impl HunkSelectionView {
    /// Every line selected (or none), with the given decision.
    pub open spec fn decided(self, decision: HunkDecision, selected: bool) -> HunkSelectionView {
        HunkSelectionView {
            decision,
            line_selected: Seq::new(self.line_selected.len(), |i: int| selected),
            ..self
        }
    }

    /// Line `l` flipped and the decision derived again.
    pub open spec fn toggled_line(self, l: int) -> HunkSelectionView {
        let sel = self.line_selected.update(l, !self.line_selected[l]);
        HunkSelectionView {
            line_selected: sel,
            decision: derived_decision(sel, self.is_context),
            ..self
        }
    }
}

impl FileSelectionView {
    pub open spec fn accept(self, h: int) -> FileSelectionView {
        if 0 <= h < self.hunks.len() {
            FileSelectionView {
                hunks: self.hunks.update(h, self.hunks[h].decided(HunkDecision::Accepted, true)),
                ..self
            }
        } else {
            self
        }
    }

    pub open spec fn reject(self, h: int) -> FileSelectionView {
        if 0 <= h < self.hunks.len() {
            FileSelectionView {
                hunks: self.hunks.update(h, self.hunks[h].decided(HunkDecision::Rejected, false)),
                ..self
            }
        } else {
            self
        }
    }

    /// Every hunk from `from` on decided as `decision`, all its lines set to
    /// `selected`; the hunks before it unchanged.
    pub open spec fn decided_from(self, from: int, decision: HunkDecision, selected: bool) -> FileSelectionView {
        FileSelectionView {
            hunks: Seq::new(
                self.hunks.len(),
                |h: int|
                    if h >= from {
                        self.hunks[h].decided(decision, selected)
                    } else {
                        self.hunks[h]
                    },
            ),
            ..self
        }
    }

    /// A hunk header toggled: rejected when it was accepted, accepted
    /// otherwise.
    pub open spec fn toggled_hunk(self, h: int) -> FileSelectionView {
        if 0 <= h < self.hunks.len() && self.hunks[h].decision == HunkDecision::Accepted {
            self.reject(h)
        } else {
            self.accept(h)
        }
    }

    pub open spec fn toggle_line(self, h: int, l: int) -> FileSelectionView {
        if 0 <= h < self.hunks.len() && 0 <= l < self.hunks[h].line_selected.len() {
            FileSelectionView { hunks: self.hunks.update(h, self.hunks[h].toggled_line(l)), ..self }
        } else {
            self
        }
    }

    /// Whether line `l` of hunk `h` is selected (`false` out of range).
    pub open spec fn line_is_selected(self, h: int, l: int) -> bool {
        0 <= h < self.hunks.len() && 0 <= l < self.hunks[h].line_selected.len()
            && self.hunks[h].line_selected[l]
    }

    /// The decision on hunk `h` (`Undecided` out of range).
    pub open spec fn decision_of(self, h: int) -> HunkDecision {
        if 0 <= h < self.hunks.len() {
            self.hunks[h].decision
        } else {
            HunkDecision::Undecided
        }
    }

    pub open spec fn is_undecided(self, h: int) -> bool {
        self.hunks[h].decision == HunkDecision::Undecided
    }

    /// Every hunk has been decided (accepted, rejected or partly chosen).
    pub open spec fn all_decided(self) -> bool {
        forall|h: int| 0 <= h < self.hunks.len() ==> !self.is_undecided(h)
    }

    /// Number of decided hunks among the first `n`.
    pub open spec fn decided_count(self, n: int) -> nat
        decreases n,
    {
        if n <= 0 {
            0
        } else {
            self.decided_count(n - 1) + if self.is_undecided(n - 1) {
                0nat
            } else {
                1nat
            }
        }
    }

    /// The hunk `offset` steps after `from`, going round.
    pub open spec fn ahead(self, from: int, offset: int) -> int {
        (from + offset) % (self.hunks.len() as int)
    }

    /// The hunk `offset` steps before `from`, going round.
    pub open spec fn behind(self, from: int, offset: int) -> int {
        (from + self.hunks.len() - offset) % (self.hunks.len() as int)
    }

    /// The first undecided hunk strictly after `from`, going round, if any.
    pub open spec fn next_undecided(self, from: int) -> Option<int> {
        let n = self.hunks.len() as int;
        if n > 0 && exists|o: int| 1 <= o <= n && self.is_undecided(#[trigger] self.ahead(from, o)) {
            let o = choose|o: int|
                1 <= o <= n && self.is_undecided(#[trigger] self.ahead(from, o)) && forall|p: int|
                    1 <= p < o ==> !self.is_undecided(#[trigger] self.ahead(from, p));
            Some(self.ahead(from, o))
        } else {
            None
        }
    }

    /// The first undecided hunk strictly before `from`, going round, if any.
    pub open spec fn previous_undecided(self, from: int) -> Option<int> {
        let n = self.hunks.len() as int;
        if n > 0 && exists|o: int| 1 <= o <= n && self.is_undecided(#[trigger] self.behind(from, o)) {
            let o = choose|o: int|
                1 <= o <= n && self.is_undecided(#[trigger] self.behind(from, o)) && forall|p: int|
                    1 <= p < o ==> !self.is_undecided(#[trigger] self.behind(from, p));
            Some(self.behind(from, o))
        } else {
            None
        }
    }

    /// How many steps the search for the next undecided hunk after `from`
    /// takes: up to the first hit, or all of them.
    pub open spec fn next_search_steps(self, from: int) -> int {
        let n = self.hunks.len() as int;
        if exists|o: int| 1 <= o <= n && self.is_undecided(#[trigger] self.ahead(from, o)) {
            choose|o: int|
                1 <= o <= n && self.is_undecided(#[trigger] self.ahead(from, o)) && forall|p: int|
                    1 <= p < o ==> !self.is_undecided(#[trigger] self.ahead(from, p))
        } else {
            n
        }
    }
}

/// The selection a file starts with: every hunk undecided, nothing
/// selected.
pub open spec fn all_undecided_spec(file: Seq<char>, diff_hunks: Seq<crate::diff::model::HunkView>) -> FileSelectionView {
    FileSelectionView {
        file,
        hunks: Seq::new(
            diff_hunks.len(),
            |h: int|
                HunkSelectionView {
                    hunk_index: h as usize,
                    decision: HunkDecision::Undecided,
                    line_selected: Seq::new(diff_hunks[h].lines.len(), |i: int| false),
                    is_context: Seq::new(
                        diff_hunks[h].lines.len(),
                        |i: int| diff_hunks[h].lines[i].kind == LineKind::Context,
                    ),
                },
        ),
    }
}

proof fn lemma_least_ahead(s: FileSelectionView, from: int, k: int, w: int)
    requires
        1 <= k <= w <= s.hunks.len(),
        s.is_undecided(s.ahead(from, w)),
        forall|p: int| 1 <= p < k ==> !s.is_undecided(#[trigger] s.ahead(from, p)),
    ensures
        exists|o: int|
            1 <= o <= s.hunks.len() && s.is_undecided(#[trigger] s.ahead(from, o)) && forall|p: int|
                1 <= p < o ==> !s.is_undecided(#[trigger] s.ahead(from, p)),
    decreases w - k,
{
    if !s.is_undecided(s.ahead(from, k)) {
        lemma_least_ahead(s, from, k + 1, w);
    }
}

proof fn lemma_least_behind(s: FileSelectionView, from: int, k: int, w: int)
    requires
        1 <= k <= w <= s.hunks.len(),
        s.is_undecided(s.behind(from, w)),
        forall|p: int| 1 <= p < k ==> !s.is_undecided(#[trigger] s.behind(from, p)),
    ensures
        exists|o: int|
            1 <= o <= s.hunks.len() && s.is_undecided(#[trigger] s.behind(from, o)) && forall|p: int|
                1 <= p < o ==> !s.is_undecided(#[trigger] s.behind(from, p)),
    decreases w - k,
{
    if !s.is_undecided(s.behind(from, k)) {
        lemma_least_behind(s, from, k + 1, w);
    }
}

/// When some step of the search finds an undecided hunk, a first such
/// step exists.
pub proof fn lemma_first_witness(s: FileSelectionView, from: int)
    ensures
        (exists|o: int| 1 <= o <= s.hunks.len() && s.is_undecided(#[trigger] s.ahead(from, o)))
            ==> exists|o: int|
            1 <= o <= s.hunks.len() && s.is_undecided(#[trigger] s.ahead(from, o)) && forall|p: int|
                1 <= p < o ==> !s.is_undecided(#[trigger] s.ahead(from, p)),
        (exists|o: int| 1 <= o <= s.hunks.len() && s.is_undecided(#[trigger] s.behind(from, o)))
            ==> exists|o: int|
            1 <= o <= s.hunks.len() && s.is_undecided(#[trigger] s.behind(from, o)) && forall|p: int|
                1 <= p < o ==> !s.is_undecided(#[trigger] s.behind(from, p)),
{
    if exists|o: int| 1 <= o <= s.hunks.len() && s.is_undecided(#[trigger] s.ahead(from, o)) {
        let w = choose|o: int| 1 <= o <= s.hunks.len() && s.is_undecided(#[trigger] s.ahead(from, o));
        lemma_least_ahead(s, from, 1, w);
    }
    if exists|o: int| 1 <= o <= s.hunks.len() && s.is_undecided(#[trigger] s.behind(from, o)) {
        let w = choose|o: int| 1 <= o <= s.hunks.len() && s.is_undecided(#[trigger] s.behind(from, o));
        lemma_least_behind(s, from, 1, w);
    }
}

/// A search that has not yet found an undecided hunk within `o - 1`
/// steps takes at least `o` steps.
proof fn lemma_search_steps_at_least(s: FileSelectionView, from: int, o: int)
    requires
        1 <= o <= s.hunks.len(),
        forall|p: int| 1 <= p < o ==> !s.is_undecided(#[trigger] s.ahead(from, p)),
    ensures
        s.next_search_steps(from) >= o,
{
    lemma_first_witness(s, from);
}

// ---------------------------------------------------------------------
// Laws
// ---------------------------------------------------------------------

/// Toggling the same line twice gives the line selection back unchanged;
/// the hunk's decision is then the one its lines amount to.
pub proof fn law_toggle_line_twice(s: FileSelectionView, h: int, l: int)
    requires
        0 <= h < s.hunks.len(),
        0 <= l < s.hunks[h].line_selected.len(),
    ensures
        s.toggle_line(h, l).toggle_line(h, l) == (FileSelectionView {
            hunks: s.hunks.update(
                h,
                HunkSelectionView {
                    decision: derived_decision(s.hunks[h].line_selected, s.hunks[h].is_context),
                    ..s.hunks[h]
                },
            ),
            ..s
        }),
{
    let once = s.toggle_line(h, l);
    let twice = once.toggle_line(h, l);
    assert(once.hunks[h].line_selected.len() == s.hunks[h].line_selected.len());
    assert(twice.hunks[h].line_selected =~= s.hunks[h].line_selected);
    assert(twice.hunks =~= s.hunks.update(
        h,
        HunkSelectionView {
            decision: derived_decision(s.hunks[h].line_selected, s.hunks[h].is_context),
            ..s.hunks[h]
        },
    ));
}

/// Rejecting a hunk undoes accepting it: accepting then rejecting is the
/// same as rejecting.
pub proof fn law_reject_after_accept(s: FileSelectionView, h: int)
    ensures
        s.accept(h).reject(h) == s.reject(h),
{
    if 0 <= h < s.hunks.len() {
        assert(s.accept(h).reject(h).hunks =~= s.reject(h).hunks);
    }
}

/// The search for the next (or previous) undecided hunk finds nothing
/// exactly when every hunk is decided.
pub proof fn law_no_undecided_iff_all_decided(s: FileSelectionView, from: int)
    requires
        0 <= from,
    ensures
        s.next_undecided(from) is None <==> s.all_decided(),
        s.previous_undecided(from) is None <==> s.all_decided(),
{
    let n = s.hunks.len() as int;
    lemma_first_witness(s, from);
    if !s.all_decided() {
        let h = choose|h: int| 0 <= h < n && s.is_undecided(h);
        // The step that lands on `h` going forward, and going backward.
        let fo = if (from % n) < h {
            h - from % n
        } else {
            h + n - from % n
        };
        assert(1 <= fo <= n);
        assert(s.ahead(from, fo) == h) by {
            assert((from + fo) % n == h) by (nonlinear_arith)
                requires
                    0 <= h < n,
                    0 <= from,
                    fo == (if (from % n) < h {
                        h - from % n
                    } else {
                        h + n - from % n
                    }),
            ;
        }
        let bo = if h < (from % n) {
            from % n - h
        } else {
            from % n + n - h
        };
        assert(1 <= bo <= n);
        assert(s.behind(from, bo) == h) by {
            assert((from + n - bo) % n == h) by (nonlinear_arith)
                requires
                    0 <= h < n,
                    0 <= from,
                    bo == (if h < (from % n) {
                        from % n - h
                    } else {
                        from % n + n - h
                    }),
            ;
        }
    } else {
        if n > 0 {
            assert forall|o: int| 1 <= o <= n implies !s.is_undecided(#[trigger] s.ahead(from, o)) by {
                assert(0 <= (from + o) % n < n) by (nonlinear_arith)
                    requires
                        n > 0,
                ;
            }
            assert forall|o: int| 1 <= o <= n implies !s.is_undecided(#[trigger] s.behind(from, o)) by {
                assert(0 <= (from + n - o) % n < n) by (nonlinear_arith)
                    requires
                        n > 0,
                ;
            }
        }
    }
}

/// A hunk the search returns is undecided.
pub proof fn law_found_hunk_is_undecided(s: FileSelectionView, from: int)
    ensures
        s.next_undecided(from) matches Some(i) ==> 0 <= i < s.hunks.len() && s.is_undecided(i),
        s.previous_undecided(from) matches Some(i) ==> 0 <= i < s.hunks.len() && s.is_undecided(i),
{
    lemma_first_witness(s, from);
    let n = s.hunks.len() as int;
    if n > 0 {
        assert forall|o: int| 0 <= #[trigger] s.ahead(from, o) < n by {
            assert(0 <= (from + o) % n < n) by (nonlinear_arith)
                requires
                    n > 0,
            ;
        }
        assert forall|o: int| 0 <= #[trigger] s.behind(from, o) < n by {
            assert(0 <= (from + n - o) % n < n) by (nonlinear_arith)
                requires
                    n > 0,
            ;
        }
    }
}

/// Progress reads complete (every hunk counted as decided) exactly when
/// every hunk is decided.
pub proof fn law_progress_complete_iff_all_decided(s: FileSelectionView)
    ensures
        s.decided_count(s.hunks.len() as int) == s.hunks.len() <==> s.all_decided(),
{
    lemma_decided_count(s, s.hunks.len() as int);
}

proof fn lemma_decided_count(s: FileSelectionView, n: int)
    requires
        0 <= n <= s.hunks.len(),
    ensures
        s.decided_count(n) <= n,
        s.decided_count(n) == n <==> forall|h: int| 0 <= h < n ==> !s.is_undecided(h),
    decreases n,
{
    if n > 0 {
        lemma_decided_count(s, n - 1);
    }
}

/// One of the operations that change a file's selection, with the
/// arguments of the method that performs it.
pub enum SelectionOp {
    Accept(usize),
    Reject(usize),
    AcceptRest(usize),
    RejectRest(usize),
    ToggleHunk(usize),
    ToggleLine(usize, usize),
}

/// The selection after one operation, as the method performing it states.
pub open spec fn apply_op(s: FileSelectionView, op: SelectionOp) -> FileSelectionView {
    match op {
        SelectionOp::Accept(h) => s.accept(h as int),
        SelectionOp::Reject(h) => s.reject(h as int),
        SelectionOp::AcceptRest(h) => s.decided_from(h as int, HunkDecision::Accepted, true),
        SelectionOp::RejectRest(h) => s.decided_from(h as int, HunkDecision::Rejected, false),
        SelectionOp::ToggleHunk(h) => s.toggled_hunk(h as int),
        SelectionOp::ToggleLine(h, l) => s.toggle_line(h as int, l as int),
    }
}

/// The selection after the operations, in order.
pub open spec fn apply_ops(s: FileSelectionView, ops: Seq<SelectionOp>) -> FileSelectionView
    decreases ops.len(),
{
    if ops.len() == 0 {
        s
    } else {
        apply_ops(apply_op(s, ops[0]), ops.drop_first())
    }
}

/// A hunk's decision agrees with which of its change lines are selected:
/// all of them when accepted, none when undecided or rejected, some but
/// not all when partly chosen.
pub open spec fn decision_agrees(hs: HunkSelectionView) -> bool {
    let n = hs.line_selected.len() as int;
    let any_selected = some_line(hs.line_selected, hs.is_context, n, true);
    let any_unselected = some_line(hs.line_selected, hs.is_context, n, false);
    match hs.decision {
        HunkDecision::Accepted => !any_unselected,
        HunkDecision::Undecided => !any_selected,
        HunkDecision::Rejected => !any_selected,
        HunkDecision::Partial => any_selected && any_unselected,
    }
}

/// A selection that fits the file's hunks: one entry per hunk, in order,
/// one flag per line, the context flags those of the lines, and every
/// decision agreeing with its selected lines.
pub open spec fn consistent_with(s: FileSelectionView, diff_hunks: Seq<crate::diff::model::HunkView>) -> bool {
    &&& s.hunks.len() == diff_hunks.len()
    &&& forall|h: int|
        0 <= h < s.hunks.len() ==> {
            let hs = #[trigger] s.hunks[h];
            &&& hs.hunk_index == h
            &&& hs.line_selected.len() == diff_hunks[h].lines.len()
            &&& hs.is_context.len() == diff_hunks[h].lines.len()
            &&& (forall|i: int|
                0 <= i < hs.is_context.len() ==> #[trigger] hs.is_context[i] == (
                diff_hunks[h].lines[i].kind == LineKind::Context))
            &&& decision_agrees(hs)
        }
}

proof fn lemma_op_keeps_consistency(
    s: FileSelectionView,
    diff_hunks: Seq<crate::diff::model::HunkView>,
    op: SelectionOp,
)
    requires
        consistent_with(s, diff_hunks),
    ensures
        consistent_with(apply_op(s, op), diff_hunks),
{
    let t = apply_op(s, op);
    assert forall|h: int| 0 <= h < t.hunks.len() implies {
        let hs = #[trigger] t.hunks[h];
        &&& hs.hunk_index == h
        &&& hs.line_selected.len() == diff_hunks[h].lines.len()
        &&& hs.is_context.len() == diff_hunks[h].lines.len()
        &&& (forall|i: int|
            0 <= i < hs.is_context.len() ==> #[trigger] hs.is_context[i] == (
            diff_hunks[h].lines[i].kind == LineKind::Context))
        &&& decision_agrees(hs)
    } by {
        let old_hs = s.hunks[h];
        let hs = t.hunks[h];
        let n = hs.line_selected.len() as int;
        if hs.line_selected == Seq::new(old_hs.line_selected.len(), |i: int| true) {
            assert(!some_line(hs.line_selected, hs.is_context, n, false));
        }
        if hs.line_selected == Seq::new(old_hs.line_selected.len(), |i: int| false) {
            assert(!some_line(hs.line_selected, hs.is_context, n, true));
        }
    }
}

/// Whatever operations follow on a file's fresh selection, the selection
/// keeps fitting the file's hunks, and every hunk's decision agrees with
/// which of its change lines are selected. (A diff with more hunks than
/// an index can count cannot be built, so such a diff is left out.)
pub proof fn law_selection_stays_consistent(
    file: Seq<char>,
    diff_hunks: Seq<crate::diff::model::HunkView>,
    ops: Seq<SelectionOp>,
)
    requires
        diff_hunks.len() <= usize::MAX,
    ensures
        consistent_with(apply_ops(all_undecided_spec(file, diff_hunks), ops), diff_hunks),
{
    let s0 = all_undecided_spec(file, diff_hunks);
    assert forall|h: int| 0 <= h < s0.hunks.len() implies {
        let hs = #[trigger] s0.hunks[h];
        &&& hs.hunk_index == h
        &&& hs.line_selected.len() == diff_hunks[h].lines.len()
        &&& hs.is_context.len() == diff_hunks[h].lines.len()
        &&& (forall|i: int|
            0 <= i < hs.is_context.len() ==> #[trigger] hs.is_context[i] == (
            diff_hunks[h].lines[i].kind == LineKind::Context))
        &&& decision_agrees(hs)
    } by {
        let hs = s0.hunks[h];
        assert(!some_line(hs.line_selected, hs.is_context, hs.line_selected.len() as int, true));
    }
    lemma_ops_keep_consistency(s0, diff_hunks, ops);
}

proof fn lemma_ops_keep_consistency(
    s: FileSelectionView,
    diff_hunks: Seq<crate::diff::model::HunkView>,
    ops: Seq<SelectionOp>,
)
    requires
        consistent_with(s, diff_hunks),
    ensures
        consistent_with(apply_ops(s, ops), diff_hunks),
    decreases ops.len(),
{
    if ops.len() > 0 {
        lemma_op_keeps_consistency(s, diff_hunks, ops[0]);
        lemma_ops_keep_consistency(apply_op(s, ops[0]), diff_hunks, ops.drop_first());
    }
}

// ---------------------------------------------------------------------
// Implementation
// ---------------------------------------------------------------------

fn all_false(n: usize) -> (r: Vec<bool>)
    ensures
        r@ == Seq::new(n as nat, |i: int| false),
{
    let mut r: Vec<bool> = Vec::new();
    while r.len() < n
        invariant
            r.len() <= n,
            forall|i: int| 0 <= i < r.len() ==> r@[i] == false,
        decreases n - r.len(),
    {
        r.push(false);
    }
    assert(r@ =~= Seq::new(n as nat, |i: int| false));
    r
}

/// Sets every entry of `v` to `value`.
fn fill(v: &mut Vec<bool>, value: bool)
    ensures
        final(v)@ == Seq::new(old(v)@.len(), |i: int| value),
{
    let mut i: usize = 0;
    while i < v.len()
        invariant
            0 <= i <= v.len(),
            v@.len() == old(v)@.len(),
            forall|k: int| 0 <= k < i ==> v@[k] == value,
        decreases v.len() - i,
    {
        v.set(i, value);
        i += 1;
    }
    assert(v@ =~= Seq::new(old(v)@.len(), |i: int| value));
}

impl FileSelection {
    /// Builds a selection with every hunk undecided, the default state when
    /// a file is opened for the first time — nothing is staged until the
    /// user explicitly accepts or rejects each hunk (git add -p-style).
    pub fn all_undecided(file: &str, diff: &FileDiff) -> (r: FileSelection)
        ensures
            r@ == all_undecided_spec(file@, diff@.hunks),
    {
        let ghost dh = diff@.hunks;
        let mut hunks: Vec<HunkSelection> = Vec::new();
        let mut h: usize = 0;
        while h < diff.hunks.len()
            invariant
                0 <= h <= diff.hunks.len(),
                dh == diff@.hunks,
                hunks@.len() == h,
                forall|k: int|
                    0 <= k < h ==> #[trigger] hunks@[k]@ == all_undecided_spec(file@, dh).hunks[k],
            decreases diff.hunks.len() - h,
        {
            let lines = &diff.hunks[h].lines;
            let mut is_context: Vec<bool> = Vec::new();
            let mut i: usize = 0;
            while i < lines.len()
                invariant
                    0 <= i <= lines.len(),
                    h < diff.hunks.len(),
                    dh == diff@.hunks,
                    lines@ == diff.hunks@[h as int].lines@,
                    dh[h as int].lines.len() == lines.len(),
                    is_context@.len() == i,
                    forall|k: int|
                        0 <= k < i ==> #[trigger] is_context@[k] == (dh[h as int].lines[k].kind
                            == LineKind::Context),
                decreases lines.len() - i,
            {
                assert(dh[h as int].lines[i as int] == lines@[i as int]@);
                is_context.push(lines[i].kind == LineKind::Context);
                i += 1;
            }
            let sel = HunkSelection {
                hunk_index: h,
                decision: HunkDecision::Undecided,
                line_selected: all_false(lines.len()),
                is_context,
            };
            assert(sel@.is_context =~= all_undecided_spec(file@, dh).hunks[h as int].is_context);
            assert(sel@.line_selected =~= all_undecided_spec(file@, dh).hunks[h as int].line_selected);
            hunks.push(sel);
            h += 1;
        }
        let cs = chars_of(file);
        let name = string_of(&cs, 0, cs.len());
        assert(cs@.subrange(0, cs@.len() as int) =~= cs@);
        let r = FileSelection { file: name, hunks };
        assert(r@.hunks =~= all_undecided_spec(file@, dh).hunks);
        r
    }

    /// Accepts hunk `hunk_index`: every one of its lines gets selected.
    pub fn accept_hunk(&mut self, hunk_index: usize)
        ensures
            final(self)@ == old(self)@.accept(hunk_index as int),
            final(self).hunks@.len() == old(self).hunks@.len(),
    {
        if hunk_index >= self.hunks.len() {
            return;
        }
        let ghost before = self@;
        let mut hunk = self.hunks.remove(hunk_index);
        hunk.decision = HunkDecision::Accepted;
        fill(&mut hunk.line_selected, true);
        self.hunks.insert(hunk_index, hunk);
        assert(self@.hunks =~= before.accept(hunk_index as int).hunks);
    }

    /// Rejects hunk `hunk_index`: none of its lines is selected, and it
    /// counts as decided.
    pub fn reject_hunk(&mut self, hunk_index: usize)
        ensures
            final(self)@ == old(self)@.reject(hunk_index as int),
            final(self).hunks@.len() == old(self).hunks@.len(),
    {
        if hunk_index >= self.hunks.len() {
            return;
        }
        let ghost before = self@;
        let mut hunk = self.hunks.remove(hunk_index);
        hunk.decision = HunkDecision::Rejected;
        fill(&mut hunk.line_selected, false);
        self.hunks.insert(hunk_index, hunk);
        assert(self@.hunks =~= before.reject(hunk_index as int).hunks);
    }

    /// Accepts hunk `from_hunk_index` and every hunk after it.
    pub fn accept_hunk_and_rest(&mut self, from_hunk_index: usize)
        ensures
            final(self)@.file == old(self)@.file,
            final(self)@.hunks.len() == old(self)@.hunks.len(),
            forall|h: int|
                0 <= h < old(self)@.hunks.len() ==> #[trigger] final(self)@.hunks[h] == if h
                    >= from_hunk_index {
                    old(self)@.hunks[h].decided(HunkDecision::Accepted, true)
                } else {
                    old(self)@.hunks[h]
                },
            final(self)@ == old(self)@.decided_from(from_hunk_index as int, HunkDecision::Accepted, true),
    {
        let ghost start = self@;
        let mut idx = from_hunk_index;
        while idx < self.hunks.len()
            invariant
                from_hunk_index <= idx || idx >= self.hunks.len(),
                self@.file == start.file,
                self@.hunks.len() == start.hunks.len(),
                self.hunks@.len() == start.hunks.len(),
                forall|h: int|
                    0 <= h < start.hunks.len() ==> #[trigger] self@.hunks[h] == if from_hunk_index
                        <= h < idx {
                        start.hunks[h].decided(HunkDecision::Accepted, true)
                    } else {
                        start.hunks[h]
                    },
            decreases self.hunks.len() - idx,
        {
            self.accept_hunk(idx);
            idx += 1;
        }
        assert(self@.hunks =~= start.decided_from(
            from_hunk_index as int,
            HunkDecision::Accepted,
            true,
        ).hunks);
    }

    /// Rejects hunk `from_hunk_index` and every hunk after it.
    pub fn reject_hunk_and_rest(&mut self, from_hunk_index: usize)
        ensures
            final(self)@.file == old(self)@.file,
            final(self)@.hunks.len() == old(self)@.hunks.len(),
            forall|h: int|
                0 <= h < old(self)@.hunks.len() ==> #[trigger] final(self)@.hunks[h] == if h
                    >= from_hunk_index {
                    old(self)@.hunks[h].decided(HunkDecision::Rejected, false)
                } else {
                    old(self)@.hunks[h]
                },
            final(self)@ == old(self)@.decided_from(from_hunk_index as int, HunkDecision::Rejected, false),
    {
        let ghost start = self@;
        let mut idx = from_hunk_index;
        while idx < self.hunks.len()
            invariant
                from_hunk_index <= idx || idx >= self.hunks.len(),
                self@.file == start.file,
                self@.hunks.len() == start.hunks.len(),
                self.hunks@.len() == start.hunks.len(),
                forall|h: int|
                    0 <= h < start.hunks.len() ==> #[trigger] self@.hunks[h] == if from_hunk_index
                        <= h < idx {
                        start.hunks[h].decided(HunkDecision::Rejected, false)
                    } else {
                        start.hunks[h]
                    },
            decreases self.hunks.len() - idx,
        {
            self.reject_hunk(idx);
            idx += 1;
        }
        assert(self@.hunks =~= start.decided_from(
            from_hunk_index as int,
            HunkDecision::Rejected,
            false,
        ).hunks);
    }

    /// Flips a single Added/Removed line (the free line-level toggle) and
    /// re-derives the hunk's `decision`.
    pub fn toggle_line(&mut self, hunk_index: usize, line_index: usize)
        ensures
            final(self)@ == old(self)@.toggle_line(hunk_index as int, line_index as int),
    {
        if hunk_index >= self.hunks.len() {
            return;
        }
        if line_index >= self.hunks[hunk_index].line_selected.len() {
            return;
        }
        let ghost before = self@;
        let mut hunk = self.hunks.remove(hunk_index);
        let flipped = !hunk.line_selected[line_index];
        hunk.line_selected.set(line_index, flipped);

        let ghost sel = hunk.line_selected@;
        let ghost ctx = hunk.is_context@;
        let n = if hunk.line_selected.len() <= hunk.is_context.len() {
            hunk.line_selected.len()
        } else {
            hunk.is_context.len()
        };
        let mut any_selected = false;
        let mut any_unselected = false;
        let mut i: usize = 0;
        while i < n
            invariant
                0 <= i <= n,
                n <= sel.len(),
                n <= ctx.len(),
                sel == hunk.line_selected@,
                ctx == hunk.is_context@,
                any_selected == some_line(sel, ctx, i as int, true),
                any_unselected == some_line(sel, ctx, i as int, false),
            decreases n - i,
        {
            if !hunk.is_context[i] {
                if hunk.line_selected[i] {
                    any_selected = true;
                } else {
                    any_unselected = true;
                }
            }
            proof {
                if !ctx[i as int] {
                    assert(sel[i as int] == sel[i as int]);
                }
            }
            i += 1;
        }
        hunk.decision = if any_selected && !any_unselected {
            HunkDecision::Accepted
        } else if !any_selected {
            HunkDecision::Undecided
        } else {
            HunkDecision::Partial
        };
        self.hunks.insert(hunk_index, hunk);
        assert(self@.hunks =~= before.toggle_line(hunk_index as int, line_index as int).hunks);
    }

    /// Toggles a whole hunk between Accepted and Rejected (Space/Enter on a
    /// hunk header row).
    pub fn toggle_hunk(&mut self, hunk_index: usize)
        ensures
            final(self)@ == old(self)@.toggled_hunk(hunk_index as int),
    {
        if hunk_index >= self.hunks.len() {
            return;
        }
        if self.hunks[hunk_index].decision == HunkDecision::Accepted {
            self.reject_hunk(hunk_index);
        } else {
            self.accept_hunk(hunk_index);
        }
    }

    /// Finds the next undecided hunk strictly after `from`, wrapping around.
    /// Returns `None` if every hunk is decided.
    pub fn next_undecided_hunk(&self, from: usize) -> (r: Option<usize>)
        requires
            from + self@.next_search_steps(from as int) <= usize::MAX,
        ensures
            match r {
                Some(i) => self@.next_undecided(from as int) == Some(i as int),
                None => self@.next_undecided(from as int) is None,
            },
    {
        let len = self.hunks.len();
        if len == 0 {
            return None;
        }
        let ghost s = self@;
        proof {
            lemma_first_witness(s, from as int);
        }
        let mut step: usize = 0;
        while step < len
            invariant
                0 <= step <= len,
                len == s.hunks.len(),
                s == self@,
                from + s.next_search_steps(from as int) <= usize::MAX,
                forall|p: int| 1 <= p <= step ==> !s.is_undecided(#[trigger] s.ahead(from as int, p)),
            decreases len - step,
        {
            let offset = step + 1;
            proof {
                lemma_search_steps_at_least(s, from as int, offset as int);
            }
            let idx = (from + offset) % len;
            if self.hunks[idx].decision == HunkDecision::Undecided {
                assert(s.is_undecided(s.ahead(from as int, offset as int)));
                return Some(idx);
            }
            step += 1;
        }
        None
    }

    /// Finds the previous undecided hunk strictly before `from`, wrapping
    /// around. Returns `None` if every hunk is decided.
    pub fn previous_undecided_hunk(&self, from: usize) -> (r: Option<usize>)
        requires
            self@.hunks.len() == 0 || from + self@.hunks.len() <= usize::MAX,
        ensures
            match r {
                Some(i) => self@.previous_undecided(from as int) == Some(i as int),
                None => self@.previous_undecided(from as int) is None,
            },
    {
        let len = self.hunks.len();
        if len == 0 {
            return None;
        }
        let ghost s = self@;
        proof {
            lemma_first_witness(s, from as int);
        }
        let mut step: usize = 0;
        while step < len
            invariant
                0 <= step <= len,
                len == s.hunks.len(),
                s == self@,
                from + len <= usize::MAX,
                forall|p: int| 1 <= p <= step ==> !s.is_undecided(#[trigger] s.behind(from as int, p)),
            decreases len - step,
        {
            let offset = step + 1;
            let idx = (from + len - offset) % len;
            if self.hunks[idx].decision == HunkDecision::Undecided {
                assert(s.is_undecided(s.behind(from as int, offset as int)));
                return Some(idx);
            }
            step += 1;
        }
        None
    }

    /// The decision on hunk `hunk_index`; `Undecided` for a hunk the
    /// selection does not cover.
    pub fn decision_of(&self, hunk_index: usize) -> (r: HunkDecision)
        ensures
            r == self@.decision_of(hunk_index as int),
    {
        if hunk_index < self.hunks.len() {
            self.hunks[hunk_index].decision
        } else {
            HunkDecision::Undecided
        }
    }

    /// Whether line `line_index` of hunk `hunk_index` is selected; `false`
    /// for a line the selection does not cover.
    pub fn line_is_selected(&self, hunk_index: usize, line_index: usize) -> (r: bool)
        ensures
            r == self@.line_is_selected(hunk_index as int, line_index as int),
    {
        if hunk_index < self.hunks.len() && line_index < self.hunks[hunk_index].line_selected.len() {
            self.hunks[hunk_index].line_selected[line_index]
        } else {
            false
        }
    }

    /// True once every hunk has been explicitly decided (Accepted, Rejected
    /// or Partial).
    pub fn all_decided(&self) -> (r: bool)
        ensures
            r == self@.all_decided(),
    {
        let mut i: usize = 0;
        while i < self.hunks.len()
            invariant
                0 <= i <= self.hunks.len(),
                forall|h: int| 0 <= h < i ==> !self@.is_undecided(h),
            decreases self.hunks.len() - i,
        {
            if self.hunks[i].decision == HunkDecision::Undecided {
                assert(self@.is_undecided(i as int));
                return false;
            }
            i += 1;
        }
        true
    }

    /// `(decided, total)` hunk counts — a hunk is "decided" once it's
    /// Accepted, Rejected or Partial (anything but Undecided).
    pub fn progress(&self) -> (r: (usize, usize))
        ensures
            r.0 == self@.decided_count(self@.hunks.len() as int),
            r.1 == self@.hunks.len(),
    {
        let mut decided: usize = 0;
        let mut i: usize = 0;
        while i < self.hunks.len()
            invariant
                0 <= i <= self.hunks.len(),
                decided == self@.decided_count(i as int),
                decided <= i,
            decreases self.hunks.len() - i,
        {
            if self.hunks[i].decision != HunkDecision::Undecided {
                decided += 1;
            }
            i += 1;
        }
        (decided, self.hunks.len())
    }
}

} // verus!
