//! Splitting a hunk into smaller ones, as `git add -p`'s `s` key does.

use vstd::prelude::*;

use super::model::{DiffLineView, Hunk, HunkView, LineKind, copy_lines, lines_view};

verus! {

/// The maximal runs of non-context lines of `lines`, as `[start, end)`
/// index pairs, in order.
pub open spec fn change_runs_spec(lines: Seq<DiffLineView>) -> Seq<(int, int)>
    decreases lines.len(),
{
    if lines.len() == 0 {
        Seq::empty()
    } else {
        let runs = change_runs_spec(lines.drop_last());
        let n = lines.len() - 1;
        if lines.last().kind == LineKind::Context {
            runs
        } else if runs.len() > 0 && runs.last().1 == n {
            runs.update(runs.len() - 1, (runs.last().0, n + 1))
        } else {
            runs.push((n, n + 1))
        }
    }
}

/// The two runs `k` and `k + 1` are far enough apart to split between them:
/// each side keeps up to `ctx` lines of context of its own.
pub open spec fn splits_after(runs: Seq<(int, int)>, k: int, ctx: int) -> bool {
    runs[k + 1].0 - runs[k].1 >= 2 * ctx
}

/// Segments closed so far, and where the open one starts, after looking at
/// the gaps following the first `k` runs.
pub open spec fn segments_scan(runs: Seq<(int, int)>, k: int, ctx: int) -> (Seq<(int, int)>, int)
    decreases k,
{
    if k <= 0 {
        (Seq::empty(), 0)
    } else {
        let (segs, start) = segments_scan(runs, k - 1, ctx);
        if splits_after(runs, k - 1, ctx) {
            (segs.push((start, runs[k - 1].1 + ctx)), runs[k].0 - ctx)
        } else {
            (segs, start)
        }
    }
}

/// The `[start, end)` line ranges of the pieces a hunk with `len` lines and
/// change runs `runs` is split into; empty when it cannot be split.
pub open spec fn split_segments(runs: Seq<(int, int)>, len: int, ctx: int) -> Seq<(int, int)> {
    if runs.len() < 2 {
        Seq::empty()
    } else {
        let (segs, start) = segments_scan(runs, runs.len() - 1, ctx);
        if segs.len() == 0 {
            Seq::empty()
        } else {
            segs.push((start, len))
        }
    }
}

/// Number of lines of `lines` that are not of kind `kind`.
pub open spec fn count_other_than(lines: Seq<DiffLineView>, kind: LineKind) -> nat
    decreases lines.len(),
{
    if lines.len() == 0 {
        0
    } else {
        count_other_than(lines.drop_last(), kind) + if lines.last().kind == kind {
            0nat
        } else {
            1nat
        }
    }
}

/// The piece of `hunk` made of `lines`; the first piece keeps the hunk's
/// start, every other one starts at the line numbers of its first line.
pub open spec fn sub_hunk_spec(hunk: HunkView, is_first: bool, lines: Seq<DiffLineView>) -> HunkView {
    HunkView {
        old_start: if is_first {
            hunk.old_start
        } else {
            lines[0].old_lineno->0
        },
        new_start: if is_first {
            hunk.new_start
        } else {
            lines[0].new_lineno->0
        },
        old_lines: count_other_than(lines, LineKind::Added) as u32,
        new_lines: count_other_than(lines, LineKind::Removed) as u32,
        lines,
    }
}

/// The result of splitting `hunk` with `ctx` lines of context.
pub open spec fn split_spec(hunk: HunkView, ctx: int) -> Option<Seq<HunkView>> {
    let segs = split_segments(change_runs_spec(hunk.lines), hunk.lines.len() as int, ctx);
    if segs.len() == 0 {
        None
    } else {
        Some(
            Seq::new(
                segs.len(),
                |k: int| sub_hunk_spec(hunk, k == 0, hunk.lines.subrange(segs[k].0, segs[k].1)),
            ),
        )
    }
}

/// Every piece but the first starts on a line numbered on both sides (a
/// context line does).
pub open spec fn split_starts_numbered(hunk: HunkView, ctx: int) -> bool {
    let segs = split_segments(change_runs_spec(hunk.lines), hunk.lines.len() as int, ctx);
    forall|k: int|
        0 < k < segs.len() ==> 0 <= #[trigger] segs[k].0 < hunk.lines.len() && hunk.lines[segs[k].0].old_lineno is Some
            && hunk.lines[segs[k].0].new_lineno is Some
}

// ---------------------------------------------------------------------
// Facts about runs and segments
// ---------------------------------------------------------------------

/// Runs are ordered, non-empty, within the lines, and separated by at least
/// one context line.
pub open spec fn runs_well_formed(runs: Seq<(int, int)>, len: int) -> bool {
    &&& forall|k: int| 0 <= k < runs.len() ==> 0 <= #[trigger] runs[k].0 < runs[k].1 <= len
    &&& forall|k: int| 0 <= k < runs.len() - 1 ==> #[trigger] runs[k].1 < runs[k + 1].0
}

pub proof fn lemma_runs_well_formed(lines: Seq<DiffLineView>)
    ensures
        runs_well_formed(change_runs_spec(lines), lines.len() as int),
        forall|k: int, m: int|
            #![trigger change_runs_spec(lines)[k], lines[m]]
            0 <= k < change_runs_spec(lines).len() && change_runs_spec(lines)[k].0 <= m
                < change_runs_spec(lines)[k].1 ==> lines[m].kind != LineKind::Context,
    decreases lines.len(),
{
    if lines.len() > 0 {
        lemma_runs_well_formed(lines.drop_last());
        let prev = lines.drop_last();
        assert forall|m: int| 0 <= m < prev.len() implies prev[m] == lines[m] by {}
    }
}

/// While scanning, closed segments are ordered, end before the open one
/// starts, and that start lies within the lines.
pub proof fn lemma_segments_scan(runs: Seq<(int, int)>, len: int, k: int, ctx: int)
    requires
        runs_well_formed(runs, len),
        ctx >= 0,
        0 <= k < runs.len(),
    ensures
        ({
            let (segs, start) = segments_scan(runs, k, ctx);
            &&& 0 <= start <= runs[k].0
            &&& forall|q: int|
                0 <= q < segs.len() ==> 0 <= #[trigger] segs[q].0 < segs[q].1 <= start
            &&& forall|q: int| 0 < q < segs.len() ==> segs[q - 1].1 <= #[trigger] segs[q].0
            &&& segs.len() > 0 ==> segs.last().1 <= start
        }),
    decreases k,
{
    if k > 0 {
        lemma_segments_scan(runs, len, k - 1, ctx);
        assert(runs[k - 1].0 < runs[k - 1].1);
        assert(runs[k - 1].1 < runs[k].0);
    }
}

/// Every change line lies in a run.
pub proof fn lemma_runs_cover_changes(lines: Seq<DiffLineView>, m: int)
    requires
        0 <= m < lines.len(),
        lines[m].kind != LineKind::Context,
    ensures
        exists|j: int|
            0 <= j < change_runs_spec(lines).len() && (#[trigger] change_runs_spec(lines)[j]).0 <= m
                < change_runs_spec(lines)[j].1,
    decreases lines.len(),
{
    let prev = lines.drop_last();
    let runs = change_runs_spec(prev);
    let n = lines.len() - 1;
    lemma_runs_well_formed(prev);
    if m < n {
        assert(prev[m] == lines[m]);
        lemma_runs_cover_changes(prev, m);
        let j = choose|j: int| 0 <= j < runs.len() && (#[trigger] runs[j]).0 <= m < runs[j].1;
        if lines.last().kind == LineKind::Context {
            assert(change_runs_spec(lines) == runs);
        } else if runs.len() > 0 && runs.last().1 == n {
            let r2 = runs.update(runs.len() - 1, (runs.last().0, n + 1));
            assert(change_runs_spec(lines) == r2);
            assert(r2[j].0 <= m < r2[j].1);
        } else {
            let r2 = runs.push((n, n + 1));
            assert(change_runs_spec(lines) == r2);
            assert(r2[j] == runs[j]);
        }
    } else {
        if runs.len() > 0 && runs.last().1 == n {
            let r2 = runs.update(runs.len() - 1, (runs.last().0, n + 1));
            assert(change_runs_spec(lines) == r2);
            assert(r2[runs.len() - 1].0 <= m < r2[runs.len() - 1].1);
        } else {
            let r2 = runs.push((n, n + 1));
            assert(change_runs_spec(lines) == r2);
            assert(r2[runs.len() as int].0 <= m < r2[runs.len() as int].1);
        }
    }
}

/// While scanning, every run seen so far lies in a closed segment or
/// starts at or after the open one.
proof fn lemma_segments_cover_runs(runs: Seq<(int, int)>, len: int, k: int, ctx: int, j: int)
    requires
        runs_well_formed(runs, len),
        ctx >= 0,
        0 <= k < runs.len(),
        0 <= j < runs.len(),
    ensures
        (exists|q: int|
            0 <= q < segments_scan(runs, k, ctx).0.len() && (#[trigger] segments_scan(runs, k, ctx).0[q]).0
                <= runs[j].0 && runs[j].1 <= segments_scan(runs, k, ctx).0[q].1)
            || segments_scan(runs, k, ctx).1 <= runs[j].0,
    decreases k,
{
    if k == 0 {
        assert(segments_scan(runs, 0, ctx).1 == 0);
        assert(0 <= runs[j].0);
    } else {
        lemma_segments_cover_runs(runs, len, k - 1, ctx, j);
        lemma_segments_scan(runs, len, k - 1, ctx);
        let segs = segments_scan(runs, k - 1, ctx).0;
        let start = segments_scan(runs, k - 1, ctx).1;
        if splits_after(runs, k - 1, ctx) {
            let segs2 = segs.push((start, runs[k - 1].1 + ctx));
            assert(segments_scan(runs, k, ctx).0 == segs2);
            assert(segments_scan(runs, k, ctx).1 == runs[k].0 - ctx);
            if exists|q: int| 0 <= q < segs.len() && (#[trigger] segs[q]).0 <= runs[j].0 && runs[j].1 <= segs[q].1 {
                let q = choose|q: int| 0 <= q < segs.len() && (#[trigger] segs[q]).0 <= runs[j].0 && runs[j].1 <= segs[q].1;
                assert(segs2[q] == segs[q]);
                assert(segments_scan(runs, k, ctx).0[q] == segs[q]);
            } else if j <= k - 1 {
                lemma_runs_ordered(runs, len, j, k - 1);
                let q = segs.len() as int;
                assert(segments_scan(runs, k, ctx).0[q] == (start, runs[k - 1].1 + ctx));
                assert(segments_scan(runs, k, ctx).0[q].0 <= runs[j].0);
                assert(runs[j].1 <= segments_scan(runs, k, ctx).0[q].1);
            } else {
                lemma_runs_ordered(runs, len, k, j);
            }
        } else {
            assert(segments_scan(runs, k, ctx) == segments_scan(runs, k - 1, ctx));
        }
    }
}

/// Runs come in order: an earlier run ends before a later one starts.
proof fn lemma_runs_ordered(runs: Seq<(int, int)>, len: int, a: int, b: int)
    requires
        runs_well_formed(runs, len),
        0 <= a <= b < runs.len(),
    ensures
        runs[a].0 <= runs[b].0,
        runs[a].1 <= runs[b].1,
    decreases b - a,
{
    if a < b {
        lemma_runs_ordered(runs, len, a, b - 1);
        assert(runs[b - 1].1 < runs[b].0);
    }
}

// ---------------------------------------------------------------------
// Implementation
// ---------------------------------------------------------------------

/// Maximal contiguous ranges of non-context lines, as `[start, end)` index
/// pairs into `hunk.lines`.
fn change_runs(hunk: &Hunk) -> (r: Vec<(usize, usize)>)
    ensures
        r@.len() == change_runs_spec(hunk@.lines).len(),
        forall|k: int|
            0 <= k < r@.len() ==> (#[trigger] r@[k].0 as int, r@[k].1 as int) == change_runs_spec(
                hunk@.lines,
            )[k],
{
    let ghost ls = hunk@.lines;
    let mut runs: Vec<(usize, usize)> = Vec::new();
    let mut i: usize = 0;
    while i < hunk.lines.len()
        invariant
            0 <= i <= hunk.lines.len(),
            ls == hunk@.lines,
            ls.len() == hunk.lines.len(),
            runs@.len() == change_runs_spec(ls.take(i as int)).len(),
            forall|k: int|
                0 <= k < runs@.len() ==> (#[trigger] runs@[k].0 as int, runs@[k].1 as int)
                    == change_runs_spec(ls.take(i as int))[k],
            forall|k: int| 0 <= k < runs@.len() ==> #[trigger] runs@[k].1 <= i,
        decreases hunk.lines.len() - i,
    {
        let ghost prev = change_runs_spec(ls.take(i as int));
        assert(ls.take(i + 1).drop_last() =~= ls.take(i as int));
        assert(ls.take(i + 1).last() == hunk.lines@[i as int]@);
        if hunk.lines[i].kind != LineKind::Context {
            let n = runs.len();
            if n > 0 {
                assert((runs@[n - 1].0 as int, runs@[n - 1].1 as int) == prev[n - 1]);
            }
            if n > 0 && runs[n - 1].1 == i {
                let (s, _) = runs[n - 1];
                runs.set(n - 1, (s, i + 1));
                assert(change_runs_spec(ls.take(i + 1)) == prev.update(
                    prev.len() - 1,
                    (prev.last().0, i + 1),
                ));
            } else {
                runs.push((i, i + 1));
                assert(change_runs_spec(ls.take(i + 1)) == prev.push((i as int, i + 1)));
            }
        } else {
            assert(change_runs_spec(ls.take(i + 1)) == prev);
        }
        i += 1;
    }
    assert(ls.take(i as int) =~= ls);
    runs
}

fn build_sub_hunk(whole: &Hunk, is_first_segment: bool, start: usize, end: usize) -> (r: Hunk)
    requires
        start < end <= whole.lines.len(),
        !is_first_segment ==> whole.lines@[start as int].old_lineno is Some
            && whole.lines@[start as int].new_lineno is Some,
    ensures
        r@ == sub_hunk_spec(
            whole@,
            is_first_segment,
            whole@.lines.subrange(start as int, end as int),
        ),
{
    let lines = copy_lines(&whole.lines, start, end);
    let (old_start, new_start) = if is_first_segment {
        (whole.old_start, whole.new_start)
    } else {
        let first = &whole.lines[start];
        (first.old_lineno.unwrap(), first.new_lineno.unwrap())
    };
    let ghost seg = lines_view(lines@);
    let mut old_lines: usize = 0;
    let mut new_lines: usize = 0;
    let mut i: usize = 0;
    while i < lines.len()
        invariant
            0 <= i <= lines.len(),
            seg == lines_view(lines@),
            old_lines == count_other_than(seg.take(i as int), LineKind::Added),
            new_lines == count_other_than(seg.take(i as int), LineKind::Removed),
            old_lines <= i,
            new_lines <= i,
        decreases lines.len() - i,
    {
        assert(seg.take(i + 1).drop_last() =~= seg.take(i as int));
        if lines[i].kind != LineKind::Added {
            old_lines += 1;
        }
        if lines[i].kind != LineKind::Removed {
            new_lines += 1;
        }
        i += 1;
    }
    assert(seg.take(i as int) =~= seg);
    Hunk {
        old_start,
        old_lines: old_lines as u32,
        new_start,
        new_lines: new_lines as u32,
        lines,
    }
}

/// Splits a hunk containing multiple change blocks into smaller hunks, one
/// per block, mirroring `git add -p`'s `s` key. Returns `None` when the
/// hunk has fewer than two change blocks, or when no two consecutive blocks
/// are separated by enough context to give each side up to `context_lines`
/// of its own without overlapping (gap >= 2 * context_lines).
///
/// `None` when a piece other than the first would start on a line that is
/// not numbered on both sides (with no context lines asked for), where no
/// piece could be built.
pub fn split_hunk_checked(hunk: &Hunk, context_lines: u32) -> (r: Option<Option<Vec<Hunk>>>)
    ensures
        r is None <==> !split_starts_numbered(hunk@, context_lines as int),
        r matches Some(res) ==> match res {
            None => split_spec(hunk@, context_lines as int) is None,
            Some(v) => split_spec(hunk@, context_lines as int) == Some(
                v@.map_values(|h: Hunk| h@),
            ),
        },
{
    let ctx = context_lines as usize;
    let ghost ls = hunk@.lines;
    let ghost len = ls.len() as int;
    let runs = change_runs(hunk);
    let ghost sruns = change_runs_spec(ls);
    proof {
        lemma_runs_well_formed(ls);
        assert forall|k: int| 0 <= k < runs@.len() implies #[trigger] runs@[k] == (
        sruns[k].0 as usize,
        sruns[k].1 as usize,
        ) by {
            assert((runs@[k].0 as int, runs@[k].1 as int) == sruns[k]);
        }
    }
    if runs.len() < 2 {
        return Some(None);
    }
    // Close a segment at every gap wide enough to split.
    let mut segments: Vec<(usize, usize)> = Vec::new();
    let mut segment_start: usize = 0;
    let mut k: usize = 0;
    while k < runs.len() - 1
        invariant
            2 <= runs.len(),
            runs@.len() == sruns.len(),
            forall|q: int|
                0 <= q < runs@.len() ==> (#[trigger] runs@[q].0 as int, runs@[q].1 as int)
                    == sruns[q],
            runs_well_formed(sruns, len),
            len == hunk.lines.len(),
            ctx == context_lines,
            0 <= k <= runs.len() - 1,
            segments_scan(sruns, k as int, ctx as int).1 == segment_start,
            segments_scan(sruns, k as int, ctx as int).0.len() == segments@.len(),
            forall|q: int|
                0 <= q < segments@.len() ==> (#[trigger] segments@[q].0 as int, segments@[q].1 as int)
                    == segments_scan(sruns, k as int, ctx as int).0[q],
        decreases runs.len() - 1 - k,
    {
        proof {
            lemma_segments_scan(sruns, len, k as int, ctx as int);
            lemma_segments_scan(sruns, len, (k + 1) as int, ctx as int);
        }
        assert((runs@[k as int].0 as int, runs@[k as int].1 as int) == sruns[k as int]);
        assert((runs@[k + 1].0 as int, runs@[k + 1].1 as int) == sruns[k + 1]);
        assert(sruns[k as int].1 < sruns[k + 1].0);
        assert(sruns[k + 1].1 <= len);
        let ghost prev = segments_scan(sruns, k as int, ctx as int);
        let gap = runs[k + 1].0 - runs[k].1;
        if gap as u64 >= 2 * (ctx as u64) {
            assert(splits_after(sruns, k as int, ctx as int));
            let end = runs[k].1 + ctx;
            let ghost before = segments@;
            segments.push((segment_start, end));
            segment_start = runs[k + 1].0 - ctx;
            assert(segments_scan(sruns, k + 1, ctx as int) == (
                prev.0.push((prev.1, sruns[k as int].1 + ctx)),
                sruns[k + 1].0 - ctx,
            ));
        } else {
            assert(!splits_after(sruns, k as int, ctx as int));
            assert(segments_scan(sruns, k + 1, ctx as int) == prev);
        }
        k += 1;
    }
    if segments.len() == 0 {
        return Some(None);
    }
    segments.push((segment_start, hunk.lines.len()));
    let ghost segs = split_segments(sruns, len, ctx as int);
    proof {
        lemma_segments_scan(sruns, len, (runs.len() - 1) as int, ctx as int);
    }
    assert(segs.len() == segments@.len());
    assert forall|q: int|
        0 <= q < segments@.len() implies (#[trigger] segments@[q].0 as int, segments@[q].1 as int)
        == segs[q] by {}
    // Every piece but the first must start on a line numbered on both sides.
    let mut q: usize = 1;
    while q < segments.len()
        invariant
            segs == split_segments(sruns, len, ctx as int),
            segs.len() == segments@.len(),
            ls == hunk@.lines,
            sruns == change_runs_spec(ls),
            ctx == context_lines,
            len == ls.len(),
            1 <= q <= segments.len(),
            forall|p: int|
                0 <= p < segments@.len() ==> (#[trigger] segments@[p].0 as int, segments@[p].1 as int)
                    == segs[p],
            forall|p: int|
                0 <= p < segs.len() ==> 0 <= #[trigger] segs[p].0 < segs[p].1 <= len,
            forall|p: int|
                0 < p < q ==> ls[#[trigger] segs[p].0].old_lineno is Some && ls[segs[p].0].new_lineno is Some,
        decreases segments.len() - q,
    {
        let (start, _) = segments[q];
        assert(segs[q as int].0 == start);
        assert(ls[start as int] == hunk.lines@[start as int]@);
        if hunk.lines[start].old_lineno.is_none() || hunk.lines[start].new_lineno.is_none() {
            assert(ls[segs[q as int].0].old_lineno is None || ls[segs[q as int].0].new_lineno is None);
            assert(!split_starts_numbered(hunk@, ctx as int));
            return None;
        }
        q += 1;
    }
    assert(split_starts_numbered(hunk@, ctx as int));
    let mut result: Vec<Hunk> = Vec::new();
    let mut q: usize = 0;
    while q < segments.len()
        invariant
            segs == split_segments(sruns, len, ctx as int),
            segs.len() == segments@.len(),
            segs.len() > 0,
            sruns == change_runs_spec(ls),
            ls == hunk@.lines,
            len == ls.len(),
            split_starts_numbered(hunk@, ctx as int),
            forall|p: int|
                0 <= p < segments@.len() ==> (#[trigger] segments@[p].0 as int, segments@[p].1 as int)
                    == segs[p],
            forall|p: int|
                0 <= p < segs.len() ==> 0 <= #[trigger] segs[p].0 < segs[p].1 <= len,
            0 <= q <= segments.len(),
            result@.len() == q,
            forall|p: int|
                0 <= p < q ==> #[trigger] result@[p]@ == sub_hunk_spec(
                    hunk@,
                    p == 0,
                    ls.subrange(segs[p].0, segs[p].1),
                ),
        decreases segments.len() - q,
    {
        let (start, end) = segments[q];
        let piece = build_sub_hunk(hunk, q == 0, start, end);
        result.push(piece);
        q += 1;
    }
    assert(split_spec(hunk@, ctx as int) == Some(result@.map_values(|h: Hunk| h@)));
    Some(Some(result))
}

/// Splits a hunk containing multiple change blocks into smaller hunks, one
/// per block, mirroring `git add -p`'s `s` key. Returns `None` when the
/// hunk has fewer than two change blocks, or when no two consecutive blocks
/// are separated by enough context to give each side up to `context_lines`
/// of its own without overlapping (gap >= 2 * context_lines).
pub fn split_hunk(hunk: &Hunk, context_lines: u32) -> (r: Option<Vec<Hunk>>)
    requires
        split_starts_numbered(hunk@, context_lines as int),
    ensures
        match r {
            None => split_spec(hunk@, context_lines as int) is None,
            Some(v) => split_spec(hunk@, context_lines as int) == Some(
                v@.map_values(|h: Hunk| h@),
            ),
        },
{
    match split_hunk_checked(hunk, context_lines) {
        Some(res) => res,
        None => {
            assert(false);
            None
        },
    }
}

// ---------------------------------------------------------------------
// Laws
// ---------------------------------------------------------------------

/// A split gives at least two pieces, each a run of consecutive lines of
/// the hunk, in order and without overlap, and every changed line of the
/// hunk lies in one of them: splitting loses no change.
pub proof fn law_split_keeps_every_change(hunk: HunkView, ctx: int, m: int)
    requires
        ctx >= 0,
        split_spec(hunk, ctx) is Some,
        0 <= m < hunk.lines.len(),
        hunk.lines[m].kind != LineKind::Context,
    ensures
        ({
            let segs = split_segments(change_runs_spec(hunk.lines), hunk.lines.len() as int, ctx);
            let pieces = split_spec(hunk, ctx)->0;
            &&& pieces.len() == segs.len() >= 2
            &&& forall|q: int|
                0 <= q < pieces.len() ==> #[trigger] pieces[q].lines == hunk.lines.subrange(
                    segs[q].0,
                    segs[q].1,
                )
            &&& forall|q: int| 0 < q < segs.len() ==> segs[q - 1].1 <= #[trigger] segs[q].0
            &&& exists|q: int| 0 <= q < segs.len() && (#[trigger] segs[q]).0 <= m < segs[q].1
        }),
{
    let ls = hunk.lines;
    let len = ls.len() as int;
    let runs = change_runs_spec(ls);
    lemma_runs_well_formed(ls);
    let segs = split_segments(runs, len, ctx);
    let k = runs.len() - 1;
    lemma_segments_scan(runs, len, k, ctx);
    let (closed, start) = segments_scan(runs, k, ctx);
    assert(segs == closed.push((start, len)));
    assert forall|q: int| 0 < q < segs.len() implies segs[q - 1].1 <= #[trigger] segs[q].0 by {
        if q == segs.len() - 1 {
            assert(segs[q - 1] == closed.last());
        } else {
            assert(segs[q - 1] == closed[q - 1] && segs[q] == closed[q]);
        }
    }
    lemma_runs_cover_changes(ls, m);
    let j = choose|j: int| 0 <= j < runs.len() && (#[trigger] runs[j]).0 <= m < runs[j].1;
    lemma_segments_cover_runs(runs, len, k, ctx, j);
    if exists|q: int| 0 <= q < closed.len() && (#[trigger] closed[q]).0 <= runs[j].0 && runs[j].1 <= closed[q].1 {
        let q = choose|q: int| 0 <= q < closed.len() && (#[trigger] closed[q]).0 <= runs[j].0 && runs[j].1 <= closed[q].1;
        assert(segs[q] == closed[q]);
        assert(segs[q].0 <= m < segs[q].1);
    } else {
        assert(segs[closed.len() as int] == (start, len));
        assert(runs[j].1 <= len);
    }
}

proof fn lemma_no_split_no_segment(runs: Seq<(int, int)>, k: int, ctx: int)
    requires
        forall|q: int| 0 <= q < k ==> !#[trigger] splits_after(runs, q, ctx),
    ensures
        segments_scan(runs, k, ctx).0.len() == 0,
    decreases k,
{
    if k > 0 {
        lemma_no_split_no_segment(runs, k - 1, ctx);
    }
}

/// A hunk is split only when it has at least two change blocks and two
/// consecutive blocks at least `2 * ctx` lines apart.
pub proof fn law_split_needs_blocks_far_apart(hunk: HunkView, ctx: int)
    requires
        split_spec(hunk, ctx) is Some,
    ensures
        change_runs_spec(hunk.lines).len() >= 2,
        exists|k: int|
            0 <= k < change_runs_spec(hunk.lines).len() - 1 && #[trigger] splits_after(
                change_runs_spec(hunk.lines),
                k,
                ctx,
            ),
{
    let runs = change_runs_spec(hunk.lines);
    if !(exists|k: int| 0 <= k < runs.len() - 1 && #[trigger] splits_after(runs, k, ctx)) {
        lemma_no_split_no_segment(runs, runs.len() - 1, ctx);
    }
}

} // verus!
