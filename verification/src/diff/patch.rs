//! Building the patch text that stages exactly the selected hunks and
//! lines of a file (`git apply --cached`).

use vstd::prelude::*;

use super::model::{DiffLine, DiffLineView, FileDiff, FileDiffView, Hunk, HunkView, LineKind};
use crate::git::command::{push_arg, GitCommand, GitCommandView};
use crate::git::repo::{unstage_path_command, unstage_path_command_spec};
use crate::selection::{FileSelection, FileSelectionView};
use crate::text::{decimal, push_char, push_decimal, push_str};

verus! {

// ---------------------------------------------------------------------
// Specification
// ---------------------------------------------------------------------

/// A line's end in a patch: a newline, then git's marker when the line has
/// no newline at the end of the file.
pub open spec fn line_end(line: DiffLineView) -> Seq<char> {
    if line.no_newline_at_eof {
        seq!['\n'] + "\\ No newline at end of file\n"@
    } else {
        seq!['\n']
    }
}

/// A line as written in a patch with the given one-character prefix.
pub open spec fn patch_line(prefix: char, line: DiffLineView) -> Seq<char> {
    seq![prefix] + line.content + line_end(line)
}

/// What writing the first lines of a hunk has produced: the text, the
/// old/new line counts, the net number of lines it adds, and whether any
/// selected change was written.
pub struct HunkEmit {
    pub text: Seq<char>,
    pub old_count: int,
    pub new_count: int,
    pub delta: int,
    pub has_content: bool,
}

/// Writes one more line of hunk `h`: context stays; a selected change is
/// kept; an unselected addition is left out; an unselected removal does
/// not happen, so the line stays as context on both sides.
pub open spec fn emit_step(
    e: HunkEmit,
    line: DiffLineView,
    selected: bool,
) -> HunkEmit {
    match line.kind {
        LineKind::Context => HunkEmit {
            text: e.text + patch_line(' ', line),
            old_count: e.old_count + 1,
            new_count: e.new_count + 1,
            ..e
        },
        LineKind::Added => if selected {
            HunkEmit {
                text: e.text + patch_line('+', line),
                new_count: e.new_count + 1,
                delta: e.delta + 1,
                has_content: true,
                ..e
            }
        } else {
            e
        },
        LineKind::Removed => if selected {
            HunkEmit {
                text: e.text + patch_line('-', line),
                old_count: e.old_count + 1,
                delta: e.delta - 1,
                has_content: true,
                ..e
            }
        } else {
            HunkEmit {
                text: e.text + patch_line(' ', line),
                old_count: e.old_count + 1,
                new_count: e.new_count + 1,
                ..e
            }
        },
    }
}

/// The lines of hunk `h` as written in the patch, `selected(h, i)` telling
/// whether its line `i` is staged.
pub open spec fn emit_hunk(
    lines: Seq<DiffLineView>,
    h: int,
    selected: spec_fn(int, int) -> bool,
) -> HunkEmit
    decreases lines.len(),
{
    if lines.len() == 0 {
        HunkEmit { text: Seq::empty(), old_count: 0, new_count: 0, delta: 0, has_content: false }
    } else {
        emit_step(
            emit_hunk(lines.drop_last(), h, selected),
            lines.last(),
            selected(h, lines.len() - 1),
        )
    }
}

/// A hunk header line `@@ -os,oc +ns,nc @@`.
pub open spec fn hunk_header_text(os: nat, oc: nat, ns: nat, nc: nat) -> Seq<char> {
    "@@ -"@ + decimal(os) + seq![','] + decimal(oc) + " +"@ + decimal(ns) + seq![','] + decimal(nc)
        + " @@\n"@
}

/// Where a written hunk starts on the new side: its old start (one line
/// further for a hunk with no old-side line, as unified diffs anchor pure
/// insertions), shifted by what the hunks written before it add, never
/// below zero.
pub open spec fn emitted_new_start(old_start: u32, old_count: int, offset: int) -> u32 {
    let anchor = if old_count == 0 {
        old_start + 1
    } else {
        old_start as int
    };
    let v = anchor + offset;
    (if v < 0 {
        0
    } else {
        v
    }) as u32
}

/// State after writing the first hunks: the patch body, the number of
/// lines the written hunks add, and whether any hunk was written.
pub struct PatchScan {
    pub body: Seq<char>,
    pub offset: int,
    pub any: bool,
}

pub open spec fn patch_step(p: PatchScan, hunk: HunkView, e: HunkEmit) -> PatchScan {
    if !e.has_content {
        p
    } else {
        PatchScan {
            body: p.body + hunk_header_text(
                hunk.old_start as nat,
                e.old_count as nat,
                emitted_new_start(hunk.old_start, e.old_count, p.offset) as nat,
                e.new_count as nat,
            ) + e.text,
            offset: p.offset + e.delta,
            any: true,
        }
    }
}

/// Writing the first `hunks.len()` hunks of a diff.
pub open spec fn patch_scan(hunks: Seq<HunkView>, selected: spec_fn(int, int) -> bool) -> PatchScan
    decreases hunks.len(),
{
    if hunks.len() == 0 {
        PatchScan { body: Seq::empty(), offset: 0, any: false }
    } else {
        let n = hunks.len() - 1;
        patch_step(
            patch_scan(hunks.drop_last(), selected),
            hunks.last(),
            emit_hunk(hunks.last().lines, n, selected),
        )
    }
}

/// `list` joined with `sep` between consecutive items.
pub open spec fn join(list: Seq<Seq<char>>, sep: Seq<char>) -> Seq<char>
    decreases list.len(),
{
    if list.len() == 0 {
        Seq::empty()
    } else if list.len() == 1 {
        list[0]
    } else {
        join(list.drop_last(), sep) + sep + list.last()
    }
}

/// The patch for `diff` restricted to the lines `selected` picks: the
/// header lines, then every hunk that keeps at least one selected change;
/// `None` when no hunk does.
pub open spec fn patch_spec(diff: FileDiffView, selected: spec_fn(int, int) -> bool) -> Option<
    Seq<char>,
> {
    let p = patch_scan(diff.hunks, selected);
    if !p.any {
        None
    } else {
        Some(join(diff.raw_header_lines, seq!['\n']) + seq!['\n'] + p.body)
    }
}

/// Total number of lines in the hunks.
pub open spec fn total_lines(hunks: Seq<HunkView>) -> nat
    decreases hunks.len(),
{
    if hunks.len() == 0 {
        0
    } else {
        total_lines(hunks.drop_last()) + hunks.last().lines.len()
    }
}

/// The patch can be written without counts or offsets overflowing.
pub open spec fn patch_fits(diff: FileDiffView) -> bool {
    &&& forall|h: int| 0 <= h < diff.hunks.len() ==> #[trigger] diff.hunks[h].lines.len() <= u32::MAX
    &&& total_lines(diff.hunks) + u32::MAX + 1 <= i64::MAX
}

/// The staging predicate of a selection.
pub open spec fn selected_lines(s: crate::selection::FileSelectionView) -> spec_fn(int, int) -> bool {
    |h: int, l: int| s.line_is_selected(h, l)
}

// ---------------------------------------------------------------------
// Proofs
// ---------------------------------------------------------------------

pub proof fn lemma_emit_bounds(lines: Seq<DiffLineView>, h: int, selected: spec_fn(int, int) -> bool)
    ensures
        0 <= emit_hunk(lines, h, selected).old_count <= lines.len(),
        0 <= emit_hunk(lines, h, selected).new_count <= lines.len(),
        -(lines.len() as int) <= emit_hunk(lines, h, selected).delta <= lines.len(),
    decreases lines.len(),
{
    if lines.len() > 0 {
        lemma_emit_bounds(lines.drop_last(), h, selected);
    }
}

pub proof fn lemma_offset_bound(hunks: Seq<HunkView>, selected: spec_fn(int, int) -> bool)
    ensures
        -(total_lines(hunks) as int) <= patch_scan(hunks, selected).offset <= total_lines(hunks),
    decreases hunks.len(),
{
    if hunks.len() > 0 {
        lemma_offset_bound(hunks.drop_last(), selected);
        lemma_emit_bounds(hunks.last().lines, hunks.len() - 1, selected);
    }
}

pub proof fn lemma_total_lines_prefix(hunks: Seq<HunkView>, n: int)
    requires
        0 <= n <= hunks.len(),
    ensures
        total_lines(hunks.take(n)) <= total_lines(hunks),
    decreases hunks.len() - n,
{
    if n < hunks.len() {
        assert(hunks.take(n + 1).drop_last() =~= hunks.take(n));
        lemma_total_lines_prefix(hunks, n + 1);
    } else {
        assert(hunks.take(n) =~= hunks);
    }
}

/// Line `i` of hunk `h` is a change (added or removed) picked by `selected`.
pub open spec fn picked_change(
    hunks: Seq<HunkView>,
    selected: spec_fn(int, int) -> bool,
    h: int,
    i: int,
) -> bool {
    0 <= h < hunks.len() && 0 <= i < hunks[h].lines.len() && hunks[h].lines[i].kind
        != LineKind::Context && selected(h, i)
}

proof fn lemma_emit_has_content(lines: Seq<DiffLineView>, h: int, selected: spec_fn(int, int) -> bool)
    ensures
        emit_hunk(lines, h, selected).has_content <==> exists|i: int|
            0 <= i < lines.len() && lines[i].kind != LineKind::Context && #[trigger] selected(h, i),
    decreases lines.len(),
{
    if lines.len() > 0 {
        let prev = lines.drop_last();
        lemma_emit_has_content(prev, h, selected);
        if exists|i: int|
            0 <= i < prev.len() && prev[i].kind != LineKind::Context && #[trigger] selected(h, i) {
            let i = choose|i: int|
                0 <= i < prev.len() && prev[i].kind != LineKind::Context && #[trigger] selected(h, i);
            assert(lines[i] == prev[i]);
        }
        if exists|i: int|
            0 <= i < lines.len() && lines[i].kind != LineKind::Context && #[trigger] selected(h, i) {
            let i = choose|i: int|
                0 <= i < lines.len() && lines[i].kind != LineKind::Context && #[trigger] selected(
                    h,
                    i,
                );
            if i < prev.len() {
                assert(lines[i] == prev[i]);
            }
        }
    }
}

proof fn lemma_scan_any(hunks: Seq<HunkView>, selected: spec_fn(int, int) -> bool)
    ensures
        patch_scan(hunks, selected).any <==> exists|h: int, i: int|
            #[trigger] picked_change(hunks, selected, h, i),
    decreases hunks.len(),
{
    if hunks.len() > 0 {
        let prev = hunks.drop_last();
        let n = hunks.len() - 1;
        lemma_scan_any(prev, selected);
        lemma_emit_has_content(hunks.last().lines, n, selected);
        if exists|h: int, i: int| #[trigger] picked_change(prev, selected, h, i) {
            let (h, i) = choose|h: int, i: int| #[trigger] picked_change(prev, selected, h, i);
            assert(picked_change(hunks, selected, h, i));
        }
        if exists|h: int, i: int| #[trigger] picked_change(hunks, selected, h, i) {
            let (h, i) = choose|h: int, i: int| #[trigger] picked_change(hunks, selected, h, i);
            if h < n {
                assert(picked_change(prev, selected, h, i));
            } else {
                assert(hunks.last().lines[i].kind != LineKind::Context && selected(n, i));
            }
        }
        if emit_hunk(hunks.last().lines, n, selected).has_content {
            let i = choose|i: int|
                0 <= i < hunks.last().lines.len() && hunks.last().lines[i].kind
                    != LineKind::Context && #[trigger] selected(n, i);
            assert(picked_change(hunks, selected, n, i));
        }
    }
}

/// No patch is built exactly when no added or removed line is selected:
/// with nothing picked, nothing gets staged.
pub proof fn law_no_patch_iff_no_selected_change(
    diff: FileDiffView,
    selected: spec_fn(int, int) -> bool,
)
    ensures
        patch_spec(diff, selected) is None <==> !exists|h: int, i: int|
            #[trigger] picked_change(diff.hunks, selected, h, i),
{
    lemma_scan_any(diff.hunks, selected);
}

/// Staging depends only on which lines are selected, never on the hunk
/// decisions: two selections that pick the same lines give the same patch
/// (so an undecided hunk and a rejected one stage the same thing).
pub proof fn law_patch_depends_only_on_selected_lines(
    diff: FileDiffView,
    s1: FileSelectionView,
    s2: FileSelectionView,
)
    requires
        forall|h: int, l: int| s1.line_is_selected(h, l) == s2.line_is_selected(h, l),
    ensures
        patch_spec(diff, selected_lines(s1)) == patch_spec(diff, selected_lines(s2)),
{
    assert(selected_lines(s1) =~= selected_lines(s2));
}

/// The text of the lines of a hunk written unchanged, each with the prefix
/// of its kind.
pub open spec fn hunk_text(lines: Seq<DiffLineView>) -> Seq<char>
    decreases lines.len(),
{
    if lines.len() == 0 {
        Seq::empty()
    } else {
        hunk_text(lines.drop_last()) + patch_line(
            match lines.last().kind {
                LineKind::Context => ' ',
                LineKind::Added => '+',
                LineKind::Removed => '-',
            },
            lines.last(),
        )
    }
}

/// With every line of hunk `h` selected, the hunk is written exactly as it
/// came: same lines with the same prefixes; its old side counts the lines
/// that are not additions, its new side those that are not removals.
pub proof fn law_fully_selected_hunk_is_unchanged(
    lines: Seq<DiffLineView>,
    h: int,
    selected: spec_fn(int, int) -> bool,
)
    requires
        forall|i: int| 0 <= i < lines.len() ==> #[trigger] selected(h, i),
    ensures
        emit_hunk(lines, h, selected).text == hunk_text(lines),
        emit_hunk(lines, h, selected).old_count == crate::diff::split::count_other_than(
            lines,
            LineKind::Added,
        ),
        emit_hunk(lines, h, selected).new_count == crate::diff::split::count_other_than(
            lines,
            LineKind::Removed,
        ),
    decreases lines.len(),
{
    if lines.len() > 0 {
        law_fully_selected_hunk_is_unchanged(lines.drop_last(), h, selected);
        assert(selected(h, lines.len() - 1));
    }
}

/// The prefix a line is written with in a hunk of the patch, when it is
/// written at all: context as context; a selected change with its own
/// sign; an unselected removal as context (the line stays); an unselected
/// addition not at all.
pub open spec fn written_prefix(kind: LineKind, selected: bool) -> Option<char> {
    match kind {
        LineKind::Context => Some(' '),
        LineKind::Added => if selected {
            Some('+')
        } else {
            None
        },
        LineKind::Removed => if selected {
            Some('-')
        } else {
            Some(' ')
        },
    }
}

proof fn lemma_emit_extends(lines: Seq<DiffLineView>, h: int, selected: spec_fn(int, int) -> bool, j: int, k: int)
    requires
        0 <= j <= k <= lines.len(),
    ensures
        ({
            let a = emit_hunk(lines.take(j), h, selected).text;
            let b = emit_hunk(lines.take(k), h, selected).text;
            &&& a.len() <= b.len()
            &&& b.subrange(0, a.len() as int) == a
            &&& (a.len() < b.len() ==> (b[a.len() as int] == ' ' || b[a.len() as int] == '+' || b[
                a.len() as int
            ] == '-'))
        }),
    decreases k - j,
{
    if j < k {
        lemma_emit_extends(lines, h, selected, j, k - 1);
        let t = lines.take(k);
        assert(t.drop_last() =~= lines.take(k - 1));
        assert(t.last() == lines[k - 1]);
        let a = emit_hunk(lines.take(j), h, selected).text;
        let m = emit_hunk(lines.take(k - 1), h, selected).text;
        let b = emit_hunk(t, h, selected).text;
        assert(b.len() >= m.len());
        assert(b.subrange(0, m.len() as int) =~= m);
        assert(b.subrange(0, a.len() as int) =~= m.subrange(0, a.len() as int));
        if a.len() < b.len() && a.len() == m.len() {
            assert(b[a.len() as int] == b.subrange(m.len() as int, b.len() as int)[0]);
        } else if a.len() < m.len() {
            assert(b[a.len() as int] == m[a.len() as int]);
        }
    } else {
        assert(emit_hunk(lines.take(j), h, selected).text.subrange(
            0,
            emit_hunk(lines.take(j), h, selected).text.len() as int,
        ) =~= emit_hunk(lines.take(j), h, selected).text);
    }
}

/// Every line the patch writes ends as the diff said it did: its prefix,
/// its content and a newline, then git's marker `\ No newline at end of
/// file` exactly when the line had no newline at the end of the file (an
/// unmarked line is followed by the next written line or by nothing).
pub proof fn law_written_lines_keep_newline_markers(
    lines: Seq<DiffLineView>,
    h: int,
    selected: spec_fn(int, int) -> bool,
    i: int,
)
    requires
        0 <= i < lines.len(),
        written_prefix(lines[i].kind, selected(h, i)) is Some,
    ensures
        ({
            let text = emit_hunk(lines, h, selected).text;
            let start = emit_hunk(lines.take(i), h, selected).text.len() as int;
            let head = seq![written_prefix(lines[i].kind, selected(h, i))->0] + lines[i].content + seq!['\n'];
            let at = start + head.len();
            let marker = "\\ No newline at end of file\n"@;
            &&& at <= text.len()
            &&& text.subrange(start, at) == head
            &&& (lines[i].no_newline_at_eof ==> at + marker.len() <= text.len() && text.subrange(
                at,
                at + marker.len(),
            ) == marker)
            &&& (!lines[i].no_newline_at_eof ==> at == text.len() || text[at] == ' ' || text[at]
                == '+' || text[at] == '-')
        }),
{
    let t = lines.take(i + 1);
    assert(t.drop_last() =~= lines.take(i));
    assert(t.last() == lines[i]);
    assert(lines.take(lines.len() as int) =~= lines);
    lemma_emit_extends(lines, h, selected, i + 1, lines.len() as int);
    let text = emit_hunk(lines, h, selected).text;
    let before = emit_hunk(lines.take(i), h, selected).text;
    let upto = emit_hunk(t, h, selected).text;
    let p = written_prefix(lines[i].kind, selected(h, i))->0;
    assert(upto == before + patch_line(p, lines[i]));
    assert(text.subrange(0, upto.len() as int) == upto);
    let start = before.len() as int;
    let head = seq![p] + lines[i].content + seq!['\n'];
    let at = start + head.len();
    assert(text.subrange(start, at) =~= upto.subrange(start, at));
    assert(upto.subrange(start, at) =~= head);
    if lines[i].no_newline_at_eof {
        let marker = "\\ No newline at end of file\n"@;
        assert(upto.len() == at + marker.len());
        assert(text.subrange(at, at + marker.len()) =~= upto.subrange(at, at + marker.len()));
        assert(upto.subrange(at, at + marker.len()) =~= marker);
    } else {
        assert(upto.len() == at);
    }
}

// ---------------------------------------------------------------------
// Implementation
// ---------------------------------------------------------------------

fn push_line(buf: &mut String, prefix: char, line: &DiffLine)
    ensures
        final(buf)@ == old(buf)@ + patch_line(prefix, line@),
{
    push_char(buf, prefix);
    push_str(buf, line.content.as_str());
    push_no_newline_marker(buf, line);
    assert(final(buf)@ =~= old(buf)@ + patch_line(prefix, line@));
}

fn push_no_newline_marker(buf: &mut String, line: &DiffLine)
    ensures
        final(buf)@ == old(buf)@ + line_end(line@),
{
    let ghost start = buf@;
    push_char(buf, '\n');
    if line.no_newline_at_eof {
        push_str(buf, "\\ No newline at end of file\n");
        assert(buf@ =~= start + line_end(line@));
    } else {
        assert(buf@ =~= start + line_end(line@));
    }
}

/// Writes hunk `h` of the diff: its lines text, old/new counts, net delta,
/// and whether any selected change is in it.
fn emit_hunk_lines(hunk: &Hunk, h: usize, selection: &FileSelection) -> (r: (
    String,
    u32,
    u32,
    i64,
    bool,
))
    requires
        hunk.lines.len() <= u32::MAX,
    ensures
        ({
            let e = emit_hunk(hunk@.lines, h as int, selected_lines(selection@));
            &&& r.0@ == e.text
            &&& r.1 == e.old_count
            &&& r.2 == e.new_count
            &&& r.3 == e.delta
            &&& r.4 == e.has_content
        }),
{
    let ghost ls = hunk@.lines;
    let ghost sel = selected_lines(selection@);
    let mut text = String::new();
    let mut old_count: u32 = 0;
    let mut new_count: u32 = 0;
    let mut delta: i64 = 0;
    let mut has_content = false;
    let mut i: usize = 0;
    while i < hunk.lines.len()
        invariant
            0 <= i <= hunk.lines.len(),
            hunk.lines.len() <= u32::MAX,
            ls == hunk@.lines,
            sel == selected_lines(selection@),
            ({
                let e = emit_hunk(ls.take(i as int), h as int, sel);
                &&& text@ == e.text
                &&& old_count == e.old_count
                &&& new_count == e.new_count
                &&& delta == e.delta
                &&& has_content == e.has_content
            }),
        decreases hunk.lines.len() - i,
    {
        let line = &hunk.lines[i];
        proof {
            assert(ls.take(i + 1).drop_last() =~= ls.take(i as int));
            assert(ls.take(i + 1).last() == line@);
            lemma_emit_bounds(ls.take(i as int), h as int, sel);
        }
        let selected = selection.line_is_selected(h, i);
        assert(selected == sel(h as int, i as int));
        match line.kind {
            LineKind::Context => {
                push_line(&mut text, ' ', line);
                old_count += 1;
                new_count += 1;
            },
            LineKind::Added => {
                if selected {
                    push_line(&mut text, '+', line);
                    new_count += 1;
                    delta += 1;
                    has_content = true;
                }
            },
            LineKind::Removed => {
                if selected {
                    push_line(&mut text, '-', line);
                    old_count += 1;
                    delta -= 1;
                    has_content = true;
                } else {
                    push_line(&mut text, ' ', line);
                    old_count += 1;
                    new_count += 1;
                }
            },
        }
        i += 1;
    }
    assert(ls.take(i as int) =~= ls);
    (text, old_count, new_count, delta, has_content)
}

/// Builds a patch text containing only the selected hunks/lines, suitable
/// for `git apply --cached`. Returns `None` when nothing is selected.
///
/// `old_start` of a retained hunk never changes (it is an absolute position
/// in the current working file), but `new_start` must be shifted by the net
/// line-count delta introduced by every *retained* hunk before it, since
/// hunks that are skipped never change the resulting index content.
pub fn build_patch(diff: &FileDiff, selection: &FileSelection) -> (r: Option<String>)
    requires
        patch_fits(diff@),
    ensures
        match r {
            None => patch_spec(diff@, selected_lines(selection@)) is None,
            Some(p) => patch_spec(diff@, selected_lines(selection@)) == Some(p@),
        },
{
    let ghost hs = diff@.hunks;
    let ghost sel = selected_lines(selection@);
    let mut body = String::new();
    let mut new_offset: i64 = 0;
    let mut any_hunk_emitted = false;
    let mut h: usize = 0;
    while h < diff.hunks.len()
        invariant
            0 <= h <= diff.hunks.len(),
            hs == diff@.hunks,
            patch_fits(diff@),
            sel == selected_lines(selection@),
            ({
                let p = patch_scan(hs.take(h as int), sel);
                &&& body@ == p.body
                &&& new_offset == p.offset
                &&& any_hunk_emitted == p.any
            }),
        decreases diff.hunks.len() - h,
    {
        let hunk = &diff.hunks[h];
        proof {
            assert(hs.take(h + 1).drop_last() =~= hs.take(h as int));
            assert(hs.take(h + 1).last() == hunk@);
            assert(hs[h as int].lines.len() <= u32::MAX);
            lemma_offset_bound(hs.take(h as int), sel);
            lemma_total_lines_prefix(hs, h as int);
            lemma_total_lines_prefix(hs, h + 1);
            assert(total_lines(hs.take(h + 1)) == total_lines(hs.take(h as int))
                + hunk@.lines.len());
            lemma_emit_bounds(hunk@.lines, h as int, sel);
        }
        let (emitted_lines, old_count, new_count, net_delta, has_content) = emit_hunk_lines(
            hunk,
            h,
            selection,
        );
        if has_content {
            let anchor: i64 = if old_count == 0 {
                hunk.old_start as i64 + 1
            } else {
                hunk.old_start as i64
            };
            let shifted = anchor + new_offset;
            let new_start = (if shifted < 0 {
                0
            } else {
                shifted
            }) as u32;
            assert(new_start == emitted_new_start(hunk.old_start, old_count as int, new_offset as int));
            let ghost start = body@;
            push_str(&mut body, "@@ -");
            push_decimal(&mut body, hunk.old_start as u64);
            push_char(&mut body, ',');
            push_decimal(&mut body, old_count as u64);
            push_str(&mut body, " +");
            push_decimal(&mut body, new_start as u64);
            push_char(&mut body, ',');
            push_decimal(&mut body, new_count as u64);
            push_str(&mut body, " @@\n");
            push_str(&mut body, emitted_lines.as_str());
            assert(body@ =~= start + hunk_header_text(
                hunk.old_start as nat,
                old_count as nat,
                new_start as nat,
                new_count as nat,
            ) + emitted_lines@);
            new_offset += net_delta;
            any_hunk_emitted = true;
        }
        h += 1;
    }
    assert(hs.take(h as int) =~= hs);

    if !any_hunk_emitted {
        return None;
    }

    let mut patch = String::new();
    let mut k: usize = 0;
    let ghost headers = diff@.raw_header_lines;
    while k < diff.raw_header_lines.len()
        invariant
            0 <= k <= diff.raw_header_lines.len(),
            headers == diff@.raw_header_lines,
            patch@ == join(headers.take(k as int), seq!['\n']),
        decreases diff.raw_header_lines.len() - k,
    {
        assert(headers.take(k + 1).drop_last() =~= headers.take(k as int));
        if k > 0 {
            push_char(&mut patch, '\n');
        }
        push_str(&mut patch, diff.raw_header_lines[k].as_str());
        assert(patch@ =~= join(headers.take(k + 1), seq!['\n']));
        k += 1;
    }
    assert(headers.take(k as int) =~= headers);
    push_char(&mut patch, '\n');
    push_str(&mut patch, body.as_str());
    Some(patch)
}

/// Whether `diff` satisfies `patch_fits`, the bound under which a patch
/// can be built from it.
pub fn patch_fits_check(diff: &FileDiff) -> (r: bool)
    ensures
        r == patch_fits(diff@),
{
    let ghost hs = diff@.hunks;
    let bound: u64 = (i64::MAX as u64) - (u32::MAX as u64) - 1;
    let mut total: u64 = 0;
    let mut h: usize = 0;
    assert(hs.take(0) =~= Seq::<HunkView>::empty());
    while h < diff.hunks.len()
        invariant
            0 <= h <= diff.hunks.len(),
            hs == diff@.hunks,
            bound == i64::MAX - u32::MAX - 1,
            total == total_lines(hs.take(h as int)),
            total <= bound,
            forall|k: int| 0 <= k < h ==> #[trigger] hs[k].lines.len() <= u32::MAX,
        decreases diff.hunks.len() - h,
    {
        let n = diff.hunks[h].lines.len();
        assert(hs[h as int].lines.len() == n);
        assert(hs.take(h + 1).drop_last() =~= hs.take(h as int));
        if n as u64 > u32::MAX as u64 || n as u64 > bound - total {
            proof {
                lemma_total_lines_prefix(hs, h + 1);
            }
            return false;
        }
        total = total + n as u64;
        h += 1;
    }
    assert(hs.take(h as int) =~= hs);
    true
}

/// `git apply --cached --recount -` reading `patch` on standard input.
pub open spec fn apply_patch_command(patch: Seq<char>) -> GitCommandView {
    GitCommandView {
        args: seq!["apply"@, "--cached"@, "--recount"@, "-"@],
        allowed_exit_codes: seq![0i32],
        stdin: Some(patch),
    }
}

/// The git runs that stage exactly `selection` of `diff` for `path`: first
/// the path's index entry goes back to HEAD, then, when anything is
/// selected, the patch of the selection is applied to the index. Run in
/// order and stopped at the first failure, they make every toggle
/// idempotent whatever came before.
pub fn apply_selection_commands(path: &str, diff: &FileDiff, selection: &FileSelection) -> (r: Vec<
    GitCommand,
>)
    requires
        patch_fits(diff@),
    ensures
        r.len() >= 1,
        r@[0]@ == unstage_path_command_spec(path@),
        match patch_spec(diff@, selected_lines(selection@)) {
            None => r.len() == 1,
            Some(p) => r.len() == 2 && r@[1]@ == apply_patch_command(p),
        },
{
    let mut steps: Vec<GitCommand> = Vec::new();
    steps.push(unstage_path_command(path));
    match build_patch(diff, selection) {
        None => {},
        Some(patch) => {
            let mut args: Vec<String> = Vec::new();
            push_arg(&mut args, "apply");
            push_arg(&mut args, "--cached");
            push_arg(&mut args, "--recount");
            push_arg(&mut args, "-");
            assert(args.deep_view() =~= seq!["apply"@, "--cached"@, "--recount"@, "-"@]);
            let mut codes: Vec<i32> = Vec::new();
            codes.push(0);
            assert(codes@ =~= seq![0i32]);
            steps.push(GitCommand { args, allowed_exit_codes: codes, stdin: Some(patch) });
        },
    }
    steps
}

} // verus!
