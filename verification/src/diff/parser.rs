//! Parser for the unified diff of a single file, as produced by
//! `git diff -- <path>` or `git diff --no-index -- <null-device> <path>`.

use vstd::prelude::*;

use super::model::{
    DiffLine, DiffLineView, FileDiff, FileDiffView, Hunk, HunkView, LineKind, hunks_view,
    lines_view, strings_view,
};
use crate::text::{
    after, decimal, decimal_value, digits_end, has_prefix, is_ascii_digit, lemma_decimal_reads_back,
    lemma_digits_end_of_run, scan_number, starts_with, starts_with_at, string_of, stripped_lines,
    strip_one_cr, text_lines,
};
use super::patch::hunk_header_text;
use super::split::count_other_than;

verus! {

/// Why a diff could not be parsed; each variant carries the offending line.
#[derive(Debug)]
pub enum DiffParseError {
    /// A line where a hunk header (`@@ -a,b +c,d @@`) was expected.
    ExpectedHunkHeader(String),
    /// A hunk header holding a number that does not fit in a `u32`.
    NumberOutOfRange(String),
    /// A hunk line that starts with none of `' '`, `'+'`, `'-'`, `'\'`.
    UnexpectedLine(String),
}

pub enum DiffParseErrorView {
    ExpectedHunkHeader(Seq<char>),
    NumberOutOfRange(Seq<char>),
    UnexpectedLine(Seq<char>),
}

impl View for DiffParseError {
    type V = DiffParseErrorView;

    open spec fn view(&self) -> DiffParseErrorView {
        match self {
            DiffParseError::ExpectedHunkHeader(l) => DiffParseErrorView::ExpectedHunkHeader(l@),
            DiffParseError::NumberOutOfRange(l) => DiffParseErrorView::NumberOutOfRange(l@),
            DiffParseError::UnexpectedLine(l) => DiffParseErrorView::UnexpectedLine(l@),
        }
    }
}

// ---------------------------------------------------------------------
// Specification
// ---------------------------------------------------------------------

/// The lines of the diff text, each without its line ending.
pub open spec fn diff_text_lines(raw: Seq<char>) -> Seq<Seq<char>> {
    text_lines(raw).map_values(|l: Seq<char>| strip_one_cr(l))
}

/// A path from a `---`/`+++` header line, without git's `a/` or `b/`
/// prefix.
pub open spec fn strip_ab_prefix(path: Seq<char>) -> Seq<char> {
    if has_prefix(path, "a/"@) {
        after(path, ("a/"@).len() as int)
    } else if has_prefix(path, "b/"@) {
        after(path, ("b/"@).len() as int)
    } else {
        path
    }
}

/// What the lines before the first hunk say about the file.
pub struct HeaderInfo {
    pub old_path: Seq<char>,
    pub new_path: Seq<char>,
    pub is_new_file: bool,
    pub is_deleted_file: bool,
    pub is_binary: bool,
}

pub open spec fn header_step(h: HeaderInfo, line: Seq<char>) -> HeaderInfo {
    if has_prefix(line, "new file mode"@) {
        HeaderInfo { is_new_file: true, ..h }
    } else if has_prefix(line, "deleted file mode"@) {
        HeaderInfo { is_deleted_file: true, ..h }
    } else if has_prefix(line, "--- "@) {
        HeaderInfo { old_path: strip_ab_prefix(after(line, ("--- "@).len() as int)), ..h }
    } else if has_prefix(line, "+++ "@) {
        HeaderInfo { new_path: strip_ab_prefix(after(line, ("+++ "@).len() as int)), ..h }
    } else if has_prefix(line, "Binary files"@) || has_prefix(line, "GIT binary patch"@) {
        HeaderInfo { is_binary: true, ..h }
    } else {
        h
    }
}

/// The header information gathered from `lines`, read in order.
pub open spec fn header_fold(lines: Seq<Seq<char>>) -> HeaderInfo
    decreases lines.len(),
{
    if lines.len() == 0 {
        HeaderInfo {
            old_path: Seq::empty(),
            new_path: Seq::empty(),
            is_new_file: false,
            is_deleted_file: false,
            is_binary: false,
        }
    } else {
        header_step(header_fold(lines.drop_last()), lines.last())
    }
}

/// A line that starts a hunk.
pub open spec fn is_hunk_marker(line: Seq<char>) -> bool {
    has_prefix(line, "@@ -"@)
}

/// Index of the first hunk-starting line at or after `i` (`lines.len()`
/// when there is none).
pub open spec fn next_marker(lines: Seq<Seq<char>>, i: int) -> int
    decreases lines.len() - i,
{
    if i >= lines.len() {
        lines.len() as int
    } else if i < 0 {
        next_marker(lines, 0)
    } else if is_hunk_marker(lines[i]) {
        i
    } else {
        next_marker(lines, i + 1)
    }
}

/// Outcome of reading a hunk header.
pub enum HunkHeaderSpec {
    NoMatch,
    OutOfRange,
    Parsed { old_start: nat, old_lines: nat, new_start: nat, new_lines: nat },
}

/// An optional `,<digits>` at `e`: where the number ends, and its value.
pub open spec fn optional_count(line: Seq<char>, e: int) -> (int, Option<nat>) {
    if 0 <= e < line.len() && line[e] == ',' && digits_end(line, e + 1) > e + 1 {
        (digits_end(line, e + 1), Some(decimal_value(line.subrange(e + 1, digits_end(line, e + 1)))))
    } else {
        (e, None)
    }
}

pub open spec fn fits_u32(n: Option<nat>) -> bool {
    match n {
        Some(v) => v <= u32::MAX,
        None => true,
    }
}

/// Reads `@@ -<old_start>[,<old_lines>] +<new_start>[,<new_lines>] @@`
/// at the start of `line` (anything may follow it); an omitted count is 1.
pub open spec fn hunk_header_spec(line: Seq<char>) -> HunkHeaderSpec {
    let a = ("@@ -"@).len() as int;
    if !has_prefix(line, "@@ -"@) {
        HunkHeaderSpec::NoMatch
    } else {
        let e1 = digits_end(line, a);
        let (e2, old_lines) = optional_count(line, e1);
        let b = e2 + (" +"@).len();
        let e3 = digits_end(line, b);
        let (e4, new_lines) = optional_count(line, e3);
        if e1 == a || !has_prefix(after(line, e2), " +"@) || e3 == b || !has_prefix(
            after(line, e4),
            " @@"@,
        ) {
            HunkHeaderSpec::NoMatch
        } else {
            let old_start = decimal_value(line.subrange(a, e1));
            let new_start = decimal_value(line.subrange(b, e3));
            if old_start > u32::MAX || new_start > u32::MAX || !fits_u32(old_lines) || !fits_u32(
                new_lines,
            ) {
                HunkHeaderSpec::OutOfRange
            } else {
                HunkHeaderSpec::Parsed {
                    old_start,
                    old_lines: match old_lines {
                        Some(v) => v,
                        None => 1,
                    },
                    new_start,
                    new_lines: match new_lines {
                        Some(v) => v,
                        None => 1,
                    },
                }
            }
        }
    }
}

/// State of the scan of a hunk's lines: the lines read so far, the next
/// old/new line numbers, and the first line that could not be read.
pub struct BodyScan {
    pub lines: Seq<DiffLineView>,
    pub old_cursor: int,
    pub new_cursor: int,
    pub failed: Option<Seq<char>>,
}

pub open spec fn numbered(kind: LineKind, content: Seq<char>, acc: BodyScan) -> BodyScan {
    match kind {
        LineKind::Context => BodyScan {
            lines: acc.lines.push(
                DiffLineView {
                    kind,
                    content,
                    old_lineno: Some(acc.old_cursor as u32),
                    new_lineno: Some(acc.new_cursor as u32),
                    no_newline_at_eof: false,
                },
            ),
            old_cursor: acc.old_cursor + 1,
            new_cursor: acc.new_cursor + 1,
            failed: None,
        },
        LineKind::Removed => BodyScan {
            lines: acc.lines.push(
                DiffLineView {
                    kind,
                    content,
                    old_lineno: Some(acc.old_cursor as u32),
                    new_lineno: None,
                    no_newline_at_eof: false,
                },
            ),
            old_cursor: acc.old_cursor + 1,
            new_cursor: acc.new_cursor,
            failed: None,
        },
        LineKind::Added => BodyScan {
            lines: acc.lines.push(
                DiffLineView {
                    kind,
                    content,
                    old_lineno: None,
                    new_lineno: Some(acc.new_cursor as u32),
                    no_newline_at_eof: false,
                },
            ),
            old_cursor: acc.old_cursor,
            new_cursor: acc.new_cursor + 1,
            failed: None,
        },
    }
}

/// Reads one hunk line. A `\` line ("No newline at end of file") marks the
/// previous line; the first unreadable line stops the scan.
pub open spec fn body_step(acc: BodyScan, raw: Seq<char>) -> BodyScan {
    if acc.failed is Some {
        acc
    } else if raw.len() > 0 && raw[0] == '\\' {
        if acc.lines.len() > 0 {
            BodyScan {
                lines: acc.lines.update(
                    acc.lines.len() - 1,
                    DiffLineView { no_newline_at_eof: true, ..acc.lines.last() },
                ),
                ..acc
            }
        } else {
            acc
        }
    } else if raw.len() == 0 {
        numbered(LineKind::Context, raw, acc)
    } else if raw[0] == '+' {
        numbered(LineKind::Added, after(raw, 1), acc)
    } else if raw[0] == '-' {
        numbered(LineKind::Removed, after(raw, 1), acc)
    } else if raw[0] == ' ' {
        numbered(LineKind::Context, after(raw, 1), acc)
    } else {
        BodyScan { failed: Some(raw), ..acc }
    }
}

/// The scan of the hunk lines `body`, numbered from `old_start`/`new_start`.
pub open spec fn body_fold(body: Seq<Seq<char>>, old_start: int, new_start: int) -> BodyScan
    decreases body.len(),
{
    if body.len() == 0 {
        BodyScan { lines: Seq::empty(), old_cursor: old_start, new_cursor: new_start, failed: None }
    } else {
        body_step(body_fold(body.drop_last(), old_start, new_start), body.last())
    }
}

pub proof fn lemma_next_marker_bounds(lines: Seq<Seq<char>>, i: int)
    requires
        0 <= i,
    ensures
        i <= next_marker(lines, i) || i > lines.len(),
        next_marker(lines, i) <= lines.len(),
    decreases lines.len() - i,
{
    if i < lines.len() && !is_hunk_marker(lines[i]) {
        lemma_next_marker_bounds(lines, i + 1);
    }
}

/// The hunks of `lines` from the hunk header at index `i` on.
pub open spec fn hunks_from(lines: Seq<Seq<char>>, i: int) -> Result<
    Seq<HunkView>,
    DiffParseErrorView,
>
    decreases lines.len() - i,
{
    if i < 0 || i >= lines.len() {
        Ok(Seq::empty())
    } else {
        match hunk_header_spec(lines[i]) {
            HunkHeaderSpec::NoMatch => Err(DiffParseErrorView::ExpectedHunkHeader(lines[i])),
            HunkHeaderSpec::OutOfRange => Err(DiffParseErrorView::NumberOutOfRange(lines[i])),
            HunkHeaderSpec::Parsed { old_start, old_lines, new_start, new_lines } => {
                let j = next_marker(lines, i + 1);
                let scan = body_fold(lines.subrange(i + 1, j), old_start as int, new_start as int);
                match scan.failed {
                    Some(bad) => Err(DiffParseErrorView::UnexpectedLine(bad)),
                    None => {
                        let hunk = HunkView {
                            old_start: old_start as u32,
                            old_lines: old_lines as u32,
                            new_start: new_start as u32,
                            new_lines: new_lines as u32,
                            lines: scan.lines,
                        };
                        proof {
                            lemma_next_marker_bounds(lines, i + 1);
                        }
                        match hunks_from(lines, j) {
                            Ok(rest) => Ok(seq![hunk] + rest),
                            Err(e) => Err(e),
                        }
                    },
                }
            },
        }
    }
}

/// Reading the hunks from index `i` on never numbers a line past `u32::MAX`
/// (reading stops at the first error).
pub open spec fn hunks_fit(lines: Seq<Seq<char>>, i: int) -> bool
    decreases lines.len() - i,
{
    if i < 0 || i >= lines.len() {
        true
    } else {
        match hunk_header_spec(lines[i]) {
            HunkHeaderSpec::Parsed { old_start, old_lines, new_start, new_lines } => {
                let j = next_marker(lines, i + 1);
                let scan = body_fold(lines.subrange(i + 1, j), old_start as int, new_start as int);
                &&& scan.old_cursor <= u32::MAX
                &&& scan.new_cursor <= u32::MAX
                &&& (scan.failed is None ==> {
                    proof {
                        lemma_next_marker_bounds(lines, i + 1);
                    }
                    hunks_fit(lines, j)
                })
            },
            _ => true,
        }
    }
}

/// Where the header ends and the first hunk begins.
pub open spec fn header_end(lines: Seq<Seq<char>>) -> int {
    next_marker(lines, 0)
}

pub open spec fn diff_of(
    info: HeaderInfo,
    hunks: Seq<HunkView>,
    header_lines: Seq<Seq<char>>,
) -> FileDiffView {
    FileDiffView {
        old_path: info.old_path,
        new_path: info.new_path,
        is_new_file: info.is_new_file,
        is_deleted_file: info.is_deleted_file,
        is_binary: info.is_binary,
        hunks,
        raw_header_lines: header_lines,
    }
}

/// The diff that `raw` describes, or why it cannot be read: the lines
/// before the first hunk make the header, then come the hunks (none for a
/// binary file).
pub open spec fn parse_spec(raw: Seq<char>) -> Result<FileDiffView, DiffParseErrorView> {
    let lines = diff_text_lines(raw);
    let h = header_end(lines);
    let info = header_fold(lines.take(h));
    if info.is_binary {
        Ok(diff_of(info, Seq::empty(), lines.take(h)))
    } else {
        match hunks_from(lines, h) {
            Ok(hunks) => Ok(diff_of(info, hunks, lines.take(h))),
            Err(e) => Err(e),
        }
    }
}

/// Parsing `raw` never numbers a line past `u32::MAX`.
pub open spec fn parse_fits(raw: Seq<char>) -> bool {
    let lines = diff_text_lines(raw);
    let h = header_end(lines);
    header_fold(lines.take(h)).is_binary || hunks_fit(lines, h)
}

// ---------------------------------------------------------------------
// Proofs about the specification
// ---------------------------------------------------------------------

pub proof fn lemma_next_marker_skip(lines: Seq<Seq<char>>, a: int, k: int)
    requires
        0 <= a <= k <= lines.len(),
        forall|m: int| a <= m < k ==> !is_hunk_marker(#[trigger] lines[m]),
    ensures
        next_marker(lines, a) == next_marker(lines, k),
    decreases k - a,
{
    if a < k {
        lemma_next_marker_skip(lines, a + 1, k);
    }
}

/// Once a line could not be read, reading more lines changes nothing.
pub proof fn lemma_body_failed_stays(body: Seq<Seq<char>>, n: int, os: int, ns: int)
    requires
        0 <= n <= body.len(),
        body_fold(body.take(n), os, ns).failed is Some,
    ensures
        body_fold(body, os, ns) == body_fold(body.take(n), os, ns),
    decreases body.len() - n,
{
    if n < body.len() {
        assert(body.take(n + 1).drop_last() =~= body.take(n));
        lemma_body_failed_stays(body, n + 1, os, ns);
        assert(body.take(body.len() as int) =~= body);
    } else {
        assert(body.take(n) =~= body);
    }
}

/// Line numbers only grow while a hunk is read.
pub proof fn lemma_body_cursors_grow(body: Seq<Seq<char>>, n: int, os: int, ns: int)
    requires
        0 <= n <= body.len(),
    ensures
        body_fold(body.take(n), os, ns).old_cursor <= body_fold(body, os, ns).old_cursor,
        body_fold(body.take(n), os, ns).new_cursor <= body_fold(body, os, ns).new_cursor,
    decreases body.len() - n,
{
    if n < body.len() {
        assert(body.take(n + 1).drop_last() =~= body.take(n));
        lemma_body_cursors_grow(body, n + 1, os, ns);
    } else {
        assert(body.take(n) =~= body);
    }
}

pub open spec fn prepend_hunks(
    done: Seq<HunkView>,
    r: Result<Seq<HunkView>, DiffParseErrorView>,
) -> Result<Seq<HunkView>, DiffParseErrorView> {
    match r {
        Ok(rest) => Ok(done + rest),
        Err(e) => Err(e),
    }
}

// ---------------------------------------------------------------------
// Implementation
// ---------------------------------------------------------------------

enum HunkHeader {
    NoMatch,
    OutOfRange,
    Parsed(u32, u32, u32, u32),
}

/// An optional `,<digits>` of `line` at `e`: where it ends, whether it is
/// there, and its value when it fits in a `u32`.
fn read_optional_count(line: &Vec<char>, e: usize) -> (r: (usize, bool, Option<u32>))
    requires
        e <= line.len(),
    ensures
        r.0 == optional_count(line@, e as int).0,
        e <= r.0 <= line.len(),
        r.1 == optional_count(line@, e as int).1 is Some,
        r.1 ==> r.2 == (if optional_count(line@, e as int).1->0 <= u32::MAX {
            Some(optional_count(line@, e as int).1->0 as u32)
        } else {
            None::<u32>
        }),
{
    if e < line.len() && line[e] == ',' {
        let (end, v) = scan_number(line, e + 1);
        if end > e + 1 {
            return (end, true, v);
        }
    }
    (e, false, None)
}

fn parse_hunk_header(line: &Vec<char>) -> (r: HunkHeader)
    ensures
        match r {
            HunkHeader::NoMatch => hunk_header_spec(line@) is NoMatch,
            HunkHeader::OutOfRange => hunk_header_spec(line@) is OutOfRange,
            HunkHeader::Parsed(a, b, c, d) => hunk_header_spec(line@) == (HunkHeaderSpec::Parsed {
                old_start: a as nat,
                old_lines: b as nat,
                new_start: c as nat,
                new_lines: d as nat,
            }),
        },
{
    if !starts_with(line, "@@ -") {
        return HunkHeader::NoMatch;
    }
    proof {
        reveal_strlit("@@ -");
        reveal_strlit(" +");
        reveal_strlit(" @@");
    }
    let (e1, v1) = scan_number(line, 4);
    if e1 == 4 {
        return HunkHeader::NoMatch;
    }
    let (e2, has2, v2) = read_optional_count(line, e1);
    if !starts_with_at(line, e2, " +") {
        return HunkHeader::NoMatch;
    }
    let b = e2 + 2;
    let (e3, v3) = scan_number(line, b);
    if e3 == b {
        return HunkHeader::NoMatch;
    }
    let (e4, has4, v4) = read_optional_count(line, e3);
    if !starts_with_at(line, e4, " @@") {
        return HunkHeader::NoMatch;
    }
    let old_lines = if has2 {
        v2
    } else {
        Some(1u32)
    };
    let new_lines = if has4 {
        v4
    } else {
        Some(1u32)
    };
    match (v1, old_lines, v3, new_lines) {
        (Some(a), Some(b), Some(c), Some(d)) => HunkHeader::Parsed(a, b, c, d),
        _ => HunkHeader::OutOfRange,
    }
}

enum BodyOutcome {
    /// A line number went past `u32::MAX`.
    Overflow,
    /// This line could not be read.
    Failed(String),
    /// The hunk's lines, and the index of the line after them.
    Read(Vec<DiffLine>, usize),
}

/// Reads the lines of the hunk whose header is `lines[i]`.
fn read_hunk_body(lines: &Vec<Vec<char>>, i: usize, os: u32, ns: u32) -> (r: BodyOutcome)
    requires
        i < lines.len(),
    ensures
        ({
            let ls = lines.deep_view();
            let j = next_marker(ls, i + 1);
            let scan = body_fold(ls.subrange(i + 1, j), os as int, ns as int);
            match r {
                BodyOutcome::Overflow => scan.old_cursor > u32::MAX || scan.new_cursor > u32::MAX,
                BodyOutcome::Failed(bad) => scan.failed == Some(bad@) && scan.old_cursor
                    <= u32::MAX && scan.new_cursor <= u32::MAX,
                BodyOutcome::Read(out, k) => {
                    &&& k == j
                    &&& scan.failed is None
                    &&& lines_view(out@) == scan.lines
                    &&& scan.old_cursor <= u32::MAX
                    &&& scan.new_cursor <= u32::MAX
                },
            }
        }),
{
    let ghost ls = lines.deep_view();
    proof {
        lemma_next_marker_bounds(ls, i + 1);
    }
    let ghost j = next_marker(ls, i + 1);
    let ghost body = ls.subrange(i + 1, j);
    let mut k = i + 1;
    let mut old_c: u32 = os;
    let mut new_c: u32 = ns;
    let mut out: Vec<DiffLine> = Vec::new();
    assert(body.take(0) =~= Seq::<Seq<char>>::empty());
    assert(lines_view(out@) =~= Seq::<DiffLineView>::empty());
    while k < lines.len()
        invariant
            i < k <= lines.len(),
            ls == lines.deep_view(),
            j == next_marker(ls, i + 1),
            j == next_marker(ls, k as int),
            k <= j <= ls.len(),
            body == ls.subrange(i + 1, j),
            body_fold(body.take(k - i - 1), os as int, ns as int) == (BodyScan {
                lines: lines_view(out@),
                old_cursor: old_c as int,
                new_cursor: new_c as int,
                failed: None,
            }),
        ensures
            i < k <= lines.len(),
            k == lines.len() || is_hunk_marker(ls[k as int]),
            j == next_marker(ls, k as int),
            k <= j <= ls.len(),
            body_fold(body.take(k - i - 1), os as int, ns as int) == (BodyScan {
                lines: lines_view(out@),
                old_cursor: old_c as int,
                new_cursor: new_c as int,
                failed: None,
            }),
        decreases lines.len() - k,
    {
        let line = &lines[k];
        assert(line@ == ls[k as int]) by {
            assert(lines@[k as int].deep_view() =~= lines@[k as int]@);
        }
        if starts_with(line, "@@ -") {
            break;
        }
        proof {
            lemma_next_marker_bounds(ls, k + 1);
        }
        let ghost before = body.take(k - i - 1);
        let ghost acc = body_fold(before, os as int, ns as int);
        assert(!is_hunk_marker(ls[k as int]));
        assert(next_marker(ls, k as int) == next_marker(ls, k + 1));
        assert(body.take(k - i).drop_last() =~= before);
        assert(body.take(k - i).last() == line@);
        let ghost step = body_fold(body.take(k - i), os as int, ns as int);
        assert(step == body_step(acc, line@));
        if line.len() > 0 && line[0] == '\\' {
            if out.len() > 0 {
                let mut last = out.pop().unwrap();
                last.no_newline_at_eof = true;
                out.push(last);
                assert(lines_view(out@) =~= acc.lines.update(
                    acc.lines.len() - 1,
                    DiffLineView { no_newline_at_eof: true, ..acc.lines.last() },
                ));
            }
        } else {
            let kind;
            let content;
            if line.len() == 0 {
                kind = LineKind::Context;
                content = String::new();
                assert(content@ =~= line@);
            } else if line[0] == '+' {
                kind = LineKind::Added;
                content = string_of(line, 1, line.len());
            } else if line[0] == '-' {
                kind = LineKind::Removed;
                content = string_of(line, 1, line.len());
            } else if line[0] == ' ' {
                kind = LineKind::Context;
                content = string_of(line, 1, line.len());
            } else {
                let bad = string_of(line, 0, line.len());
                proof {
                    assert(line@.subrange(0, line@.len() as int) =~= line@);
                    lemma_body_failed_stays(body, k - i, os as int, ns as int);
                }
                return BodyOutcome::Failed(bad);
            }
            let old_lineno;
            let new_lineno;
            match kind {
                LineKind::Context => {
                    if old_c == u32::MAX || new_c == u32::MAX {
                        proof {
                            lemma_body_cursors_grow(body, k - i, os as int, ns as int);
                        }
                        return BodyOutcome::Overflow;
                    }
                    old_lineno = Some(old_c);
                    new_lineno = Some(new_c);
                    old_c = old_c + 1;
                    new_c = new_c + 1;
                },
                LineKind::Removed => {
                    if old_c == u32::MAX {
                        proof {
                            lemma_body_cursors_grow(body, k - i, os as int, ns as int);
                        }
                        return BodyOutcome::Overflow;
                    }
                    old_lineno = Some(old_c);
                    new_lineno = None;
                    old_c = old_c + 1;
                },
                LineKind::Added => {
                    if new_c == u32::MAX {
                        proof {
                            lemma_body_cursors_grow(body, k - i, os as int, ns as int);
                        }
                        return BodyOutcome::Overflow;
                    }
                    old_lineno = None;
                    new_lineno = Some(new_c);
                    new_c = new_c + 1;
                },
            }
            let ghost before_out = out@;
            out.push(DiffLine { kind, content, old_lineno, new_lineno, no_newline_at_eof: false });
            assert(lines_view(out@) =~= lines_view(before_out).push(
                out@[out@.len() - 1]@,
            ));
        }
        assert(step == (BodyScan {
            lines: lines_view(out@),
            old_cursor: old_c as int,
            new_cursor: new_c as int,
            failed: None,
        }));
        k += 1;
    }
    proof {
        assert(next_marker(ls, k as int) == k as int);
        assert(body.take(k - i - 1) =~= body);
    }
    BodyOutcome::Read(out, k)
}

enum HunkOutcome {
    /// A line number went past `u32::MAX`.
    Overflow,
    Error(DiffParseError),
    /// The hunk, and the index of the line after it.
    Read(Hunk, usize),
}

/// Reads the hunk whose header is `lines[i]`.
fn read_hunk(lines: &Vec<Vec<char>>, i: usize) -> (r: HunkOutcome)
    requires
        i < lines.len(),
    ensures
        ({
            let ls = lines.deep_view();
            match r {
                HunkOutcome::Overflow => !hunks_fit(ls, i as int),
                HunkOutcome::Error(e) => hunks_fit(ls, i as int) && hunks_from(ls, i as int) == Err::<
                    Seq<HunkView>,
                    DiffParseErrorView,
                >(e@),
                HunkOutcome::Read(h, j) => {
                    &&& i < j <= lines.len()
                    &&& hunks_fit(ls, i as int) == hunks_fit(ls, j as int)
                    &&& hunks_from(ls, i as int) == prepend_hunks(seq![h@], hunks_from(ls, j as int))
                },
            }
        }),
{
    let ghost ls = lines.deep_view();
    let line = &lines[i];
    assert(line@ == ls[i as int]) by {
        assert(lines@[i as int].deep_view() =~= lines@[i as int]@);
    }
    match parse_hunk_header(line) {
        HunkHeader::NoMatch => {
            let text = string_of(line, 0, line.len());
            assert(line@.subrange(0, line@.len() as int) =~= line@);
            HunkOutcome::Error(DiffParseError::ExpectedHunkHeader(text))
        },
        HunkHeader::OutOfRange => {
            let text = string_of(line, 0, line.len());
            assert(line@.subrange(0, line@.len() as int) =~= line@);
            HunkOutcome::Error(DiffParseError::NumberOutOfRange(text))
        },
        HunkHeader::Parsed(old_start, old_lines, new_start, new_lines) => {
            proof {
                lemma_next_marker_bounds(ls, i + 1);
            }
            match read_hunk_body(lines, i, old_start, new_start) {
                BodyOutcome::Overflow => HunkOutcome::Overflow,
                BodyOutcome::Failed(bad) => HunkOutcome::Error(DiffParseError::UnexpectedLine(bad)),
                BodyOutcome::Read(out, j) => {
                    let hunk = Hunk { old_start, old_lines, new_start, new_lines, lines: out };
                    HunkOutcome::Read(hunk, j)
                },
            }
        },
    }
}

/// The path that a `---`/`+++` header line at `line` names, from `pos` on,
/// without git's `a/`/`b/` prefix.
fn header_path(line: &Vec<char>, pos: usize) -> (r: String)
    requires
        pos <= line.len(),
    ensures
        r@ == strip_ab_prefix(after(line@, pos as int)),
{
    proof {
        reveal_strlit("a/");
        reveal_strlit("b/");
    }
    if starts_with_at(line, pos, "a/") {
        assert(after(after(line@, pos as int), 2) =~= line@.subrange(pos + 2, line@.len() as int));
        string_of(line, pos + 2, line.len())
    } else if starts_with_at(line, pos, "b/") {
        assert(after(after(line@, pos as int), 2) =~= line@.subrange(pos + 2, line@.len() as int));
        string_of(line, pos + 2, line.len())
    } else {
        string_of(line, pos, line.len())
    }
}

/// Parses the unified diff of one file. `None` when a line number would go
/// past `u32::MAX`.
pub fn parse_file_diff_checked(raw: &str) -> (r: Option<Result<FileDiff, DiffParseError>>)
    ensures
        r is None <==> !parse_fits(raw@),
        r matches Some(res) ==> match res {
            Ok(d) => parse_spec(raw@) == Ok::<FileDiffView, DiffParseErrorView>(d@),
            Err(e) => parse_spec(raw@) == Err::<FileDiffView, DiffParseErrorView>(e@),
        },
{
    let lines = stripped_lines(raw);
    let ghost ls = lines.deep_view();
    assert(ls == diff_text_lines(raw@));

    let mut old_path = String::new();
    let mut new_path = String::new();
    let mut is_new_file = false;
    let mut is_deleted_file = false;
    let mut is_binary = false;
    let mut raw_header_lines: Vec<String> = Vec::new();

    let mut i: usize = 0;
    assert(ls.take(0) =~= Seq::<Seq<char>>::empty());
    while i < lines.len()
        invariant
            0 <= i <= lines.len(),
            ls == lines.deep_view(),
            next_marker(ls, 0) == next_marker(ls, i as int),
            header_fold(ls.take(i as int)) == (HeaderInfo {
                old_path: old_path@,
                new_path: new_path@,
                is_new_file,
                is_deleted_file,
                is_binary,
            }),
            strings_view(raw_header_lines@) == ls.take(i as int),
        ensures
            0 <= i <= lines.len(),
            i == lines.len() || is_hunk_marker(ls[i as int]),
            next_marker(ls, 0) == next_marker(ls, i as int),
            header_fold(ls.take(i as int)) == (HeaderInfo {
                old_path: old_path@,
                new_path: new_path@,
                is_new_file,
                is_deleted_file,
                is_binary,
            }),
            strings_view(raw_header_lines@) == ls.take(i as int),
        decreases lines.len() - i,
    {
        let line = &lines[i];
        assert(line@ == ls[i as int]) by {
            assert(lines@[i as int].deep_view() =~= lines@[i as int]@);
        }
        if starts_with(line, "@@ -") {
            break;
        }
        assert(ls.take(i + 1).drop_last() =~= ls.take(i as int));
        assert(next_marker(ls, i as int) == next_marker(ls, i + 1));
        proof {
            reveal_strlit("--- ");
            reveal_strlit("+++ ");
        }
        if starts_with(line, "new file mode") {
            is_new_file = true;
        } else if starts_with(line, "deleted file mode") {
            is_deleted_file = true;
        } else if starts_with(line, "--- ") {
            old_path = header_path(line, 4);
        } else if starts_with(line, "+++ ") {
            new_path = header_path(line, 4);
        } else if starts_with(line, "Binary files") || starts_with(line, "GIT binary patch") {
            is_binary = true;
        }
        let text = string_of(line, 0, line.len());
        assert(line@.subrange(0, line@.len() as int) =~= line@);
        let ghost before = raw_header_lines@;
        raw_header_lines.push(text);
        assert(strings_view(raw_header_lines@) =~= strings_view(before).push(line@));
        i += 1;
    }
    let h = i;
    assert(next_marker(ls, h as int) == h as int);
    assert(header_end(ls) == h);
    let ghost info = header_fold(ls.take(h as int));
    assert(parse_fits(raw@) == (info.is_binary || hunks_fit(ls, h as int)));
    assert(parse_spec(raw@) == (if info.is_binary {
        Ok(diff_of(info, Seq::empty(), ls.take(h as int)))
    } else {
        match hunks_from(ls, h as int) {
            Ok(hunks) => Ok(diff_of(info, hunks, ls.take(h as int))),
            Err(e) => Err(e),
        }
    }));

    if is_binary {
        let no_hunks: Vec<Hunk> = Vec::new();
        assert(hunks_view(no_hunks@) =~= Seq::<HunkView>::empty());
        return Some(
            Ok(
                FileDiff {
                    old_path,
                    new_path,
                    is_new_file,
                    is_deleted_file,
                    is_binary,
                    hunks: no_hunks,
                    raw_header_lines,
                },
            ),
        );
    }

    let mut hunks: Vec<Hunk> = Vec::new();
    while i < lines.len()
        invariant
            h <= i <= lines.len(),
            ls == lines.deep_view(),
            hunks_from(ls, h as int) == prepend_hunks(hunks_view(hunks@), hunks_from(ls, i as int)),
            hunks_fit(ls, h as int) == hunks_fit(ls, i as int),
            !info.is_binary,
            parse_fits(raw@) == hunks_fit(ls, h as int),
            parse_spec(raw@) == match hunks_from(ls, h as int) {
                Ok(hs) => Ok(diff_of(info, hs, ls.take(h as int))),
                Err(e) => Err(e),
            },
            info == (HeaderInfo {
                old_path: old_path@,
                new_path: new_path@,
                is_new_file,
                is_deleted_file,
                is_binary,
            }),
            strings_view(raw_header_lines@) == ls.take(h as int),
        decreases lines.len() - i,
    {
        match read_hunk(&lines, i) {
            HunkOutcome::Overflow => {
                assert(!hunks_fit(ls, h as int));
                return None;
            },
            HunkOutcome::Error(e) => {
                assert(hunks_from(ls, h as int) == Err::<Seq<HunkView>, DiffParseErrorView>(e@));
                return Some(Err(e));
            },
            HunkOutcome::Read(hunk, j) => {
                let ghost done = hunks_view(hunks@);
                let ghost rest = hunks_from(ls, j as int);
                hunks.push(hunk);
                assert(hunks_view(hunks@) =~= done.push(hunk@));
                assert(prepend_hunks(done, hunks_from(ls, i as int)) == prepend_hunks(
                    done.push(hunk@),
                    rest,
                )) by {
                    match rest {
                        Ok(r) => {
                            assert(done + (seq![hunk@] + r) =~= done.push(hunk@) + r);
                        },
                        Err(e) => {},
                    }
                }
                i = j;
            },
        }
    }
    assert(hunks_view(hunks@) + Seq::<HunkView>::empty() =~= hunks_view(hunks@));
    Some(
        Ok(
            FileDiff {
                old_path,
                new_path,
                is_new_file,
                is_deleted_file,
                is_binary,
                hunks,
                raw_header_lines,
            },
        ),
    )
}

/// Parses the unified diff of one file, as produced by `git diff -- <path>`
/// or `git diff --no-index -- <null-device> <path>`.
pub fn parse_file_diff(raw: &str) -> (r: Result<FileDiff, DiffParseError>)
    requires
        parse_fits(raw@),
    ensures
        match r {
            Ok(d) => parse_spec(raw@) == Ok::<FileDiffView, DiffParseErrorView>(d@),
            Err(e) => parse_spec(raw@) == Err::<FileDiffView, DiffParseErrorView>(e@),
        },
{
    match parse_file_diff_checked(raw) {
        Some(res) => res,
        None => {
            assert(false);
            Err(DiffParseError::UnexpectedLine(String::new()))
        },
    }
}

// ---------------------------------------------------------------------
// Laws
// ---------------------------------------------------------------------

/// A line carries the line numbers its kind calls for: a context line has
/// both, a removed line only the old one, an added line only the new one.
pub open spec fn numbers_follow_kind(l: DiffLineView) -> bool {
    match l.kind {
        LineKind::Context => l.old_lineno is Some && l.new_lineno is Some,
        LineKind::Removed => l.old_lineno is Some && l.new_lineno is None,
        LineKind::Added => l.old_lineno is None && l.new_lineno is Some,
    }
}

pub open spec fn all_numbered(lines: Seq<DiffLineView>) -> bool {
    forall|i: int| 0 <= i < lines.len() ==> numbers_follow_kind(#[trigger] lines[i])
}

proof fn lemma_body_numbered(body: Seq<Seq<char>>, os: int, ns: int)
    ensures
        all_numbered(body_fold(body, os, ns).lines),
    decreases body.len(),
{
    if body.len() > 0 {
        lemma_body_numbered(body.drop_last(), os, ns);
        let acc = body_fold(body.drop_last(), os, ns);
        let next = body_fold(body, os, ns);
        assert(next == body_step(acc, body.last()));
        assert forall|i: int| 0 <= i < next.lines.len() implies numbers_follow_kind(
            #[trigger] next.lines[i],
        ) by {
            if i < acc.lines.len() {
                assert(numbers_follow_kind(acc.lines[i]));
            }
        }
    }
}

proof fn lemma_hunks_numbered(lines: Seq<Seq<char>>, i: int)
    ensures
        hunks_from(lines, i) matches Ok(hs) ==> forall|h: int|
            0 <= h < hs.len() ==> all_numbered(#[trigger] hs[h].lines),
    decreases lines.len() - i,
{
    if 0 <= i < lines.len() {
        match hunk_header_spec(lines[i]) {
            HunkHeaderSpec::Parsed { old_start, old_lines, new_start, new_lines } => {
                let j = next_marker(lines, i + 1);
                lemma_next_marker_bounds(lines, i + 1);
                lemma_body_numbered(lines.subrange(i + 1, j), old_start as int, new_start as int);
                lemma_hunks_numbered(lines, j);
                if let Ok(hs) = hunks_from(lines, i) {
                    let rest = hunks_from(lines, j)->Ok_0;
                    assert(hs == seq![hs[0]] + rest);
                    assert forall|h: int| 0 <= h < hs.len() implies all_numbered(#[trigger] hs[h].lines) by {
                        if h > 0 {
                            assert(hs[h] == rest[h - 1]);
                        }
                    }
                }
            },
            _ => {},
        }
    }
}

/// Every line of every parsed hunk carries the line numbers its kind calls
/// for: a context line has both, a removed line only the old one, an added
/// line only the new one.
pub proof fn law_parsed_lines_are_numbered_by_kind(raw: Seq<char>)
    requires
        parse_spec(raw) is Ok,
    ensures
        forall|h: int|
            0 <= h < parse_spec(raw)->Ok_0.hunks.len() ==> all_numbered(
                #[trigger] parse_spec(raw)->Ok_0.hunks[h].lines,
            ),
{
    let lines = diff_text_lines(raw);
    lemma_hunks_numbered(lines, header_end(lines));
}


/// A hunk header as the patch writer prints it reads back as the numbers
/// it was printed from: old start and count, new start and count.
pub proof fn law_hunk_header_round_trip(os: nat, oc: nat, ns: nat, nc: nat)
    requires
        os <= u32::MAX,
        oc <= u32::MAX,
        ns <= u32::MAX,
        nc <= u32::MAX,
    ensures
        hunk_header_spec(hunk_header_text(os, oc, ns, nc)) == (HunkHeaderSpec::Parsed {
            old_start: os,
            old_lines: oc,
            new_start: ns,
            new_lines: nc,
        }),
{
    reveal_strlit("@@ -");
    reveal_strlit(" +");
    reveal_strlit(" @@");
    reveal_strlit(" @@\n");
    lemma_decimal_reads_back(os);
    lemma_decimal_reads_back(oc);
    lemma_decimal_reads_back(ns);
    lemma_decimal_reads_back(nc);
    let (d1, d2, d3, d4) = (decimal(os), decimal(oc), decimal(ns), decimal(nc));
    let p = "@@ -"@;
    let line = hunk_header_text(os, oc, ns, nc);
    assert(line =~= p + d1 + seq![','] + d2 + " +"@ + d3 + seq![','] + d4 + " @@\n"@);
    let e1: int = 4 + d1.len() as int;
    let e2: int = e1 + 1 + d2.len();
    let b: int = e2 + 2;
    let e3: int = b + d3.len();
    let e4: int = e3 + 1 + d4.len();
    assert(line.len() == e4 + 4);
    // Where each piece of the header sits.
    assert(line.subrange(0, 4) =~= p);
    assert(line.subrange(4, e1) =~= d1);
    assert(line[e1] == ',');
    assert(line.subrange(e1 + 1, e2) =~= d2);
    assert(line.subrange(e2, e2 + 2) =~= " +"@);
    assert(line.subrange(b, e3) =~= d3);
    assert(line[e3] == ',');
    assert(line.subrange(e3 + 1, e4) =~= d4);
    assert(line.subrange(e4, e4 + 3) =~= " @@"@);
    // Each number is a run of digits ending where the next piece begins.
    assert forall|k: int| 4 <= k < e1 implies is_ascii_digit(#[trigger] line[k]) by {
        assert(line[k] == line.subrange(4, e1)[k - 4]);
    }
    assert forall|k: int| e1 + 1 <= k < e2 implies is_ascii_digit(#[trigger] line[k]) by {
        assert(line[k] == line.subrange(e1 + 1, e2)[k - e1 - 1]);
    }
    assert forall|k: int| b <= k < e3 implies is_ascii_digit(#[trigger] line[k]) by {
        assert(line[k] == line.subrange(b, e3)[k - b]);
    }
    assert forall|k: int| e3 + 1 <= k < e4 implies is_ascii_digit(#[trigger] line[k]) by {
        assert(line[k] == line.subrange(e3 + 1, e4)[k - e3 - 1]);
    }
    assert(line[e2] == line.subrange(e2, e2 + 2)[0]);
    assert(line[e4] == line.subrange(e4, e4 + 3)[0]);
    lemma_digits_end_of_run(line, 4, d1.len() as int);
    lemma_digits_end_of_run(line, e1 + 1, d2.len() as int);
    lemma_digits_end_of_run(line, b, d3.len() as int);
    lemma_digits_end_of_run(line, e3 + 1, d4.len() as int);
    assert(after(line, e2).subrange(0, 2) =~= " +"@);
    assert(after(line, e4).subrange(0, 3) =~= " @@"@);
}


/// Line `i` of `lines` carries the numbers that counting from the starts
/// gives it: on the new side `new_start` plus the lines before it that are
/// not removals, on the old side `old_start` plus those that are not
/// additions.
pub open spec fn numbered_from(lines: Seq<DiffLineView>, i: int, old_start: int, new_start: int) -> bool {
    &&& (lines[i].kind != LineKind::Removed ==> lines[i].new_lineno == Some(
        (new_start + count_other_than(lines.take(i), LineKind::Removed)) as u32,
    ))
    &&& (lines[i].kind != LineKind::Added ==> lines[i].old_lineno == Some(
        (old_start + count_other_than(lines.take(i), LineKind::Added)) as u32,
    ))
}

proof fn lemma_body_counts(body: Seq<Seq<char>>, os: int, ns: int)
    ensures
        body_fold(body, os, ns).new_cursor == ns + count_other_than(
            body_fold(body, os, ns).lines,
            LineKind::Removed,
        ),
        body_fold(body, os, ns).old_cursor == os + count_other_than(
            body_fold(body, os, ns).lines,
            LineKind::Added,
        ),
        forall|i: int|
            0 <= i < body_fold(body, os, ns).lines.len() ==> #[trigger] numbered_from(
                body_fold(body, os, ns).lines,
                i,
                os,
                ns,
            ),
    decreases body.len(),
{
    if body.len() > 0 {
        lemma_body_counts(body.drop_last(), os, ns);
        let acc = body_fold(body.drop_last(), os, ns);
        let next = body_fold(body, os, ns);
        let raw = body.last();
        assert(next == body_step(acc, raw));
        let n = acc.lines.len() as int;
        if acc.failed is Some {
        } else if raw.len() > 0 && raw[0] == '\\' {
            if n > 0 {
                let ls = next.lines;
                assert(ls.drop_last() =~= acc.lines.drop_last());
                assert(count_other_than(ls, LineKind::Removed) == count_other_than(acc.lines, LineKind::Removed));
                assert(count_other_than(ls, LineKind::Added) == count_other_than(acc.lines, LineKind::Added));
                assert forall|i: int| 0 <= i < ls.len() implies #[trigger] numbered_from(ls, i, os, ns) by {
                    assert(ls.take(i) =~= acc.lines.take(i));
                    assert(numbered_from(acc.lines, i, os, ns));
                }
            }
        } else if raw.len() == 0 || raw[0] == '+' || raw[0] == '-' || raw[0] == ' ' {
            let ls = next.lines;
            assert(ls.len() == n + 1);
            assert(ls.drop_last() =~= acc.lines);
            assert forall|i: int| 0 <= i < ls.len() implies #[trigger] numbered_from(ls, i, os, ns) by {
                if i < n {
                    assert(ls.take(i) =~= acc.lines.take(i));
                    assert(ls[i] == acc.lines[i]);
                    assert(numbered_from(acc.lines, i, os, ns));
                } else {
                    assert(ls.take(i) =~= acc.lines);
                }
            }
        }
    }
}

proof fn lemma_hunks_count_numbers(lines: Seq<Seq<char>>, i: int)
    ensures
        hunks_from(lines, i) matches Ok(hs) ==> forall|h: int, k: int|
            0 <= h < hs.len() && 0 <= k < hs[h].lines.len() ==> #[trigger] numbered_from(
                hs[h].lines,
                k,
                hs[h].old_start as int,
                hs[h].new_start as int,
            ),
    decreases lines.len() - i,
{
    if 0 <= i < lines.len() {
        match hunk_header_spec(lines[i]) {
            HunkHeaderSpec::Parsed { old_start, old_lines, new_start, new_lines } => {
                let j = next_marker(lines, i + 1);
                lemma_next_marker_bounds(lines, i + 1);
                lemma_body_counts(lines.subrange(i + 1, j), old_start as int, new_start as int);
                lemma_hunks_count_numbers(lines, j);
                if let Ok(hs) = hunks_from(lines, i) {
                    let rest = hunks_from(lines, j)->Ok_0;
                    assert(hs == seq![hs[0]] + rest);
                    assert forall|h: int, k: int|
                        0 <= h < hs.len() && 0 <= k < hs[h].lines.len() implies #[trigger] numbered_from(
                        hs[h].lines,
                        k,
                        hs[h].old_start as int,
                        hs[h].new_start as int,
                    ) by {
                        if h > 0 {
                            assert(hs[h] == rest[h - 1]);
                        }
                    }
                }
            },
            _ => {},
        }
    }
}

/// The lines of every parsed hunk are numbered from the hunk's header: the
/// first line on each side gets the header's start, and each later line
/// the start plus the lines before it on that side (removals do not count
/// on the new side, additions not on the old side).
pub proof fn law_parsed_lines_count_from_header(raw: Seq<char>)
    requires
        parse_spec(raw) is Ok,
    ensures
        forall|h: int, k: int|
            0 <= h < parse_spec(raw)->Ok_0.hunks.len() && 0 <= k < parse_spec(raw)->Ok_0.hunks[h].lines.len()
                ==> #[trigger] numbered_from(
                parse_spec(raw)->Ok_0.hunks[h].lines,
                k,
                parse_spec(raw)->Ok_0.hunks[h].old_start as int,
                parse_spec(raw)->Ok_0.hunks[h].new_start as int,
            ),
{
    let lines = diff_text_lines(raw);
    lemma_hunks_count_numbers(lines, header_end(lines));
}

} // verus!
