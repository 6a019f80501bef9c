//! The data a unified diff of one file is parsed into.

use vstd::prelude::*;

verus! {

#[derive(Debug, Clone, Copy, PartialEq, Eq, Structural)]
pub enum LineKind {
    Context,
    Added,
    Removed,
}

#[derive(Debug, Clone)]
pub struct DiffLine {
    pub kind: LineKind,
    pub content: String,
    pub old_lineno: Option<u32>,
    pub new_lineno: Option<u32>,
    /// True when this line is immediately followed by a
    /// `\ No newline at end of file` marker in the source diff.
    pub no_newline_at_eof: bool,
}

#[derive(Debug, Clone)]
pub struct Hunk {
    pub old_start: u32,
    pub old_lines: u32,
    pub new_start: u32,
    pub new_lines: u32,
    pub lines: Vec<DiffLine>,
}

#[derive(Debug, Clone)]
pub struct FileDiff {
    pub old_path: String,
    pub new_path: String,
    pub is_new_file: bool,
    pub is_deleted_file: bool,
    pub is_binary: bool,
    pub hunks: Vec<Hunk>,
    pub raw_header_lines: Vec<String>,
}

/// Mathematical model of a `DiffLine`.
pub struct DiffLineView {
    pub kind: LineKind,
    pub content: Seq<char>,
    pub old_lineno: Option<u32>,
    pub new_lineno: Option<u32>,
    pub no_newline_at_eof: bool,
}

/// Mathematical model of a `Hunk`.
pub struct HunkView {
    pub old_start: u32,
    pub old_lines: u32,
    pub new_start: u32,
    pub new_lines: u32,
    pub lines: Seq<DiffLineView>,
}

/// Mathematical model of a `FileDiff`.
pub struct FileDiffView {
    pub old_path: Seq<char>,
    pub new_path: Seq<char>,
    pub is_new_file: bool,
    pub is_deleted_file: bool,
    pub is_binary: bool,
    pub hunks: Seq<HunkView>,
    pub raw_header_lines: Seq<Seq<char>>,
}

impl View for DiffLine {
    type V = DiffLineView;

    open spec fn view(&self) -> DiffLineView {
        DiffLineView {
            kind: self.kind,
            content: self.content@,
            old_lineno: self.old_lineno,
            new_lineno: self.new_lineno,
            no_newline_at_eof: self.no_newline_at_eof,
        }
    }
}

pub open spec fn lines_view(lines: Seq<DiffLine>) -> Seq<DiffLineView> {
    lines.map_values(|l: DiffLine| l@)
}

impl View for Hunk {
    type V = HunkView;

    open spec fn view(&self) -> HunkView {
        HunkView {
            old_start: self.old_start,
            old_lines: self.old_lines,
            new_start: self.new_start,
            new_lines: self.new_lines,
            lines: lines_view(self.lines@),
        }
    }
}

pub open spec fn hunks_view(hunks: Seq<Hunk>) -> Seq<HunkView> {
    hunks.map_values(|h: Hunk| h@)
}

pub open spec fn strings_view(v: Seq<String>) -> Seq<Seq<char>> {
    v.map_values(|s: String| s@)
}

impl View for FileDiff {
    type V = FileDiffView;

    open spec fn view(&self) -> FileDiffView {
        FileDiffView {
            old_path: self.old_path@,
            new_path: self.new_path@,
            is_new_file: self.is_new_file,
            is_deleted_file: self.is_deleted_file,
            is_binary: self.is_binary,
            hunks: hunks_view(self.hunks@),
            raw_header_lines: strings_view(self.raw_header_lines@),
        }
    }
}

impl FileDiffView {
    /// The path a file is shown under: its old path once deleted, its new
    /// path otherwise.
    pub open spec fn display_path(self) -> Seq<char> {
        if self.is_deleted_file {
            self.old_path
        } else {
            self.new_path
        }
    }
}

impl FileDiff {
    pub fn display_path(&self) -> (r: &str)
        ensures
            r@ == self@.display_path(),
    {
        if self.is_deleted_file {
            self.old_path.as_str()
        } else {
            self.new_path.as_str()
        }
    }
}

/// A copy of `line`.
pub fn copy_line(line: &DiffLine) -> (r: DiffLine)
    ensures
        r@ == line@,
{
    DiffLine {
        kind: line.kind,
        content: line.content.clone(),
        old_lineno: line.old_lineno,
        new_lineno: line.new_lineno,
        no_newline_at_eof: line.no_newline_at_eof,
    }
}

/// A copy of `lines[start..end]`.
pub fn copy_lines(lines: &Vec<DiffLine>, start: usize, end: usize) -> (r: Vec<DiffLine>)
    requires
        start <= end <= lines.len(),
    ensures
        lines_view(r@) == lines_view(lines@).subrange(start as int, end as int),
{
    let mut r: Vec<DiffLine> = Vec::new();
    let mut i: usize = start;
    while i < end
        invariant
            start <= i <= end <= lines.len(),
            lines_view(r@) == lines_view(lines@).subrange(start as int, i as int),
        decreases end - i,
    {
        let l = copy_line(&lines[i]);
        let ghost before = r@;
        r.push(l);
        assert(lines_view(r@) =~= lines_view(before).push(lines@[i as int]@));
        i += 1;
        assert(lines_view(r@) =~= lines_view(lines@).subrange(start as int, i as int));
    }
    r
}

} // verus!
