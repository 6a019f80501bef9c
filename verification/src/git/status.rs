//! The working tree's changed files, from `git status --porcelain=v1 -z`.

use vstd::prelude::*;

use crate::git::command::{push_arg, GitCommand, plain_command};
use crate::text::{
    after, chars_of, nonempty_fields, skip_ws,
    split_nonempty, string_of, trim_start,
};

verus! {

#[derive(Debug, Clone, PartialEq, Eq, Structural)]
pub enum FileStatusKind {
    Modified,
    Added,
    Deleted,
    Renamed,
    Untracked,
    Conflicted,
}

#[derive(Debug, Clone)]
pub struct FileEntry {
    pub path: String,
    pub old_path: Option<String>,
    pub kind: FileStatusKind,
    pub staged: bool,
    pub has_unstaged_changes: bool,
}

/// Mathematical model of a `FileEntry`.
pub struct FileEntryView {
    pub path: Seq<char>,
    pub old_path: Option<Seq<char>>,
    pub kind: FileStatusKind,
    pub staged: bool,
    pub has_unstaged_changes: bool,
}

pub open spec fn opt_string_view(s: Option<String>) -> Option<Seq<char>> {
    match s {
        Some(v) => Some(v@),
        None => None,
    }
}

impl View for FileEntry {
    type V = FileEntryView;

    open spec fn view(&self) -> FileEntryView {
        FileEntryView {
            path: self.path@,
            old_path: opt_string_view(self.old_path),
            kind: self.kind,
            staged: self.staged,
            has_unstaged_changes: self.has_unstaged_changes,
        }
    }
}

// ---------------------------------------------------------------------
// Specification
// ---------------------------------------------------------------------

/// The kind of change a pair of porcelain status letters stands for.
pub open spec fn classify_spec(index_status: char, worktree_status: char) -> FileStatusKind {
    if index_status == '?' && worktree_status == '?' {
        FileStatusKind::Untracked
    } else if index_status == 'U' || worktree_status == 'U' {
        FileStatusKind::Conflicted
    } else if index_status == 'R' || index_status == 'C' {
        FileStatusKind::Renamed
    } else if index_status == 'A' {
        FileStatusKind::Added
    } else if index_status == 'D' || worktree_status == 'D' {
        FileStatusKind::Deleted
    } else {
        FileStatusKind::Modified
    }
}

pub open spec fn is_ascii(c: char) -> bool {
    (c as u32) < 0x80
}

/// A character that UTF-8 encodes in two bytes.
pub open spec fn is_two_byte(c: char) -> bool {
    0x80 <= (c as u32) < 0x800
}

/// The two status letters of a record and the rest of it. The letters are
/// the record's first two bytes, each read as a character; a record whose
/// second byte ends inside a character, or that is shorter than two bytes,
/// has none.
pub open spec fn record_code(r: Seq<char>) -> Option<(char, char, Seq<char>)> {
    if r.len() >= 2 && is_ascii(r[0]) && is_ascii(r[1]) {
        Some((r[0], r[1], after(r, 2)))
    } else if r.len() >= 1 && is_two_byte(r[0]) {
        Some(
            (
                ((0xC0 + (r[0] as u32) / 64) as u8) as char,
                ((0x80 + (r[0] as u32) % 64) as u8) as char,
                after(r, 1),
            ),
        )
    } else {
        None
    }
}

/// The entries the records `fields[i..]` describe. A rename or copy (`R`
/// or `C` in the index column) takes the record after it as its old path;
/// a record without status letters is skipped.
pub open spec fn entries_from(fields: Seq<Seq<char>>, i: int) -> Seq<FileEntryView>
    decreases fields.len() - i,
{
    if i < 0 || i >= fields.len() {
        Seq::empty()
    } else {
        match record_code(fields[i]) {
            None => entries_from(fields, i + 1),
            Some((ix, wt, rest)) => {
                let paired = (ix == 'R' || ix == 'C') && i + 1 < fields.len();
                let entry = FileEntryView {
                    path: trim_start(rest),
                    old_path: if paired {
                        Some(fields[i + 1])
                    } else {
                        None
                    },
                    kind: classify_spec(ix, wt),
                    staged: ix != ' ' && ix != '?',
                    has_unstaged_changes: wt != ' ' && wt != '?',
                };
                seq![entry] + entries_from(
                    fields,
                    if paired {
                        i + 2
                    } else {
                        i + 1
                    },
                )
            },
        }
    }
}

/// The entries of a `git status --porcelain=v1 -z` output.
pub open spec fn porcelain_spec(raw: Seq<char>) -> Seq<FileEntryView> {
    entries_from(nonempty_fields(raw, '\0'), 0)
}

// ---------------------------------------------------------------------
// Implementation
// ---------------------------------------------------------------------

/// The kind of change a pair of porcelain status letters stands for.
pub fn classify(index_status: char, worktree_status: char) -> (r: FileStatusKind)
    ensures
        r == classify_spec(index_status, worktree_status),
{
    if index_status == '?' && worktree_status == '?' {
        return FileStatusKind::Untracked;
    }
    if index_status == 'U' || worktree_status == 'U' {
        return FileStatusKind::Conflicted;
    }
    if index_status == 'R' || index_status == 'C' {
        return FileStatusKind::Renamed;
    }
    if index_status == 'A' {
        return FileStatusKind::Added;
    }
    if index_status == 'D' || worktree_status == 'D' {
        return FileStatusKind::Deleted;
    }
    FileStatusKind::Modified
}

/// The status letters of a record and where the rest of it starts.
fn read_code(r: &Vec<char>) -> (out: Option<(char, char, usize)>)
    ensures
        match out {
            Some((ix, wt, k)) => k <= r.len() && record_code(r@) == Some(
                (ix, wt, after(r@, k as int)),
            ),
            None => record_code(r@) is None,
        },
{
    if r.len() >= 2 && (r[0] as u32) < 0x80 && (r[1] as u32) < 0x80 {
        Some((r[0], r[1], 2))
    } else if r.len() >= 1 && 0x80 <= (r[0] as u32) && (r[0] as u32) < 0x800 {
        let cp = r[0] as u32;
        let lead = (0xC0 + cp / 64) as u8;
        let cont = (0x80 + cp % 64) as u8;
        Some((lead as char, cont as char, 1))
    } else {
        None
    }
}

/// Parses `git status --porcelain=v1 -z` output into file entries.
pub fn parse_porcelain_status(raw: &str) -> (r: Vec<FileEntry>)
    ensures
        r@.map_values(|e: FileEntry| e@) == porcelain_spec(raw@),
{
    let cs = chars_of(raw);
    let fields = split_nonempty(&cs, '\0');
    let ghost fs = fields.deep_view();
    let mut entries: Vec<FileEntry> = Vec::new();
    let mut i: usize = 0;
    assert(entries@.map_values(|e: FileEntry| e@) =~= Seq::<FileEntryView>::empty());
    while i < fields.len()
        invariant
            0 <= i <= fields.len(),
            fs == fields.deep_view(),
            fs == nonempty_fields(raw@, '\0'),
            entries_from(fs, 0) == entries@.map_values(|e: FileEntry| e@) + entries_from(
                fs,
                i as int,
            ),
        decreases fields.len() - i,
    {
        let record = &fields[i];
        assert(record@ == fs[i as int]) by {
            assert(fields@[i as int].deep_view() =~= fields@[i as int]@);
        }
        match read_code(record) {
            None => {
                i += 1;
            },
            Some((ix, wt, k)) => {
                let start = skip_ws(record, k);
                let path = string_of(record, start, record.len());
                assert(path@ =~= trim_start(after(record@, k as int))) by {
                    crate::text::lemma_skip_whitespace_shift(record@, k as int);
                }
                let paired = (ix == 'R' || ix == 'C') && i + 1 < fields.len();
                let old_path = if paired {
                    let next = &fields[i + 1];
                    assert(next@ == fs[i + 1]) by {
                        assert(fields@[i + 1].deep_view() =~= fields@[i + 1]@);
                    }
                    Some(string_of(next, 0, next.len()))
                } else {
                    None
                };
                if paired {
                    assert(fields@[i + 1]@.subrange(0, fields@[i + 1]@.len() as int) =~= fields@[i
                        + 1]@);
                }
                let entry = FileEntry {
                    path,
                    old_path,
                    kind: classify(ix, wt),
                    staged: ix != ' ' && ix != '?',
                    has_unstaged_changes: wt != ' ' && wt != '?',
                };
                let ghost before = entries@.map_values(|e: FileEntry| e@);
                let ghost ev = entry@;
                entries.push(entry);
                assert(entries@.map_values(|e: FileEntry| e@) =~= before.push(ev));
                let next_i = if paired {
                    i + 2
                } else {
                    i + 1
                };
                assert(before + entries_from(fs, i as int) =~= before.push(ev) + entries_from(
                    fs,
                    next_i as int,
                ));
                i = next_i;
            },
        }
    }
    assert(entries@.map_values(|e: FileEntry| e@) + Seq::<FileEntryView>::empty()
        =~= entries@.map_values(|e: FileEntry| e@));
    entries
}

/// `git status --porcelain=v1 -z`, whose output `parse_porcelain_status`
/// reads.
pub fn status_command() -> (r: GitCommand)
    ensures
        r@ == plain_command(seq!["status"@, "--porcelain=v1"@, "-z"@]),
{
    let mut args: Vec<String> = Vec::new();
    push_arg(&mut args, "status");
    push_arg(&mut args, "--porcelain=v1");
    push_arg(&mut args, "-z");
    assert(args.deep_view() =~= seq!["status"@, "--porcelain=v1"@, "-z"@]);
    GitCommand::plain(args)
}


// ---------------------------------------------------------------------
// Laws
// ---------------------------------------------------------------------

/// What the status letters of a record say, letter by letter: `??` is an
/// untracked file; a `U` on either side is a conflict; otherwise the index
/// letter `R` or `C` is a rename, `A` an addition, and a `D` on either
/// side a deletion (staged with `git rm`, or only removed from the
/// working tree); an `M` on either side with no other letter a
/// modification.
pub proof fn law_status_letters(index_status: char, worktree_status: char)
    ensures
        classify_spec('?', '?') == FileStatusKind::Untracked,
        index_status == 'U' || worktree_status == 'U' ==> classify_spec(index_status, worktree_status)
            == FileStatusKind::Conflicted,
        worktree_status != 'U' ==> classify_spec('D', worktree_status) == FileStatusKind::Deleted,
        worktree_status != 'U' ==> classify_spec('A', worktree_status) == FileStatusKind::Added,
        worktree_status != 'U' ==> classify_spec('R', worktree_status) == FileStatusKind::Renamed,
        worktree_status != 'U' ==> classify_spec('C', worktree_status) == FileStatusKind::Renamed,
        index_status == ' ' || index_status == 'M' ==> classify_spec(index_status, 'D')
            == FileStatusKind::Deleted,
        (index_status == ' ' || index_status == 'M') && (worktree_status == ' ' || worktree_status
            == 'M') ==> classify_spec(index_status, worktree_status) == FileStatusKind::Modified,
{
}

} // verus!
