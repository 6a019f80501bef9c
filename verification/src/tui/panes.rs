//! What the Files, Commits and text panes show, apart from colours and
//! layout: status letters, change counts, hunk progress, row texts, the
//! kind of each line of a diff, and how far a text pane may scroll.

use vstd::prelude::*;

use crate::git::commit::CommitInfo;
use crate::git::status::{FileEntry, FileStatusKind};
use crate::text::{chars_of, decimal, has_prefix, push_decimal, push_str, starts_with};

verus! {

/// What the Files pane shows after a path.
#[derive(Debug, Clone, Copy, PartialEq, Eq, Structural)]
pub enum FileStat {
    /// A file with no history: untracked or added.
    New,
    Deleted,
    /// Added and removed line counts.
    Counts(u32, u32),
}

/// The kind of a line of `git diff` or `git show` output, as `git --color`
/// would tell them apart.
#[derive(Debug, Clone, Copy, PartialEq, Eq, Structural)]
pub enum LineTint {
    CommitHeader,
    FileHeader,
    Added,
    Removed,
    HunkHeader,
    Plain,
}

pub open spec fn status_letter_spec(kind: FileStatusKind) -> Seq<char> {
    match kind {
        FileStatusKind::Modified => "M"@,
        FileStatusKind::Added => "A"@,
        FileStatusKind::Deleted => "D"@,
        FileStatusKind::Renamed => "R"@,
        FileStatusKind::Untracked => "?"@,
        FileStatusKind::Conflicted => "U"@,
    }
}

/// `+` when everything is staged, `~` when only part is, a space when
/// nothing is.
pub open spec fn staged_indicator_spec(staged: bool, has_unstaged_changes: bool) -> Seq<char> {
    if staged && !has_unstaged_changes {
        "+"@
    } else if staged {
        "~"@
    } else {
        " "@
    }
}

pub open spec fn line_tint_spec(line: Seq<char>) -> LineTint {
    if has_prefix(line, "commit "@) {
        LineTint::CommitHeader
    } else if has_prefix(line, "+++"@) || has_prefix(line, "---"@) {
        LineTint::FileHeader
    } else if has_prefix(line, "+"@) {
        LineTint::Added
    } else if has_prefix(line, "-"@) {
        LineTint::Removed
    } else if has_prefix(line, "@@"@) {
        LineTint::HunkHeader
    } else {
        LineTint::Plain
    }
}

/// The status letter of a file.
pub fn status_letter(kind: &FileStatusKind) -> (r: &'static str)
    ensures
        r@ == status_letter_spec(*kind),
{
    match kind {
        FileStatusKind::Modified => "M",
        FileStatusKind::Added => "A",
        FileStatusKind::Deleted => "D",
        FileStatusKind::Renamed => "R",
        FileStatusKind::Untracked => "?",
        FileStatusKind::Conflicted => "U",
    }
}

/// How much of a file is staged.
pub fn staged_indicator(entry: &FileEntry) -> (r: &'static str)
    ensures
        r@ == staged_indicator_spec(entry.staged, entry.has_unstaged_changes),
{
    if entry.staged && !entry.has_unstaged_changes {
        "+"
    } else if entry.staged {
        "~"
    } else {
        " "
    }
}

/// What the Files pane shows after a path: `NEW`, `DELETED`, or the line
/// counts (`(0, 0)` when they are not known).
pub fn file_stat(kind: &FileStatusKind, stats: Option<(u32, u32)>) -> (r: FileStat)
    ensures
        r == match *kind {
            FileStatusKind::Untracked | FileStatusKind::Added => FileStat::New,
            FileStatusKind::Deleted => FileStat::Deleted,
            _ => match stats {
                Some((a, d)) => FileStat::Counts(a, d),
                None => FileStat::Counts(0, 0),
            },
        },
{
    match kind {
        FileStatusKind::Untracked | FileStatusKind::Added => FileStat::New,
        FileStatusKind::Deleted => FileStat::Deleted,
        _ => match stats {
            Some((a, d)) => FileStat::Counts(a, d),
            None => FileStat::Counts(0, 0),
        },
    }
}

/// The hunk progress of a file: its decided and total hunk counts, from
/// its selection once it has been opened, else `0` decided out of the
/// counted hunks; nothing when the total is unknown or zero.
pub fn hunk_progress(selection_progress: Option<(usize, usize)>, hunk_count: Option<usize>) -> (r:
    Option<(usize, usize)>)
    ensures
        r == match selection_progress {
            Some((d, t)) => if t == 0 {
                None
            } else {
                Some((d, t))
            },
            None => match hunk_count {
                Some(t) => if t == 0 {
                    None
                } else {
                    Some((0usize, t))
                },
                None => None,
            },
        },
{
    let (decided, total) = match selection_progress {
        Some(p) => p,
        None => match hunk_count {
            Some(t) => (0, t),
            None => return None,
        },
    };
    if total == 0 {
        None
    } else {
        Some((decided, total))
    }
}

/// `hunks <decided>/<total>`.
pub fn progress_text(decided: usize, total: usize) -> (r: String)
    ensures
        r@ == "hunks "@ + decimal(decided as nat) + "/"@ + decimal(total as nat),
{
    let mut s = "hunks ".to_owned();
    push_decimal(&mut s, decided as u64);
    push_str(&mut s, "/");
    push_decimal(&mut s, total as u64);
    s
}

/// `+<added>` and `-<removed>`, the two parts of a line-count stat.
pub fn count_texts(added: u32, removed: u32) -> (r: (String, String))
    ensures
        r.0@ == "+"@ + decimal(added as nat),
        r.1@ == "-"@ + decimal(removed as nat),
{
    let mut a = "+".to_owned();
    push_decimal(&mut a, added as u64);
    let mut d = "-".to_owned();
    push_decimal(&mut d, removed as u64);
    (a, d)
}

/// The text of a row of the Commits pane: sha, date and message.
pub fn commit_row_text(commit: &CommitInfo) -> (r: String)
    ensures
        r@ == commit@.short_sha + " "@ + commit@.date + " "@ + commit@.message,
{
    let mut s = commit.short_sha.clone();
    push_str(&mut s, " ");
    push_str(&mut s, commit.date.as_str());
    push_str(&mut s, " ");
    push_str(&mut s, commit.message.as_str());
    s
}

/// The kind of a line of `git diff` or `git show` output.
pub fn line_tint(line: &str) -> (r: LineTint)
    ensures
        r == line_tint_spec(line@),
{
    let cs = chars_of(line);
    if starts_with(&cs, "commit ") {
        LineTint::CommitHeader
    } else if starts_with(&cs, "+++") || starts_with(&cs, "---") {
        LineTint::FileHeader
    } else if starts_with(&cs, "+") {
        LineTint::Added
    } else if starts_with(&cs, "-") {
        LineTint::Removed
    } else if starts_with(&cs, "@@") {
        LineTint::HunkHeader
    } else {
        LineTint::Plain
    }
}

/// The scroll of a bordered text pane of height `height` showing
/// `line_count` lines, clamped so that scrolling stops at the end of the
/// text. The line count is taken modulo 2^16, as a `u16` holds it.
pub fn clamp_scroll(scroll: u16, line_count: usize, height: u16) -> (r: u16)
    ensures
        ({
            let visible: int = if height >= 2 {
                height - 2
            } else {
                0
            };
            let lines: int = line_count as int % 0x10000;
            let max: int = if lines >= visible {
                lines - visible
            } else {
                0
            };
            r == if scroll <= max {
                scroll as int
            } else {
                max
            }
        }),
{
    let visible: u16 = if height >= 2 {
        height - 2
    } else {
        0
    };
    let lines: u16 = (line_count % 0x10000) as u16;
    let max: u16 = if lines >= visible {
        lines - visible
    } else {
        0
    };
    if scroll <= max {
        scroll
    } else {
        max
    }
}

} // verus!
