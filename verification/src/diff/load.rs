//! Getting diffs out of git: the invocations, and cutting a multi-file
//! `git diff` output into one text per file.

use vstd::prelude::*;

use crate::diff::parser::{parse_file_diff_checked, parse_fits, parse_spec};
use crate::git::command::{
    context_arg, push_arg, push_owned_arg, GitCommand, plain_command,
};
use crate::git::status::FileStatusKind;
use crate::text::{chars_of, decimal, has_prefix, push_char, push_chars, split_lines, starts_with, text_lines};
use crate::text_map::TextMap;

verus! {

/// The `-U<n>` argument.
pub open spec fn context_arg_spec(context_lines: u32) -> Seq<char> {
    "-U"@ + decimal(context_lines as nat)
}

/// The arguments of the `git diff` that loads one file: against HEAD for a
/// tracked file, against the null device for an untracked one (which HEAD
/// does not know).
pub open spec fn load_args(
    path: Seq<char>,
    untracked: bool,
    context_lines: u32,
    null_device: Seq<char>,
) -> Seq<Seq<char>> {
    if untracked {
        seq![
            "diff"@,
            "--no-color"@,
            "--no-index"@,
            context_arg_spec(context_lines),
            "--"@,
            null_device,
            path,
        ]
    } else {
        seq!["diff"@, "HEAD"@, "--no-color"@, context_arg_spec(context_lines), "--"@, path]
    }
}

/// Cutting lines into per-file texts: the texts finished so far and the
/// one under way. A line starting `diff --git ` opens a new text unless
/// nothing is under way; every line keeps a `'\n'` ending.
pub open spec fn file_chunks_scan(lines: Seq<Seq<char>>) -> (Seq<Seq<char>>, Seq<char>)
    decreases lines.len(),
{
    if lines.len() == 0 {
        (Seq::empty(), Seq::empty())
    } else {
        let (done, cur) = file_chunks_scan(lines.drop_last());
        let line = lines.last();
        if has_prefix(line, "diff --git "@) && cur.len() > 0 {
            (done.push(cur), line.push('\n'))
        } else {
            (done, cur + line.push('\n'))
        }
    }
}

/// The per-file texts of a multi-file `git diff` output.
pub open spec fn file_chunks(raw: Seq<char>) -> Seq<Seq<char>> {
    let (done, cur) = file_chunks_scan(text_lines(raw));
    if cur.len() > 0 {
        done.push(cur)
    } else {
        done
    }
}

/// Hunk counts by display path of the texts `chunks`: a text that does not
/// parse counts for nothing, and a later text for the same path wins.
pub open spec fn counts_of_chunks(chunks: Seq<Seq<char>>) -> Map<Seq<char>, usize>
    decreases chunks.len(),
{
    if chunks.len() == 0 {
        Map::empty()
    } else {
        let m = counts_of_chunks(chunks.drop_last());
        match parse_spec(chunks.last()) {
            Ok(d) => m.insert(d.display_path(), d.hunks.len() as usize),
            Err(_) => m,
        }
    }
}

/// Every text of `chunks` has line numbers that fit in a `u32`.
pub open spec fn chunks_fit(chunks: Seq<Seq<char>>) -> bool {
    forall|i: int| 0 <= i < chunks.len() ==> parse_fits(#[trigger] chunks[i])
}

/// The `git diff` for one file, staged and unstaged changes together, so
/// that the hunks stay the same whichever of them are already staged. An
/// untracked file is diffed against `null_device`, and that diff exits 1
/// when there are differences.
pub fn load_file_diff_command(
    path: &str,
    kind: &FileStatusKind,
    context_lines: u32,
    null_device: &str,
) -> (r: GitCommand)
    ensures
        r@.args == load_args(path@, *kind == FileStatusKind::Untracked, context_lines, null_device@),
        r@.allowed_exit_codes == if *kind == FileStatusKind::Untracked {
            seq![0i32, 1i32]
        } else {
            seq![0i32]
        },
        r@.stdin is None,
{
    let mut args: Vec<String> = Vec::new();
    push_arg(&mut args, "diff");
    let untracked = match kind {
        FileStatusKind::Untracked => true,
        _ => false,
    };
    if untracked {
        push_arg(&mut args, "--no-color");
        push_arg(&mut args, "--no-index");
        push_owned_arg(&mut args, context_arg(context_lines));
        push_arg(&mut args, "--");
        push_arg(&mut args, null_device);
        push_arg(&mut args, path);
        assert(args.deep_view() =~= load_args(path@, true, context_lines, null_device@));
        GitCommand::allowing_one(args)
    } else {
        push_arg(&mut args, "HEAD");
        push_arg(&mut args, "--no-color");
        push_owned_arg(&mut args, context_arg(context_lines));
        push_arg(&mut args, "--");
        push_arg(&mut args, path);
        assert(args.deep_view() =~= load_args(path@, false, context_lines, null_device@));
        GitCommand::plain(args)
    }
}

/// `git diff HEAD --no-color -U<n>`: every tracked file's changes at once.
pub fn hunk_counts_command(context_lines: u32) -> (r: GitCommand)
    ensures
        r@ == plain_command(
            seq!["diff"@, "HEAD"@, "--no-color"@, context_arg_spec(context_lines)],
        ),
{
    let mut args: Vec<String> = Vec::new();
    push_arg(&mut args, "diff");
    push_arg(&mut args, "HEAD");
    push_arg(&mut args, "--no-color");
    push_owned_arg(&mut args, context_arg(context_lines));
    assert(args.deep_view() =~= seq![
        "diff"@,
        "HEAD"@,
        "--no-color"@,
        context_arg_spec(context_lines),
    ]);
    GitCommand::plain(args)
}

/// Appends `line` and a `'\n'` to `s`.
fn push_line(s: &mut String, line: &Vec<char>)
    ensures
        final(s)@ == old(s)@ + line@.push('\n'),
{
    push_chars(s, line, 0, line.len());
    push_char(s, '\n');
    assert(old(s)@ + line@.subrange(0, line@.len() as int) + seq!['\n'] =~= old(s)@ + line@.push(
        '\n',
    ));
}

/// Cuts a multi-file `git diff` output into one text per file, each
/// starting with its own `diff --git` line.
pub fn split_into_file_diffs(raw: &str) -> (r: Vec<String>)
    ensures
        r.deep_view() == file_chunks(raw@),
{
    let cs = chars_of(raw);
    let lines = split_lines(&cs);
    let ghost ls = lines.deep_view();
    let mut chunks: Vec<String> = Vec::new();
    let mut current = String::new();
    let mut i: usize = 0;
    assert(ls.take(0) =~= Seq::<Seq<char>>::empty());
    assert(chunks.deep_view() =~= Seq::<Seq<char>>::empty());
    while i < lines.len()
        invariant
            0 <= i <= lines.len(),
            ls == lines.deep_view(),
            ls == text_lines(raw@),
            (chunks.deep_view(), current@) == file_chunks_scan(ls.take(i as int)),
        decreases lines.len() - i,
    {
        let line = &lines[i];
        assert(line@ == ls[i as int]) by {
            assert(lines@[i as int].deep_view() =~= lines@[i as int]@);
        }
        assert(ls.take(i + 1).drop_last() =~= ls.take(i as int));
        assert(ls.take(i + 1).last() == ls[i as int]);
        if starts_with(line, "diff --git ") && !current.as_str().is_empty() {
            let ghost before = chunks.deep_view();
            let ghost cv = current@;
            chunks.push(current);
            assert(chunks.deep_view() =~= before.push(cv));
            current = String::new();
            push_line(&mut current, line);
            assert(current@ =~= line@.push('\n'));
        } else {
            push_line(&mut current, line);
        }
        i += 1;
    }
    assert(ls.take(lines.len() as int) =~= ls);
    if !current.as_str().is_empty() {
        let ghost before = chunks.deep_view();
        let ghost cv = current@;
        chunks.push(current);
        assert(chunks.deep_view() =~= before.push(cv));
    }
    chunks
}

/// Hunk counts by display path for a multi-file `git diff` output; a file
/// whose diff does not parse is left out. `None` when some file's line
/// numbers do not fit in a `u32`.
pub fn count_hunks_in_output(raw: &str) -> (r: Option<TextMap<usize>>)
    ensures
        match r {
            Some(m) => chunks_fit(file_chunks(raw@)) && m.view() == counts_of_chunks(
                file_chunks(raw@),
            ),
            None => !chunks_fit(file_chunks(raw@)),
        },
{
    let chunks = split_into_file_diffs(raw);
    let ghost ch = chunks.deep_view();
    let mut counts: TextMap<usize> = TextMap::new();
    let mut i: usize = 0;
    assert(ch.take(0) =~= Seq::<Seq<char>>::empty());
    while i < chunks.len()
        invariant
            0 <= i <= chunks.len(),
            ch == chunks.deep_view(),
            ch == file_chunks(raw@),
            forall|k: int| 0 <= k < i ==> parse_fits(#[trigger] ch[k]),
            counts.view() == counts_of_chunks(ch.take(i as int)),
        decreases chunks.len() - i,
    {
        assert(chunks@[i as int]@ == ch[i as int]) by {
            assert(chunks@[i as int].deep_view() =~= chunks@[i as int]@);
        }
        assert(ch.take(i + 1).drop_last() =~= ch.take(i as int));
        assert(ch.take(i + 1).last() == ch[i as int]);
        match parse_file_diff_checked(chunks[i].as_str()) {
            None => {
                return None;
            },
            Some(Ok(d)) => {
                let path = d.display_path().to_owned();
                counts.insert(path, d.hunks.len());
            },
            Some(Err(_)) => {},
        }
        i += 1;
    }
    assert(ch.take(chunks.len() as int) =~= ch);
    Some(counts)
}

} // verus!
