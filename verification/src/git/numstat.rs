//! Added and removed line counts of every changed file, from
//! `git diff HEAD --numstat`.

use vstd::prelude::*;

use crate::git::command::{push_arg, GitCommand, plain_command};
use crate::text::{after, chars_of, find_char, find_from, lemma_find_from_bounds, split_lines, string_of, text_lines};
use crate::text_map::TextMap;
use crate::tui::triage_screen::{numstat_spec, parse_numstat_line};

verus! {

/// The path of a `--numstat` line: what follows its second tab.
pub open spec fn numstat_path(line: Seq<char>) -> Seq<char> {
    let a = find_from(line, 0, '\t');
    let b = find_from(line, a + 1, '\t');
    if b < line.len() {
        after(line, b + 1)
    } else {
        Seq::empty()
    }
}

/// The counts by path of the lines `lines`; a line without two numbers
/// (a binary file) or without a path gives nothing, and a later line for
/// the same path wins.
pub open spec fn numstats_of_lines(lines: Seq<Seq<char>>) -> Map<Seq<char>, (u32, u32)>
    decreases lines.len(),
{
    if lines.len() == 0 {
        Map::empty()
    } else {
        let m = numstats_of_lines(lines.drop_last());
        let line = lines.last();
        match numstat_spec(line) {
            Some(c) => if numstat_path(line).len() > 0 {
                m.insert(numstat_path(line), c)
            } else {
                m
            },
            None => m,
        }
    }
}

/// `git diff HEAD --no-color --numstat`: the counts of every tracked file
/// changed since HEAD, staged or not.
pub fn head_numstat_command() -> (r: GitCommand)
    ensures
        r@ == plain_command(seq!["diff"@, "HEAD"@, "--no-color"@, "--numstat"@]),
{
    let mut args: Vec<String> = Vec::new();
    push_arg(&mut args, "diff");
    push_arg(&mut args, "HEAD");
    push_arg(&mut args, "--no-color");
    push_arg(&mut args, "--numstat");
    assert(args.deep_view() =~= seq!["diff"@, "HEAD"@, "--no-color"@, "--numstat"@]);
    GitCommand::plain(args)
}

fn numstat_path_exec(line: &Vec<char>) -> (r: String)
    ensures
        r@ == numstat_path(line@),
{
    proof {
        lemma_find_from_bounds(line@, 0, '\t');
    }
    let a = match find_char(line, 0, '\t') {
        Some(a) => a,
        None => {
            return String::new();
        },
    };
    proof {
        lemma_find_from_bounds(line@, a + 1, '\t');
    }
    match find_char(line, a + 1, '\t') {
        Some(b) => string_of(line, b + 1, line.len()),
        None => String::new(),
    }
}

/// The counts by path of a `git diff --numstat` output.
pub fn parse_numstat_map(raw: &str) -> (r: TextMap<(u32, u32)>)
    ensures
        r.view() == numstats_of_lines(text_lines(raw@)),
{
    let lines = split_lines(&chars_of(raw));
    let ghost ls = lines.deep_view();
    let mut m: TextMap<(u32, u32)> = TextMap::new();
    let mut i: usize = 0;
    assert(ls.take(0) =~= Seq::<Seq<char>>::empty());
    while i < lines.len()
        invariant
            0 <= i <= lines.len(),
            ls == lines.deep_view(),
            ls == text_lines(raw@),
            m.view() == numstats_of_lines(ls.take(i as int)),
        decreases lines.len() - i,
    {
        assert(lines@[i as int]@ == ls[i as int]) by {
            assert(lines@[i as int].deep_view() =~= lines@[i as int]@);
        }
        assert(ls.take(i + 1).drop_last() =~= ls.take(i as int));
        assert(ls.take(i + 1).last() == ls[i as int]);
        match parse_numstat_line(&lines[i]) {
            Some(c) => {
                let path = numstat_path_exec(&lines[i]);
                if !path.as_str().is_empty() {
                    m.insert(path, c);
                }
            },
            None => {},
        }
        i += 1;
    }
    assert(ls.take(i as int) =~= ls);
    m
}

} // verus!
