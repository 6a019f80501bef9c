//! Commits: reading `git log` and `git show --name-only` output, and the
//! git invocations that produce it.

use vstd::prelude::*;

use crate::git::command::{push_arg, push_owned_arg, GitCommand, GitCommandView, plain_command};
use crate::text::{
    after, chars_of, decimal, find_char, find_from, lemma_find_from_bounds, push_decimal,
    push_str, split_lines, split_nonempty, string_of, text_lines, nonempty_fields, trim, trimmed,
};
use crate::text_map::TextMap;

verus! {

#[derive(Debug, Clone)]
pub struct CommitInfo {
    pub short_sha: String,
    pub date: String,
    pub author: String,
    pub message: String,
}

pub struct CommitInfoView {
    pub short_sha: Seq<char>,
    pub date: Seq<char>,
    pub author: Seq<char>,
    pub message: Seq<char>,
}

impl View for CommitInfo {
    type V = CommitInfoView;

    open spec fn view(&self) -> CommitInfoView {
        CommitInfoView {
            short_sha: self.short_sha@,
            date: self.date@,
            author: self.author@,
            message: self.message@,
        }
    }
}

impl CommitInfo {
    /// A copy of this commit's description.
    pub fn copy(&self) -> (r: CommitInfo)
        ensures
            r@ == self@,
    {
        CommitInfo {
            short_sha: self.short_sha.clone(),
            date: self.date.clone(),
            author: self.author.clone(),
            message: self.message.clone(),
        }
    }
}

/// The files each commit touched, by short sha, in the order git listed
/// them.
pub type FilesByCommit = TextMap<Vec<String>>;

// ---------------------------------------------------------------------
// Specification
// ---------------------------------------------------------------------

/// The separator between the fields of a log line.
pub open spec fn field_sep() -> char {
    '\x01'
}

/// One line of `git log --format=%h<sep>%ad<sep>%an<sep>%s`: cut at the
/// first three separators into sha, date, author and message (the message
/// keeps any later separator). A line with fewer than three separators
/// describes no commit.
pub open spec fn parse_log_line(l: Seq<char>) -> Option<CommitInfoView> {
    let a = find_from(l, 0, field_sep());
    let b = find_from(l, a + 1, field_sep());
    let c = find_from(l, b + 1, field_sep());
    if a >= l.len() || b >= l.len() || c >= l.len() {
        None
    } else {
        Some(
            CommitInfoView {
                short_sha: l.subrange(0, a),
                date: l.subrange(a + 1, b),
                author: l.subrange(b + 1, c),
                message: after(l, c + 1),
            },
        )
    }
}

/// The commits that a sequence of log lines describes, in order.
pub open spec fn commits_of_lines(lines: Seq<Seq<char>>) -> Seq<CommitInfoView>
    decreases lines.len(),
{
    if lines.len() == 0 {
        Seq::empty()
    } else {
        let rest = commits_of_lines(lines.drop_last());
        match parse_log_line(lines.last()) {
            Some(c) => rest.push(c),
            None => rest,
        }
    }
}

/// The commits of a `git log` output.
pub open spec fn log_commits(raw: Seq<char>) -> Seq<CommitInfoView> {
    commits_of_lines(text_lines(raw))
}

/// The non-empty lines of `lines` after the first one, each once, in the
/// order first met.
pub open spec fn listed_files(lines: Seq<Seq<char>>) -> Seq<Seq<char>>
    decreases lines.len(),
{
    if lines.len() <= 1 {
        Seq::empty()
    } else {
        let rest = listed_files(lines.drop_last());
        if lines.last().len() > 0 && !rest.contains(lines.last()) {
            rest.push(lines.last())
        } else {
            rest
        }
    }
}

proof fn lemma_listed_files_distinct(lines: Seq<Seq<char>>)
    ensures
        listed_files(lines).no_duplicates(),
    decreases lines.len(),
{
    if lines.len() > 1 {
        lemma_listed_files_distinct(lines.drop_last());
        let rest = listed_files(lines.drop_last());
        if lines.last().len() > 0 && !rest.contains(lines.last()) {
            let out = rest.push(lines.last());
            assert forall|i: int, j: int| 0 <= i < out.len() && 0 <= j < out.len() && i != j implies out[i]
                != out[j] by {
                if i == rest.len() && j < rest.len() {
                    assert(rest[j] == out[j]);
                } else if j == rest.len() && i < rest.len() {
                    assert(rest[i] == out[i]);
                }
            }
        }
    }
}

proof fn lemma_files_of_chunks_distinct(chunks: Seq<Seq<char>>)
    ensures
        forall|sha: Seq<char>|
            #[trigger] files_of_chunks(chunks).contains_key(sha) ==> files_of_chunks(chunks)[sha].no_duplicates(),
    decreases chunks.len(),
{
    if chunks.len() > 0 {
        lemma_files_of_chunks_distinct(chunks.drop_last());
        let m = files_of_chunks(chunks.drop_last());
        let lines = text_lines(chunks.last());
        lemma_listed_files_distinct(lines);
        assert forall|sha: Seq<char>| #[trigger] files_of_chunks(chunks).contains_key(sha) implies files_of_chunks(
            chunks,
        )[sha].no_duplicates() by {
            if !(lines.len() > 0 && sha == lines[0]) {
                assert(m.contains_key(sha));
            }
        }
    }
}

/// The files by commit that a sequence of `git show --name-only` chunks
/// lists: each chunk's first line is a sha, the other non-empty lines are
/// paths; a later chunk for the same sha replaces an earlier one.
pub open spec fn files_of_chunks(chunks: Seq<Seq<char>>) -> Map<Seq<char>, Seq<Seq<char>>>
    decreases chunks.len(),
{
    if chunks.len() == 0 {
        Map::empty()
    } else {
        let m = files_of_chunks(chunks.drop_last());
        let lines = text_lines(chunks.last());
        if lines.len() == 0 {
            m
        } else {
            m.insert(lines[0], listed_files(lines))
        }
    }
}

/// The files by commit of a `git show --name-only --format=<sep>%h`
/// output: the text between separators is one chunk per commit.
pub open spec fn files_changed_spec(raw: Seq<char>) -> Map<Seq<char>, Seq<Seq<char>>> {
    files_of_chunks(nonempty_fields(raw, field_sep()))
}

/// The contents of a files-by-commit map, each list of files by its text.
pub open spec fn files_view(m: Map<Seq<char>, Vec<String>>) -> Map<Seq<char>, Seq<Seq<char>>> {
    m.map_values(|v: Vec<String>| v.deep_view())
}

/// Whether the commit `sha` touched `path`, by a files-by-commit map.
pub open spec fn touched(m: Map<Seq<char>, Seq<Seq<char>>>, sha: Seq<char>, path: Seq<char>) -> bool {
    m.contains_key(sha) && m[sha].contains(path)
}

/// The `--format` argument that makes `git log` print one line per commit.
pub open spec fn log_format_arg() -> Seq<char> {
    "--format=%h\x01%ad\x01%an\x01%s"@
}

/// The text of an optional string.
pub open spec fn opt_text(s: Option<&str>) -> Option<Seq<char>> {
    match s {
        Some(t) => Some(t@),
        None => None,
    }
}

/// The range of commits of the current branch: those after `base`, or the
/// whole history of HEAD when there is no base.
pub open spec fn range_spec(base: Option<Seq<char>>) -> Seq<char> {
    match base {
        Some(b) => b + "..HEAD"@,
        None => "HEAD"@,
    }
}

/// The probes tried in turn to find what the current branch is based on.
pub open spec fn branch_base_probe_spec(step: int) -> Option<Seq<Seq<char>>> {
    if step == 0 {
        Some(seq!["rev-parse"@, "--abbrev-ref"@, "--symbolic-full-name"@, "@{u}"@])
    } else if step == 1 {
        Some(seq!["rev-parse"@, "--abbrev-ref"@, "origin/HEAD"@])
    } else if step == 2 {
        Some(seq!["rev-parse"@, "--verify"@, "--quiet"@, "origin/main"@])
    } else if step == 3 {
        Some(seq!["rev-parse"@, "--verify"@, "--quiet"@, "origin/master"@])
    } else {
        None
    }
}

/// The base that a probe yields: the first two print a ref name (an empty
/// answer yields nothing), the last two only test that a fixed ref exists.
pub open spec fn branch_base_answer(step: int, succeeded: bool, output: Seq<char>) -> Option<
    Seq<char>,
> {
    if !succeeded {
        None
    } else if step == 0 || step == 1 {
        if trim(output).len() > 0 {
            Some(trim(output))
        } else {
            None
        }
    } else if step == 2 {
        Some("origin/main"@)
    } else if step == 3 {
        Some("origin/master"@)
    } else {
        None
    }
}

// ---------------------------------------------------------------------
// Reading outputs
// ---------------------------------------------------------------------

fn parse_log_line_exec(l: &Vec<char>) -> (r: Option<CommitInfo>)
    ensures
        match r {
            Some(c) => parse_log_line(l@) == Some(c@),
            None => parse_log_line(l@) is None,
        },
{
    let sep = '\x01';
    proof {
        lemma_find_from_bounds(l@, 0, sep);
    }
    let a = match find_char(l, 0, sep) {
        Some(a) => a,
        None => return None,
    };
    proof {
        lemma_find_from_bounds(l@, a + 1, sep);
    }
    let b = match find_char(l, a + 1, sep) {
        Some(b) => b,
        None => return None,
    };
    proof {
        lemma_find_from_bounds(l@, b + 1, sep);
    }
    let c = match find_char(l, b + 1, sep) {
        Some(c) => c,
        None => return None,
    };
    Some(
        CommitInfo {
            short_sha: string_of(l, 0, a),
            date: string_of(l, a + 1, b),
            author: string_of(l, b + 1, c),
            message: string_of(l, c + 1, l.len()),
        },
    )
}

/// The commits of a `git log --format=%h<sep>%ad<sep>%an<sep>%s` output,
/// one per line; lines with fewer than three separators are skipped.
pub fn parse_log_output(raw: &str) -> (r: Vec<CommitInfo>)
    ensures
        r@.map_values(|c: CommitInfo| c@) == log_commits(raw@),
{
    let cs = chars_of(raw);
    let lines = split_lines(&cs);
    let ghost ls = lines.deep_view();
    let mut out: Vec<CommitInfo> = Vec::new();
    let mut i: usize = 0;
    assert(ls.take(0) =~= Seq::<Seq<char>>::empty());
    assert(out@.map_values(|c: CommitInfo| c@) =~= Seq::<CommitInfoView>::empty());
    while i < lines.len()
        invariant
            0 <= i <= lines.len(),
            ls == lines.deep_view(),
            ls == text_lines(raw@),
            out@.map_values(|c: CommitInfo| c@) == commits_of_lines(ls.take(i as int)),
        decreases lines.len() - i,
    {
        assert(lines@[i as int]@ == ls[i as int]) by {
            assert(lines@[i as int].deep_view() =~= lines@[i as int]@);
        }
        assert(ls.take(i + 1).drop_last() =~= ls.take(i as int));
        let ghost before = out@.map_values(|c: CommitInfo| c@);
        match parse_log_line_exec(&lines[i]) {
            Some(c) => {
                let ghost cv = c@;
                out.push(c);
                assert(out@.map_values(|c: CommitInfo| c@) =~= before.push(cv));
            },
            None => {},
        }
        i += 1;
    }
    assert(ls.take(lines.len() as int) =~= ls);
    out
}

/// Whether `s` is one of the strings of `v`.
fn contains_string(v: &Vec<String>, s: &String) -> (r: bool)
    ensures
        r == v.deep_view().contains(s@),
{
    let ghost vv = v.deep_view();
    let mut i: usize = 0;
    while i < v.len()
        invariant
            0 <= i <= v.len(),
            vv == v.deep_view(),
            forall|k: int| 0 <= k < i ==> vv[k] != s@,
        decreases v.len() - i,
    {
        if v[i] == *s {
            assert(vv[i as int] == v@[i as int]@);
            return true;
        }
        i += 1;
    }
    false
}

/// The non-empty lines of `lines` after the first, as strings, each once.
fn listed_files_exec(lines: &Vec<Vec<char>>) -> (r: Vec<String>)
    ensures
        r.deep_view() == listed_files(lines.deep_view()),
{
    let ghost ls = lines.deep_view();
    let mut out: Vec<String> = Vec::new();
    if lines.len() == 0 {
        assert(out.deep_view() =~= listed_files(ls));
        return out;
    }
    assert(out.deep_view() =~= listed_files(ls.take(1))) by {
        assert(ls.take(1).len() == 1);
    }
    let mut i: usize = 1;
    while i < lines.len()
        invariant
            1 <= i <= lines.len(),
            ls == lines.deep_view(),
            out.deep_view() == listed_files(ls.take(i as int)),
        decreases lines.len() - i,
    {
        assert(lines@[i as int]@ == ls[i as int]) by {
            assert(lines@[i as int].deep_view() =~= lines@[i as int]@);
        }
        assert(ls.take(i + 1).drop_last() =~= ls.take(i as int));
        if lines[i].len() > 0 {
            let f = string_of(&lines[i], 0, lines[i].len());
            assert(f@ =~= ls[i as int]);
            if !contains_string(&out, &f) {
                let ghost before = out.deep_view();
                out.push(f);
                assert(out.deep_view() =~= before.push(ls[i as int]));
            }
        }
        i += 1;
    }
    assert(ls.take(lines.len() as int) =~= ls);
    out
}

/// The files each commit touched, from `git show --no-color --name-only
/// --format=<sep>%h <shas...>` output.
pub fn parse_files_changed(raw: &str) -> (r: FilesByCommit)
    ensures
        files_view(r.view()) == files_changed_spec(raw@),
        forall|sha: Seq<char>|
            #[trigger] files_view(r.view()).contains_key(sha) ==> files_view(r.view())[sha].no_duplicates(),
{
    proof {
        lemma_files_of_chunks_distinct(nonempty_fields(raw@, field_sep()));
    }
    let cs = chars_of(raw);
    let chunks = split_nonempty(&cs, '\x01');
    let ghost ch = chunks.deep_view();
    let mut m: FilesByCommit = TextMap::new();
    let mut i: usize = 0;
    assert(ch.take(0) =~= Seq::<Seq<char>>::empty());
    assert(files_view(m.view()) =~= files_of_chunks(ch.take(0)));
    while i < chunks.len()
        invariant
            0 <= i <= chunks.len(),
            ch == chunks.deep_view(),
            ch == nonempty_fields(raw@, '\x01'),
            files_view(m.view()) == files_of_chunks(ch.take(i as int)),
        decreases chunks.len() - i,
    {
        assert(chunks@[i as int]@ == ch[i as int]) by {
            assert(chunks@[i as int].deep_view() =~= chunks@[i as int]@);
        }
        assert(ch.take(i + 1).drop_last() =~= ch.take(i as int));
        let lines = split_lines(&chunks[i]);
        if lines.len() > 0 {
            let sha = string_of(&lines[0], 0, lines[0].len());
            assert(sha@ =~= lines.deep_view()[0]) by {
                assert(lines@[0].deep_view() =~= lines@[0]@);
            }
            let files = listed_files_exec(&lines);
            let ghost before = m.view();
            let ghost fv = files.deep_view();
            m.insert(sha, files);
            assert(files_view(m.view()) =~= files_view(before).insert(
                lines.deep_view()[0],
                fv,
            ));
        }
        i += 1;
    }
    assert(ch.take(chunks.len() as int) =~= ch);
    m
}

/// Whether the commit `sha` touched `path`, by `files_by_commit`.
pub fn touches(files_by_commit: &FilesByCommit, sha: &String, path: &String) -> (r: bool)
    ensures
        r == touched(files_view(files_by_commit.view()), sha@, path@),
{
    match files_by_commit.get(sha) {
        None => false,
        Some(files) => {
            let ghost fv = files.deep_view();
            assert(files_view(files_by_commit.view())[sha@] == fv);
            assert(files_view(files_by_commit.view()).dom().contains(sha@));
            let mut i: usize = 0;
            while i < files.len()
                invariant
                    0 <= i <= files.len(),
                    fv == files.deep_view(),
                    files_view(files_by_commit.view())[sha@] == fv,
                    files_view(files_by_commit.view()).dom().contains(sha@),
                    forall|k: int| 0 <= k < i ==> fv[k] != path@,
                decreases files.len() - i,
            {
                if files[i] == *path {
                    assert(fv[i as int] == files@[i as int]@);
                    assert(fv.contains(path@));
                    return true;
                }
                i += 1;
            }
            assert(!fv.contains(path@));
            false
        },
    }
}

// ---------------------------------------------------------------------
// Invocations
// ---------------------------------------------------------------------

/// `git commit --fixup <sha>`.
pub fn commit_fixup_command(sha: &str) -> (r: GitCommand)
    ensures
        r@ == plain_command(seq!["commit"@, "--fixup"@, sha@]),
{
    let mut args: Vec<String> = Vec::new();
    push_arg(&mut args, "commit");
    push_arg(&mut args, "--fixup");
    push_arg(&mut args, sha);
    assert(args.deep_view() =~= seq!["commit"@, "--fixup"@, sha@]);
    GitCommand::plain(args)
}

/// `git show` listing the files of each of `shas` in one run; `None` when
/// there is no sha to ask about.
pub fn files_changed_command(shas: &Vec<String>) -> (r: Option<GitCommand>)
    ensures
        match r {
            Some(c) => shas.len() > 0 && c@ == plain_command(
                seq!["show"@, "--no-color"@, "--name-only"@, "--format=\x01%h"@] + shas.deep_view(),
            ),
            None => shas.len() == 0,
        },
{
    if shas.len() == 0 {
        return None;
    }
    let mut args: Vec<String> = Vec::new();
    push_arg(&mut args, "show");
    push_arg(&mut args, "--no-color");
    push_arg(&mut args, "--name-only");
    push_arg(&mut args, "--format=\x01%h");
    let ghost head = args.deep_view();
    assert(head =~= seq!["show"@, "--no-color"@, "--name-only"@, "--format=\x01%h"@]);
    let mut i: usize = 0;
    while i < shas.len()
        invariant
            0 <= i <= shas.len(),
            args.deep_view() == head + shas.deep_view().take(i as int),
        decreases shas.len() - i,
    {
        let ghost before = args.deep_view();
        push_owned_arg(&mut args, shas[i].clone());
        assert(shas.deep_view().take(i + 1) =~= shas.deep_view().take(i as int).push(
            shas@[i as int]@,
        ));
        i += 1;
    }
    assert(shas.deep_view().take(shas.len() as int) =~= shas.deep_view());
    Some(GitCommand::plain(args))
}

/// `git log -n <n> --date=short --format=... HEAD`.
pub fn last_n_commits_command(n: usize) -> (r: GitCommand)
    ensures
        r@ == plain_command(
            seq!["log"@, "-n"@, decimal(n as nat), "--date=short"@, log_format_arg(), "HEAD"@],
        ),
{
    let mut args: Vec<String> = Vec::new();
    push_arg(&mut args, "log");
    push_arg(&mut args, "-n");
    let mut count = String::new();
    push_decimal(&mut count, n as u64);
    assert(count@ =~= decimal(n as nat));
    push_owned_arg(&mut args, count);
    push_arg(&mut args, "--date=short");
    push_arg(&mut args, "--format=%h\x01%ad\x01%an\x01%s");
    push_arg(&mut args, "HEAD");
    assert(args.deep_view() =~= seq![
        "log"@,
        "-n"@,
        decimal(n as nat),
        "--date=short"@,
        log_format_arg(),
        "HEAD"@,
    ]);
    GitCommand::plain(args)
}

/// The range of commits of the current branch, given its base.
pub fn commits_range(base: Option<&str>) -> (r: String)
    ensures
        r@ == range_spec(opt_text(base)),
{
    match base {
        Some(b) => {
            let mut s = b.to_owned();
            push_str(&mut s, "..HEAD");
            s
        },
        None => "HEAD".to_owned(),
    }
}

/// `git log --date=short --format=... <range>` for the current branch.
pub fn branch_commits_command(base: Option<&str>) -> (r: GitCommand)
    ensures
        r@ == plain_command(
            seq![
                "log"@,
                "--date=short"@,
                log_format_arg(),
                range_spec(opt_text(base)),
            ],
        ),
{
    let mut args: Vec<String> = Vec::new();
    push_arg(&mut args, "log");
    push_arg(&mut args, "--date=short");
    push_arg(&mut args, "--format=%h\x01%ad\x01%an\x01%s");
    let range = commits_range(base);
    let ghost rv = range@;
    push_owned_arg(&mut args, range);
    assert(args.deep_view() =~= seq!["log"@, "--date=short"@, log_format_arg(), rv]);
    GitCommand::plain(args)
}

/// The probe number `step` in the search for the current branch's base:
/// its upstream, then `origin/HEAD`, then `origin/main`, then
/// `origin/master`; `None` once they are all tried.
pub fn branch_base_probe(step: usize) -> (r: Option<GitCommand>)
    ensures
        match r {
            Some(c) => branch_base_probe_spec(step as int) == Some(c@.args)
                && c@.allowed_exit_codes == seq![0i32] && c@.stdin is None,
            None => branch_base_probe_spec(step as int) is None,
        },
{
    let mut args: Vec<String> = Vec::new();
    push_arg(&mut args, "rev-parse");
    if step == 0 {
        push_arg(&mut args, "--abbrev-ref");
        push_arg(&mut args, "--symbolic-full-name");
        push_arg(&mut args, "@{u}");
    } else if step == 1 {
        push_arg(&mut args, "--abbrev-ref");
        push_arg(&mut args, "origin/HEAD");
    } else if step == 2 || step == 3 {
        push_arg(&mut args, "--verify");
        push_arg(&mut args, "--quiet");
        if step == 2 {
            push_arg(&mut args, "origin/main");
        } else {
            push_arg(&mut args, "origin/master");
        }
    } else {
        return None;
    }
    Some(GitCommand::plain(args))
}

/// The base that probe number `step` yields, given whether it succeeded
/// and what it printed.
pub fn branch_base_from_probe(step: usize, succeeded: bool, output: &str) -> (r: Option<String>)
    ensures
        match r {
            Some(b) => branch_base_answer(step as int, succeeded, output@) == Some(b@),
            None => branch_base_answer(step as int, succeeded, output@) is None,
        },
{
    if !succeeded {
        None
    } else if step == 0 || step == 1 {
        let t = trimmed(&chars_of(output));
        if !t.as_str().is_empty() {
            Some(t)
        } else {
            None
        }
    } else if step == 2 {
        Some("origin/main".to_owned())
    } else if step == 3 {
        Some("origin/master".to_owned())
    } else {
        None
    }
}

/// The base found by trying the probes in turn, from number `i` on, where
/// `outcomes[k]` says whether probe `k` succeeded and what it printed: the
/// first probe's answer that exists; what follows it is never looked at.
pub open spec fn branch_base_from(outcomes: Seq<(bool, String)>, i: int) -> Option<Seq<char>>
    decreases outcomes.len() - i,
{
    if i < 0 || i >= outcomes.len() {
        None
    } else {
        match branch_base_answer(i, outcomes[i].0, outcomes[i].1@) {
            Some(b) => Some(b),
            None => branch_base_from(outcomes, i + 1),
        }
    }
}

/// The current branch's base, from the outcomes of the probes in order
/// (`outcomes[k]` for probe number `k`): the answer of the first probe that
/// gives one, or `None` when none does.
pub fn branch_base_from_outcomes(outcomes: &Vec<(bool, String)>) -> (r: Option<String>)
    ensures
        match r {
            Some(b) => branch_base_from(outcomes@, 0) == Some(b@),
            None => branch_base_from(outcomes@, 0) is None,
        },
{
    let mut i: usize = 0;
    while i < outcomes.len()
        invariant
            i <= outcomes.len(),
            branch_base_from(outcomes@, 0) == branch_base_from(outcomes@, i as int),
        decreases outcomes.len() - i,
    {
        let answer = branch_base_from_probe(i, outcomes[i].0, outcomes[i].1.as_str());
        if answer.is_some() {
            return answer;
        }
        i = i + 1;
    }
    None
}

/// Once a probe has answered, the outcomes of the probes after it change
/// nothing: the search stops at the first answer.
pub proof fn law_first_answer_stands(outcomes: Seq<(bool, String)>, more: Seq<(bool, String)>)
    requires
        branch_base_from(outcomes, 0) is Some,
    ensures
        branch_base_from(outcomes + more, 0) == branch_base_from(outcomes, 0),
{
    lemma_first_answer_stands_from(outcomes, more, 0);
}

proof fn lemma_first_answer_stands_from(
    outcomes: Seq<(bool, String)>,
    more: Seq<(bool, String)>,
    i: int,
)
    requires
        0 <= i,
        branch_base_from(outcomes, i) is Some,
    ensures
        branch_base_from(outcomes + more, i) == branch_base_from(outcomes, i),
    decreases outcomes.len() - i,
{
    let all = outcomes + more;
    assert(all[i] == outcomes[i]);
    if branch_base_answer(i, outcomes[i].0, outcomes[i].1@) is None {
        lemma_first_answer_stands_from(outcomes, more, i + 1);
    }
}

/// `git config --get commit.template`, which prints the configured
/// commit template path and exits 1 when none is configured.
pub fn commit_template_command() -> (r: GitCommand)
    ensures
        r@ == (GitCommandView {
            args: seq!["config"@, "--get"@, "commit.template"@],
            allowed_exit_codes: seq![0i32, 1i32],
            stdin: None,
        }),
{
    let mut args: Vec<String> = Vec::new();
    push_arg(&mut args, "config");
    push_arg(&mut args, "--get");
    push_arg(&mut args, "commit.template");
    assert(args.deep_view() =~= seq!["config"@, "--get"@, "commit.template"@]);
    GitCommand::allowing_one(args)
}

/// The template file named by the output of `commit_template_command`:
/// none when the output is blank; a leading `~/` stands for the home
/// directory when it is known.
pub open spec fn template_path_spec(output: Seq<char>, home: Option<Seq<char>>) -> Option<Seq<char>> {
    let p = trim(output);
    if p.len() == 0 {
        None
    } else if p.len() >= 2 && p[0] == '~' && p[1] == '/' && home is Some {
        Some(home->0 + after(p, 1))
    } else {
        Some(p)
    }
}

pub fn template_path(output: &str, home: Option<&str>) -> (r: Option<String>)
    ensures
        match r {
            Some(p) => template_path_spec(output@, opt_text(home)) == Some(p@),
            None => template_path_spec(output@, opt_text(home)) is None,
        },
{
    let p = chars_of(trimmed(&chars_of(output)).as_str());
    if p.len() == 0 {
        return None;
    }
    match home {
        Some(h) => {
            if p.len() >= 2 && p[0] == '~' && p[1] == '/' {
                let mut s = h.to_owned();
                crate::text::push_chars(&mut s, &p, 1, p.len());
                assert(p@.subrange(1, p@.len() as int) =~= after(p@, 1));
                return Some(s);
            }
        },
        None => {},
    }
    Some(string_of(&p, 0, p.len()))
}

/// `git commit --cleanup=strip -F -` with `message` on standard input: a
/// plain commit of what is staged, comment lines dropped as the editor
/// flow would.
pub fn commit_with_message_command(message: &str) -> (r: GitCommand)
    ensures
        r@ == (GitCommandView {
            args: seq!["commit"@, "--cleanup=strip"@, "-F"@, "-"@],
            allowed_exit_codes: seq![0i32],
            stdin: Some(message@),
        }),
{
    let mut args: Vec<String> = Vec::new();
    push_arg(&mut args, "commit");
    push_arg(&mut args, "--cleanup=strip");
    push_arg(&mut args, "-F");
    push_arg(&mut args, "-");
    assert(args.deep_view() =~= seq!["commit"@, "--cleanup=strip"@, "-F"@, "-"@]);
    let mut codes: Vec<i32> = Vec::new();
    codes.push(0);
    assert(codes@ =~= seq![0i32]);
    GitCommand { args, allowed_exit_codes: codes, stdin: Some(message.to_owned()) }
}

/// `git diff --cached --no-color`: what a new commit would contain.
pub fn staged_diff_command() -> (r: GitCommand)
    ensures
        r@ == plain_command(seq!["diff"@, "--cached"@, "--no-color"@]),
{
    let mut args: Vec<String> = Vec::new();
    push_arg(&mut args, "diff");
    push_arg(&mut args, "--cached");
    push_arg(&mut args, "--no-color");
    assert(args.deep_view() =~= seq!["diff"@, "--cached"@, "--no-color"@]);
    GitCommand::plain(args)
}

/// `git show --no-color <sha>`.
pub fn show_commit_command(sha: &str) -> (r: GitCommand)
    ensures
        r@ == plain_command(seq!["show"@, "--no-color"@, sha@]),
{
    let mut args: Vec<String> = Vec::new();
    push_arg(&mut args, "show");
    push_arg(&mut args, "--no-color");
    push_arg(&mut args, sha);
    assert(args.deep_view() =~= seq!["show"@, "--no-color"@, sha@]);
    GitCommand::plain(args)
}

/// `git diff --no-color -- <path>`: a file's unstaged changes.
pub fn file_diff_command(path: &str) -> (r: GitCommand)
    ensures
        r@ == plain_command(seq!["diff"@, "--no-color"@, "--"@, path@]),
{
    let mut args: Vec<String> = Vec::new();
    push_arg(&mut args, "diff");
    push_arg(&mut args, "--no-color");
    push_arg(&mut args, "--");
    push_arg(&mut args, path);
    assert(args.deep_view() =~= seq!["diff"@, "--no-color"@, "--"@, path@]);
    GitCommand::plain(args)
}

// ---------------------------------------------------------------------
// Laws
// ---------------------------------------------------------------------

proof fn lemma_find_from_at(s: Seq<char>, i: int, k: int, c: char)
    requires
        0 <= i <= k < s.len(),
        s[k] == c,
        forall|m: int| i <= m < k ==> s[m] != c,
    ensures
        find_from(s, i, c) == k,
    decreases k - i,
{
    if i < k {
        lemma_find_from_at(s, i + 1, k, c);
    }
}

/// The log line `git log --format=%h<sep>%ad<sep>%an<sep>%s` prints for a
/// commit.
pub open spec fn log_line_of(c: CommitInfoView) -> Seq<char> {
    c.short_sha + seq![field_sep()] + c.date + seq![field_sep()] + c.author + seq![field_sep()]
        + c.message
}

/// Reading back the log line of a commit gives the commit, when its sha,
/// date and author hold no separator (the message may).
pub proof fn law_log_line_round_trip(c: CommitInfoView)
    requires
        !c.short_sha.contains(field_sep()),
        !c.date.contains(field_sep()),
        !c.author.contains(field_sep()),
    ensures
        parse_log_line(log_line_of(c)) == Some(c),
{
    let l = log_line_of(c);
    let sep = field_sep();
    let a = c.short_sha.len() as int;
    let b = a + 1 + c.date.len();
    let d = b + 1 + c.author.len();
    assert(l[a] == sep);
    assert(l[b] == sep);
    assert(l[d] == sep);
    assert forall|m: int| 0 <= m < a implies l[m] != sep by {
        assert(l[m] == c.short_sha[m]);
    }
    assert forall|m: int| a + 1 <= m < b implies l[m] != sep by {
        assert(l[m] == c.date[m - a - 1]);
    }
    assert forall|m: int| b + 1 <= m < d implies l[m] != sep by {
        assert(l[m] == c.author[m - b - 1]);
    }
    lemma_find_from_at(l, 0, a, sep);
    lemma_find_from_at(l, a + 1, b, sep);
    lemma_find_from_at(l, b + 1, d, sep);
    assert(l.subrange(0, a) =~= c.short_sha);
    assert(l.subrange(a + 1, b) =~= c.date);
    assert(l.subrange(b + 1, d) =~= c.author);
    assert(after(l, d + 1) =~= c.message);
}

} // verus!
