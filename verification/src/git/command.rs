//! Git invocations as plain values: the arguments after `git`, the exit
//! codes that count as success, and the text fed on standard input. The
//! program that runs them lives outside this library.

use vstd::prelude::*;

use crate::text::push_decimal;

verus! {

pub struct GitCommand {
    pub args: Vec<String>,
    pub allowed_exit_codes: Vec<i32>,
    pub stdin: Option<String>,
}

pub struct GitCommandView {
    pub args: Seq<Seq<char>>,
    pub allowed_exit_codes: Seq<i32>,
    pub stdin: Option<Seq<char>>,
}

impl View for GitCommand {
    type V = GitCommandView;

    open spec fn view(&self) -> GitCommandView {
        GitCommandView {
            args: self.args.deep_view(),
            allowed_exit_codes: self.allowed_exit_codes@,
            stdin: match self.stdin {
                Some(s) => Some(s@),
                None => None,
            },
        }
    }
}

/// A command that succeeds only on exit code 0 and reads nothing.
pub open spec fn plain_command(args: Seq<Seq<char>>) -> GitCommandView {
    GitCommandView { args, allowed_exit_codes: seq![0i32], stdin: None }
}

/// Appends an owned copy of `s` to `v`.
pub fn push_arg(v: &mut Vec<String>, s: &str)
    ensures
        final(v).deep_view() == old(v).deep_view().push(s@),
{
    let ghost before = v.deep_view();
    v.push(s.to_owned());
    assert(v.deep_view() =~= before.push(s@));
}

/// Appends `s` itself to `v`.
pub fn push_owned_arg(v: &mut Vec<String>, s: String)
    ensures
        final(v).deep_view() == old(v).deep_view().push(s@),
{
    let ghost before = v.deep_view();
    let ghost sv = s@;
    v.push(s);
    assert(v.deep_view() =~= before.push(sv));
}

/// The `-U<n>` option that asks `git diff` for `n` lines of context.
pub fn context_arg(context_lines: u32) -> (r: String)
    ensures
        r@ == "-U"@ + crate::text::decimal(context_lines as nat),
{
    let mut s = "-U".to_owned();
    push_decimal(&mut s, context_lines as u64);
    s
}

impl GitCommand {
    /// A command that succeeds only on exit code 0 and reads nothing.
    pub fn plain(args: Vec<String>) -> (r: GitCommand)
        ensures
            r@ == plain_command(args.deep_view()),
    {
        let mut codes: Vec<i32> = Vec::new();
        codes.push(0);
        assert(codes@ =~= seq![0i32]);
        GitCommand { args, allowed_exit_codes: codes, stdin: None }
    }

    /// A command that also counts exit code 1 as success.
    pub fn allowing_one(args: Vec<String>) -> (r: GitCommand)
        ensures
            r@ == (GitCommandView {
                args: args.deep_view(),
                allowed_exit_codes: seq![0i32, 1i32],
                stdin: None,
            }),
    {
        let mut codes: Vec<i32> = Vec::new();
        codes.push(0);
        codes.push(1);
        assert(codes@ =~= seq![0i32, 1i32]);
        GitCommand { args, allowed_exit_codes: codes, stdin: None }
    }

    /// Whether a run that ended with `code` counts as a success.
    pub fn exit_code_allowed(&self, code: i32) -> (r: bool)
        ensures
            r == self.allowed_exit_codes@.contains(code),
    {
        let mut i: usize = 0;
        while i < self.allowed_exit_codes.len()
            invariant
                0 <= i <= self.allowed_exit_codes@.len(),
                forall|k: int| 0 <= k < i ==> self.allowed_exit_codes@[k] != code,
            decreases self.allowed_exit_codes@.len() - i,
        {
            if self.allowed_exit_codes[i] == code {
                return true;
            }
            i += 1;
        }
        false
    }
}

} // verus!
