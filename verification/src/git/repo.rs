//! Repository-level git invocations: finding the top level, staging and
//! unstaging whole paths.

use vstd::prelude::*;

use crate::git::command::{push_arg, GitCommand, GitCommandView, plain_command};
use crate::text::{chars_of, trim, trimmed};

verus! {

/// `git rev-parse --show-toplevel`, which prints the repository's top
/// level directory.
pub fn repo_root_command() -> (r: GitCommand)
    ensures
        r@ == plain_command(seq!["rev-parse"@, "--show-toplevel"@]),
{
    let mut args: Vec<String> = Vec::new();
    push_arg(&mut args, "rev-parse");
    push_arg(&mut args, "--show-toplevel");
    assert(args.deep_view() =~= seq!["rev-parse"@, "--show-toplevel"@]);
    GitCommand::plain(args)
}

/// The top level directory named by the output of `repo_root_command`.
pub fn repo_root(output: &str) -> (r: String)
    ensures
        r@ == trim(output@),
{
    trimmed(&chars_of(output))
}

/// `git add -- <path>`: stages a whole file, for changes that are not cut
/// into hunks (deleted files, pure renames).
pub fn stage_path_command(path: &str) -> (r: GitCommand)
    ensures
        r@ == plain_command(seq!["add"@, "--"@, path@]),
{
    let mut args: Vec<String> = Vec::new();
    push_arg(&mut args, "add");
    push_arg(&mut args, "--");
    push_arg(&mut args, path);
    assert(args.deep_view() =~= seq!["add"@, "--"@, path@]);
    GitCommand::plain(args)
}

/// The command `unstage_path_command` builds.
pub open spec fn unstage_path_command_spec(path: Seq<char>) -> GitCommandView {
    GitCommandView {
        args: seq!["reset"@, "-q"@, "--"@, path],
        allowed_exit_codes: seq![0i32, 1i32],
        stdin: None,
    }
}

/// `git reset -q -- <path>`: puts a path's index entry back to HEAD (or
/// drops it from the index when HEAD has none). Exit code 1 counts as
/// success.
pub fn unstage_path_command(path: &str) -> (r: GitCommand)
    ensures
        r@ == unstage_path_command_spec(path@),
{
    let mut args: Vec<String> = Vec::new();
    push_arg(&mut args, "reset");
    push_arg(&mut args, "-q");
    push_arg(&mut args, "--");
    push_arg(&mut args, path);
    assert(args.deep_view() =~= seq!["reset"@, "-q"@, "--"@, path@]);
    GitCommand::allowing_one(args)
}

} // verus!
