//! The command-line options.

use vstd::prelude::*;

verus! {

/// The options the program runs with.
#[derive(Debug, Clone, Copy, PartialEq, Eq, Structural)]
pub struct Cli {
    /// Number of most recent commits to show as fixup targets; when absent,
    /// only the commits unique to the current branch are shown.
    pub last_commits: Option<usize>,
    /// Number of context lines requested from `git diff`.
    pub context_lines: u32,
}

impl Default for Cli {
    /// The options when none is given: the current branch's commits, and
    /// three lines of context.
    fn default() -> (r: Cli)
        ensures
            r.last_commits is None,
            r.context_lines == 3,
    {
        Cli { last_commits: None, context_lines: 3 }
    }
}

} // verus!
