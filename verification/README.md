# gatomic

`gatomic` is a terminal UI to build atomic `git commit --fixup` commits: pick
exactly the hunks, or single lines, to stage from the working tree, then
attach them to the right past commit.

The logic is a Verus library, proved against its contracts:

- `src/diff/` — the unified-diff model and parser, hunk splitting (`s`), the
  patch that stages exactly a selection, and the `git diff` invocations.
- `src/selection.rs` — per-hunk decisions and per-line selections.
- `src/git/` — git invocations as plain values (`GitCommand`) and the readers
  of their outputs: porcelain status, log lines, files by commit, numstat.
- `src/fixup.rs` — which candidate commits touched each changed file.
- `src/tui/` — the decisions of the screens: key and mouse dispatch, list
  cursors, the triage tree, the commit-message editor, row texts, layouts.
- `src/i18n.rs` — the English and French string tables.

`app/` is the program around it: argument parsing, running git, and drawing
with ratatui and crossterm.

```sh
gatomic              # commits unique to the current branch
gatomic -n 30        # the 30 most recent commits on HEAD
```
