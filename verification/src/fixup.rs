//! Which recent commits each changed file could be a fixup of.

use vstd::prelude::*;

use crate::git::command::GitCommand;
use crate::git::commit::{
    files_changed_command, files_view, touched, touches, CommitInfo, CommitInfoView,
    FilesByCommit,
};
use crate::git::status::{FileEntry, FileEntryView, FileStatusKind};

verus! {

/// A file and the commits, among the candidates shown, that touched it.
#[derive(Debug, Clone)]
pub struct FileCommitMatch {
    pub file: String,
    pub matching_commits: Vec<CommitInfo>,
}

pub struct FileCommitMatchView {
    pub file: Seq<char>,
    pub matching_commits: Seq<CommitInfoView>,
}

pub open spec fn commits_view(commits: Seq<CommitInfo>) -> Seq<CommitInfoView> {
    commits.map_values(|c: CommitInfo| c@)
}

impl View for FileCommitMatch {
    type V = FileCommitMatchView;

    open spec fn view(&self) -> FileCommitMatchView {
        FileCommitMatchView { file: self.file@, matching_commits: commits_view(self.matching_commits@) }
    }
}

impl FileCommitMatch {
    /// A match is evident when exactly one candidate commit touched the
    /// file: there is no doubt which commit to fix up into.
    pub fn is_evident(&self) -> (r: bool)
        ensures
            r == (self.matching_commits@.len() == 1),
    {
        self.matching_commits.len() == 1
    }
}

/// The commits of `commits`, in order, that touched `path`.
pub open spec fn commits_touching(
    commits: Seq<CommitInfoView>,
    files_by_commit: Map<Seq<char>, Seq<Seq<char>>>,
    path: Seq<char>,
) -> Seq<CommitInfoView>
    decreases commits.len(),
{
    if commits.len() == 0 {
        Seq::empty()
    } else {
        let rest = commits_touching(commits.drop_last(), files_by_commit, path);
        if touched(files_by_commit, commits.last().short_sha, path) {
            rest.push(commits.last())
        } else {
            rest
        }
    }
}

/// The matches of `files`, in order: an untracked file has no history and
/// never matches; a file that no commit touched has no match.
pub open spec fn matches_spec(
    files: Seq<FileEntryView>,
    commits: Seq<CommitInfoView>,
    files_by_commit: Map<Seq<char>, Seq<Seq<char>>>,
) -> Seq<FileCommitMatchView>
    decreases files.len(),
{
    if files.len() == 0 {
        Seq::empty()
    } else {
        let rest = matches_spec(files.drop_last(), commits, files_by_commit);
        let f = files.last();
        let m = commits_touching(commits, files_by_commit, f.path);
        if f.kind == FileStatusKind::Untracked || m.len() == 0 {
            rest
        } else {
            rest.push(FileCommitMatchView { file: f.path, matching_commits: m })
        }
    }
}

/// The `git show` that lists the files of every commit of `commits` in one
/// run (see `parse_files_changed`); `None` when there are no commits.
pub fn build_files_by_commit_command(commits: &Vec<CommitInfo>) -> (r: Option<GitCommand>)
    ensures
        r is None <==> commits.len() == 0,
        r matches Some(c) ==> c@.args == seq![
            "show"@,
            "--no-color"@,
            "--name-only"@,
            "--format=\x01%h"@,
        ] + commits_view(commits@).map_values(|c: CommitInfoView| c.short_sha),
{
    let mut shas: Vec<String> = Vec::new();
    let mut i: usize = 0;
    while i < commits.len()
        invariant
            0 <= i <= commits.len(),
            shas.deep_view() == commits_view(commits@).take(i as int).map_values(
                |c: CommitInfoView| c.short_sha,
            ),
        decreases commits.len() - i,
    {
        let ghost before = shas.deep_view();
        shas.push(commits[i].short_sha.clone());
        assert(shas.deep_view() =~= commits_view(commits@).take(i + 1).map_values(
            |c: CommitInfoView| c.short_sha,
        )) by {
            assert(shas.deep_view() =~= before.push(commits@[i as int].short_sha@));
        }
        i += 1;
    }
    assert(commits_view(commits@).take(commits.len() as int) =~= commits_view(commits@));
    files_changed_command(&shas)
}

/// The commits of `commits` that touched `path`.
fn commits_touching_exec(commits: &Vec<CommitInfo>, files_by_commit: &FilesByCommit, path: &String) -> (r:
    Vec<CommitInfo>)
    ensures
        commits_view(r@) == commits_touching(
            commits_view(commits@),
            files_view(files_by_commit.view()),
            path@,
        ),
{
    let ghost cv = commits_view(commits@);
    let ghost fv = files_view(files_by_commit.view());
    let mut out: Vec<CommitInfo> = Vec::new();
    let mut i: usize = 0;
    assert(cv.take(0) =~= Seq::<CommitInfoView>::empty());
    assert(commits_view(out@) =~= Seq::<CommitInfoView>::empty());
    while i < commits.len()
        invariant
            0 <= i <= commits.len(),
            cv == commits_view(commits@),
            fv == files_view(files_by_commit.view()),
            commits_view(out@) == commits_touching(cv.take(i as int), fv, path@),
        decreases commits.len() - i,
    {
        assert(cv.take(i + 1).drop_last() =~= cv.take(i as int));
        assert(cv.take(i + 1).last() == commits@[i as int]@);
        if touches(files_by_commit, &commits[i].short_sha, path) {
            let ghost before = commits_view(out@);
            out.push(commits[i].copy());
            assert(commits_view(out@) =~= before.push(commits@[i as int]@));
        }
        i += 1;
    }
    assert(cv.take(commits.len() as int) =~= cv);
    out
}

/// For each tracked changed file, the commits of `commits` that touched
/// it, by an already computed `files_by_commit`. Untracked files are left
/// out, and so are files that no commit touched.
pub fn match_files_to_commits(
    files: &Vec<FileEntry>,
    commits: &Vec<CommitInfo>,
    files_by_commit: &FilesByCommit,
) -> (r: Vec<FileCommitMatch>)
    ensures
        r@.map_values(|m: FileCommitMatch| m@) == matches_spec(
            files@.map_values(|f: FileEntry| f@),
            commits_view(commits@),
            files_view(files_by_commit.view()),
        ),
{
    let ghost fs = files@.map_values(|f: FileEntry| f@);
    let ghost cv = commits_view(commits@);
    let ghost fv = files_view(files_by_commit.view());
    let mut out: Vec<FileCommitMatch> = Vec::new();
    let mut i: usize = 0;
    assert(fs.take(0) =~= Seq::<FileEntryView>::empty());
    assert(out@.map_values(|m: FileCommitMatch| m@) =~= Seq::<FileCommitMatchView>::empty());
    while i < files.len()
        invariant
            0 <= i <= files.len(),
            fs == files@.map_values(|f: FileEntry| f@),
            cv == commits_view(commits@),
            fv == files_view(files_by_commit.view()),
            out@.map_values(|m: FileCommitMatch| m@) == matches_spec(fs.take(i as int), cv, fv),
        decreases files.len() - i,
    {
        assert(fs.take(i + 1).drop_last() =~= fs.take(i as int));
        assert(fs.take(i + 1).last() == files@[i as int]@);
        let f = &files[i];
        if f.kind != FileStatusKind::Untracked {
            let matching = commits_touching_exec(commits, files_by_commit, &f.path);
            if matching.len() > 0 {
                let ghost before = out@.map_values(|m: FileCommitMatch| m@);
                let m = FileCommitMatch { file: f.path.clone(), matching_commits: matching };
                let ghost mv = m@;
                out.push(m);
                assert(out@.map_values(|m: FileCommitMatch| m@) =~= before.push(mv));
            }
        }
        i += 1;
    }
    assert(fs.take(files.len() as int) =~= fs);
    out
}

// ---------------------------------------------------------------------
// Laws
// ---------------------------------------------------------------------

proof fn lemma_commits_touching_sound(
    commits: Seq<CommitInfoView>,
    files_by_commit: Map<Seq<char>, Seq<Seq<char>>>,
    path: Seq<char>,
)
    ensures
        forall|j: int|
            0 <= j < commits_touching(commits, files_by_commit, path).len() ==> touched(
                files_by_commit,
                #[trigger] commits_touching(commits, files_by_commit, path)[j].short_sha,
                path,
            ),
    decreases commits.len(),
{
    if commits.len() > 0 {
        lemma_commits_touching_sound(commits.drop_last(), files_by_commit, path);
        let rest = commits_touching(commits.drop_last(), files_by_commit, path);
        let all = commits_touching(commits, files_by_commit, path);
        assert forall|j: int| 0 <= j < all.len() implies touched(
            files_by_commit,
            #[trigger] all[j].short_sha,
            path,
        ) by {
            if j < rest.len() {
                assert(all[j] == rest[j]);
            }
        }
    }
}

/// Every match lists at least one commit, and only commits that touched
/// its file; its file is one of `files`, and not an untracked one.
pub proof fn law_matches_are_sound(
    files: Seq<FileEntryView>,
    commits: Seq<CommitInfoView>,
    files_by_commit: Map<Seq<char>, Seq<Seq<char>>>,
)
    ensures
        forall|i: int|
            0 <= i < matches_spec(files, commits, files_by_commit).len() ==> {
                let m = #[trigger] matches_spec(files, commits, files_by_commit)[i];
                &&& m.matching_commits.len() > 0
                &&& forall|j: int|
                    0 <= j < m.matching_commits.len() ==> touched(
                        files_by_commit,
                        #[trigger] m.matching_commits[j].short_sha,
                        m.file,
                    )
                &&& exists|k: int|
                    0 <= k < files.len() && (#[trigger] files[k]).path == m.file && files[k].kind
                        != FileStatusKind::Untracked
            },
    decreases files.len(),
{
    if files.len() > 0 {
        let prev = files.drop_last();
        law_matches_are_sound(prev, commits, files_by_commit);
        let f = files.last();
        lemma_commits_touching_sound(commits, files_by_commit, f.path);
        let ms = matches_spec(files, commits, files_by_commit);
        let mp = matches_spec(prev, commits, files_by_commit);
        assert forall|i: int| 0 <= i < ms.len() implies {
            let m = #[trigger] ms[i];
            &&& m.matching_commits.len() > 0
            &&& forall|j: int|
                0 <= j < m.matching_commits.len() ==> touched(
                    files_by_commit,
                    #[trigger] m.matching_commits[j].short_sha,
                    m.file,
                )
            &&& exists|k: int|
                0 <= k < files.len() && (#[trigger] files[k]).path == m.file && files[k].kind
                    != FileStatusKind::Untracked
        } by {
            if i < mp.len() {
                assert(ms[i] == mp[i]);
                let k = choose|k: int|
                    0 <= k < prev.len() && (#[trigger] prev[k]).path == mp[i].file && prev[k].kind
                        != FileStatusKind::Untracked;
                assert(files[k] == prev[k]);
            } else {
                assert(files[files.len() - 1] == f);
            }
        }
    }
}

/// Untracked files have no history: when every file is untracked there is
/// no match at all.
pub proof fn law_untracked_files_never_match(
    files: Seq<FileEntryView>,
    commits: Seq<CommitInfoView>,
    files_by_commit: Map<Seq<char>, Seq<Seq<char>>>,
)
    requires
        forall|k: int| 0 <= k < files.len() ==> (#[trigger] files[k]).kind == FileStatusKind::Untracked,
    ensures
        matches_spec(files, commits, files_by_commit).len() == 0,
{
    law_matches_are_sound(files, commits, files_by_commit);
    if matches_spec(files, commits, files_by_commit).len() > 0 {
        let m = matches_spec(files, commits, files_by_commit)[0];
        let k = choose|k: int|
            0 <= k < files.len() && (#[trigger] files[k]).path == m.file && files[k].kind
                != FileStatusKind::Untracked;
    }
}


proof fn lemma_commits_touching_complete(
    commits: Seq<CommitInfoView>,
    files_by_commit: Map<Seq<char>, Seq<Seq<char>>>,
    path: Seq<char>,
    j: int,
)
    requires
        0 <= j < commits.len(),
        touched(files_by_commit, commits[j].short_sha, path),
    ensures
        commits_touching(commits, files_by_commit, path).contains(commits[j]),
    decreases commits.len(),
{
    let rest = commits_touching(commits.drop_last(), files_by_commit, path);
    if j < commits.len() - 1 {
        assert(commits.drop_last()[j] == commits[j]);
        lemma_commits_touching_complete(commits.drop_last(), files_by_commit, path, j);
        let k = choose|k: int| 0 <= k < rest.len() && rest[k] == commits[j];
        let all = commits_touching(commits, files_by_commit, path);
        assert(all[k] == rest[k]);
    } else {
        let all = commits_touching(commits, files_by_commit, path);
        assert(all[all.len() - 1] == commits[j]);
    }
}

/// Every candidate commit that touched a tracked changed file shows up in
/// that file's match: the file has a match, and it lists the commit (with
/// `law_matches_are_sound`, a match lists exactly the commits that touched
/// its file).
pub proof fn law_matches_are_complete(
    files: Seq<FileEntryView>,
    commits: Seq<CommitInfoView>,
    files_by_commit: Map<Seq<char>, Seq<Seq<char>>>,
    k: int,
    j: int,
)
    requires
        0 <= k < files.len(),
        files[k].kind != FileStatusKind::Untracked,
        0 <= j < commits.len(),
        touched(files_by_commit, commits[j].short_sha, files[k].path),
    ensures
        exists|i: int|
            0 <= i < matches_spec(files, commits, files_by_commit).len() && (#[trigger] matches_spec(
                files,
                commits,
                files_by_commit,
            )[i]).file == files[k].path && matches_spec(files, commits, files_by_commit)[i].matching_commits.contains(
                commits[j],
            ),
    decreases files.len(),
{
    let prev = files.drop_last();
    let ms = matches_spec(files, commits, files_by_commit);
    let mp = matches_spec(prev, commits, files_by_commit);
    if k < files.len() - 1 {
        assert(prev[k] == files[k]);
        law_matches_are_complete(prev, commits, files_by_commit, k, j);
        let i = choose|i: int|
            0 <= i < mp.len() && (#[trigger] mp[i]).file == files[k].path
                && mp[i].matching_commits.contains(commits[j]);
        assert(ms[i] == mp[i]);
    } else {
        lemma_commits_touching_complete(commits, files_by_commit, files[k].path, j);
        let m = commits_touching(commits, files_by_commit, files[k].path);
        assert(m.len() > 0);
        assert(ms[ms.len() - 1].file == files[k].path);
    }
}

} // verus!
