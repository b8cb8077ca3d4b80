//! The values that the readers of `git` output produce, and their models.

use crate::text::models;
use vstd::prelude::*;

verus! {

/// What a ref attached to a commit is.
#[derive(Debug, Clone, Copy, PartialEq, Eq, Structural)]
pub enum GitRefType {
    Head,
    LocalBranch,
    RemoteBranch,
    Tag,
}

/// A ref attached to a commit.
#[derive(Debug, Clone, PartialEq, Eq)]
pub struct GitRef {
    pub name: String,
    pub ref_type: GitRefType,
}

/// The model of a [`GitRef`].
pub struct GitRefModel {
    pub name: Seq<char>,
    pub ref_type: GitRefType,
}

impl View for GitRef {
    type V = GitRefModel;

    open spec fn view(&self) -> GitRefModel {
        GitRefModel { name: self.name@, ref_type: self.ref_type }
    }
}

/// One commit of the log.
#[derive(Debug, Clone, PartialEq, Eq)]
pub struct GitCommit {
    pub hash: String,
    pub short_hash: String,
    pub parents: Vec<String>,
    pub author_name: String,
    pub author_email: String,
    pub date: String,
    pub subject: String,
    pub refs: Vec<GitRef>,
}

/// The model of a [`GitCommit`].
pub struct GitCommitModel {
    pub hash: Seq<char>,
    pub short_hash: Seq<char>,
    pub parents: Seq<Seq<char>>,
    pub author_name: Seq<char>,
    pub author_email: Seq<char>,
    pub date: Seq<char>,
    pub subject: Seq<char>,
    pub refs: Seq<GitRefModel>,
}

impl View for GitCommit {
    type V = GitCommitModel;

    open spec fn view(&self) -> GitCommitModel {
        GitCommitModel {
            hash: self.hash@,
            short_hash: self.short_hash@,
            parents: models(self.parents@),
            author_name: self.author_name@,
            author_email: self.author_email@,
            date: self.date@,
            subject: self.subject@,
            refs: models(self.refs@),
        }
    }
}

/// The commits of a log and the branch that is checked out, if one is.
#[derive(Debug, Clone, PartialEq, Eq)]
pub struct GitLogResult {
    pub commits: Vec<GitCommit>,
    pub current_branch: Option<String>,
}

/// The model of a [`GitLogResult`].
pub struct GitLogModel {
    pub commits: Seq<GitCommitModel>,
    pub current_branch: Option<Seq<char>>,
}

impl View for GitLogResult {
    type V = GitLogModel;

    open spec fn view(&self) -> GitLogModel {
        GitLogModel {
            commits: models(self.commits@),
            current_branch: match self.current_branch {
                Some(b) => Some(b@),
                None => None,
            },
        }
    }
}

/// A file that a change touches. The status is one letter: `A` added, `M` modified,
/// `D` deleted, `R` renamed.
#[derive(Debug, Clone, PartialEq, Eq)]
pub struct CommitFile {
    pub path: String,
    pub status: String,
}

/// The model of a [`CommitFile`].
pub struct CommitFileModel {
    pub path: Seq<char>,
    pub status: Seq<char>,
}

impl View for CommitFile {
    type V = CommitFileModel;

    open spec fn view(&self) -> CommitFileModel {
        CommitFileModel { path: self.path@, status: self.status@ }
    }
}

/// One line of a hunk. The kind is `add`, `remove` or `context`.
#[derive(Debug, Clone, PartialEq, Eq)]
pub struct DiffLine {
    pub kind: String,
    pub content: String,
    pub old_lineno: Option<u32>,
    pub new_lineno: Option<u32>,
}

/// The model of a [`DiffLine`].
pub struct DiffLineModel {
    pub kind: Seq<char>,
    pub content: Seq<char>,
    pub old_lineno: Option<u32>,
    pub new_lineno: Option<u32>,
}

impl View for DiffLine {
    type V = DiffLineModel;

    open spec fn view(&self) -> DiffLineModel {
        DiffLineModel {
            kind: self.kind@,
            content: self.content@,
            old_lineno: self.old_lineno,
            new_lineno: self.new_lineno,
        }
    }
}

/// One hunk of a unified diff.
#[derive(Debug, Clone, PartialEq, Eq)]
pub struct DiffHunk {
    pub old_start: u32,
    pub old_count: u32,
    pub new_start: u32,
    pub new_count: u32,
    pub lines: Vec<DiffLine>,
}

/// The model of a [`DiffHunk`].
pub struct DiffHunkModel {
    pub old_start: u32,
    pub old_count: u32,
    pub new_start: u32,
    pub new_count: u32,
    pub lines: Seq<DiffLineModel>,
}

impl View for DiffHunk {
    type V = DiffHunkModel;

    open spec fn view(&self) -> DiffHunkModel {
        DiffHunkModel {
            old_start: self.old_start,
            old_count: self.old_count,
            new_start: self.new_start,
            new_count: self.new_count,
            lines: models(self.lines@),
        }
    }
}

/// The hunks of the diff of one file.
#[derive(Debug, Clone, PartialEq, Eq)]
pub struct FileDiff {
    pub path: String,
    pub hunks: Vec<DiffHunk>,
}

/// The model of a [`FileDiff`].
pub struct FileDiffModel {
    pub path: Seq<char>,
    pub hunks: Seq<DiffHunkModel>,
}

impl View for FileDiff {
    type V = FileDiffModel;

    open spec fn view(&self) -> FileDiffModel {
        FileDiffModel {
            path: self.path@,
            hunks: models(self.hunks@),
        }
    }
}

} // verus!
