//! The arguments with which `git` is run for each question that is put to it.

use crate::process::{run_view, CommandOutput, CommandOutputModel};
use crate::text::{decimal, models, push_decimal};
use vstd::prelude::*;
use vstd::string::StringExecFns;

verus! {

/// The number of commits that a log holds at most where no number is asked for.
pub const DEFAULT_MAX_COUNT: u32 = 200;

/// The format of a line of the log: the hash, the short hash, the parents, the author's
/// name and address, the date, the subject and the decoration, with a NUL between them.
pub const LOG_FORMAT: &'static str = "--format=%H%x00%h%x00%P%x00%an%x00%ae%x00%aI%x00%s%x00%D";

fn push_word(args: &mut Vec<String>, word: &str)
    ensures
        models(final(args)@) == models(old(args)@).push(word@),
{
    let ghost before = models(args@);
    let w = String::from_str(word);
    args.push(w);
    assert(models(args@) =~= before.push(w@));
}

fn no_words() -> (args: Vec<String>)
    ensures
        models(args@) == Seq::<Seq<char>>::empty(),
{
    let args: Vec<String> = Vec::new();
    assert(models(args@) =~= Seq::<Seq<char>>::empty());
    args
}

/// The number of commits to ask for: the one given, or the default.
pub open spec fn max_count_or_default(max_count: Option<u32>) -> u32 {
    match max_count {
        Some(n) => n,
        None => DEFAULT_MAX_COUNT,
    }
}

/// The arguments that ask for the log of all branches, at most `max_count` commits of
/// it, parents after their children.
pub fn log_args(max_count: Option<u32>) -> (args: Vec<String>)
    ensures
        models(args@) == seq![
            "log"@,
            "--all"@,
            "--topo-order"@,
            "--max-count="@ + decimal(max_count_or_default(max_count) as nat),
            LOG_FORMAT@,
        ],
{
    let count = match max_count {
        Some(n) => n,
        None => DEFAULT_MAX_COUNT,
    };
    let mut limit = String::from_str("--max-count=");
    push_decimal(&mut limit, count as u64);
    let mut args = no_words();
    push_word(&mut args, "log");
    push_word(&mut args, "--all");
    push_word(&mut args, "--topo-order");
    push_word(&mut args, limit.as_str());
    push_word(&mut args, LOG_FORMAT);
    assert(models(args@) =~= seq![
        "log"@,
        "--all"@,
        "--topo-order"@,
        "--max-count="@ + decimal(count as nat),
        LOG_FORMAT@,
    ]);
    args
}

/// The arguments that ask for the name of the branch that is checked out.
pub fn current_branch_args() -> (args: Vec<String>)
    ensures
        models(args@) == seq!["rev-parse"@, "--abbrev-ref"@, "HEAD"@],
{
    let mut args = no_words();
    push_word(&mut args, "rev-parse");
    push_word(&mut args, "--abbrev-ref");
    push_word(&mut args, "HEAD");
    assert(models(args@) =~= seq!["rev-parse"@, "--abbrev-ref"@, "HEAD"@]);
    args
}

/// The arguments that ask whether a directory lies in a work tree.
pub fn is_repo_args() -> (args: Vec<String>)
    ensures
        models(args@) == seq!["rev-parse"@, "--is-inside-work-tree"@],
{
    let mut args = no_words();
    push_word(&mut args, "rev-parse");
    push_word(&mut args, "--is-inside-work-tree");
    assert(models(args@) =~= seq!["rev-parse"@, "--is-inside-work-tree"@]);
    args
}

/// The arguments that ask whether there is a head, which a repository without commits
/// lacks.
pub fn head_args() -> (args: Vec<String>)
    ensures
        models(args@) == seq!["rev-parse"@, "HEAD"@],
{
    let mut args = no_words();
    push_word(&mut args, "rev-parse");
    push_word(&mut args, "HEAD");
    assert(models(args@) =~= seq!["rev-parse"@, "HEAD"@]);
    args
}

/// The arguments that ask for the files that the commit `hash` changed.
pub fn commit_files_args(hash: &str) -> (args: Vec<String>)
    ensures
        models(args@) == seq![
            "diff-tree"@,
            "--root"@,
            "--no-commit-id"@,
            "-r"@,
            "--name-status"@,
            hash@,
        ],
{
    let mut args = no_words();
    push_word(&mut args, "diff-tree");
    push_word(&mut args, "--root");
    push_word(&mut args, "--no-commit-id");
    push_word(&mut args, "-r");
    push_word(&mut args, "--name-status");
    push_word(&mut args, hash);
    assert(models(args@) =~= seq![
        "diff-tree"@,
        "--root"@,
        "--no-commit-id"@,
        "-r"@,
        "--name-status"@,
        hash@,
    ]);
    args
}

/// The arguments that ask for the diff of the file `path` in the commit `hash`.
pub fn file_diff_args(hash: &str, path: &str) -> (args: Vec<String>)
    ensures
        models(args@) == seq!["show"@, "--format="@, "--no-color"@, hash@, "--"@, path@],
{
    let mut args = no_words();
    push_word(&mut args, "show");
    push_word(&mut args, "--format=");
    push_word(&mut args, "--no-color");
    push_word(&mut args, hash);
    push_word(&mut args, "--");
    push_word(&mut args, path);
    assert(models(args@) =~= seq!["show"@, "--format="@, "--no-color"@, hash@, "--"@, path@]);
    args
}

/// The arguments that ask for the changes to files under version control: against the
/// head where there is one, else those that are staged.
pub fn local_changes_args(head_exists: bool) -> (args: Vec<String>)
    ensures
        models(args@) == if head_exists {
            seq!["diff"@, "HEAD"@, "--name-status"@]
        } else {
            seq!["diff"@, "--cached"@, "--name-status"@]
        },
{
    let mut args = no_words();
    push_word(&mut args, "diff");
    if head_exists {
        push_word(&mut args, "HEAD");
    } else {
        push_word(&mut args, "--cached");
    }
    push_word(&mut args, "--name-status");
    assert(head_exists ==> models(args@) =~= seq!["diff"@, "HEAD"@, "--name-status"@]);
    assert(!head_exists ==> models(args@) =~= seq!["diff"@, "--cached"@, "--name-status"@]);
    args
}

/// The arguments that ask for the files that are not under version control and not
/// ignored.
pub fn untracked_args() -> (args: Vec<String>)
    ensures
        models(args@) == seq!["ls-files"@, "--others"@, "--exclude-standard"@],
{
    let mut args = no_words();
    push_word(&mut args, "ls-files");
    push_word(&mut args, "--others");
    push_word(&mut args, "--exclude-standard");
    assert(models(args@) =~= seq!["ls-files"@, "--others"@, "--exclude-standard"@]);
    args
}

/// The arguments that ask for the diff of the file `path` of the work tree against the
/// head.
pub fn local_file_diff_args(path: &str) -> (args: Vec<String>)
    ensures
        models(args@) == seq!["diff"@, "HEAD"@, "--"@, path@],
{
    let mut args = no_words();
    push_word(&mut args, "diff");
    push_word(&mut args, "HEAD");
    push_word(&mut args, "--");
    push_word(&mut args, path);
    assert(models(args@) =~= seq!["diff"@, "HEAD"@, "--"@, path@]);
    args
}

/// The arguments that ask for the diff of the file `path` against nothing.
pub fn untracked_file_diff_args(path: &str) -> (args: Vec<String>)
    ensures
        models(args@) == seq!["diff"@, "--no-index"@, "/dev/null"@, path@],
{
    let mut args = no_words();
    push_word(&mut args, "diff");
    push_word(&mut args, "--no-index");
    push_word(&mut args, "/dev/null");
    push_word(&mut args, path);
    assert(models(args@) =~= seq!["diff"@, "--no-index"@, "/dev/null"@, path@]);
    args
}

/// Whether a run was started and ended well.
pub open spec fn succeeded(run: Result<CommandOutputModel, Seq<char>>) -> bool {
    run matches Ok(o) && o.success
}

/// Whether a run was started and ended well: so `git` answers that there is a head, or
/// that a directory lies in a work tree.
pub fn ran_well(run: &Result<CommandOutput, String>) -> (b: bool)
    ensures
        b == succeeded(run_view(*run)),
{
    match run {
        Ok(o) => o.success,
        Err(_) => false,
    }
}

} // verus!
