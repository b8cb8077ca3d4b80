//! The commit log, read from the lines that `git log` prints.

use crate::process::{run_view, CommandOutput, CommandOutputModel};
use crate::git::types::{
    GitCommit, GitCommitModel, GitLogModel, GitLogResult, GitRef, GitRefModel, GitRefType,
};
use crate::text::{
    join,
    contains, has, lines, matches_at, models, one, part, same, split, split_from, split_lines,
    split_pieces, splitn, starts_with, to_chars, to_string, trim, trimmed,
};
use vstd::prelude::*;

verus! {

/// The ref that one entry of a commit's decoration names. `HEAD -> name` and `HEAD` are
/// the head, `tag: name` is a tag, a name with a slash is a branch of a remote, and any
/// other name is a local branch.
pub open spec fn git_ref(piece: Seq<char>) -> GitRefModel {
    let t = trim(piece);
    if starts_with(t, "HEAD -> "@) {
        GitRefModel {
            name: t.subrange("HEAD -> "@.len() as int, t.len() as int),
            ref_type: GitRefType::Head,
        }
    } else if t == "HEAD"@ {
        GitRefModel { name: "HEAD"@, ref_type: GitRefType::Head }
    } else if starts_with(t, "tag: "@) {
        GitRefModel {
            name: t.subrange("tag: "@.len() as int, t.len() as int),
            ref_type: GitRefType::Tag,
        }
    } else if contains(t, seq!['/']) {
        GitRefModel { name: t, ref_type: GitRefType::RemoteBranch }
    } else {
        GitRefModel { name: t, ref_type: GitRefType::LocalBranch }
    }
}

/// The refs that the first `n` of `pieces` name: one for each piece that is not empty.
pub open spec fn refs_of(pieces: Seq<Seq<char>>, n: int) -> Seq<GitRefModel>
    decreases n,
{
    if n <= 0 {
        Seq::empty()
    } else if pieces[n - 1].len() == 0 {
        refs_of(pieces, n - 1)
    } else {
        refs_of(pieces, n - 1).push(git_ref(pieces[n - 1]))
    }
}

/// The refs of a decoration: its entries stand one after the other, with a comma and a
/// blank between them.
pub open spec fn refs(s: Seq<char>) -> Seq<GitRefModel> {
    let pieces = split(s, ", "@);
    refs_of(pieces, pieces.len() as int)
}

fn read_ref(piece: &[char]) -> (r: GitRef)
    ensures
        r@ == git_ref(piece@),
{
    let t = trimmed(piece);
    let head_to = to_chars("HEAD -> ");
    let head = to_chars("HEAD");
    let tag = to_chars("tag: ");
    let slash = one('/');
    if matches_at(t, head_to.as_slice(), 0) {
        GitRef { name: to_string(part(t, head_to.len(), t.len())), ref_type: GitRefType::Head }
    } else if same(t, head.as_slice()) {
        GitRef { name: String::from_str("HEAD"), ref_type: GitRefType::Head }
    } else if matches_at(t, tag.as_slice(), 0) {
        GitRef { name: to_string(part(t, tag.len(), t.len())), ref_type: GitRefType::Tag }
    } else if has(t, slash.as_slice()) {
        GitRef { name: to_string(t), ref_type: GitRefType::RemoteBranch }
    } else {
        GitRef { name: to_string(t), ref_type: GitRefType::LocalBranch }
    }
}

fn refs_in(s: &[char]) -> (out: Vec<GitRef>)
    ensures
        models(out@) == refs(s@),
{
    let sep = to_chars(", ");
    proof {
        reveal_strlit(", ");
    }
    let pieces = split_pieces(s, sep.as_slice(), None);
    let mut out: Vec<GitRef> = Vec::new();
    let mut i: usize = 0;
    assert(models(out@) =~= Seq::<GitRefModel>::empty());
    while i < pieces.len()
        invariant
            i <= pieces.len(),
            models(out@) == refs_of(models(pieces@), i as int),
        decreases pieces.len() - i,
    {
        assert(models(pieces@)[i as int] == pieces@[i as int]@);
        if pieces[i].len() > 0 {
            let ghost before = models(out@);
            let r = read_ref(pieces[i]);
            out.push(r);
            assert(models(out@) =~= before.push(r@));
        }
        i += 1;
    }
    out
}

/// Reads the refs of a commit's decoration, such as `HEAD -> main, tag: v1, origin/main`.
pub fn parse_refs(refs_str: &str) -> (out: Vec<GitRef>)
    ensures
        models(out@) == refs(refs_str@),
{
    let chars = to_chars(refs_str);
    refs_in(chars.as_slice())
}

/// The commit that one line of the log describes, if the line holds at least seven
/// fields with a NUL between them: the hash, the short hash, the parents with a blank
/// between them, the author's name and address, the date, the subject, and, as an
/// eighth field that may be missing, the decoration.
pub open spec fn commit_line(line: Seq<char>) -> Option<GitCommitModel> {
    let parts = splitn(line, 8, seq!['\0']);
    if parts.len() < 7 {
        None
    } else {
        Some(
            GitCommitModel {
                hash: parts[0],
                short_hash: parts[1],
                parents: if parts[2].len() == 0 {
                    Seq::empty()
                } else {
                    split(parts[2], seq![' '])
                },
                author_name: parts[3],
                author_email: parts[4],
                date: parts[5],
                subject: parts[6],
                refs: if parts.len() > 7 && parts[7].len() > 0 {
                    refs(parts[7])
                } else {
                    Seq::empty()
                },
            },
        )
    }
}

/// The strings that hold the characters of each of `pieces`.
fn to_strings(pieces: &Vec<&[char]>) -> (out: Vec<String>)
    ensures
        models(out@) == models(pieces@),
{
    let mut out: Vec<String> = Vec::new();
    let mut i: usize = 0;
    while i < pieces.len()
        invariant
            i <= pieces.len(),
            models(out@) == models(pieces@).take(i as int),
        decreases pieces.len() - i,
    {
        let ghost before = models(out@);
        let s = to_string(pieces[i]);
        out.push(s);
        assert(models(out@) =~= before.push(s@));
        assert(models(pieces@).take(i + 1) =~= models(pieces@).take(i as int).push(
            pieces@[i as int]@,
        ));
        i += 1;
    }
    assert(models(pieces@).take(pieces.len() as int) =~= models(pieces@));
    out
}

fn read_commit(line: &[char]) -> (r: Option<GitCommit>)
    ensures
        match r {
            Some(c) => commit_line(line@) == Some(c@),
            None => commit_line(line@) is None,
        },
{
    let nul = one('\0');
    let parts = split_pieces(line, nul.as_slice(), Some(8));
    let ghost m = models(parts@);
    assert(m == splitn(line@, 8, seq!['\0']));
    if parts.len() < 7 {
        return None;
    }
    assert(forall|i: int| 0 <= i < parts.len() ==> m[i] == (#[trigger] parts@[i])@);
    let parents: Vec<String> = if parts[2].len() == 0 {
        let v: Vec<String> = Vec::new();
        assert(models(v@) =~= Seq::<Seq<char>>::empty());
        v
    } else {
        let blank = one(' ');
        let pieces = split_pieces(parts[2], blank.as_slice(), None);
        to_strings(&pieces)
    };
    let refs: Vec<GitRef> = if parts.len() > 7 && parts[7].len() > 0 {
        refs_in(parts[7])
    } else {
        let v: Vec<GitRef> = Vec::new();
        assert(models(v@) =~= Seq::<GitRefModel>::empty());
        v
    };
    Some(
        GitCommit {
            hash: to_string(parts[0]),
            short_hash: to_string(parts[1]),
            parents,
            author_name: to_string(parts[3]),
            author_email: to_string(parts[4]),
            date: to_string(parts[5]),
            subject: to_string(parts[6]),
            refs,
        },
    )
}

/// Reads one line of the log into a commit; `None` where the line holds fewer than seven
/// fields.
pub fn parse_commit_line(line: &str) -> (r: Option<GitCommit>)
    ensures
        match r {
            Some(c) => commit_line(line@) == Some(c@),
            None => commit_line(line@) is None,
        },
{
    let chars = to_chars(line);
    read_commit(chars.as_slice())
}

/// The commits that the first `n` of the lines `ls` describe, in order; a line that
/// describes none is passed over.
pub open spec fn commits_of(ls: Seq<Seq<char>>, n: int) -> Seq<GitCommitModel>
    decreases n,
{
    if n <= 0 {
        Seq::empty()
    } else {
        match commit_line(ls[n - 1]) {
            Some(c) => commits_of(ls, n - 1).push(c),
            None => commits_of(ls, n - 1),
        }
    }
}

/// The commits that the text of a log describes, line by line.
pub open spec fn commits(text: Seq<char>) -> Seq<GitCommitModel> {
    let ls = lines(text);
    commits_of(ls, ls.len() as int)
}

/// What reading the log gives: the commits where `git log` ran and ended well, else the
/// reason why there are none.
pub open spec fn git_log(run: Result<CommandOutputModel, Seq<char>>) -> Result<
    Seq<GitCommitModel>,
    Seq<char>,
> {
    match run {
        Err(e) => Err("Failed to run git log: "@ + e),
        Ok(o) => if o.success {
            Ok(commits(o.stdout))
        } else {
            Err("git log failed: "@ + o.stderr)
        },
    }
}

/// Reads the commits from a run of `git log` whose format puts a NUL between the fields
/// of a line.
pub fn parse_git_log(run: &Result<CommandOutput, String>) -> (r: Result<Vec<GitCommit>, String>)
    ensures
        match r {
            Ok(commits) => git_log(run_view(*run)) == Ok::<Seq<GitCommitModel>, Seq<char>>(
                models(commits@),
            ),
            Err(e) => git_log(run_view(*run)) == Err::<Seq<GitCommitModel>, Seq<char>>(e@),
        },
{
    match run {
        Err(e) => Err(join("Failed to run git log: ", e.as_str())),
        Ok(o) => {
            if !o.success {
                return Err(join("git log failed: ", o.stderr.as_str()));
            }
            let chars = to_chars(o.stdout.as_str());
            let ls = split_lines(chars.as_slice());
            let mut out: Vec<GitCommit> = Vec::new();
            let mut i: usize = 0;
            assert(models(out@) =~= Seq::<GitCommitModel>::empty());
            while i < ls.len()
                invariant
                    i <= ls.len(),
                    models(out@) == commits_of(models(ls@), i as int),
                decreases ls.len() - i,
            {
                assert(models(ls@)[i as int] == ls@[i as int]@);
                let ghost before = models(out@);
                match read_commit(ls[i]) {
                    Some(c) => {
                        out.push(c);
                        assert(models(out@) =~= before.push(c@));
                    },
                    None => {},
                }
                i += 1;
            }
            Ok(out)
        },
    }
}

/// The branch that is checked out, from a run of `git rev-parse --abbrev-ref HEAD`: what
/// it printed, without the white space around it, unless the run failed or printed
/// `HEAD`, which stands for a detached head.
pub open spec fn current_branch(run: Option<CommandOutputModel>) -> Option<Seq<char>> {
    match run {
        Some(o) => if o.success && trim(o.stdout) != "HEAD"@ {
            Some(trim(o.stdout))
        } else {
            None
        },
        None => None,
    }
}

/// The name of the branch that is checked out, if the run shows one.
pub fn get_current_branch(run: Option<&CommandOutput>) -> (r: Option<String>)
    ensures
        match r {
            Some(b) => current_branch(output_view(run)) == Some(b@),
            None => current_branch(output_view(run)) is None,
        },
{
    match run {
        None => None,
        Some(o) => {
            if !o.success {
                return None;
            }
            let chars = to_chars(o.stdout.as_str());
            let branch = trimmed(chars.as_slice());
            let head = to_chars("HEAD");
            if same(branch, head.as_slice()) {
                None
            } else {
                Some(to_string(branch))
            }
        },
    }
}

/// The view of a run that may not have been started.
pub open spec fn output_view(run: Option<&CommandOutput>) -> Option<CommandOutputModel> {
    match run {
        Some(o) => Some(o@),
        None => None,
    }
}

/// The log as it is shown: the commits that were read, and the branch that the run of
/// `git rev-parse --abbrev-ref HEAD` shows to be checked out.
pub fn log_result(commits: Vec<GitCommit>, branch: Option<&CommandOutput>) -> (r: GitLogResult)
    ensures
        r@ == (GitLogModel {
            commits: models(commits@),
            current_branch: current_branch(output_view(branch)),
        }),
{
    let current_branch = get_current_branch(branch);
    GitLogResult { commits, current_branch }
}

} // verus!
