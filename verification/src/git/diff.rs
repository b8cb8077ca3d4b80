//! Unified diffs and lists of changed files, read from the text that `git` prints.

use crate::process::{run_view, CommandOutput, CommandOutputModel};
use crate::git::types::{
    CommitFile, CommitFileModel, DiffHunk, DiffHunkModel, DiffLine, DiffLineModel, FileDiff,
    FileDiffModel,
};
use crate::text::{
    join,
    index_from, lines, matches_at, models, part, parse_u32, read_u32, skip, skip_pattern,
    skip_repeats, split, split_from, split_lines, split_pieces, split_tokens, splitn, starts_with,
    to_chars, to_string, tokens, trim, trim_start_class, trimmed, find, one, CharClass,
};
use vstd::prelude::*;

verus! {

/// The number that `s` writes, or 1 where it writes none.
pub open spec fn number_or_one(s: Seq<char>) -> u32 {
    match parse_u32(s) {
        Some(v) => v,
        None => 1,
    }
}

/// The start and the count that a range such as `-12,5` or `+7` names. Signs before the
/// numbers are passed over; a number that is missing or cannot be read counts as 1.
pub open spec fn range(s: Seq<char>) -> (u32, u32) {
    let parts = split(trim_start_class(s, CharClass::Sign), seq![',']);
    (
        number_or_one(parts[0]),
        if parts.len() > 1 {
            number_or_one(parts[1])
        } else {
            1
        },
    )
}

fn range_of(s: &[char]) -> (r: (u32, u32))
    ensures
        r == range(s@),
{
    let a = skip(s, CharClass::Sign, 0);
    let t = part(s, a, s.len());
    let comma = one(',');
    let parts = split_pieces(t, comma.as_slice(), None);
    assert(models(parts@) == split_from(t@, seq![','], 0, None));
    assert(models(parts@).len() >= 1);
    assert(models(parts@)[0] == parts@[0]@);
    let start = match read_u32(parts[0]) {
        Some(v) => v,
        None => 1,
    };
    let count = if parts.len() > 1 {
        assert(models(parts@)[1] == parts@[1]@);
        match read_u32(parts[1]) {
            Some(v) => v,
            None => 1,
        }
    } else {
        1
    };
    (start, count)
}

/// Reads a range of a hunk header, such as `-12,5`, into its start and its count.
pub fn parse_range(s: &str) -> (r: (u32, u32))
    ensures
        r == range(s@),
{
    let chars = to_chars(s);
    range_of(chars.as_slice())
}

/// What stands between the `@@` marks of a hunk header, without white space around it:
/// the line without the marks at its start, up to the next mark.
pub open spec fn hunk_inner(line: Seq<char>) -> Seq<char> {
    let rest = line.subrange(skip_repeats(line, "@@"@, 0), line.len() as int);
    trim(rest.subrange(0, index_from(rest, "@@"@, 0)))
}

/// The old start, old count, new start and new count that a hunk header names. The first
/// word between the marks is the old range, the second the new one; a range that is
/// missing counts as start 1 and count 1.
pub open spec fn hunk_header(line: Seq<char>) -> (u32, u32, u32, u32) {
    let words = tokens(hunk_inner(line));
    let old = if words.len() > 0 {
        range(words[0])
    } else {
        (1u32, 1u32)
    };
    let new = if words.len() > 1 {
        range(words[1])
    } else {
        (1u32, 1u32)
    };
    (old.0, old.1, new.0, new.1)
}

fn hunk_header_of(line: &[char]) -> (r: (u32, u32, u32, u32))
    ensures
        r == hunk_header(line@),
{
    let marks = to_chars("@@");
    let a = skip_pattern(line, marks.as_slice(), 0);
    let rest = part(line, a, line.len());
    let b = find(rest, marks.as_slice(), 0);
    let inner = trimmed(part(rest, 0, b));
    let words = split_tokens(inner);
    assert(inner@ == hunk_inner(line@));
    let old = if words.len() > 0 {
        assert(models(words@)[0] == words@[0]@);
        range_of(words[0])
    } else {
        (1, 1)
    };
    let new = if words.len() > 1 {
        assert(models(words@)[1] == words@[1]@);
        range_of(words[1])
    } else {
        (1, 1)
    };
    (old.0, old.1, new.0, new.1)
}

/// Reads a hunk header such as `@@ -1,5 +1,7 @@` into old start, old count, new start
/// and new count.
pub fn parse_hunk_header(line: &str) -> (r: (u32, u32, u32, u32))
    ensures
        r == hunk_header(line@),
{
    let chars = to_chars(line);
    hunk_header_of(chars.as_slice())
}

/// Whether `line` is one of the lines that `git` prints around the hunks of a diff: the
/// file names, the index, the modes, the notes on renames and on binary files. Such a
/// line belongs to no hunk, wherever it stands.
pub open spec fn is_header(line: Seq<char>) -> bool {
    ||| starts_with(line, "diff --git"@)
    ||| starts_with(line, "index "@)
    ||| starts_with(line, "--- "@)
    ||| starts_with(line, "+++ "@)
    ||| starts_with(line, "new file"@)
    ||| starts_with(line, "deleted file"@)
    ||| starts_with(line, "old mode"@)
    ||| starts_with(line, "new mode"@)
    ||| starts_with(line, "similarity index"@)
    ||| starts_with(line, "rename from"@)
    ||| starts_with(line, "rename to"@)
    ||| starts_with(line, "Binary files"@)
}

fn header_line(line: &[char]) -> (b: bool)
    ensures
        b == is_header(line@),
{
    matches_at(line, to_chars("diff --git").as_slice(), 0) || matches_at(
        line,
        to_chars("index ").as_slice(),
        0,
    ) || matches_at(line, to_chars("--- ").as_slice(), 0) || matches_at(
        line,
        to_chars("+++ ").as_slice(),
        0,
    ) || matches_at(line, to_chars("new file").as_slice(), 0) || matches_at(
        line,
        to_chars("deleted file").as_slice(),
        0,
    ) || matches_at(line, to_chars("old mode").as_slice(), 0) || matches_at(
        line,
        to_chars("new mode").as_slice(),
        0,
    ) || matches_at(line, to_chars("similarity index").as_slice(), 0) || matches_at(
        line,
        to_chars("rename from").as_slice(),
        0,
    ) || matches_at(line, to_chars("rename to").as_slice(), 0) || matches_at(
        line,
        to_chars("Binary files").as_slice(),
        0,
    )
}

/// The first `n` lines of `ls` without those that are headers.
pub open spec fn body_lines(ls: Seq<Seq<char>>, n: int) -> Seq<Seq<char>>
    decreases n,
{
    if n <= 0 {
        Seq::empty()
    } else if is_header(ls[n - 1]) {
        body_lines(ls, n - 1)
    } else {
        body_lines(ls, n - 1).push(ls[n - 1])
    }
}

/// Whether `line` begins a hunk.
pub open spec fn is_hunk_start(line: Seq<char>) -> bool {
    starts_with(line, "@@"@)
}

/// The first position at or after `from` whose line begins a hunk, or `ls.len()`.
pub open spec fn hunk_end(ls: Seq<Seq<char>>, from: int) -> int
    decreases ls.len() - from,
{
    if from < 0 || from >= ls.len() {
        ls.len() as int
    } else if is_hunk_start(ls[from]) {
        from
    } else {
        hunk_end(ls, from + 1)
    }
}

/// A hunk ends not before its first line and not after the last line of the text.
pub proof fn lemma_hunk_end_bounds(ls: Seq<Seq<char>>, from: int)
    requires
        0 <= from <= ls.len(),
    ensures
        from <= hunk_end(ls, from) <= ls.len(),
    decreases ls.len() - from,
{
    if from < ls.len() && !is_hunk_start(ls[from]) {
        lemma_hunk_end_bounds(ls, from + 1);
    }
}

/// The line number after `n`. Numbers wrap round at the end of 32 bits.
pub open spec fn next_number(n: u32) -> u32 {
    if n == u32::MAX {
        0
    } else {
        (n + 1) as u32
    }
}

/// Whether `line` is a line that the change adds.
pub open spec fn is_added(line: Seq<char>) -> bool {
    line.len() > 0 && line[0] == '+'
}

/// Whether `line` is a line that the change removes.
pub open spec fn is_removed(line: Seq<char>) -> bool {
    line.len() > 0 && line[0] == '-'
}

/// The number in the old file of the `k`th line of a hunk whose lines begin at position
/// `first` of `ls`: the hunk's old start, advanced once for each earlier line of the hunk
/// that is not added.
pub open spec fn old_number(ls: Seq<Seq<char>>, first: int, start: u32, k: int) -> u32
    decreases k,
{
    if k <= 0 {
        start
    } else if is_added(ls[first + k - 1]) {
        old_number(ls, first, start, k - 1)
    } else {
        next_number(old_number(ls, first, start, k - 1))
    }
}

/// The number in the new file of the `k`th line of a hunk whose lines begin at position
/// `first` of `ls`: the hunk's new start, advanced once for each earlier line of the hunk
/// that is added or stands in both files.
pub open spec fn new_number(ls: Seq<Seq<char>>, first: int, start: u32, k: int) -> u32
    decreases k,
{
    if k <= 0 {
        start
    } else if is_removed(ls[first + k - 1]) {
        new_number(ls, first, start, k - 1)
    } else {
        next_number(new_number(ls, first, start, k - 1))
    }
}

/// The `k`th line of a hunk whose lines begin at position `first` of `ls` and whose
/// header names `old_start` and `new_start`. A line that begins with `+` is added, one
/// that begins with `-` is removed, and any other stands in both files; the content is the
/// line without that first character, or without the blank that begins a line of context.
pub open spec fn diff_line(
    ls: Seq<Seq<char>>,
    first: int,
    old_start: u32,
    new_start: u32,
    k: int,
) -> DiffLineModel {
    let line = ls[first + k];
    if is_added(line) {
        DiffLineModel {
            kind: "add"@,
            content: line.subrange(1, line.len() as int),
            old_lineno: None,
            new_lineno: Some(new_number(ls, first, new_start, k)),
        }
    } else if is_removed(line) {
        DiffLineModel {
            kind: "remove"@,
            content: line.subrange(1, line.len() as int),
            old_lineno: Some(old_number(ls, first, old_start, k)),
            new_lineno: None,
        }
    } else {
        DiffLineModel {
            kind: "context"@,
            content: if line.len() > 0 && line[0] == ' ' {
                line.subrange(1, line.len() as int)
            } else {
                line
            },
            old_lineno: Some(old_number(ls, first, old_start, k)),
            new_lineno: Some(new_number(ls, first, new_start, k)),
        }
    }
}

/// The hunk whose header is line `at` of `ls` and whose lines run up to `end`.
pub open spec fn hunk(ls: Seq<Seq<char>>, at: int, end: int) -> DiffHunkModel {
    let h = hunk_header(ls[at]);
    DiffHunkModel {
        old_start: h.0,
        old_count: h.1,
        new_start: h.2,
        new_count: h.3,
        lines: Seq::new((end - at - 1) as nat, |k: int| diff_line(ls, at + 1, h.0, h.2, k)),
    }
}

/// The hunks that the lines `ls` hold from position `from` on. A hunk runs from a line
/// that begins with `@@` to the next such line or to the end; lines before the first
/// hunk belong to none.
pub open spec fn hunks_from(ls: Seq<Seq<char>>, from: int) -> Seq<DiffHunkModel>
    decreases ls.len() - from,
{
    if from < 0 || from >= ls.len() {
        Seq::empty()
    } else if !is_hunk_start(ls[from]) {
        hunks_from(ls, from + 1)
    } else {
        let end = hunk_end(ls, from + 1);
        proof {
            lemma_hunk_end_bounds(ls, from + 1);
        }
        seq![hunk(ls, from, end)] + hunks_from(ls, end)
    }
}

/// The hunks of a unified diff: those of its lines, the header lines left out.
pub open spec fn unified_diff(text: Seq<char>) -> Seq<DiffHunkModel> {
    let ls = lines(text);
    hunks_from(body_lines(ls, ls.len() as int), 0)
}

fn next_line(n: u32) -> (r: u32)
    ensures
        r == next_number(n),
{
    if n == u32::MAX {
        0
    } else {
        n + 1
    }
}

/// Whether `line` begins with the character `c`.
fn begins_with(line: &[char], c: char) -> (b: bool)
    ensures
        b == (line@.len() > 0 && line@[0] == c),
{
    line.len() > 0 && line[0] == c
}

/// Reads the `k`th line of a hunk, given the numbers at which that line stands.
fn read_diff_line(
    line: &[char],
    old_line: u32,
    new_line: u32,
    Ghost(ls): Ghost<Seq<Seq<char>>>,
    Ghost(first): Ghost<int>,
    Ghost(old_start): Ghost<u32>,
    Ghost(new_start): Ghost<u32>,
    Ghost(k): Ghost<int>,
) -> (r: DiffLine)
    requires
        0 <= first,
        0 <= k,
        first + k < ls.len(),
        line@ == ls[first + k],
        old_line == old_number(ls, first, old_start, k),
        new_line == new_number(ls, first, new_start, k),
    ensures
        r@ == diff_line(ls, first, old_start, new_start, k),
{
    if begins_with(line, '+') {
        DiffLine {
            kind: String::from_str("add"),
            content: to_string(part(line, 1, line.len())),
            old_lineno: None,
            new_lineno: Some(new_line),
        }
    } else if begins_with(line, '-') {
        DiffLine {
            kind: String::from_str("remove"),
            content: to_string(part(line, 1, line.len())),
            old_lineno: Some(old_line),
            new_lineno: None,
        }
    } else {
        let content = if begins_with(line, ' ') {
            to_string(part(line, 1, line.len()))
        } else {
            assert(line@.subrange(0, line@.len() as int) =~= line@);
            to_string(part(line, 0, line.len()))
        };
        DiffLine {
            kind: String::from_str("context"),
            content,
            old_lineno: Some(old_line),
            new_lineno: Some(new_line),
        }
    }
}

/// Reads the hunk whose header is line `at` of `ls`, and returns it with the position of
/// the line after it.
fn read_hunk(ls: &Vec<&[char]>, at: usize) -> (r: (DiffHunk, usize))
    requires
        at < ls.len(),
        is_hunk_start(ls@[at as int]@),
    ensures
        r.1 == hunk_end(models(ls@), at + 1),
        at < r.1 <= ls.len(),
        r.0@ == hunk(models(ls@), at as int, r.1 as int),
{
    let ghost m = models(ls@);
    let header = hunk_header_of(ls[at]);
    let marks = to_chars("@@");
    let mut lines: Vec<DiffLine> = Vec::new();
    let mut old_line: u32 = header.0;
    let mut new_line: u32 = header.2;
    let mut k: usize = at + 1;
    assert(models(lines@) =~= Seq::new(0nat, |j: int| diff_line(m, at + 1, header.0, header.2, j)));
    while k < ls.len() && !matches_at(ls[k], marks.as_slice(), 0)
        invariant
            at + 1 <= k <= ls.len(),
            m == models(ls@),
            marks@ == "@@"@,
            header == hunk_header(m[at as int]),
            hunk_end(m, at + 1) == hunk_end(m, k as int),
            old_line == old_number(m, at + 1, header.0, k - at - 1),
            new_line == new_number(m, at + 1, header.2, k - at - 1),
            models(lines@) == Seq::new(
                (k - at - 1) as nat,
                |j: int| diff_line(m, at + 1, header.0, header.2, j),
            ),
        decreases ls.len() - k,
    {
        let line = ls[k];
        assert(line@ == m[at + 1 + (k - at - 1)]);
        let item = read_diff_line(
            line,
            old_line,
            new_line,
            Ghost(m),
            Ghost(at + 1),
            Ghost(header.0),
            Ghost(header.2),
            Ghost(k - at - 1),
        );
        let ghost before = models(lines@);
        lines.push(item);
        assert(models(lines@) =~= before.push(item@));
        assert(before.push(item@) =~= Seq::new(
            (k + 1 - at - 1) as nat,
            |j: int| diff_line(m, at + 1, header.0, header.2, j),
        ));
        let added = begins_with(line, '+');
        let removed = begins_with(line, '-');
        if !added {
            old_line = next_line(old_line);
        }
        if added || !removed {
            new_line = next_line(new_line);
        }
        k += 1;
    }
    (
        DiffHunk {
            old_start: header.0,
            old_count: header.1,
            new_start: header.2,
            new_count: header.3,
            lines,
        },
        k,
    )
}

/// Reads the hunks of a unified diff.
pub fn parse_unified_diff(diff: &str) -> (hunks: Vec<DiffHunk>)
    ensures
        models(hunks@) == unified_diff(diff@),
{
    let chars = to_chars(diff);
    let all = split_lines(chars.as_slice());
    let mut kept: Vec<&[char]> = Vec::new();
    let mut i: usize = 0;
    assert(models(kept@) =~= Seq::<Seq<char>>::empty());
    while i < all.len()
        invariant
            i <= all.len(),
            models(kept@) == body_lines(models(all@), i as int),
        decreases all.len() - i,
    {
        let ghost before = models(kept@);
        assert(models(all@)[i as int] == all@[i as int]@);
        if !header_line(all[i]) {
            kept.push(all[i]);
            assert(models(kept@) =~= before.push(all@[i as int]@));
        }
        i += 1;
    }
    let ghost m = models(kept@);
    let marks = to_chars("@@");
    let mut hunks: Vec<DiffHunk> = Vec::new();
    let mut from: usize = 0;
    assert(models(hunks@) =~= Seq::<DiffHunkModel>::empty());
    while from < kept.len()
        invariant
            from <= kept.len(),
            m == models(kept@),
            marks@ == "@@"@,
            models(hunks@) + hunks_from(m, from as int) == hunks_from(m, 0),
        decreases kept.len() - from,
    {
        assert(m[from as int] == kept@[from as int]@);
        if matches_at(kept[from], marks.as_slice(), 0) {
            let (hunk, end) = read_hunk(&kept, from);
            let ghost before = models(hunks@);
            let ghost rest = hunks_from(m, end as int);
            hunks.push(hunk);
            assert(models(hunks@) =~= before.push(hunk@));
            assert(before.push(hunk@) + rest =~= before + (seq![hunk@] + rest));
            from = end;
        } else {
            from += 1;
        }
    }
    hunks
}

/// The file that one line of a list of changes names. The line, without the white space
/// around it, holds a status and one or two paths with a tab between them; the file's
/// status is the first letter of the line's, or `default_status` where the line's is
/// empty, and its path is the last path, which for a rename is the new one. A line that
/// is blank or holds no tab names no file.
pub open spec fn changed_file(line: Seq<char>, default_status: char) -> Option<CommitFileModel> {
    let parts = splitn(trim(line), 3, seq!['\t']);
    if trim(line).len() == 0 || parts.len() < 2 {
        None
    } else {
        Some(
            CommitFileModel {
                path: if parts.len() == 3 {
                    parts[2]
                } else {
                    parts[1]
                },
                status: seq![
                    if parts[0].len() > 0 {
                        parts[0][0]
                    } else {
                        default_status
                    },
                ],
            },
        )
    }
}

/// The files that the first `n` of the lines `ls` name, in order.
pub open spec fn changed_files_of(ls: Seq<Seq<char>>, n: int, default_status: char) -> Seq<
    CommitFileModel,
>
    decreases n,
{
    if n <= 0 {
        Seq::empty()
    } else {
        match changed_file(ls[n - 1], default_status) {
            Some(f) => changed_files_of(ls, n - 1, default_status).push(f),
            None => changed_files_of(ls, n - 1, default_status),
        }
    }
}

/// The files that a list of changes names, line by line.
pub open spec fn changed_files(text: Seq<char>, default_status: char) -> Seq<CommitFileModel> {
    let ls = lines(text);
    changed_files_of(ls, ls.len() as int, default_status)
}

fn read_changed_file(line: &[char], default_status: char) -> (r: Option<CommitFile>)
    ensures
        match r {
            Some(f) => changed_file(line@, default_status) == Some(f@),
            None => changed_file(line@, default_status) is None,
        },
{
    let t = trimmed(line);
    if t.len() == 0 {
        return None;
    }
    let tab = one('\t');
    let parts = split_pieces(t, tab.as_slice(), Some(3));
    let ghost m = models(parts@);
    assert(m == splitn(trim(line@), 3, seq!['\t']));
    if parts.len() < 2 {
        return None;
    }
    assert(forall|i: int| 0 <= i < parts.len() ==> m[i] == (#[trigger] parts@[i])@);
    let letter = if parts[0].len() > 0 {
        parts[0][0]
    } else {
        default_status
    };
    let mut status = String::new();
    status.push(letter);
    assert(status@ =~= seq![letter]);
    let path = if parts.len() == 3 {
        to_string(parts[2])
    } else {
        to_string(parts[1])
    };
    Some(CommitFile { path, status })
}

fn read_changed_files(text: &str, default_status: char, out: &mut Vec<CommitFile>)
    ensures
        models(final(out)@) == models(old(out)@) + changed_files(text@, default_status),
{
    let chars = to_chars(text);
    let ls = split_lines(chars.as_slice());
    let mut i: usize = 0;
    assert(models(out@) + Seq::<CommitFileModel>::empty() =~= models(out@));
    while i < ls.len()
        invariant
            i <= ls.len(),
            models(out@) == models(old(out)@) + changed_files_of(
                models(ls@),
                i as int,
                default_status,
            ),
        decreases ls.len() - i,
    {
        assert(models(ls@)[i as int] == ls@[i as int]@);
        let ghost before = models(out@);
        match read_changed_file(ls[i], default_status) {
            Some(f) => {
                out.push(f);
                assert(models(out@) =~= before.push(f@));
                assert(before.push(f@) =~= models(old(out)@) + changed_files_of(
                    models(ls@),
                    i as int,
                    default_status,
                ).push(f@));
            },
            None => {},
        }
        i += 1;
    }
}

/// The files of a commit, from a run of `git diff-tree --name-status`: the files that
/// its output names, a status that is missing read as `M`; or the reason why there are
/// none.
pub open spec fn commit_files(run: Result<CommandOutputModel, Seq<char>>) -> Result<
    Seq<CommitFileModel>,
    Seq<char>,
> {
    match run {
        Err(e) => Err("Failed to run git diff-tree: "@ + e),
        Ok(o) => if o.success {
            Ok(changed_files(o.stdout, 'M'))
        } else {
            Err("git diff-tree failed: "@ + o.stderr)
        },
    }
}

/// Reads the files that a commit changed.
pub fn get_commit_files(run: &Result<CommandOutput, String>) -> (r: Result<
    Vec<CommitFile>,
    String,
>)
    ensures
        match r {
            Ok(files) => commit_files(run_view(*run)) == Ok::<Seq<CommitFileModel>, Seq<char>>(
                models(files@),
            ),
            Err(e) => commit_files(run_view(*run)) == Err::<Seq<CommitFileModel>, Seq<char>>(e@),
        },
{
    match run {
        Err(e) => Err(join("Failed to run git diff-tree: ", e.as_str())),
        Ok(o) => {
            if !o.success {
                return Err(join("git diff-tree failed: ", o.stderr.as_str()));
            }
            let mut files: Vec<CommitFile> = Vec::new();
            assert(models(files@) =~= Seq::<CommitFileModel>::empty());
            read_changed_files(o.stdout.as_str(), 'M', &mut files);
            assert(Seq::<CommitFileModel>::empty() + changed_files(o.stdout@, 'M')
                =~= changed_files(o.stdout@, 'M'));
            Ok(files)
        },
    }
}

/// The diff of one file in a commit, from a run of `git show`: the hunks of what it
/// printed, under the path that was asked for; or the reason why there is none.
pub open spec fn file_diff(run: Result<CommandOutputModel, Seq<char>>, path: Seq<char>) -> Result<
    FileDiffModel,
    Seq<char>,
> {
    match run {
        Err(e) => Err("Failed to run git show: "@ + e),
        Ok(o) => if o.success {
            Ok(FileDiffModel { path, hunks: unified_diff(o.stdout) })
        } else {
            Err("git show failed: "@ + o.stderr)
        },
    }
}

/// Reads the diff of one file in a commit.
pub fn get_file_diff(run: &Result<CommandOutput, String>, path: &str) -> (r: Result<
    FileDiff,
    String,
>)
    ensures
        match r {
            Ok(d) => file_diff(run_view(*run), path@) == Ok::<FileDiffModel, Seq<char>>(d@),
            Err(e) => file_diff(run_view(*run), path@) == Err::<FileDiffModel, Seq<char>>(e@),
        },
{
    match run {
        Err(e) => Err(join("Failed to run git show: ", e.as_str())),
        Ok(o) => {
            if !o.success {
                return Err(join("git show failed: ", o.stderr.as_str()));
            }
            let hunks = parse_unified_diff(o.stdout.as_str());
            Ok(FileDiff { path: String::from_str(path), hunks })
        },
    }
}

/// The files that the first `n` of the lines `ls` name as untracked: each line that is
/// not blank is a path, taken without the white space around it, and the file counts as
/// added.
pub open spec fn untracked_files_of(ls: Seq<Seq<char>>, n: int) -> Seq<CommitFileModel>
    decreases n,
{
    if n <= 0 {
        Seq::empty()
    } else if trim(ls[n - 1]).len() == 0 {
        untracked_files_of(ls, n - 1)
    } else {
        untracked_files_of(ls, n - 1).push(
            CommitFileModel { path: trim(ls[n - 1]), status: "A"@ },
        )
    }
}

/// The files that a run has to show: those that `read` finds in what the run printed,
/// none where the run ended badly.
pub open spec fn shown(o: CommandOutputModel, found: Seq<CommitFileModel>) -> Seq<
    CommitFileModel,
> {
    if o.success {
        found
    } else {
        Seq::empty()
    }
}

/// The changes of the working tree that are not committed yet. `versioned` is the run of
/// `git diff HEAD --name-status` where a head exists, and of `git diff --cached
/// --name-status` where none does; `untracked` is the run of `git ls-files --others`.
/// The changes to files under version control come first, a status that is missing read as `M` with a head and
/// as `A` without; then the untracked files, as added. A run that ended badly adds
/// nothing; one that could not be started is the reason why there is no list.
pub open spec fn local_changes(
    head_exists: bool,
    versioned: Result<CommandOutputModel, Seq<char>>,
    untracked: Result<CommandOutputModel, Seq<char>>,
) -> Result<Seq<CommitFileModel>, Seq<char>> {
    match versioned {
        Err(e) => Err(
            if head_exists {
                "Failed to run git diff HEAD: "@ + e
            } else {
                "Failed to run git diff --cached: "@ + e
            },
        ),
        Ok(t) => match untracked {
            Err(e) => Err("Failed to run git ls-files: "@ + e),
            Ok(u) => Ok(
                shown(
                    t,
                    changed_files(
                        t.stdout,
                        if head_exists {
                            'M'
                        } else {
                            'A'
                        },
                    ),
                ) + shown(
                    u,
                    untracked_files_of(lines(u.stdout), lines(u.stdout).len() as int),
                ),
            ),
        },
    }
}

fn read_untracked_files(text: &str, out: &mut Vec<CommitFile>)
    ensures
        models(final(out)@) == models(old(out)@) + untracked_files_of(
            lines(text@),
            lines(text@).len() as int,
        ),
{
    let chars = to_chars(text);
    let ls = split_lines(chars.as_slice());
    let mut i: usize = 0;
    assert(models(out@) + Seq::<CommitFileModel>::empty() =~= models(out@));
    while i < ls.len()
        invariant
            i <= ls.len(),
            models(out@) == models(old(out)@) + untracked_files_of(models(ls@), i as int),
        decreases ls.len() - i,
    {
        assert(models(ls@)[i as int] == ls@[i as int]@);
        let ghost before = models(out@);
        let t = trimmed(ls[i]);
        if t.len() > 0 {
            let f = CommitFile { path: to_string(t), status: String::from_str("A") };
            out.push(f);
            assert(models(out@) =~= before.push(f@));
            assert(before.push(f@) =~= models(old(out)@) + untracked_files_of(
                models(ls@),
                i as int,
            ).push(f@));
        }
        i += 1;
    }
}

/// Reads the changes of the working tree that are not committed yet.
pub fn get_local_changes(
    head_exists: bool,
    versioned: &Result<CommandOutput, String>,
    untracked: &Result<CommandOutput, String>,
) -> (r: Result<Vec<CommitFile>, String>)
    ensures
        match r {
            Ok(files) => local_changes(head_exists, run_view(*versioned), run_view(*untracked))
                == Ok::<Seq<CommitFileModel>, Seq<char>>(models(files@)),
            Err(e) => local_changes(head_exists, run_view(*versioned), run_view(*untracked))
                == Err::<Seq<CommitFileModel>, Seq<char>>(e@),
        },
{
    let mut files: Vec<CommitFile> = Vec::new();
    assert(models(files@) =~= Seq::<CommitFileModel>::empty());
    match versioned {
        Err(e) => {
            if head_exists {
                return Err(join("Failed to run git diff HEAD: ", e.as_str()));
            } else {
                return Err(join("Failed to run git diff --cached: ", e.as_str()));
            }
        },
        Ok(t) => {
            if t.success {
                let default_status = if head_exists {
                    'M'
                } else {
                    'A'
                };
                read_changed_files(t.stdout.as_str(), default_status, &mut files);
                assert(Seq::<CommitFileModel>::empty() + changed_files(t.stdout@, default_status)
                    =~= changed_files(t.stdout@, default_status));
            }
        },
    }
    match untracked {
        Err(e) => Err(join("Failed to run git ls-files: ", e.as_str())),
        Ok(u) => {
            if u.success {
                read_untracked_files(u.stdout.as_str(), &mut files);
            } else {
                assert(models(files@) + Seq::<CommitFileModel>::empty() =~= models(files@));
            }
            Ok(files)
        },
    }
}

/// What is known of a local diff once `git diff HEAD` has run.
pub enum LocalDiff {
    /// The diff, or the reason why there is none.
    Finished(Result<FileDiff, String>),
    /// The run printed nothing: the file may be untracked, and the answer is the diff
    /// of the file against nothing, which a run of `git diff --no-index` gives.
    CompareWithNothing,
}

/// The model of a [`LocalDiff`].
pub enum LocalDiffModel {
    Finished(Result<FileDiffModel, Seq<char>>),
    CompareWithNothing,
}

impl View for LocalDiff {
    type V = LocalDiffModel;

    open spec fn view(&self) -> LocalDiffModel {
        match self {
            LocalDiff::Finished(Ok(d)) => LocalDiffModel::Finished(Ok(d@)),
            LocalDiff::Finished(Err(e)) => LocalDiffModel::Finished(Err(e@)),
            LocalDiff::CompareWithNothing => LocalDiffModel::CompareWithNothing,
        }
    }
}

/// What a run of `git diff HEAD` on one file settles. A run that could not be started is
/// the reason why there is no diff. A run that printed white space only, or nothing,
/// settles nothing: the file is then compared with nothing. Any other run gives the
/// hunks of what it printed, however it ended.
pub open spec fn local_file_diff(run: Result<CommandOutputModel, Seq<char>>, path: Seq<char>)
    -> LocalDiffModel {
    match run {
        Err(e) => LocalDiffModel::Finished(Err("Failed to run git diff: "@ + e)),
        Ok(o) => if trim(o.stdout).len() == 0 {
            LocalDiffModel::CompareWithNothing
        } else {
            LocalDiffModel::Finished(Ok(FileDiffModel { path, hunks: unified_diff(o.stdout) }))
        },
    }
}

/// Reads the diff of a file of the working tree against the head, or asks for the
/// comparison with nothing.
pub fn get_local_file_diff(run: &Result<CommandOutput, String>, path: &str) -> (r: LocalDiff)
    ensures
        r@ == local_file_diff(run_view(*run), path@),
{
    match run {
        Err(e) => LocalDiff::Finished(Err(join("Failed to run git diff: ", e.as_str()))),
        Ok(o) => {
            let chars = to_chars(o.stdout.as_str());
            if trimmed(chars.as_slice()).len() == 0 {
                LocalDiff::CompareWithNothing
            } else {
                let hunks = parse_unified_diff(o.stdout.as_str());
                LocalDiff::Finished(Ok(FileDiff { path: String::from_str(path), hunks }))
            }
        },
    }
}

/// The diff of a file against nothing, from a run of `git diff --no-index`: the hunks of
/// what it printed, however it ended, since that command ends badly whenever the files
/// differ; or the reason why the run could not be started.
pub open spec fn untracked_file_diff(run: Result<CommandOutputModel, Seq<char>>, path: Seq<char>)
    -> Result<FileDiffModel, Seq<char>> {
    match run {
        Err(e) => Err("Failed to run git diff --no-index: "@ + e),
        Ok(o) => Ok(FileDiffModel { path, hunks: unified_diff(o.stdout) }),
    }
}

/// Reads the diff of a file against nothing.
pub fn get_untracked_file_diff(run: &Result<CommandOutput, String>, path: &str) -> (r: Result<
    FileDiff,
    String,
>)
    ensures
        match r {
            Ok(d) => untracked_file_diff(run_view(*run), path@) == Ok::<FileDiffModel, Seq<char>>(
                d@,
            ),
            Err(e) => untracked_file_diff(run_view(*run), path@) == Err::<
                FileDiffModel,
                Seq<char>,
            >(e@),
        },
{
    match run {
        Err(e) => Err(join("Failed to run git diff --no-index: ", e.as_str())),
        Ok(o) => {
            let hunks = parse_unified_diff(o.stdout.as_str());
            Ok(FileDiff { path: String::from_str(path), hunks })
        },
    }
}

} // verus!
