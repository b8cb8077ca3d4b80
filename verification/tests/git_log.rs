use terminal_plus::git::log::{get_current_branch, parse_commit_line, parse_git_log, parse_refs};
use terminal_plus::git::types::{GitCommit, GitRef, GitRefType};
use terminal_plus::process::CommandOutput;

/// The reading of a decoration, written with the standard library's string functions.
fn refs_by_std(refs_str: &str) -> Vec<GitRef> {
    refs_str
        .split(", ")
        .filter(|r| !r.is_empty())
        .map(|r| {
            let trimmed = r.trim();
            if trimmed.starts_with("HEAD -> ") {
                GitRef {
                    name: trimmed.strip_prefix("HEAD -> ").unwrap().to_string(),
                    ref_type: GitRefType::Head,
                }
            } else if trimmed == "HEAD" {
                GitRef { name: "HEAD".to_string(), ref_type: GitRefType::Head }
            } else if trimmed.starts_with("tag: ") {
                GitRef {
                    name: trimmed.strip_prefix("tag: ").unwrap().to_string(),
                    ref_type: GitRefType::Tag,
                }
            } else if trimmed.contains('/') {
                GitRef { name: trimmed.to_string(), ref_type: GitRefType::RemoteBranch }
            } else {
                GitRef { name: trimmed.to_string(), ref_type: GitRefType::LocalBranch }
            }
        })
        .collect()
}

/// The reading of a line of the log, written with the standard library's string
/// functions.
fn commit_by_std(line: &str) -> Option<GitCommit> {
    let parts: Vec<&str> = line.splitn(8, '\0').collect();
    if parts.len() < 7 {
        return None;
    }
    let parents: Vec<String> = if parts[2].is_empty() {
        vec![]
    } else {
        parts[2].split(' ').map(|s| s.to_string()).collect()
    };
    let refs = if parts.len() > 7 && !parts[7].is_empty() {
        refs_by_std(parts[7])
    } else {
        vec![]
    };
    Some(GitCommit {
        hash: parts[0].to_string(),
        short_hash: parts[1].to_string(),
        parents,
        author_name: parts[3].to_string(),
        author_email: parts[4].to_string(),
        date: parts[5].to_string(),
        subject: parts[6].to_string(),
        refs,
    })
}

fn named(name: &str, ref_type: GitRefType) -> GitRef {
    GitRef { name: name.to_string(), ref_type }
}

fn ran(stdout: &str) -> CommandOutput {
    CommandOutput { success: true, stdout: stdout.to_string(), stderr: String::new() }
}

const DECORATIONS: [&str; 14] = [
    "",
    "HEAD",
    "HEAD -> main",
    "HEAD -> main, origin/main, tag: v1.0",
    "tag: v2, tag: release/2",
    "feature/x",
    "main",
    ", , main",
    " main , dev ",
    "HEAD -> ",
    "tag: ",
    "HEAD ->main",
    "  ,tag:x",
    "origin/HEAD, HEAD, upstream/dev",
];

const LINES: [&str; 10] = [
    "",
    "abc",
    "h\0s\0c0ffee beef\0name\0mail\0date\0subject\0HEAD -> main, tag: v1",
    "h\0s\0\0name\0mail\0date\0subject\0",
    "h\0s\0p\0name\0mail\0date\0subject",
    "h\0s\0p\0name\0mail\0date",
    "h\0s\0p  q\0name\0mail\0date\0subject\0a\0b, c",
    "\0\0\0\0\0\0",
    "\0\0\0\0\0\0\0",
    "h\0s\0 \0n\0m\0d\0s with \t tab\0origin/x",
];

#[test]
fn refs_of_a_decoration() {
    assert_eq!(
        parse_refs("HEAD -> main, origin/main, tag: v1.0, dev"),
        vec![
            named("main", GitRefType::Head),
            named("origin/main", GitRefType::RemoteBranch),
            named("v1.0", GitRefType::Tag),
            named("dev", GitRefType::LocalBranch),
        ]
    );
    assert_eq!(parse_refs("HEAD"), vec![named("HEAD", GitRefType::Head)]);
    assert!(parse_refs("").is_empty());
}

#[test]
fn refs_agree_with_the_standard_library() {
    for s in DECORATIONS {
        assert_eq!(parse_refs(s), refs_by_std(s), "decoration {:?}", s);
    }
}

#[test]
fn commit_line_with_all_fields() {
    let c = parse_commit_line(LINES[2]).unwrap();
    assert_eq!(c.hash, "h");
    assert_eq!(c.short_hash, "s");
    assert_eq!(c.parents, vec!["c0ffee".to_string(), "beef".to_string()]);
    assert_eq!(c.author_name, "name");
    assert_eq!(c.author_email, "mail");
    assert_eq!(c.date, "date");
    assert_eq!(c.subject, "subject");
    assert_eq!(c.refs, vec![named("main", GitRefType::Head), named("v1", GitRefType::Tag)]);
}

#[test]
fn commit_line_with_too_few_fields() {
    assert_eq!(parse_commit_line(""), None);
    assert_eq!(parse_commit_line("h\0s\0p\0name\0mail\0date"), None);
}

#[test]
fn commit_line_without_parents_or_refs() {
    let c = parse_commit_line(LINES[4]).unwrap();
    assert_eq!(c.parents, vec!["p".to_string()]);
    assert!(c.refs.is_empty());
    let c = parse_commit_line(LINES[3]).unwrap();
    assert!(c.parents.is_empty());
    assert!(c.refs.is_empty());
}

#[test]
fn commit_lines_agree_with_the_standard_library() {
    for s in LINES {
        assert_eq!(parse_commit_line(s), commit_by_std(s), "line {:?}", s);
    }
}

#[test]
fn log_reads_each_line_that_is_a_commit() {
    let text = format!("{}\n\n{}\nnot a commit\n{}\n", LINES[2], LINES[3], LINES[4]);
    let commits = parse_git_log(&Ok(ran(&text))).unwrap();
    assert_eq!(
        commits,
        vec![
            commit_by_std(LINES[2]).unwrap(),
            commit_by_std(LINES[3]).unwrap(),
            commit_by_std(LINES[4]).unwrap(),
        ]
    );
    assert_eq!(parse_git_log(&Ok(ran(""))), Ok(vec![]));
}

#[test]
fn log_reports_a_failed_run() {
    let out = CommandOutput {
        success: false,
        stdout: LINES[2].to_string(),
        stderr: "fatal: not a git repository".to_string(),
    };
    assert_eq!(
        parse_git_log(&Ok(out)),
        Err("git log failed: fatal: not a git repository".to_string())
    );
    assert_eq!(
        parse_git_log(&Err("No such file or directory".to_string())),
        Err("Failed to run git log: No such file or directory".to_string())
    );
}

#[test]
fn current_branch_is_what_was_printed() {
    assert_eq!(get_current_branch(Some(&ran("main\n"))), Some("main".to_string()));
    assert_eq!(get_current_branch(Some(&ran("  feature/x \n"))), Some("feature/x".to_string()));
    assert_eq!(get_current_branch(Some(&ran(""))), Some(String::new()));
}

#[test]
fn current_branch_of_a_detached_head_is_none() {
    assert_eq!(get_current_branch(Some(&ran("HEAD\n"))), None);
    assert_eq!(get_current_branch(None), None);
    let out = CommandOutput { success: false, stdout: "main\n".to_string(), stderr: String::new() };
    assert_eq!(get_current_branch(Some(&out)), None);
}

#[test]
fn log_result_holds_commits_and_branch() {
    let commits = parse_git_log(&Ok(ran(LINES[2]))).unwrap();
    let r = terminal_plus::git::log::log_result(commits.clone(), Some(&ran("main\n")));
    assert_eq!(r.commits, commits);
    assert_eq!(r.current_branch, Some("main".to_string()));
    let r = terminal_plus::git::log::log_result(Vec::new(), None);
    assert!(r.commits.is_empty());
    assert_eq!(r.current_branch, None);
}
