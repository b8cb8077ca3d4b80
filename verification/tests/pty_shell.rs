use terminal_plus::pty::shell::{
    build_env, find_var, var, EnvVar, PtySize, ShellFamily, SpawnPlan, SpawnStep, StartupFile,
    BASHRC, ZLOGIN, ZPROFILE, ZSHENV, ZSHRC,
};

fn env(pairs: &[(&str, &str)]) -> Vec<EnvVar> {
    pairs.iter().map(|(k, v)| var(k, v)).collect()
}

fn settings(vars: &[EnvVar]) -> Vec<(String, String)> {
    vars.iter().map(|v| (v.key.clone(), v.value.clone())).collect()
}

fn pairs(list: &[(&str, &str)]) -> Vec<(String, String)> {
    list.iter().map(|(k, v)| (k.to_string(), v.to_string())).collect()
}

/// The value that a list of settings leaves a variable with.
fn effective(vars: &[EnvVar], key: &str) -> Option<String> {
    vars.iter().rev().find(|v| v.key == key).map(|v| v.value.clone())
}

fn written(plan: &SpawnPlan) -> Vec<StartupFile> {
    plan.steps
        .iter()
        .filter_map(|s| match s {
            SpawnStep::WriteFile(f) => Some(f.clone()),
            _ => None,
        })
        .collect()
}

#[test]
fn family_goes_by_the_name_of_the_executable() {
    assert_eq!(ShellFamily::classify("/bin/zsh"), ShellFamily::Zsh);
    assert_eq!(ShellFamily::classify("zsh"), ShellFamily::Zsh);
    assert_eq!(ShellFamily::classify("/usr/local/bin/bash"), ShellFamily::Bash);
    assert_eq!(ShellFamily::classify("/bin/sh"), ShellFamily::Other);
    assert_eq!(ShellFamily::classify("/usr/bin/fish"), ShellFamily::Other);
    assert_eq!(ShellFamily::classify(""), ShellFamily::Other);
}

#[test]
fn family_is_not_taken_from_the_directories() {
    assert_eq!(ShellFamily::classify("/opt/zsh/bin/fish"), ShellFamily::Other);
    assert_eq!(ShellFamily::classify("/home/bash/sh"), ShellFamily::Other);
    assert_eq!(ShellFamily::classify("/bin/zsh/"), ShellFamily::Other);
    assert_eq!(ShellFamily::classify("/bin/zsh-5.9"), ShellFamily::Other);
    assert_eq!(ShellFamily::classify("/bin/rbash"), ShellFamily::Other);
}

#[test]
fn find_var_gives_the_first_value() {
    let e = env(&[("A", "1"), ("B", "2"), ("A", "3")]);
    assert_eq!(find_var(&e, "A"), Some(&"1".to_string()));
    assert_eq!(find_var(&e, "B"), Some(&"2".to_string()));
    assert_eq!(find_var(&e, "C"), None);
    assert_eq!(find_var(&e, "a"), None);
}

#[test]
fn size_has_no_pixels() {
    assert_eq!(
        PtySize::new(80, 24),
        PtySize { rows: 24, cols: 80, pixel_width: 0, pixel_height: 0 }
    );
}

#[test]
fn env_of_an_unknown_shell() {
    let e = env(&[
        ("LANG", "C.UTF-8"),
        ("SECRET", "x"),
        ("TERM", "dumb"),
        ("HOME", "/home/u"),
        ("PATH", "/bin"),
    ]);
    assert_eq!(
        settings(&build_env(&e, ShellFamily::Other, "/home/u")),
        pairs(&[
            ("HOME", "/home/u"),
            ("PATH", "/bin"),
            ("TERM", "dumb"),
            ("LANG", "C.UTF-8"),
            ("TERM", "xterm-256color"),
            ("TERMINAL_PLUS", "1"),
            ("CLICOLOR", "1"),
            ("CLICOLOR_FORCE", "1"),
        ])
    );
}

#[test]
fn env_forces_the_terminal_type() {
    let e = env(&[("TERM", "vt100"), ("USER", "u"), ("LOGNAME", "u"), ("LC_ALL", "C")]);
    for family in [ShellFamily::Zsh, ShellFamily::Bash, ShellFamily::Other] {
        let out = build_env(&e, family, "/h");
        assert_eq!(effective(&out, "TERM"), Some("xterm-256color".to_string()));
        assert_eq!(effective(&out, "TERMINAL_PLUS"), Some("1".to_string()));
        assert_eq!(effective(&out, "CLICOLOR"), Some("1".to_string()));
        assert_eq!(effective(&out, "CLICOLOR_FORCE"), Some("1".to_string()));
        assert_eq!(effective(&out, "USER"), Some("u".to_string()));
        assert_eq!(effective(&out, "LOGNAME"), Some("u".to_string()));
        assert_eq!(effective(&out, "LC_ALL"), Some("C".to_string()));
        assert_eq!(effective(&out, "HOME"), None);
    }
}

#[test]
fn env_of_zsh_points_at_the_integration() {
    let out = build_env(&env(&[]), ShellFamily::Zsh, "/home/u");
    assert_eq!(effective(&out, "ZDOTDIR"), Some("/home/u/.terminal-plus/shell/zsh".to_string()));
    assert_eq!(effective(&out, "TERMINAL_PLUS_ORIG_ZDOTDIR"), None);
    let out = build_env(&env(&[("ZDOTDIR", "/etc/z")]), ShellFamily::Zsh, "/home/u");
    assert_eq!(effective(&out, "ZDOTDIR"), Some("/home/u/.terminal-plus/shell/zsh".to_string()));
    assert_eq!(effective(&out, "TERMINAL_PLUS_ORIG_ZDOTDIR"), Some("/etc/z".to_string()));
    let n = out.len();
    assert_eq!(out[n - 2].key, "TERMINAL_PLUS_ORIG_ZDOTDIR");
    assert_eq!(out[n - 1].key, "ZDOTDIR");
}

#[test]
fn env_of_bash_names_the_rc_file_twice() {
    let out = build_env(&env(&[("ZDOTDIR", "/etc/z")]), ShellFamily::Bash, "/root");
    let rc = "/root/.terminal-plus/shell/bash/.bashrc".to_string();
    assert_eq!(effective(&out, "TERMINAL_PLUS_BASH_RCFILE"), Some(rc.clone()));
    assert_eq!(effective(&out, "BASH_ENV"), Some(rc));
    assert_eq!(effective(&out, "ZDOTDIR"), None);
}

#[test]
fn plan_for_zsh() {
    let e = env(&[("SHELL", "/bin/zsh"), ("HOME", "/home/u"), ("PATH", "/bin")]);
    let plan = SpawnPlan::new(&e, 80, 24, Some("/tmp".to_string()));
    assert_eq!(plan.cwd, "/tmp");
    assert_eq!(plan.steps.len(), 9);
    assert_eq!(plan.steps[0], SpawnStep::OpenPty(PtySize::new(80, 24)));
    assert_eq!(
        plan.steps[1],
        SpawnStep::CreateDir("/home/u/.terminal-plus/shell/zsh".to_string())
    );
    let files = written(&plan);
    let names: Vec<&str> = files.iter().map(|f| f.name.as_str()).collect();
    assert_eq!(names, vec![".zshenv", ".zprofile", ".zshrc", ".zlogin"]);
    let paths: Vec<&str> = files.iter().map(|f| f.path.as_str()).collect();
    assert_eq!(
        paths,
        vec![
            "/home/u/.terminal-plus/shell/zsh/.zshenv",
            "/home/u/.terminal-plus/shell/zsh/.zprofile",
            "/home/u/.terminal-plus/shell/zsh/.zshrc",
            "/home/u/.terminal-plus/shell/zsh/.zlogin",
        ]
    );
    let contents: Vec<&str> = files.iter().map(|f| f.contents.as_str()).collect();
    assert_eq!(contents, vec![ZSHENV, ZPROFILE, ZSHRC, ZLOGIN]);
    match &plan.steps[6] {
        SpawnStep::SpawnChild(c) => {
            assert_eq!(c.program, "/bin/zsh");
            assert_eq!(c.args, vec!["-l".to_string()]);
            assert_eq!(c.cwd, "/tmp");
            assert_eq!(settings(&c.env), settings(&build_env(&e, ShellFamily::Zsh, "/home/u")));
        }
        other => panic!("the shell starts after the files are written, not {:?}", other),
    }
    assert_eq!(plan.steps[7], SpawnStep::TakeWriter);
    assert_eq!(plan.steps[8], SpawnStep::CloneReader);
}

#[test]
fn plan_for_bash() {
    let e = env(&[("SHELL", "/usr/bin/bash"), ("HOME", "/root")]);
    let plan = SpawnPlan::new(&e, 120, 40, None);
    assert_eq!(plan.cwd, "/root");
    assert_eq!(plan.steps.len(), 6);
    assert_eq!(
        plan.steps[1],
        SpawnStep::CreateDir("/root/.terminal-plus/shell/bash".to_string())
    );
    assert_eq!(
        plan.steps[2],
        SpawnStep::WriteFile(StartupFile {
            name: ".bashrc".to_string(),
            path: "/root/.terminal-plus/shell/bash/.bashrc".to_string(),
            contents: BASHRC.to_string(),
        })
    );
}

#[test]
fn plan_for_an_unknown_shell_writes_nothing() {
    let e = env(&[("SHELL", "/bin/sh"), ("HOME", "/root")]);
    let plan = SpawnPlan::new(&e, 1, 1, None);
    assert_eq!(plan.steps.len(), 4);
    assert!(written(&plan).is_empty());
    assert!(matches!(plan.steps[1], SpawnStep::SpawnChild(_)));
}

#[test]
fn plan_without_shell_and_home() {
    let plan = SpawnPlan::new(&env(&[]), 80, 24, None);
    assert_eq!(plan.cwd, "/");
    assert_eq!(plan.steps[1], SpawnStep::CreateDir("//.terminal-plus/shell/zsh".to_string()));
    match &plan.steps[6] {
        SpawnStep::SpawnChild(c) => {
            assert_eq!(c.program, "/bin/zsh");
            assert_eq!(c.cwd, "/");
        }
        other => panic!("not {:?}", other),
    }
}

#[test]
fn startup_files_are_the_same_each_time() {
    let first = SpawnPlan::new(
        &env(&[("SHELL", "/bin/zsh"), ("HOME", "/h"), ("TERM", "a")]),
        80,
        24,
        None,
    );
    let second = SpawnPlan::new(
        &env(&[("HOME", "/h"), ("SHELL", "/usr/local/bin/zsh"), ("ZDOTDIR", "/z")]),
        132,
        50,
        Some("/tmp".to_string()),
    );
    assert_eq!(written(&first), written(&second));
    assert_eq!(first.steps[1], second.steps[1]);
}

#[test]
fn user_files_are_read_before_the_additions() {
    assert!(ZSHENV.contains("TERMINAL_PLUS_ORIG_ZDOTDIR"));
    assert!(ZSHENV.contains("unset ZDOTDIR"));
    assert!(ZSHENV.contains("source \"${ZDOTDIR:-$HOME}/.zshenv\""));
    assert!(ZPROFILE.contains("source \"${ZDOTDIR:-$HOME}/.zprofile\""));
    assert!(ZLOGIN.contains("source \"${ZDOTDIR:-$HOME}/.zlogin\""));
    let source = ZSHRC.find("source \"${ZDOTDIR:-$HOME}/.zshrc\"").unwrap();
    let prompt = ZSHRC.find("PROMPT=").unwrap();
    assert!(source < prompt);
    let source = BASHRC.find("source \"$HOME/.bashrc\"").unwrap();
    let prompt = BASHRC.find("PS1=").unwrap();
    assert!(source < prompt);
}
