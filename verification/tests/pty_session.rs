use terminal_plus::process::CommandOutput;
use terminal_plus::pty::error::PtyError;
use terminal_plus::pty::session::{
    cwd_probe, get_pid_cwd, CwdProbe, Platform, ProbeOutcome, PtySession, SpawnFailure,
    WriteOutcome,
};
use terminal_plus::pty::shell::{var, PtySize, ShellCommand, SpawnPlan, SpawnStep, StartupFile};

fn plan(cwd: &str) -> SpawnPlan {
    SpawnPlan::new(&vec![var("SHELL", "/bin/zsh"), var("HOME", "/h")], 80, 24, Some(cwd.to_string()))
}

fn failure_of(step: &SpawnStep, reason: &str) -> PtyError {
    let outcome: Result<u8, SpawnFailure<'_>> =
        Err(SpawnFailure { step, reason: reason.to_string() });
    match PtySession::spawn(&plan("/tmp"), outcome) {
        Ok(_) => panic!("a step failed, so there is no session"),
        Err(e) => e,
    }
}

fn listing(success: bool, stdout: &str) -> ProbeOutcome {
    ProbeOutcome::Listing(Some(CommandOutput {
        success,
        stdout: stdout.to_string(),
        stderr: String::new(),
    }))
}

#[test]
fn spawn_gives_the_session_its_handles_and_directory() {
    let session = PtySession::spawn(&plan("/work"), Ok(7u8)).ok().unwrap();
    assert_eq!(session.handles, 7);
    assert_eq!(session.cwd, "/work");
}

#[test]
fn spawn_reports_the_step_that_failed() {
    let file = StartupFile {
        name: ".zshrc".to_string(),
        path: "/h/.terminal-plus/shell/zsh/.zshrc".to_string(),
        contents: String::new(),
    };
    let command = ShellCommand {
        program: "/bin/zsh".to_string(),
        args: vec![],
        cwd: "/".to_string(),
        env: vec![],
    };
    let e = failure_of(&SpawnStep::OpenPty(PtySize::new(80, 24)), "no ptys");
    assert_eq!(e, PtyError::OpenPty("no ptys".to_string()));
    assert_eq!(e.message(), "Failed to open PTY: no ptys");
    let e = failure_of(&SpawnStep::CreateDir("/h/x".to_string()), "read-only");
    assert_eq!(e, PtyError::IntegrationDir("read-only".to_string()));
    assert_eq!(e.message(), "Failed to create shell integration dir: read-only");
    let e = failure_of(&SpawnStep::WriteFile(file), "disk full");
    assert_eq!(e, PtyError::IntegrationFile(".zshrc".to_string(), "disk full".to_string()));
    assert_eq!(e.message(), "Failed to write .zshrc: disk full");
    let e = failure_of(&SpawnStep::SpawnChild(command), "not found");
    assert_eq!(e, PtyError::Spawn("not found".to_string()));
    assert_eq!(e.message(), "Failed to spawn shell: not found");
    let e = failure_of(&SpawnStep::TakeWriter, "taken");
    assert_eq!(e, PtyError::Writer("taken".to_string()));
    assert_eq!(e.message(), "Failed to get PTY writer: taken");
    let e = failure_of(&SpawnStep::CloneReader, "closed");
    assert_eq!(e, PtyError::Reader("closed".to_string()));
    assert_eq!(e.message(), "Failed to get PTY reader: closed");
}

#[test]
fn every_step_of_a_plan_has_its_failure() {
    let p = plan("/tmp");
    let kinds: Vec<String> = p
        .steps
        .iter()
        .map(|step| failure_of(step, "why").message())
        .collect();
    assert_eq!(
        kinds,
        vec![
            "Failed to open PTY: why",
            "Failed to create shell integration dir: why",
            "Failed to write .zshenv: why",
            "Failed to write .zprofile: why",
            "Failed to write .zshrc: why",
            "Failed to write .zlogin: why",
            "Failed to spawn shell: why",
            "Failed to get PTY writer: why",
            "Failed to get PTY reader: why",
        ]
    );
}

#[test]
fn write_request_names_the_session_and_the_bytes() {
    let session = PtySession::spawn(&plan("/tmp"), Ok(1u8)).ok().unwrap();
    let request = session.write(b"ls\n");
    assert_eq!(request.data, b"ls\n");
    assert_eq!(request.session.handles, 1);
    assert_eq!(request.finish(WriteOutcome::Done), Ok(()));
    assert_eq!(
        request.finish(WriteOutcome::WriteFailed("broken pipe".to_string())),
        Err(PtyError::Write("broken pipe".to_string()))
    );
    assert_eq!(
        request.finish(WriteOutcome::FlushFailed("eio".to_string())),
        Err(PtyError::Flush("eio".to_string()))
    );
    assert_eq!(PtyError::Write("w".to_string()).message(), "PTY write failed: w");
    assert_eq!(PtyError::Flush("f".to_string()).message(), "PTY flush failed: f");
}

#[test]
fn resize_request_has_no_pixels() {
    let session = PtySession::spawn(&plan("/tmp"), Ok(1u8)).ok().unwrap();
    let request = session.resize(132, 43);
    assert_eq!(
        request.size,
        PtySize { rows: 43, cols: 132, pixel_width: 0, pixel_height: 0 }
    );
    assert_eq!(request.finish(Ok(())), Ok(()));
    let e = request.finish(Err("bad ioctl".to_string())).unwrap_err();
    assert_eq!(e, PtyError::Resize("bad ioctl".to_string()));
    assert_eq!(e.message(), "PTY resize failed: bad ioctl");
}

#[test]
fn probe_by_platform() {
    assert_eq!(cwd_probe(Platform::Linux, Some(1)), CwdProbe::ReadLink("/proc/1/cwd".to_string()));
    assert_eq!(
        cwd_probe(Platform::Linux, Some(4294967295)),
        CwdProbe::ReadLink("/proc/4294967295/cwd".to_string())
    );
    let args: Vec<String> =
        ["-a", "-p", "31337", "-d", "cwd", "-Fn"].iter().map(|s| s.to_string()).collect();
    assert_eq!(cwd_probe(Platform::MacOs, Some(31337)), CwdProbe::Lsof(args));
    assert_eq!(cwd_probe(Platform::Other, Some(1)), CwdProbe::Nothing);
    assert_eq!(cwd_probe(Platform::Linux, None), CwdProbe::Nothing);
    assert_eq!(cwd_probe(Platform::MacOs, None), CwdProbe::Nothing);
}

#[test]
fn pid_cwd_from_a_link() {
    assert_eq!(
        get_pid_cwd(&ProbeOutcome::Link(Some("/home/u".to_string()))),
        Some("/home/u".to_string())
    );
    assert_eq!(get_pid_cwd(&ProbeOutcome::Link(None)), None);
    assert_eq!(get_pid_cwd(&ProbeOutcome::Nothing), None);
}

#[test]
fn pid_cwd_from_a_listing() {
    assert_eq!(
        get_pid_cwd(&listing(true, "p123\nfcwd\nn/Users/u/src\n")),
        Some("/Users/u/src".to_string())
    );
    assert_eq!(
        get_pid_cwd(&listing(true, "nrelative\nn\nn/first\nn/second\n")),
        Some("/first".to_string())
    );
    assert_eq!(get_pid_cwd(&listing(true, "n/with space/dir\r\n")), Some("/with space/dir".to_string()));
    assert_eq!(get_pid_cwd(&listing(true, "")), None);
    assert_eq!(get_pid_cwd(&listing(true, "p77\nfcwd\n")), None);
    assert_eq!(get_pid_cwd(&listing(true, " n/indented\n")), None);
    assert_eq!(get_pid_cwd(&listing(false, "n/Users/u\n")), None);
    assert_eq!(get_pid_cwd(&ProbeOutcome::Listing(None)), None);
}

#[test]
fn session_cwd_falls_back_to_the_start() {
    let session = PtySession::spawn(&plan("/start"), Ok(())).ok().unwrap();
    assert_eq!(session.get_cwd(&ProbeOutcome::Nothing), "/start");
    assert_eq!(session.get_cwd(&ProbeOutcome::Link(None)), "/start");
    assert_eq!(session.get_cwd(&listing(false, "n/x\n")), "/start");
    assert_eq!(session.get_cwd(&listing(true, "n/x\n")), "/x");
    assert_eq!(session.get_cwd(&ProbeOutcome::Link(Some("/live".to_string()))), "/live");
}
