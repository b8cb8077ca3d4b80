use portable_pty::{native_pty_system, Child, CommandBuilder, MasterPty, PtyPair};
use std::cell::RefCell;
use std::io::{Read, Write};
use terminal_plus::pty::bridge::{bridge_step, BridgeEvent, ReadOutcome, READ_BUFFER_SIZE};
use terminal_plus::pty::commands::{decode_input, pty_get_cwd, pty_write};
use terminal_plus::pty::error::PtyError;
use terminal_plus::pty::manager::PtyManager;
use terminal_plus::pty::session::{ProbeOutcome, PtySession, SpawnFailure, WriteOutcome};
use terminal_plus::pty::shell::{var, SpawnPlan, SpawnStep};

struct Handles {
    master: Box<dyn MasterPty + Send>,
    writer: RefCell<Box<dyn Write + Send>>,
    reader: RefCell<Box<dyn Read + Send>>,
    child: RefCell<Box<dyn Child + Send + Sync>>,
}

#[derive(Default)]
struct Progress {
    pair: Option<PtyPair>,
    child: Option<Box<dyn Child + Send + Sync>>,
    writer: Option<Box<dyn Write + Send>>,
    reader: Option<Box<dyn Read + Send>>,
}

fn take_step(step: &SpawnStep, progress: &mut Progress) -> Result<(), String> {
    match step {
        SpawnStep::OpenPty(size) => {
            let size = portable_pty::PtySize {
                rows: size.rows,
                cols: size.cols,
                pixel_width: size.pixel_width,
                pixel_height: size.pixel_height,
            };
            progress.pair = Some(native_pty_system().openpty(size).map_err(|e| e.to_string())?);
        }
        SpawnStep::CreateDir(_) | SpawnStep::WriteFile(_) => {
            return Err("a shell of no known family has no startup files".to_string());
        }
        SpawnStep::SpawnChild(command) => {
            let pair = progress.pair.as_ref().unwrap();
            let mut cmd = CommandBuilder::new(&command.program);
            for arg in &command.args {
                cmd.arg(arg);
            }
            cmd.cwd(&command.cwd);
            for v in &command.env {
                cmd.env(&v.key, &v.value);
            }
            progress.child = Some(pair.slave.spawn_command(cmd).map_err(|e| e.to_string())?);
        }
        SpawnStep::TakeWriter => {
            let pair = progress.pair.as_ref().unwrap();
            progress.writer = Some(pair.master.take_writer().map_err(|e| e.to_string())?);
        }
        SpawnStep::CloneReader => {
            let pair = progress.pair.as_ref().unwrap();
            progress.reader = Some(pair.master.try_clone_reader().map_err(|e| e.to_string())?);
        }
    }
    Ok(())
}

fn start(plan: &SpawnPlan) -> Result<Handles, SpawnFailure<'_>> {
    let mut progress = Progress::default();
    for step in &plan.steps {
        if let Err(reason) = take_step(step, &mut progress) {
            return Err(SpawnFailure { step, reason });
        }
    }
    let pair = progress.pair.unwrap();
    Ok(Handles {
        master: pair.master,
        writer: RefCell::new(progress.writer.unwrap()),
        reader: RefCell::new(progress.reader.unwrap()),
        child: RefCell::new(progress.child.unwrap()),
    })
}

fn write(manager: &PtyManager<Handles>, id: &str, encoded: &str) -> Result<(), PtyError> {
    let (session, bytes) = pty_write(manager, id, encoded)?;
    let request = session.write(&bytes);
    let mut writer = request.session.handles.writer.borrow_mut();
    let outcome = match writer.write_all(request.data) {
        Err(e) => WriteOutcome::WriteFailed(e.to_string()),
        Ok(()) => match writer.flush() {
            Err(e) => WriteOutcome::FlushFailed(e.to_string()),
            Ok(()) => WriteOutcome::Done,
        },
    };
    request.finish(outcome)
}

/// Forwards what the session prints until its end, and returns what the output events
/// carried and how many exit events there were.
fn forward(handles: &Handles, id: &str) -> (Vec<u8>, usize) {
    let mut buf = [0u8; READ_BUFFER_SIZE];
    let mut seen: Vec<u8> = Vec::new();
    let mut reader = handles.reader.borrow_mut();
    loop {
        let read = match reader.read(&mut buf) {
            Ok(n) => ReadOutcome::Read(&buf[..n]),
            Err(_) => ReadOutcome::Failed,
        };
        match bridge_step(id, &read) {
            BridgeEvent::Output { name, payload } => {
                assert_eq!(name, format!("pty-output-{id}"));
                seen.extend(decode_input(&payload).unwrap());
            }
            BridgeEvent::Exit { name } => {
                assert_eq!(name, format!("pty-exit-{id}"));
                return (seen, 1);
            }
        }
    }
}

/// A session on a pseudo-terminal of this machine, where the machine gives one and has
/// `/bin/sh`: it is created, resized, asked, written to, read from and destroyed.
#[test]
fn a_shell_on_a_pseudo_terminal_answers() {
    let env = vec![var("SHELL", "/bin/sh"), var("HOME", "/tmp"), var("PATH", "/usr/bin:/bin")];
    let plan = SpawnPlan::new(&env, 80, 24, Some("/tmp".to_string()));
    let session = match PtySession::spawn(&plan, start(&plan)) {
        Ok(session) => session,
        Err(PtyError::OpenPty(why)) | Err(PtyError::Spawn(why)) => {
            println!("this machine starts no shell on a pseudo-terminal: {why}");
            return;
        }
        Err(other) => panic!("{}", other.message()),
    };
    let mut manager: PtyManager<Handles> = PtyManager::new();
    assert_eq!(manager.create_session("s1".to_string(), Ok(session)), Ok(()));

    let request = manager.resize_session("s1", 100, 30).unwrap();
    let size = portable_pty::PtySize { rows: 30, cols: 100, pixel_width: 0, pixel_height: 0 };
    for _ in 0..2 {
        let outcome = request.session.handles.master.resize(size).map_err(|e| e.to_string());
        assert_eq!(request.finish(outcome), Ok(()));
        assert_eq!(request.session.handles.master.get_size().unwrap(), size);
    }
    assert_eq!(pty_get_cwd(&manager, "s1", &ProbeOutcome::Nothing), Ok("/tmp".to_string()));

    // "echo hi; echo $((6*7)); exit\n": the shell answers and ends, so that the output
    // ends too. The product shows that the shell answered: the input does not hold it.
    assert_eq!(write(&manager, "s1", "ZWNobyBoaTsgZWNobyAkKCg2KjcpKTsgZXhpdAo="), Ok(()));
    let (seen, exits) = forward(&manager.session("s1").unwrap().handles, "s1");
    assert!(seen.windows(2).any(|w| w == b"hi"));
    assert!(seen.windows(2).any(|w| w == b"42"));
    assert_eq!(exits, 1);

    let gone = manager.destroy_session("s1").unwrap();
    let _ = gone.handles.child.borrow_mut().wait();
    drop(gone);
    assert_eq!(
        write(&manager, "s1", "ZWNobyBoaQo="),
        Err(PtyError::NotFound("s1".to_string()))
    );
}
