//! One session: a shell on a pseudo-terminal, with the handles that reach it.

use crate::process::{CommandOutput, CommandOutputModel};
use crate::pty::error::{PtyError, PtyErrorModel};
use crate::pty::shell::{PtySize, SpawnPlan, SpawnStep, SpawnStepModel};
use crate::text::{
    decimal, lines, models, part, push_decimal, split_lines, to_chars, to_string,
};
use vstd::prelude::*;
use vstd::string::StringExecFns;

verus! {

/// A session: the handles of its pseudo-terminal and of its shell, which it alone owns,
/// and the directory in which the shell was started.
pub struct PtySession<H> {
    /// The handles that reach the pseudo-terminal and the shell.
    pub handles: H,
    /// The directory in which the shell was started.
    pub cwd: String,
}

/// A step that failed on the way to a session, and the reason that the system gave.
pub struct SpawnFailure<'a> {
    pub step: &'a SpawnStep,
    pub reason: String,
}

/// The failure that is reported when `step` fails for `reason`: each kind of step has
/// its own kind of failure.
pub open spec fn spawn_failure(step: SpawnStepModel, reason: Seq<char>) -> PtyErrorModel {
    match step {
        SpawnStepModel::OpenPty(_) => PtyErrorModel::OpenPty(reason),
        SpawnStepModel::CreateDir(_) => PtyErrorModel::IntegrationDir(reason),
        SpawnStepModel::WriteFile(file) => PtyErrorModel::IntegrationFile(file.name, reason),
        SpawnStepModel::SpawnChild(_) => PtyErrorModel::Spawn(reason),
        SpawnStepModel::TakeWriter => PtyErrorModel::Writer(reason),
        SpawnStepModel::CloneReader => PtyErrorModel::Reader(reason),
    }
}

/// What the device said to a write: all bytes were written and flushed, or the write
/// failed, or the write went well and the flush failed.
pub enum WriteOutcome {
    Done,
    WriteFailed(String),
    FlushFailed(String),
}

/// The order to write all of `data` to the session's writer and then to flush it, with
/// nothing else written in between.
pub struct WriteRequest<'a, H> {
    pub session: &'a PtySession<H>,
    pub data: &'a [u8],
}

/// The order to give the session's pseudo-terminal the size `size`.
pub struct ResizeRequest<'a, H> {
    pub session: &'a PtySession<H>,
    pub size: PtySize,
}

impl<'a, H> WriteRequest<'a, H> {
    /// What the write reports, from what the device said to it: the first failure, or
    /// success.
    pub fn finish(&self, outcome: WriteOutcome) -> (r: Result<(), PtyError>)
        ensures
            match outcome {
                WriteOutcome::Done => r is Ok,
                WriteOutcome::WriteFailed(e) => r matches Err(f) && f@ == PtyErrorModel::Write(e@),
                WriteOutcome::FlushFailed(e) => r matches Err(f) && f@ == PtyErrorModel::Flush(e@),
            },
    {
        match outcome {
            WriteOutcome::Done => Ok(()),
            WriteOutcome::WriteFailed(e) => Err(PtyError::Write(e)),
            WriteOutcome::FlushFailed(e) => Err(PtyError::Flush(e)),
        }
    }
}

impl<'a, H> ResizeRequest<'a, H> {
    /// What the resize reports, from what the device said to it.
    pub fn finish(&self, outcome: Result<(), String>) -> (r: Result<(), PtyError>)
        ensures
            match outcome {
                Ok(_) => r is Ok,
                Err(e) => r matches Err(f) && f@ == PtyErrorModel::Resize(e@),
            },
    {
        match outcome {
            Ok(_) => Ok(()),
            Err(e) => Err(PtyError::Resize(e)),
        }
    }
}

impl<H> PtySession<H> {
    /// The session that a plan leads to, from how taking its steps ended: with the
    /// handles of the running shell, or at a step that failed. In the first case the
    /// session owns the handles and remembers the directory of the plan; in the second
    /// there is no session, and the failure is that of the step's kind.
    pub fn spawn(plan: &SpawnPlan, outcome: Result<H, SpawnFailure<'_>>) -> (r: Result<
        PtySession<H>,
        PtyError,
    >)
        ensures
            match outcome {
                Ok(handles) => r matches Ok(session) && session.handles == handles
                    && session.cwd@ == plan.cwd@,
                Err(failure) => r matches Err(e) && e@ == spawn_failure(
                    failure.step@,
                    failure.reason@,
                ),
            },
    {
        match outcome {
            Ok(handles) => Ok(PtySession { handles, cwd: plan.cwd.clone() }),
            Err(failure) => Err(
                match failure.step {
                    SpawnStep::OpenPty(_) => PtyError::OpenPty(failure.reason),
                    SpawnStep::CreateDir(_) => PtyError::IntegrationDir(failure.reason),
                    SpawnStep::WriteFile(file) => PtyError::IntegrationFile(
                        file.name.clone(),
                        failure.reason,
                    ),
                    SpawnStep::SpawnChild(_) => PtyError::Spawn(failure.reason),
                    SpawnStep::TakeWriter => PtyError::Writer(failure.reason),
                    SpawnStep::CloneReader => PtyError::Reader(failure.reason),
                },
            ),
        }
    }

    /// The order that writes `data` to this session.
    pub fn write<'a>(&'a self, data: &'a [u8]) -> (request: WriteRequest<'a, H>)
        ensures
            request.session == self,
            request.data@ == data@,
    {
        WriteRequest { session: self, data }
    }

    /// The order that gives this session's window `cols` columns and `rows` rows. The
    /// size holds these two numbers and no size in pixels, whatever the size was before.
    pub fn resize(&self, cols: u16, rows: u16) -> (request: ResizeRequest<'_, H>)
        ensures
            request.session == self,
            request.size == PtySize::of(cols, rows),
    {
        ResizeRequest { session: self, size: PtySize::new(cols, rows) }
    }
}

/// The kinds of system on which the manager runs, by how the working directory of a
/// process is found there.
#[derive(Debug, Clone, Copy, PartialEq, Eq, Structural)]
pub enum Platform {
    /// A link under `/proc` names the directory.
    Linux,
    /// The tool `lsof` lists the directory.
    MacOs,
    /// The directory cannot be found.
    Other,
}

/// What to ask the system in order to learn the working directory of a process.
#[derive(Debug, Clone, PartialEq, Eq)]
pub enum CwdProbe {
    /// Read the link at this path.
    ReadLink(String),
    /// Run `lsof` with these arguments.
    Lsof(Vec<String>),
    /// Ask nothing.
    Nothing,
}

/// The model of a [`CwdProbe`].
pub enum CwdProbeModel {
    ReadLink(Seq<char>),
    Lsof(Seq<Seq<char>>),
    Nothing,
}

impl View for CwdProbe {
    type V = CwdProbeModel;

    open spec fn view(&self) -> CwdProbeModel {
        match self {
            CwdProbe::ReadLink(path) => CwdProbeModel::ReadLink(path@),
            CwdProbe::Lsof(args) => CwdProbeModel::Lsof(models(args@)),
            CwdProbe::Nothing => CwdProbeModel::Nothing,
        }
    }
}

/// What to ask the system about the process `pid`. Without a process, and on a system
/// of no known kind, there is nothing to ask.
pub open spec fn probe_for(platform: Platform, pid: Option<u32>) -> CwdProbeModel {
    match pid {
        None => CwdProbeModel::Nothing,
        Some(pid) => match platform {
            Platform::Linux => CwdProbeModel::ReadLink(
                "/proc/"@ + decimal(pid as nat) + "/cwd"@,
            ),
            Platform::MacOs => CwdProbeModel::Lsof(
                seq!["-a"@, "-p"@, decimal(pid as nat), "-d"@, "cwd"@, "-Fn"@],
            ),
            Platform::Other => CwdProbeModel::Nothing,
        },
    }
}

/// What to ask the system in order to learn the working directory of the process `pid`.
pub fn cwd_probe(platform: Platform, pid: Option<u32>) -> (probe: CwdProbe)
    ensures
        probe@ == probe_for(platform, pid),
{
    match pid {
        None => CwdProbe::Nothing,
        Some(pid) => match platform {
            Platform::Linux => {
                let mut path = String::from_str("/proc/");
                push_decimal(&mut path, pid as u64);
                path.append("/cwd");
                CwdProbe::ReadLink(path)
            },
            Platform::MacOs => {
                let mut number = String::new();
                push_decimal(&mut number, pid as u64);
                assert(number@ =~= decimal(pid as nat));
                let mut args: Vec<String> = Vec::new();
                args.push(String::from_str("-a"));
                args.push(String::from_str("-p"));
                args.push(number);
                args.push(String::from_str("-d"));
                args.push(String::from_str("cwd"));
                args.push(String::from_str("-Fn"));
                assert(models(args@) =~= seq![
                    "-a"@,
                    "-p"@,
                    decimal(pid as nat),
                    "-d"@,
                    "cwd"@,
                    "-Fn"@,
                ]);
                CwdProbe::Lsof(args)
            },
            Platform::Other => CwdProbe::Nothing,
        },
    }
}

/// What the system answered to a [`CwdProbe`].
#[derive(Debug, Clone, PartialEq, Eq)]
pub enum ProbeOutcome {
    /// Where the link leads, if it could be read.
    Link(Option<String>),
    /// What `lsof` gave, if it could be run.
    Listing(Option<CommandOutput>),
    /// Nothing was asked.
    Nothing,
}

/// The model of a [`ProbeOutcome`].
pub enum ProbeOutcomeModel {
    Link(Option<Seq<char>>),
    Listing(Option<CommandOutputModel>),
    Nothing,
}

impl View for ProbeOutcome {
    type V = ProbeOutcomeModel;

    open spec fn view(&self) -> ProbeOutcomeModel {
        match self {
            ProbeOutcome::Link(Some(target)) => ProbeOutcomeModel::Link(Some(target@)),
            ProbeOutcome::Link(None) => ProbeOutcomeModel::Link(None),
            ProbeOutcome::Listing(Some(output)) => ProbeOutcomeModel::Listing(Some(output@)),
            ProbeOutcome::Listing(None) => ProbeOutcomeModel::Listing(None),
            ProbeOutcome::Nothing => ProbeOutcomeModel::Nothing,
        }
    }
}

/// Whether a line of a listing names a path: the letter `n` and then a path from the
/// root.
pub open spec fn names_path(line: Seq<char>) -> bool {
    line.len() >= 2 && line[0] == 'n' && line[1] == '/'
}

/// The path that the first line at or after `from` that names one names.
pub open spec fn listed_path_from(ls: Seq<Seq<char>>, from: int) -> Option<Seq<char>>
    decreases ls.len() - from,
{
    if from < 0 || from >= ls.len() {
        None
    } else if names_path(ls[from]) {
        Some(ls[from].subrange(1, ls[from].len() as int))
    } else {
        listed_path_from(ls, from + 1)
    }
}

/// The working directory that the system's answer shows, if it shows one: the target of
/// the link; or, where `lsof` ended well, the first path that its listing names.
pub open spec fn pid_cwd(outcome: ProbeOutcomeModel) -> Option<Seq<char>> {
    match outcome {
        ProbeOutcomeModel::Link(target) => target,
        ProbeOutcomeModel::Listing(Some(output)) => if output.success {
            listed_path_from(lines(output.stdout), 0)
        } else {
            None
        },
        ProbeOutcomeModel::Listing(None) => None,
        ProbeOutcomeModel::Nothing => None,
    }
}

/// The path that the first line of `listing` that names one names.
fn listed_path(listing: &str) -> (r: Option<String>)
    ensures
        match r {
            Some(dir) => listed_path_from(lines(listing@), 0) == Some(dir@),
            None => listed_path_from(lines(listing@), 0) is None,
        },
{
    let chars = to_chars(listing);
    let ls = split_lines(chars.as_slice());
    let mut i: usize = 0;
    while i < ls.len()
        invariant
            i <= ls.len(),
            models(ls@) == lines(listing@),
            listed_path_from(models(ls@), 0) == listed_path_from(models(ls@), i as int),
        decreases ls.len() - i,
    {
        let line = ls[i];
        assert(models(ls@)[i as int] == line@);
        if line.len() >= 2 && line[0] == 'n' && line[1] == '/' {
            return Some(to_string(part(line, 1, line.len())));
        }
        i += 1;
    }
    None
}

/// The working directory of a process, from what the system answered when asked; `None`
/// where the answer shows none.
pub fn get_pid_cwd(outcome: &ProbeOutcome) -> (r: Option<String>)
    ensures
        match r {
            Some(dir) => pid_cwd(outcome@) == Some(dir@),
            None => pid_cwd(outcome@) is None,
        },
{
    match outcome {
        ProbeOutcome::Link(Some(target)) => Some(target.clone()),
        ProbeOutcome::Link(None) => None,
        ProbeOutcome::Listing(None) => None,
        ProbeOutcome::Nothing => None,
        ProbeOutcome::Listing(Some(output)) => {
            if output.success {
                listed_path(output.stdout.as_str())
            } else {
                None
            }
        },
    }
}

/// The directory that a session reports: the live one where the system showed it, else
/// the one in which the shell was started.
pub open spec fn session_cwd(started_in: Seq<char>, outcome: ProbeOutcomeModel) -> Seq<char> {
    match pid_cwd(outcome) {
        Some(dir) => dir,
        None => started_in,
    }
}

impl<H> PtySession<H> {
    /// The working directory of the session's shell, from what the system answered when
    /// asked about the shell's process. Where the answer shows no directory, it is the
    /// directory in which the shell was started.
    pub fn get_cwd(&self, outcome: &ProbeOutcome) -> (dir: String)
        ensures
            dir@ == session_cwd(self.cwd@, outcome@),
    {
        match get_pid_cwd(outcome) {
            Some(dir) => dir,
            None => self.cwd.clone(),
        }
    }
}

} // verus!
