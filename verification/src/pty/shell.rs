//! The shell that a session runs: which family it belongs to, the startup files that the
//! manager writes for it, and the environment that it is started in.

use crate::text::{join, models, part, same, to_chars};
use vstd::prelude::*;
use vstd::string::StringExecFns;

verus! {

/// The families of shells that the manager knows how to integrate with.
#[derive(Debug, Clone, Copy, PartialEq, Eq, Structural)]
pub enum ShellFamily {
    Zsh,
    Bash,
    /// Any other shell: it runs without startup files of the manager's.
    Other,
}

/// The position at which the last component of the first `to` characters of `path`
/// begins: after the last slash, or 0 where there is none.
pub open spec fn name_start(path: Seq<char>, to: int) -> int
    decreases to,
{
    if to <= 0 || to > path.len() {
        0
    } else if path[to - 1] == '/' {
        to
    } else {
        name_start(path, to - 1)
    }
}

/// The name of the executable that `path` leads to: what follows its last slash.
pub open spec fn executable_name(path: Seq<char>) -> Seq<char> {
    path.subrange(name_start(path, path.len() as int), path.len() as int)
}

/// The family of the shell whose executable is `shell`, by the executable's name.
pub open spec fn shell_family(shell: Seq<char>) -> ShellFamily {
    if executable_name(shell) == "zsh"@ {
        ShellFamily::Zsh
    } else if executable_name(shell) == "bash"@ {
        ShellFamily::Bash
    } else {
        ShellFamily::Other
    }
}

impl ShellFamily {
    /// The family of the shell whose executable is `shell`.
    pub fn classify(shell: &str) -> (family: ShellFamily)
        ensures
            family == shell_family(shell@),
    {
        let chars = to_chars(shell);
        let s = chars.as_slice();
        let mut i: usize = s.len();
        while i > 0 && s[i - 1] != '/'
            invariant
                i <= s.len(),
                name_start(s@, s@.len() as int) == name_start(s@, i as int),
            decreases i,
        {
            i -= 1;
        }
        let name = part(s, i, s.len());
        if same(name, to_chars("zsh").as_slice()) {
            ShellFamily::Zsh
        } else if same(name, to_chars("bash").as_slice()) {
            ShellFamily::Bash
        } else {
            ShellFamily::Other
        }
    }
}

/// What the manager writes as `.zshenv`: it gives the variable that names the directory
/// of zsh's startup files its own value back, or unsets it, and reads the user's file.
pub const ZSHENV: &'static str =
    "# Terminal Plus shell integration\nif [[ -n \"$TERMINAL_PLUS_ORIG_ZDOTDIR\" ]]; then\n  ZDOTDIR=\"$TERMINAL_PLUS_ORIG_ZDOTDIR\"\nelse\n  unset ZDOTDIR\nfi\n[[ -f \"${ZDOTDIR:-$HOME}/.zshenv\" ]] && source \"${ZDOTDIR:-$HOME}/.zshenv\"\n";

/// What the manager writes as `.zprofile`: it reads the user's file.
pub const ZPROFILE: &'static str =
    "[[ -f \"${ZDOTDIR:-$HOME}/.zprofile\" ]] && source \"${ZDOTDIR:-$HOME}/.zprofile\"\n";

/// What the manager writes as `.zshrc`: it reads the user's file, and then sets the
/// colours and the prompt of a session.
pub const ZSHRC: &'static str =
    "# Terminal Plus shell integration\n[[ -f \"${ZDOTDIR:-$HOME}/.zshrc\" ]] && source \"${ZDOTDIR:-$HOME}/.zshrc\"\n\nexport CLICOLOR=1\nexport CLICOLOR_FORCE=1\nautoload -Uz colors && colors\nsetopt PROMPT_SUBST\nPROMPT='%F{cyan}%~%f %# '\n";

/// What the manager writes as `.zlogin`: it reads the user's file.
pub const ZLOGIN: &'static str =
    "[[ -f \"${ZDOTDIR:-$HOME}/.zlogin\" ]] && source \"${ZDOTDIR:-$HOME}/.zlogin\"\n";

/// What the manager writes as `.bashrc`: it reads the user's file, and then sets the
/// colours and the prompt of a session. A shell that is started from a shell that has
/// read it does not read it again.
pub const BASHRC: &'static str =
    "# Terminal Plus shell integration\n[ -n \"$TERMINAL_PLUS_BASH_LOADED\" ] && return\nexport TERMINAL_PLUS_BASH_LOADED=1\n[ -f \"$HOME/.bashrc\" ] && source \"$HOME/.bashrc\"\n\nexport CLICOLOR=1\nexport CLICOLOR_FORCE=1\nPS1='\\[\\e[36m\\]\\w\\[\\e[0m\\] \\$ '\n";

/// A startup file that the manager writes before it starts a shell.
#[derive(Debug, Clone, PartialEq, Eq)]
pub struct StartupFile {
    /// The name by which the shell knows the file.
    pub name: String,
    /// Where the file is written.
    pub path: String,
    /// What is written, all of it, over whatever the file held.
    pub contents: String,
}

/// The model of a [`StartupFile`].
pub struct StartupFileModel {
    pub name: Seq<char>,
    pub path: Seq<char>,
    pub contents: Seq<char>,
}

impl View for StartupFile {
    type V = StartupFileModel;

    open spec fn view(&self) -> StartupFileModel {
        StartupFileModel { name: self.name@, path: self.path@, contents: self.contents@ }
    }
}

/// The directory of zsh's startup files under the home directory `home`.
pub open spec fn zsh_dir(home: Seq<char>) -> Seq<char> {
    home + "/.terminal-plus/shell/zsh"@
}

/// The directory of bash's startup file under the home directory `home`.
pub open spec fn bash_dir(home: Seq<char>) -> Seq<char> {
    home + "/.terminal-plus/shell/bash"@
}

/// The file that bash reads under the home directory `home`.
pub open spec fn bash_rcfile(home: Seq<char>) -> Seq<char> {
    bash_dir(home) + "/"@ + ".bashrc"@
}

/// The startup file `name` in the directory `dir`.
pub open spec fn startup_file(dir: Seq<char>, name: Seq<char>, contents: Seq<char>)
    -> StartupFileModel {
    StartupFileModel { name, path: dir + "/"@ + name, contents }
}

/// The directory in which the startup files of a family lie, under the home directory
/// `home`; none for a shell of no known family.
pub open spec fn integration_dir(family: ShellFamily, home: Seq<char>) -> Option<Seq<char>> {
    match family {
        ShellFamily::Zsh => Some(zsh_dir(home)),
        ShellFamily::Bash => Some(bash_dir(home)),
        ShellFamily::Other => None,
    }
}

/// The startup files of a family, in the order in which they are written. They depend
/// on the family and on the home directory, and on nothing else.
pub open spec fn startup_files(family: ShellFamily, home: Seq<char>) -> Seq<StartupFileModel> {
    match family {
        ShellFamily::Zsh => seq![
            startup_file(zsh_dir(home), ".zshenv"@, ZSHENV@),
            startup_file(zsh_dir(home), ".zprofile"@, ZPROFILE@),
            startup_file(zsh_dir(home), ".zshrc"@, ZSHRC@),
            startup_file(zsh_dir(home), ".zlogin"@, ZLOGIN@),
        ],
        ShellFamily::Bash => seq![startup_file(bash_dir(home), ".bashrc"@, BASHRC@)],
        ShellFamily::Other => Seq::empty(),
    }
}

/// One variable of an environment.
#[derive(Debug, Clone, PartialEq, Eq)]
pub struct EnvVar {
    pub key: String,
    pub value: String,
}

impl View for EnvVar {
    type V = (Seq<char>, Seq<char>);

    open spec fn view(&self) -> (Seq<char>, Seq<char>) {
        (self.key@, self.value@)
    }
}

/// An environment, or a list of settings of variables: names with their values.
pub type EnvModel = Seq<(Seq<char>, Seq<char>)>;

/// The value of the first variable named `key` at or after position `from` of `env`.
pub open spec fn lookup_from(env: EnvModel, key: Seq<char>, from: int) -> Option<Seq<char>>
    decreases env.len() - from,
{
    if from < 0 || from >= env.len() {
        None
    } else if env[from].0 == key {
        Some(env[from].1)
    } else {
        lookup_from(env, key, from + 1)
    }
}

/// The value that `env` gives the variable `key`, if it names it.
pub open spec fn lookup(env: EnvModel, key: Seq<char>) -> Option<Seq<char>> {
    lookup_from(env, key, 0)
}

/// The value that a list of settings leaves the variable `key` with: that of the last
/// setting that names it.
pub open spec fn last_setting(settings: EnvModel, key: Seq<char>, n: int) -> Option<Seq<char>>
    decreases n,
{
    if n <= 0 || n > settings.len() {
        None
    } else if settings[n - 1].0 == key {
        Some(settings[n - 1].1)
    } else {
        last_setting(settings, key, n - 1)
    }
}

/// The names of the variables that a shell takes over from the environment around the
/// manager, where that environment has them.
pub open spec fn inherited_names() -> Seq<Seq<char>> {
    seq!["HOME"@, "USER"@, "LOGNAME"@, "PATH"@, "TERM"@, "LANG"@, "LC_ALL"@]
}

/// The settings that take over the first `n` of the inherited names from `env`.
pub open spec fn inherited(env: EnvModel, n: int) -> EnvModel
    decreases n,
{
    if n <= 0 {
        Seq::empty()
    } else {
        match lookup(env, inherited_names()[n - 1]) {
            Some(value) => inherited(env, n - 1).push((inherited_names()[n - 1], value)),
            None => inherited(env, n - 1),
        }
    }
}

/// The settings that every session gets, whatever the environment holds: a terminal of
/// 256 colours, colours switched on, and the mark of a session of this manager.
pub open spec fn forced() -> EnvModel {
    seq![
        ("TERM"@, "xterm-256color"@),
        ("TERMINAL_PLUS"@, "1"@),
        ("CLICOLOR"@, "1"@),
        ("CLICOLOR_FORCE"@, "1"@),
    ]
}

/// The settings that lead a shell of `family` to the manager's startup files. For zsh,
/// the directory of its startup files becomes the manager's, and the value that the
/// variable had before, if it had one, is kept under another name. For bash, the
/// manager's file is named as the file to read, for shells with and without a user at
/// them.
pub open spec fn integration_env(family: ShellFamily, home: Seq<char>, env: EnvModel) -> EnvModel {
    match family {
        ShellFamily::Zsh => (match lookup(env, "ZDOTDIR"@) {
            Some(dir) => seq![("TERMINAL_PLUS_ORIG_ZDOTDIR"@, dir)],
            None => Seq::empty(),
        }).push(("ZDOTDIR"@, zsh_dir(home))),
        ShellFamily::Bash => seq![
            ("TERMINAL_PLUS_BASH_RCFILE"@, bash_rcfile(home)),
            ("BASH_ENV"@, bash_rcfile(home)),
        ],
        ShellFamily::Other => Seq::empty(),
    }
}

/// The settings with which a shell of `family` is started, in the order in which they
/// are made: what is inherited, then what is forced, then what the integration needs.
pub open spec fn shell_env(env: EnvModel, family: ShellFamily, home: Seq<char>) -> EnvModel {
    inherited(env, inherited_names().len() as int) + forced() + integration_env(
        family,
        home,
        env,
    )
}

/// The shell that is started: the one that `SHELL` names, or `/bin/zsh`.
pub open spec fn resolved_shell(env: EnvModel) -> Seq<char> {
    match lookup(env, "SHELL"@) {
        Some(shell) => shell,
        None => "/bin/zsh"@,
    }
}

/// The home directory: the one that `HOME` names, or the root of the file system.
pub open spec fn resolved_home(env: EnvModel) -> Seq<char> {
    match lookup(env, "HOME"@) {
        Some(home) => home,
        None => "/"@,
    }
}

/// The directory in which the shell starts: the one asked for, or the home directory.
pub open spec fn working_dir(env: EnvModel, cwd: Option<Seq<char>>) -> Seq<char> {
    match cwd {
        Some(dir) => dir,
        None => resolved_home(env),
    }
}

/// The size of a terminal's window.
#[derive(Debug, Clone, Copy, PartialEq, Eq, Structural)]
pub struct PtySize {
    /// The number of lines of text.
    pub rows: u16,
    /// The number of columns of text.
    pub cols: u16,
    /// The width of a cell in pixels; the manager does not use it.
    pub pixel_width: u16,
    /// The height of a cell in pixels; the manager does not use it.
    pub pixel_height: u16,
}

impl PtySize {
    /// The size of a window of `cols` columns and `rows` rows, with no size in pixels.
    pub open spec fn of(cols: u16, rows: u16) -> PtySize {
        PtySize { rows, cols, pixel_width: 0, pixel_height: 0 }
    }

    /// The size of a window of `cols` columns and `rows` rows, with no size in pixels.
    pub fn new(cols: u16, rows: u16) -> (size: PtySize)
        ensures
            size == PtySize::of(cols, rows),
    {
        PtySize { rows, cols, pixel_width: 0, pixel_height: 0 }
    }
}

/// The command that starts a shell.
#[derive(Debug, Clone, PartialEq, Eq)]
pub struct ShellCommand {
    pub program: String,
    pub args: Vec<String>,
    pub cwd: String,
    /// The variables to set, in this order; a later setting of a name overrides an
    /// earlier one.
    pub env: Vec<EnvVar>,
}

/// The model of a [`ShellCommand`].
pub struct ShellCommandModel {
    pub program: Seq<char>,
    pub args: Seq<Seq<char>>,
    pub cwd: Seq<char>,
    pub env: EnvModel,
}

impl View for ShellCommand {
    type V = ShellCommandModel;

    open spec fn view(&self) -> ShellCommandModel {
        ShellCommandModel {
            program: self.program@,
            args: models(self.args@),
            cwd: self.cwd@,
            env: models(self.env@),
        }
    }
}

/// The command that starts the shell of a session: the resolved shell as a login shell,
/// in the working directory, with the settings of its family.
pub open spec fn shell_command(env: EnvModel, cwd: Option<Seq<char>>) -> ShellCommandModel {
    ShellCommandModel {
        program: resolved_shell(env),
        args: seq!["-l"@],
        cwd: working_dir(env, cwd),
        env: shell_env(env, shell_family(resolved_shell(env)), resolved_home(env)),
    }
}

/// One step on the way to a running session. Each step can fail, and a step is taken
/// only when all steps before it went well.
#[derive(Debug, Clone, PartialEq, Eq)]
pub enum SpawnStep {
    /// Open a pseudo-terminal of this size.
    OpenPty(PtySize),
    /// Make this directory, and those above it that are missing.
    CreateDir(String),
    /// Write this startup file.
    WriteFile(StartupFile),
    /// Start this command on the pseudo-terminal's subordinate end.
    SpawnChild(ShellCommand),
    /// Take the handle that writes to the pseudo-terminal.
    TakeWriter,
    /// Take a handle that reads from the pseudo-terminal.
    CloneReader,
}

/// The model of a [`SpawnStep`].
pub enum SpawnStepModel {
    OpenPty(PtySize),
    CreateDir(Seq<char>),
    WriteFile(StartupFileModel),
    SpawnChild(ShellCommandModel),
    TakeWriter,
    CloneReader,
}

impl View for SpawnStep {
    type V = SpawnStepModel;

    open spec fn view(&self) -> SpawnStepModel {
        match self {
            SpawnStep::OpenPty(size) => SpawnStepModel::OpenPty(*size),
            SpawnStep::CreateDir(dir) => SpawnStepModel::CreateDir(dir@),
            SpawnStep::WriteFile(file) => SpawnStepModel::WriteFile(file@),
            SpawnStep::SpawnChild(command) => SpawnStepModel::SpawnChild(command@),
            SpawnStep::TakeWriter => SpawnStepModel::TakeWriter,
            SpawnStep::CloneReader => SpawnStepModel::CloneReader,
        }
    }
}

/// The steps that write the startup files of a family: the directory is made, and then
/// each file is written. They depend on the family and on the home directory, and on
/// nothing else.
pub open spec fn integration_steps(family: ShellFamily, home: Seq<char>) -> Seq<SpawnStepModel> {
    match integration_dir(family, home) {
        Some(dir) => seq![SpawnStepModel::CreateDir(dir)] + Seq::new(
            startup_files(family, home).len(),
            |i: int| SpawnStepModel::WriteFile(startup_files(family, home)[i]),
        ),
        None => Seq::empty(),
    }
}

/// How a session is started, decided before anything is touched.
#[derive(Debug, Clone, PartialEq, Eq)]
pub struct SpawnPlan {
    /// The steps to take, in this order.
    pub steps: Vec<SpawnStep>,
    /// The directory in which the shell starts.
    pub cwd: String,
}

/// The model of a [`SpawnPlan`].
pub struct SpawnPlanModel {
    pub steps: Seq<SpawnStepModel>,
    pub cwd: Seq<char>,
}

impl View for SpawnPlan {
    type V = SpawnPlanModel;

    open spec fn view(&self) -> SpawnPlanModel {
        SpawnPlanModel { steps: models(self.steps@), cwd: self.cwd@ }
    }
}

/// The plan by which a session of `cols` columns and `rows` rows is started from the
/// environment `env`, in the directory `cwd` where one is given: a pseudo-terminal of
/// that size is opened, the startup files of the shell's family are written, the shell
/// is started, and the handles to write and to read are taken.
pub open spec fn spawn_plan(env: EnvModel, cols: u16, rows: u16, cwd: Option<Seq<char>>)
    -> SpawnPlanModel {
    SpawnPlanModel {
        steps: seq![SpawnStepModel::OpenPty(PtySize::of(cols, rows))] + integration_steps(
            shell_family(resolved_shell(env)),
            resolved_home(env),
        ) + seq![
            SpawnStepModel::SpawnChild(shell_command(env, cwd)),
            SpawnStepModel::TakeWriter,
            SpawnStepModel::CloneReader,
        ],
        cwd: working_dir(env, cwd),
    }
}

/// The value that `env` gives the variable `key`, if it names it.
pub fn find_var<'a>(env: &'a Vec<EnvVar>, key: &str) -> (r: Option<&'a String>)
    ensures
        match r {
            Some(value) => lookup(models(env@), key@) == Some(value@),
            None => lookup(models(env@), key@) is None,
        },
{
    let wanted = String::from_str(key);
    let mut i: usize = 0;
    while i < env.len()
        invariant
            i <= env.len(),
            wanted@ == key@,
            lookup(models(env@), key@) == lookup_from(models(env@), key@, i as int),
        decreases env.len() - i,
    {
        assert(models(env@)[i as int] == env@[i as int]@);
        if env[i].key == wanted {
            return Some(&env[i].value);
        }
        i += 1;
    }
    None
}

/// The variable `key` with the value `value`.
pub fn var(key: &str, value: &str) -> (r: EnvVar)
    ensures
        r@ == (key@, value@),
{
    EnvVar { key: String::from_str(key), value: String::from_str(value) }
}

/// Takes the variable `key` over from `env` where `env` names it.
fn inherit(env: &Vec<EnvVar>, key: &str, out: &mut Vec<EnvVar>)
    ensures
        models(final(out)@) == match lookup(models(env@), key@) {
            Some(value) => models(old(out)@).push((key@, value)),
            None => models(old(out)@),
        },
{
    match find_var(env, key) {
        Some(value) => {
            let ghost before = models(out@);
            let v = var(key, value.as_str());
            out.push(v);
            assert(models(out@) =~= before.push(v@));
        },
        None => {},
    }
}

/// Makes the setting of `key` to `value`.
fn set(out: &mut Vec<EnvVar>, key: &str, value: &str)
    ensures
        models(final(out)@) == models(old(out)@).push((key@, value@)),
{
    let ghost before = models(out@);
    let v = var(key, value);
    out.push(v);
    assert(models(out@) =~= before.push(v@));
}

/// The settings with which a shell of `family` is started: what is inherited, what is
/// forced, and what leads the shell to the manager's startup files, which lie at
/// `target`, the directory for zsh and the file for bash.
fn env_with(
    env: &Vec<EnvVar>,
    family: ShellFamily,
    target: &str,
    Ghost(home): Ghost<Seq<char>>,
) -> (out: Vec<EnvVar>)
    requires
        family == ShellFamily::Zsh ==> target@ == zsh_dir(home),
        family == ShellFamily::Bash ==> target@ == bash_rcfile(home),
    ensures
        models(out@) == shell_env(models(env@), family, home),
{
    let ghost e = models(env@);
    let mut out: Vec<EnvVar> = Vec::new();
    assert(models(out@) =~= inherited(e, 0));
    inherit(env, "HOME", &mut out);
    assert(models(out@) == inherited(e, 1));
    inherit(env, "USER", &mut out);
    assert(models(out@) == inherited(e, 2));
    inherit(env, "LOGNAME", &mut out);
    assert(models(out@) == inherited(e, 3));
    inherit(env, "PATH", &mut out);
    assert(models(out@) == inherited(e, 4));
    inherit(env, "TERM", &mut out);
    assert(models(out@) == inherited(e, 5));
    inherit(env, "LANG", &mut out);
    assert(models(out@) == inherited(e, 6));
    inherit(env, "LC_ALL", &mut out);
    assert(models(out@) == inherited(e, 7));
    let ghost taken = models(out@);
    set(&mut out, "TERM", "xterm-256color");
    set(&mut out, "TERMINAL_PLUS", "1");
    set(&mut out, "CLICOLOR", "1");
    set(&mut out, "CLICOLOR_FORCE", "1");
    assert(models(out@) =~= taken + forced());
    push_integration_env(&mut out, env, family, target, Ghost(home));
    out
}

/// The startup file `name` in the directory `dir`.
fn file_in(dir: &str, name: &str, contents: &str) -> (file: StartupFile)
    ensures
        file@ == startup_file(dir@, name@, contents@),
{
    let mut path = join(dir, "/");
    path.append(name);
    StartupFile { name: String::from_str(name), path, contents: String::from_str(contents) }
}

/// Adds the step that writes `file`.
fn write_step(steps: &mut Vec<SpawnStep>, file: StartupFile)
    ensures
        models(final(steps)@) == models(old(steps)@).push(SpawnStepModel::WriteFile(file@)),
{
    let ghost before = models(steps@);
    let step = SpawnStep::WriteFile(file);
    steps.push(step);
    assert(models(steps@) =~= before.push(step@));
}

/// Adds the steps that set up the integration with zsh: a directory of startup files
/// that lead to the user's own and add the manager's prompt and colours after them.
/// Returns that directory, which zsh is then pointed at.
pub fn setup_zsh_integration(home: &str, steps: &mut Vec<SpawnStep>) -> (dir: String)
    ensures
        dir@ == zsh_dir(home@),
        models(final(steps)@) == models(old(steps)@) + integration_steps(
            ShellFamily::Zsh,
            home@,
        ),
{
    let ghost before = models(steps@);
    let dir = join(home, "/.terminal-plus/shell/zsh");
    let step = SpawnStep::CreateDir(dir.clone());
    steps.push(step);
    assert(models(steps@) =~= before.push(step@));
    write_step(steps, file_in(dir.as_str(), ".zshenv", ZSHENV));
    write_step(steps, file_in(dir.as_str(), ".zprofile", ZPROFILE));
    write_step(steps, file_in(dir.as_str(), ".zshrc", ZSHRC));
    write_step(steps, file_in(dir.as_str(), ".zlogin", ZLOGIN));
    assert(models(steps@) =~= before + integration_steps(ShellFamily::Zsh, home@));
    dir
}

/// Adds the steps that set up the integration with bash: one startup file that leads to
/// the user's own and adds the manager's prompt and colours after it. Returns the path
/// of that file, which bash is then pointed at.
pub fn setup_bash_integration(home: &str, steps: &mut Vec<SpawnStep>) -> (rcfile: String)
    ensures
        rcfile@ == bash_rcfile(home@),
        models(final(steps)@) == models(old(steps)@) + integration_steps(
            ShellFamily::Bash,
            home@,
        ),
{
    let ghost before = models(steps@);
    let dir = join(home, "/.terminal-plus/shell/bash");
    let step = SpawnStep::CreateDir(dir.clone());
    steps.push(step);
    assert(models(steps@) =~= before.push(step@));
    let file = file_in(dir.as_str(), ".bashrc", BASHRC);
    let rcfile = file.path.clone();
    write_step(steps, file);
    assert(models(steps@) =~= before + integration_steps(ShellFamily::Bash, home@));
    rcfile
}

/// The settings that lead a shell of `family` to the manager's startup files, given
/// where those lie: `target` is the directory for zsh and the file for bash.
fn push_integration_env(
    out: &mut Vec<EnvVar>,
    env: &Vec<EnvVar>,
    family: ShellFamily,
    target: &str,
    Ghost(home): Ghost<Seq<char>>,
)
    requires
        family == ShellFamily::Zsh ==> target@ == zsh_dir(home),
        family == ShellFamily::Bash ==> target@ == bash_rcfile(home),
    ensures
        models(final(out)@) == models(old(out)@) + integration_env(family, home, models(env@)),
{
    let ghost base = models(out@);
    match family {
        ShellFamily::Zsh => {
            match find_var(env, "ZDOTDIR") {
                Some(dir) => {
                    set(out, "TERMINAL_PLUS_ORIG_ZDOTDIR", dir.as_str());
                },
                None => {},
            }
            set(out, "ZDOTDIR", target);
            assert(models(out@) =~= base + integration_env(family, home, models(env@)));
        },
        ShellFamily::Bash => {
            set(out, "TERMINAL_PLUS_BASH_RCFILE", target);
            set(out, "BASH_ENV", target);
            assert(models(out@) =~= base + integration_env(family, home, models(env@)));
        },
        ShellFamily::Other => {
            assert(models(out@) =~= base + integration_env(family, home, models(env@)));
        },
    }
}

/// The settings with which a shell of `family` is started from the environment `env`,
/// with the home directory `home`.
pub fn build_env(env: &Vec<EnvVar>, family: ShellFamily, home: &str) -> (out: Vec<EnvVar>)
    ensures
        models(out@) == shell_env(models(env@), family, home@),
{
    let target = match family {
        ShellFamily::Zsh => join(home, "/.terminal-plus/shell/zsh"),
        ShellFamily::Bash => {
            let mut rcfile = join(home, "/.terminal-plus/shell/bash");
            rcfile.append("/");
            rcfile.append(".bashrc");
            rcfile
        },
        ShellFamily::Other => String::new(),
    };
    env_with(env, family, target.as_str(), Ghost(home@))
}

/// The view of a directory that may be given.
pub open spec fn dir_view(cwd: Option<String>) -> Option<Seq<char>> {
    match cwd {
        Some(dir) => Some(dir@),
        None => None,
    }
}

impl SpawnPlan {
    /// Plans the start of a session of `cols` columns and `rows` rows from the
    /// environment `env`, in the directory `cwd` where one is given.
    pub fn new(env: &Vec<EnvVar>, cols: u16, rows: u16, cwd: Option<String>) -> (plan: SpawnPlan)
        ensures
            plan@ == spawn_plan(models(env@), cols, rows, dir_view(cwd)),
    {
        let shell = match find_var(env, "SHELL") {
            Some(shell) => shell.clone(),
            None => String::from_str("/bin/zsh"),
        };
        let home = match find_var(env, "HOME") {
            Some(home) => home.clone(),
            None => String::from_str("/"),
        };
        let working_dir = match cwd {
            Some(dir) => dir,
            None => home.clone(),
        };
        let family = ShellFamily::classify(shell.as_str());
        let mut steps: Vec<SpawnStep> = Vec::new();
        let open = SpawnStep::OpenPty(PtySize::new(cols, rows));
        steps.push(open);
        assert(models(steps@) =~= seq![open@]);
        let target = match family {
            ShellFamily::Zsh => setup_zsh_integration(home.as_str(), &mut steps),
            ShellFamily::Bash => setup_bash_integration(home.as_str(), &mut steps),
            ShellFamily::Other => {
                assert(models(steps@) + integration_steps(family, home@) =~= models(steps@));
                String::new()
            },
        };
        let mut args: Vec<String> = Vec::new();
        args.push(String::from_str("-l"));
        assert(models(args@) =~= seq!["-l"@]);
        let command = ShellCommand {
            program: shell,
            args,
            cwd: working_dir.clone(),
            env: env_with(env, family, target.as_str(), Ghost(home@)),
        };
        let ghost before = models(steps@);
        let spawn = SpawnStep::SpawnChild(command);
        steps.push(spawn);
        steps.push(SpawnStep::TakeWriter);
        steps.push(SpawnStep::CloneReader);
        assert(models(steps@) =~= before + seq![
            spawn@,
            SpawnStepModel::TakeWriter,
            SpawnStepModel::CloneReader,
        ]);
        SpawnPlan { steps, cwd: working_dir }
    }
}

/// The steps of a plan that write startup files: those between the opening of the
/// pseudo-terminal and the start of the shell.
pub open spec fn integration_of(plan: SpawnPlanModel) -> Seq<SpawnStepModel> {
    plan.steps.subrange(1, plan.steps.len() - 3)
}

/// Two plans for shells of the same family under the same home directory write the same
/// startup files with the same contents, whatever else differs between them: writing
/// them again changes nothing.
pub proof fn lemma_integration_is_idempotent(
    env1: EnvModel,
    cols1: u16,
    rows1: u16,
    cwd1: Option<Seq<char>>,
    env2: EnvModel,
    cols2: u16,
    rows2: u16,
    cwd2: Option<Seq<char>>,
)
    requires
        shell_family(resolved_shell(env1)) == shell_family(resolved_shell(env2)),
        resolved_home(env1) == resolved_home(env2),
    ensures
        integration_of(spawn_plan(env1, cols1, rows1, cwd1)) == integration_of(
            spawn_plan(env2, cols2, rows2, cwd2),
        ),
        integration_of(spawn_plan(env1, cols1, rows1, cwd1)) == integration_steps(
            shell_family(resolved_shell(env1)),
            resolved_home(env1),
        ),
{
    let steps = integration_steps(shell_family(resolved_shell(env1)), resolved_home(env1));
    assert(integration_of(spawn_plan(env1, cols1, rows1, cwd1)) =~= steps);
    assert(integration_of(spawn_plan(env2, cols2, rows2, cwd2)) =~= steps);
}

/// Whatever the environment holds, a session's terminal is one of 256 colours: the
/// last setting of `TERM` is the forced one.
pub proof fn lemma_term_is_forced(env: EnvModel, family: ShellFamily, home: Seq<char>)
    ensures
        last_setting(
            shell_env(env, family, home),
            "TERM"@,
            shell_env(env, family, home).len() as int,
        ) == Some("xterm-256color"@),
{
    reveal_strlit("TERM");
    reveal_strlit("TERMINAL_PLUS");
    reveal_strlit("CLICOLOR");
    reveal_strlit("CLICOLOR_FORCE");
    reveal_strlit("ZDOTDIR");
    reveal_strlit("TERMINAL_PLUS_ORIG_ZDOTDIR");
    reveal_strlit("TERMINAL_PLUS_BASH_RCFILE");
    reveal_strlit("BASH_ENV");
    let taken = inherited(env, inherited_names().len() as int);
    let base = taken + forced();
    let extra = integration_env(family, home, env);
    let all = shell_env(env, family, home);
    assert(all == base + extra);
    assert("TERM"@.len() == 4);
    assert("ZDOTDIR"@.len() == 7);
    assert("TERMINAL_PLUS_ORIG_ZDOTDIR"@.len() == 26);
    assert("TERMINAL_PLUS_BASH_RCFILE"@.len() == 25);
    assert("BASH_ENV"@.len() == 8);
    assert forall|k: int| 0 <= k < extra.len() implies (#[trigger] extra[k]).0 != "TERM"@ by {
        match family {
            ShellFamily::Zsh => {
                if lookup(env, "ZDOTDIR"@) is Some {
                    assert(extra[k].0 == "TERMINAL_PLUS_ORIG_ZDOTDIR"@ || extra[k].0
                        == "ZDOTDIR"@);
                } else {
                    assert(extra[k].0 == "ZDOTDIR"@);
                }
            },
            ShellFamily::Bash => {
                assert(extra[k].0 == "TERMINAL_PLUS_BASH_RCFILE"@ || extra[k].0 == "BASH_ENV"@);
            },
            ShellFamily::Other => {},
        }
    }
    lemma_last_setting_skips(base, extra, "TERM"@, extra.len() as int);
    let n = base.len() as int;
    assert(base[n - 1] == forced()[3]);
    assert(base[n - 2] == forced()[2]);
    assert(base[n - 3] == forced()[1]);
    assert(base[n - 4] == forced()[0]);
    assert("TERMINAL_PLUS"@.len() == 13);
    assert("CLICOLOR"@.len() == 8);
    assert("CLICOLOR_FORCE"@.len() == 14);
    assert(last_setting(base, "TERM"@, n) == last_setting(base, "TERM"@, n - 1));
    assert(last_setting(base, "TERM"@, n - 1) == last_setting(base, "TERM"@, n - 2));
    assert(last_setting(base, "TERM"@, n - 2) == last_setting(base, "TERM"@, n - 3));
    assert(last_setting(base, "TERM"@, n - 3) == Some("xterm-256color"@));
}

/// Settings of other variables at the end of a list do not change what the list leaves
/// the variable `key` with.
pub proof fn lemma_last_setting_skips(base: EnvModel, extra: EnvModel, key: Seq<char>, n: int)
    requires
        0 <= n <= extra.len(),
        forall|k: int| 0 <= k < extra.len() ==> (#[trigger] extra[k]).0 != key,
    ensures
        last_setting(base + extra, key, base.len() + n) == last_setting(
            base,
            key,
            base.len() as int,
        ),
    decreases n,
{
    if n > 0 {
        assert((base + extra)[base.len() + n - 1] == extra[n - 1]);
        lemma_last_setting_skips(base, extra, key, n - 1);
    } else {
        lemma_last_setting_prefix(base, extra, key, base.len() as int);
    }
}

/// What the first `n` settings of a list leave a variable with does not depend on what
/// follows them.
pub proof fn lemma_last_setting_prefix(base: EnvModel, extra: EnvModel, key: Seq<char>, n: int)
    requires
        0 <= n <= base.len(),
    ensures
        last_setting(base + extra, key, n) == last_setting(base, key, n),
    decreases n,
{
    if n > 0 {
        assert((base + extra)[n - 1] == base[n - 1]);
        lemma_last_setting_prefix(base, extra, key, n - 1);
    }
}

} // verus!
