//! What a run of another program gave back, as the readers of its output take it.

use vstd::prelude::*;

verus! {

/// What a finished process left behind: whether it ended well, and what it printed, read
/// as text.
#[derive(Debug, Clone, PartialEq, Eq)]
pub struct CommandOutput {
    pub success: bool,
    pub stdout: String,
    pub stderr: String,
}

/// The model of a [`CommandOutput`].
pub struct CommandOutputModel {
    pub success: bool,
    pub stdout: Seq<char>,
    pub stderr: Seq<char>,
}

impl View for CommandOutput {
    type V = CommandOutputModel;

    open spec fn view(&self) -> CommandOutputModel {
        CommandOutputModel { success: self.success, stdout: self.stdout@, stderr: self.stderr@ }
    }
}

/// A run that could not be started gives the reason; one that was started gives its
/// output.
pub open spec fn run_view(run: Result<CommandOutput, String>) -> Result<
    CommandOutputModel,
    Seq<char>,
> {
    match run {
        Ok(o) => Ok(o@),
        Err(e) => Err(e@),
    }
}

} // verus!
