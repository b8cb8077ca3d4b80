//! The bridge that forwards what a session prints: each chunk that is read becomes one
//! event under the session's own name, and the end of the stream becomes a last event.

use crate::pty::codec::{base64_encode, base64_encoded, decodes_to, encodable};
use crate::text::join;
use vstd::prelude::*;

verus! {

/// The number of bytes that the bridge reads at most at a time.
pub const READ_BUFFER_SIZE: usize = 8192;

/// What a read from a session's pseudo-terminal gave.
pub enum ReadOutcome<'a> {
    /// The bytes that were read; none at the end of the stream.
    Read(&'a [u8]),
    /// The read failed.
    Failed,
}

/// The model of a [`ReadOutcome`].
pub enum ReadOutcomeModel {
    Read(Seq<u8>),
    Failed,
}

impl<'a> View for ReadOutcome<'a> {
    type V = ReadOutcomeModel;

    open spec fn view(&self) -> ReadOutcomeModel {
        match self {
            ReadOutcome::Read(bytes) => ReadOutcomeModel::Read(bytes@),
            ReadOutcome::Failed => ReadOutcomeModel::Failed,
        }
    }
}

/// What the bridge sends.
#[derive(Debug, Clone, PartialEq, Eq)]
pub enum BridgeEvent {
    /// A chunk of output, as base64, under the name of the session's output.
    Output { name: String, payload: String },
    /// The end of the output, under the name of the session's exit. Nothing follows it.
    Exit { name: String },
}

/// The model of a [`BridgeEvent`].
pub enum BridgeEventModel {
    Output { name: Seq<char>, payload: Seq<char> },
    Exit { name: Seq<char> },
}

impl View for BridgeEvent {
    type V = BridgeEventModel;

    open spec fn view(&self) -> BridgeEventModel {
        match self {
            BridgeEvent::Output { name, payload } => BridgeEventModel::Output {
                name: name@,
                payload: payload@,
            },
            BridgeEvent::Exit { name } => BridgeEventModel::Exit { name: name@ },
        }
    }
}

/// The name under which the output of the session `id` is sent.
pub open spec fn output_name(id: Seq<char>) -> Seq<char> {
    "pty-output-"@ + id
}

/// The name under which the end of the session `id` is sent.
pub open spec fn exit_name(id: Seq<char>) -> Seq<char> {
    "pty-exit-"@ + id
}

/// Whether a read gave bytes to forward. A read that gave none is the end of the
/// stream, and so is one that failed.
pub open spec fn has_output(read: ReadOutcomeModel) -> bool {
    read matches ReadOutcomeModel::Read(bytes) && bytes.len() > 0
}

/// The event that announces the chunk whose base64 text is `payload`.
pub fn output_event(session_id: &str, payload: String) -> (event: BridgeEvent)
    ensures
        event@ == (BridgeEventModel::Output { name: output_name(session_id@), payload: payload@ }),
{
    BridgeEvent::Output { name: join("pty-output-", session_id), payload }
}

/// The event that announces the end of a session's output.
pub fn exit_event(session_id: &str) -> (event: BridgeEvent)
    ensures
        event@ == (BridgeEventModel::Exit { name: exit_name(session_id@) }),
{
    BridgeEvent::Exit { name: join("pty-exit-", session_id) }
}

/// The event that follows a read from the pseudo-terminal of the session `session_id`.
/// Bytes that were read are sent as one output event, whose payload is their base64 text
/// and decodes to them again; after it the bridge reads on. The end of the stream and a
/// failed read are sent as the exit event, after which the bridge stops.
pub fn bridge_step(session_id: &str, read: &ReadOutcome<'_>) -> (event: BridgeEvent)
    requires
        read@ matches ReadOutcomeModel::Read(bytes) ==> encodable(bytes.len()),
    ensures
        has_output(read@) ==> event@ == (BridgeEventModel::Output {
            name: output_name(session_id@),
            payload: base64_encoded(read@->Read_0),
        }) && decodes_to(event@->payload, read@->Read_0),
        !has_output(read@) ==> event@ == (BridgeEventModel::Exit { name: exit_name(session_id@) }),
{
    match read {
        ReadOutcome::Read(bytes) => {
            if bytes.len() == 0 {
                exit_event(session_id)
            } else {
                output_event(session_id, base64_encode(bytes))
            }
        },
        ReadOutcome::Failed => exit_event(session_id),
    }
}

/// A chunk that fits the bridge's buffer has a base64 text that the machine can count.
pub proof fn lemma_buffer_is_encodable(len: nat)
    requires
        len <= READ_BUFFER_SIZE,
    ensures
        encodable(len),
{
}

/// Sessions with different identifiers send under different names, and no name of an
/// output is the name of an exit: what one session prints is never taken for what
/// another prints, nor for the end of any.
pub proof fn lemma_event_names_are_separate(a: Seq<char>, b: Seq<char>)
    ensures
        a != b ==> output_name(a) != output_name(b),
        a != b ==> exit_name(a) != exit_name(b),
        output_name(a) != exit_name(b),
{
    reveal_strlit("pty-output-");
    reveal_strlit("pty-exit-");
    let o = "pty-output-"@;
    let e = "pty-exit-"@;
    if output_name(a) == output_name(b) {
        assert((o + a).subrange(o.len() as int, (o + a).len() as int) =~= a);
        assert((o + b).subrange(o.len() as int, (o + b).len() as int) =~= b);
    }
    if exit_name(a) == exit_name(b) {
        assert((e + a).subrange(e.len() as int, (e + a).len() as int) =~= a);
        assert((e + b).subrange(e.len() as int, (e + b).len() as int) =~= b);
    }
    assert((o + a)[4] == 'o');
    assert((e + b)[4] == 'e');
}

} // verus!
