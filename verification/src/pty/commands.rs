//! The operations as they are asked for from outside: with the input of a write as
//! base64 text, and with a failure where a session is missing.

use crate::pty::codec::{base64_decode, base64_decoded, decodes_to};
use crate::pty::error::{DecodeFault, PtyError, PtyErrorModel};
use crate::pty::manager::{found, PtyManager};
use crate::pty::session::{session_cwd, ProbeOutcome, PtySession};
use vstd::prelude::*;

verus! {

/// The bytes of an input, from what decoding its text gave: the bytes, or the failure
/// that the text was no base64, with the decoder's reason.
pub fn input_bytes(decoded: Result<Vec<u8>, DecodeFault>) -> (r: Result<Vec<u8>, PtyError>)
    ensures
        match decoded {
            Ok(bytes) => r == Ok::<Vec<u8>, PtyError>(bytes),
            Err(fault) => r matches Err(e) && e@ == PtyErrorModel::InvalidEncoding(fault),
        },
{
    match decoded {
        Ok(bytes) => Ok(bytes),
        Err(fault) => Err(PtyError::InvalidEncoding(fault)),
    }
}

/// The bytes that the base64 text `data` stands for.
pub fn decode_input(data: &str) -> (r: Result<Vec<u8>, PtyError>)
    ensures
        match r {
            Ok(bytes) => decodes_to(data@, bytes@),
            Err(e) => base64_decoded(data@) matches Err(fault) && e@
                == PtyErrorModel::InvalidEncoding(fault),
        },
{
    input_bytes(base64_decode(data))
}

/// What a write of the base64 text `data` to the session `session_id` has to do: the
/// session to write to, and the bytes to write. The text is decoded first, so that a
/// text that is no base64 is refused whether or not the session exists; then the
/// session is looked up.
pub fn pty_write<'a, H>(manager: &'a PtyManager<H>, session_id: &str, data: &str) -> (r: Result<
    (&'a PtySession<H>, Vec<u8>),
    PtyError,
>)
    ensures
        match r {
            Ok((session, bytes)) => decodes_to(data@, bytes@) && found(manager@, session_id@)
                == Ok::<PtySession<H>, PtyErrorModel>(*session),
            Err(e) => match base64_decoded(data@) {
                Err(fault) => e@ == PtyErrorModel::InvalidEncoding(fault),
                Ok(_) => found(manager@, session_id@) == Err::<PtySession<H>, PtyErrorModel>(e@),
            },
        },
{
    match decode_input(data) {
        Err(e) => Err(e),
        Ok(bytes) => match manager.session(session_id) {
            Some(session) => Ok((session, bytes)),
            None => Err(PtyError::NotFound(String::from_str(session_id))),
        },
    }
}

/// The working directory of the session `session_id`, or the failure that no session
/// goes by that identifier.
pub fn pty_get_cwd<H>(manager: &PtyManager<H>, session_id: &str, outcome: &ProbeOutcome) -> (r:
    Result<String, PtyError>)
    ensures
        match r {
            Ok(dir) => manager@.contains_key(session_id@) && dir@ == session_cwd(
                manager@[session_id@].cwd@,
                outcome@,
            ),
            Err(e) => !manager@.contains_key(session_id@) && e@ == PtyErrorModel::NotFound(
                session_id@,
            ),
        },
{
    match manager.get_session_cwd(session_id, outcome) {
        Some(dir) => Ok(dir),
        None => Err(PtyError::NotFound(String::from_str(session_id))),
    }
}

} // verus!
