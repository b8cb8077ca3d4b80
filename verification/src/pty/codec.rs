//! Base64, the encoding in which the bytes of a session travel as text.

use crate::pty::error::DecodeFault;
use base64::Engine;
use vstd::prelude::*;

verus! {

/// The standard base64 text, with padding, of `bytes`.
pub uninterp spec fn base64_encoded(bytes: Seq<u8>) -> Seq<char>;

/// The bytes that `text` is the standard base64 text of, or why it is none.
pub uninterp spec fn base64_decoded(text: Seq<char>) -> Result<Seq<u8>, DecodeFault>;

/// Whether `text` is a base64 text of `bytes`.
pub open spec fn decodes_to(text: Seq<char>, bytes: Seq<u8>) -> bool {
    base64_decoded(text) == Ok::<Seq<u8>, DecodeFault>(bytes)
}

/// Whether the base64 text of `len` bytes has a length that the machine can count.
pub open spec fn encodable(len: nat) -> bool {
    (len / 3 + 1) * 4 <= usize::MAX
}

/// `base64::Engine::encode` on `base64::engine::general_purpose::STANDARD`. Believed of
/// it: the text depends on `data` alone, and decoding the text with the same engine gives
/// `data` back, since the engine pads as its decoder asks. The call panics where the
/// length of the text overflows a `usize`, which `requires` leaves out.
#[verifier::external_body]
pub(crate) fn base64_encode(data: &[u8]) -> (text: String)
    requires
        encodable(data@.len()),
    ensures
        text@ == base64_encoded(data@),
        decodes_to(text@, data@),
{
    base64::engine::general_purpose::STANDARD.encode(data)
}

/// `base64::Engine::decode` on `base64::engine::general_purpose::STANDARD`. Believed of
/// it: the answer depends on `text` alone. The bytes are handed on as they come; the
/// decoder's error is handed on variant for variant, with the numbers that it carries.
#[verifier::external_body]
pub(crate) fn base64_decode(text: &str) -> (r: Result<Vec<u8>, DecodeFault>)
    ensures
        match r {
            Ok(bytes) => decodes_to(text@, bytes@),
            Err(fault) => base64_decoded(text@) == Err::<Seq<u8>, DecodeFault>(fault),
        },
{
    match base64::engine::general_purpose::STANDARD.decode(text) {
        Ok(bytes) => Ok(bytes),
        Err(base64::DecodeError::InvalidByte(offset, byte)) => Err(
            DecodeFault::InvalidByte(offset, byte),
        ),
        Err(base64::DecodeError::InvalidLength(len)) => Err(DecodeFault::InvalidLength(len)),
        Err(base64::DecodeError::InvalidLastSymbol(offset, byte)) => Err(
            DecodeFault::InvalidLastSymbol(offset, byte),
        ),
        Err(base64::DecodeError::InvalidPadding) => Err(DecodeFault::InvalidPadding),
    }
}

} // verus!
