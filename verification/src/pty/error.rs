//! The failures that the session manager reports, and the words in which it reports them.

use crate::text::{decimal, join, push_decimal};
use vstd::prelude::*;
use vstd::string::StringExecFns;

verus! {

/// Why a text is no base64.
#[derive(Debug, Clone, Copy, PartialEq, Eq, Structural)]
pub enum DecodeFault {
    /// A byte that no base64 text holds at that place: its offset, and the byte.
    InvalidByte(usize, u8),
    /// A number of symbols that no base64 text has.
    InvalidLength(usize),
    /// A last symbol with bits that would be lost: its offset, and the byte.
    InvalidLastSymbol(usize, u8),
    /// Padding that is missing or wrong.
    InvalidPadding,
}

impl DecodeFault {
    /// The fault in words.
    pub open spec fn text(self) -> Seq<char> {
        match self {
            DecodeFault::InvalidByte(offset, byte) => "Invalid symbol "@ + decimal(byte as nat)
                + ", offset "@ + decimal(offset as nat) + "."@,
            DecodeFault::InvalidLength(len) => "Invalid input length: "@ + decimal(len as nat),
            DecodeFault::InvalidLastSymbol(offset, byte) => "Invalid last symbol "@ + decimal(
                byte as nat,
            ) + ", offset "@ + decimal(offset as nat) + "."@,
            DecodeFault::InvalidPadding => "Invalid padding"@,
        }
    }

    /// The fault in words.
    pub fn message(&self) -> (r: String)
        ensures
            r@ == self.text(),
    {
        match self {
            DecodeFault::InvalidByte(offset, byte) => {
                let mut r = String::from_str("Invalid symbol ");
                push_decimal(&mut r, *byte as u64);
                r.append(", offset ");
                push_decimal(&mut r, *offset as u64);
                r.append(".");
                r
            },
            DecodeFault::InvalidLength(len) => {
                let mut r = String::from_str("Invalid input length: ");
                push_decimal(&mut r, *len as u64);
                r
            },
            DecodeFault::InvalidLastSymbol(offset, byte) => {
                let mut r = String::from_str("Invalid last symbol ");
                push_decimal(&mut r, *byte as u64);
                r.append(", offset ");
                push_decimal(&mut r, *offset as u64);
                r.append(".");
                r
            },
            DecodeFault::InvalidPadding => String::from_str("Invalid padding"),
        }
    }
}

/// A failure of the session manager. Where the system gave a reason, the failure
/// carries it as text.
#[derive(Debug, Clone, PartialEq, Eq)]
pub enum PtyError {
    /// No pseudo-terminal could be opened.
    OpenPty(String),
    /// The directory of the shell integration could not be made.
    IntegrationDir(String),
    /// A startup file of the shell integration could not be written: its name, and why.
    IntegrationFile(String, String),
    /// The shell could not be started.
    Spawn(String),
    /// The pseudo-terminal gave no handle to write to.
    Writer(String),
    /// The pseudo-terminal gave no handle to read from.
    Reader(String),
    /// No session goes by that identifier.
    NotFound(String),
    /// A session goes by that identifier already.
    Duplicate(String),
    /// The input was no base64.
    InvalidEncoding(DecodeFault),
    /// Writing to the session failed.
    Write(String),
    /// Flushing what was written failed.
    Flush(String),
    /// The pseudo-terminal refused the new size.
    Resize(String),
}

/// The model of a [`PtyError`].
pub enum PtyErrorModel {
    OpenPty(Seq<char>),
    IntegrationDir(Seq<char>),
    IntegrationFile(Seq<char>, Seq<char>),
    Spawn(Seq<char>),
    Writer(Seq<char>),
    Reader(Seq<char>),
    NotFound(Seq<char>),
    Duplicate(Seq<char>),
    InvalidEncoding(DecodeFault),
    Write(Seq<char>),
    Flush(Seq<char>),
    Resize(Seq<char>),
}

impl PtyErrorModel {
    /// The failure in words.
    pub open spec fn text(self) -> Seq<char> {
        match self {
            PtyErrorModel::OpenPty(e) => "Failed to open PTY: "@ + e,
            PtyErrorModel::IntegrationDir(e) => "Failed to create shell integration dir: "@ + e,
            PtyErrorModel::IntegrationFile(name, e) => "Failed to write "@ + name + ": "@ + e,
            PtyErrorModel::Spawn(e) => "Failed to spawn shell: "@ + e,
            PtyErrorModel::Writer(e) => "Failed to get PTY writer: "@ + e,
            PtyErrorModel::Reader(e) => "Failed to get PTY reader: "@ + e,
            PtyErrorModel::NotFound(id) => "Session "@ + id + " not found"@,
            PtyErrorModel::Duplicate(id) => "Session "@ + id + " already exists"@,
            PtyErrorModel::InvalidEncoding(fault) => "Invalid base64: "@ + fault.text(),
            PtyErrorModel::Write(e) => "PTY write failed: "@ + e,
            PtyErrorModel::Flush(e) => "PTY flush failed: "@ + e,
            PtyErrorModel::Resize(e) => "PTY resize failed: "@ + e,
        }
    }
}

impl View for PtyError {
    type V = PtyErrorModel;

    open spec fn view(&self) -> PtyErrorModel {
        match self {
            PtyError::OpenPty(e) => PtyErrorModel::OpenPty(e@),
            PtyError::IntegrationDir(e) => PtyErrorModel::IntegrationDir(e@),
            PtyError::IntegrationFile(name, e) => PtyErrorModel::IntegrationFile(name@, e@),
            PtyError::Spawn(e) => PtyErrorModel::Spawn(e@),
            PtyError::Writer(e) => PtyErrorModel::Writer(e@),
            PtyError::Reader(e) => PtyErrorModel::Reader(e@),
            PtyError::NotFound(id) => PtyErrorModel::NotFound(id@),
            PtyError::Duplicate(id) => PtyErrorModel::Duplicate(id@),
            PtyError::InvalidEncoding(fault) => PtyErrorModel::InvalidEncoding(*fault),
            PtyError::Write(e) => PtyErrorModel::Write(e@),
            PtyError::Flush(e) => PtyErrorModel::Flush(e@),
            PtyError::Resize(e) => PtyErrorModel::Resize(e@),
        }
    }
}

impl PtyError {
    /// The failure in words, as it is shown to whoever asked for the operation.
    pub fn message(&self) -> (r: String)
        ensures
            r@ == self@.text(),
    {
        match self {
            PtyError::OpenPty(e) => join("Failed to open PTY: ", e.as_str()),
            PtyError::IntegrationDir(e) => join(
                "Failed to create shell integration dir: ",
                e.as_str(),
            ),
            PtyError::IntegrationFile(name, e) => {
                let mut r = join("Failed to write ", name.as_str());
                r.append(": ");
                r.append(e.as_str());
                r
            },
            PtyError::Spawn(e) => join("Failed to spawn shell: ", e.as_str()),
            PtyError::Writer(e) => join("Failed to get PTY writer: ", e.as_str()),
            PtyError::Reader(e) => join("Failed to get PTY reader: ", e.as_str()),
            PtyError::NotFound(id) => {
                let mut r = join("Session ", id.as_str());
                r.append(" not found");
                r
            },
            PtyError::Duplicate(id) => {
                let mut r = join("Session ", id.as_str());
                r.append(" already exists");
                r
            },
            PtyError::InvalidEncoding(fault) => {
                let m = fault.message();
                join("Invalid base64: ", m.as_str())
            },
            PtyError::Write(e) => join("PTY write failed: ", e.as_str()),
            PtyError::Flush(e) => join("PTY flush failed: ", e.as_str()),
            PtyError::Resize(e) => join("PTY resize failed: ", e.as_str()),
        }
    }
}

} // verus!
