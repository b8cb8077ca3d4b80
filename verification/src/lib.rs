//! The logic of a terminal application: a manager of shell sessions on pseudo-terminals,
//! and a reader of what `git` prints.
//!
//! Nothing here opens a file, starts a process or touches a device. Each operation takes
//! plain values that its caller has read, and answers with plain values that say what to
//! do next; the contracts state those answers exactly.

pub mod files;
pub mod git;
pub mod process;
pub mod pty;
pub mod text;
