//! Reading what `git` prints: the commit log, the files of a change, and unified diffs.

pub mod command;
pub mod diff;
pub mod log;
pub mod types;
