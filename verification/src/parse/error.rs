//! Parse errors.

use vstd::prelude::*;

verus! {

/// Why a log could not be read.
#[derive(Debug, Clone, PartialEq, Eq)]
pub enum EvtcError {
    /// Unsupported file extension, header magic other than `EVTC`, or a build
    /// string that is not an integer.
    NotEvtc,
    /// An archive that does not hold exactly one entry.
    InvalidArchive,
    /// Decompressed size over the limit, in megabytes.
    TooBig { size: u64, limit: u64 },
    /// The log ends before the minimum in-combat duration, in milliseconds.
    TooShort { duration: i64, limit: i64 },
    /// The log lasts longer than 24 hours.
    TooLong,
    /// No combat row survived the filters.
    NoCombatEvents,
    /// A read ran past the end of the bytes.
    UnexpectedEnd { position: usize, required: usize, remaining: usize },
    /// The file does not exist.
    FileNotFound { path: String },
    /// The archive could not be read as a zip archive, with the reason.
    Zip { message: String },
    /// The entry of the archive could not be decompressed, with the reason.
    Io { message: String },
}

} // verus!
