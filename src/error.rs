//! Errors of the segment engine.

use vstd::prelude::*;
use crate::codec::FrameFault;

verus! {

/// What can go wrong in the segment engine itself. Failures of the file
/// system and of the actors around it are reported by the code that does
/// that I/O.
#[derive(Clone, Copy, PartialEq, Eq, Structural, Debug)]
pub enum Error {
    /// The file does not start with the segment file magic value.
    SegmentFileIdentifierMismatch,
    /// The file ends before its header does.
    UnableToReadFileHeader,
    /// The last entry of the file is incomplete.
    TruncatedEntry,
    /// A stored payload does not match the checksum stored with it.
    ChecksumMismatch { stored: u32, computed: u32 },
    /// A payload does not fit a frame, or the segment would outgrow the
    /// address space.
    EntryTooLarge,
    /// A file in the log's directory is not named after a segment identifier.
    InvalidSegmentFileName,
    /// No closed segment has the given identifier.
    UnknownSegment,
}

/// The error that reports a fault in the entry stream.
pub open spec fn fault_error(f: FrameFault) -> Error {
    match f {
        FrameFault::Truncated => Error::TruncatedEntry,
        FrameFault::ChecksumMismatch { stored, computed } => Error::ChecksumMismatch {
            stored,
            computed,
        },
    }
}

} // verus!
