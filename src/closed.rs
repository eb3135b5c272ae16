//! Metadata of segments that no longer accept writes.

use vstd::prelude::*;
use crate::segment_id::SegmentId;

verus! {

/// Metadata of a segment that no longer accepts writes but can be read for
/// replay: its identifier, file path, size in bytes and creation time.
#[derive(Debug)]
pub struct ClosedSegment {
    id: SegmentId,
    path: String,
    size: u64,
    created_at_nanos: u128,
}

/// The abstract value of a [`ClosedSegment`].
pub struct ClosedSegmentView {
    pub id: u128,
    pub path: Seq<char>,
    pub size: u64,
    pub created_at_nanos: u128,
}

impl View for ClosedSegment {
    type V = ClosedSegmentView;

    closed spec fn view(&self) -> ClosedSegmentView {
        ClosedSegmentView {
            id: self.id.0,
            path: self.path@,
            size: self.size,
            created_at_nanos: self.created_at_nanos,
        }
    }
}

impl ClosedSegment {
    /// Metadata of a closed segment; `created_at_nanos` counts nanoseconds
    /// since the Unix epoch.
    pub fn new(id: SegmentId, path: String, size: u64, created_at_nanos: u128) -> (r: ClosedSegment)
        ensures
            r@ == (ClosedSegmentView { id: id.0, path: path@, size, created_at_nanos }),
    {
        ClosedSegment { id, path, size, created_at_nanos }
    }

    /// The segment's identifier.
    pub fn id(&self) -> (r: SegmentId)
        ensures
            r.0 == self@.id,
    {
        self.id
    }

    /// The size of the segment's file in bytes.
    pub fn size(&self) -> (r: u64)
        ensures
            r == self@.size,
    {
        self.size
    }

    /// The path of the segment's file.
    pub fn path(&self) -> (r: &String)
        ensures
            r@ == self@.path,
    {
        &self.path
    }

    /// When the segment's file was created, in nanoseconds since the Unix
    /// epoch.
    pub fn created_at_nanos(&self) -> (r: u128)
        ensures
            r == self@.created_at_nanos,
    {
        self.created_at_nanos
    }

    /// A copy of this metadata.
    pub fn duplicate(&self) -> (r: ClosedSegment)
        ensures
            r@ == self@,
    {
        ClosedSegment {
            id: self.id,
            path: self.path.clone(),
            size: self.size,
            created_at_nanos: self.created_at_nanos,
        }
    }
}

} // verus!
