//! The log's list of closed segments: rebuilt from the directory at
//! startup, extended at each rotation, shrunk when a segment is deleted.

use vstd::prelude::*;
use crate::closed::{ClosedSegment, ClosedSegmentView};
use crate::error::Error;
use crate::segment_id::{segment_file_extension, segment_file_name, segment_id_from_file_name, SegmentId};

verus! {

/// The views of a list of closed segments.
pub open spec fn closed_views(s: Seq<ClosedSegment>) -> Seq<ClosedSegmentView> {
    s.map_values(|c: ClosedSegment| c@)
}

/// Closed segments in the order they became known.
pub struct ClosedSegments {
    segments: Vec<ClosedSegment>,
}

impl View for ClosedSegments {
    type V = Seq<ClosedSegmentView>;

    closed spec fn view(&self) -> Seq<ClosedSegmentView> {
        closed_views(self.segments@)
    }
}

/// Metadata of the closed segment stored in a file found in the log's
/// directory, or `InvalidSegmentFileName` when the file is not named after a
/// segment identifier.
pub fn closed_segment_from_file(
    file_name: &[u8],
    path: String,
    size: u64,
    created_at_nanos: u128,
) -> (r: Result<ClosedSegment, Error>)
    ensures
        file_name@.len() < 4 || file_name@.subrange(file_name@.len() - 4, file_name@.len() as int)
            != segment_file_extension() ==> r == Err::<ClosedSegment, Error>(
            Error::InvalidSegmentFileName,
        ),
        forall|x: u128| #[trigger]
            segment_file_name(x) == file_name@ ==> (r matches Ok(c) && c@ == (ClosedSegmentView {
                id: x,
                path: path@,
                size,
                created_at_nanos,
            })),
        r is Err ==> r == Err::<ClosedSegment, Error>(Error::InvalidSegmentFileName),
        r matches Ok(c) ==> c@.path == path@ && c@.size == size && c@.created_at_nanos
            == created_at_nanos,
{
    match segment_id_from_file_name(file_name) {
        Some(id) => Ok(ClosedSegment::new(id, path, size, created_at_nanos)),
        None => Err(Error::InvalidSegmentFileName),
    }
}

impl ClosedSegments {
    /// No closed segments.
    pub fn new() -> (r: ClosedSegments)
        ensures
            r@ == Seq::<ClosedSegmentView>::empty(),
    {
        let r = ClosedSegments { segments: Vec::new() };
        assert(r@ =~= Seq::<ClosedSegmentView>::empty());
        r
    }

    /// Records a segment that was just closed, after all known ones.
    pub fn push(&mut self, segment: ClosedSegment)
        ensures
            final(self)@ == old(self)@.push(segment@),
    {
        let ghost prev = self.segments@;
        self.segments.push(segment);
        assert(closed_views(self.segments@) =~= closed_views(prev).push(segment@));
    }

    /// The closed segments, in the order they became known.
    pub fn as_slice(&self) -> (r: &[ClosedSegment])
        ensures
            closed_views(r@) == self@,
    {
        self.segments.as_slice()
    }

    /// The number of closed segments.
    pub fn len(&self) -> (r: usize)
        ensures
            r == self@.len(),
    {
        self.segments.len()
    }

    /// The position of the first closed segment with identifier `id`.
    pub fn position(&self, id: SegmentId) -> (r: Option<usize>)
        ensures
            r matches Some(i) ==> i < self@.len() && self@[i as int].id == id.0 && forall|j: int|
                0 <= j < i ==> self@[j].id != id.0,
            r is None ==> forall|j: int| 0 <= j < self@.len() ==> self@[j].id != id.0,
    {
        let mut i: usize = 0;
        while i < self.segments.len()
            invariant
                i <= self.segments@.len(),
                self@ == closed_views(self.segments@),
                forall|j: int| 0 <= j < i ==> self@[j].id != id.0,
            decreases self.segments@.len() - i,
        {
            if self.segments[i].id() == id {
                return Some(i);
            }
            i = i + 1;
        }
        None
    }

    /// Forgets the first closed segment with identifier `id` and returns it,
    /// or fails with `UnknownSegment`, changing nothing.
    pub fn remove(&mut self, id: SegmentId) -> (r: Result<ClosedSegment, Error>)
        ensures
            (forall|j: int| 0 <= j < old(self)@.len() ==> old(self)@[j].id != id.0) <==> r
                is Err,
            r is Err ==> r == Err::<ClosedSegment, Error>(Error::UnknownSegment) && final(self)@
                == old(self)@,
            r matches Ok(c) ==> exists|i: int|
                0 <= i < old(self)@.len() && old(self)@[i] == c@ && c@.id == id.0 && (forall|j: int|
                    0 <= j < i ==> old(self)@[j].id != id.0) && final(self)@ == old(self)@.remove(i),
    {
        match self.position(id) {
            None => Err(Error::UnknownSegment),
            Some(i) => {
                let ghost prev = self.segments@;
                let c = self.segments.remove(i);
                assert(closed_views(self.segments@) =~= closed_views(prev).remove(i as int));
                Ok(c)
            },
        }
    }
}

} // verus!
