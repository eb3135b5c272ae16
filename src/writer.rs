//! The open segment: the decisions of the single writer of a segment file.
//! The caller owns the file, appends the bytes each step hands back, and
//! syncs before it reports the write as done.

use vstd::prelude::*;
use crate::closed::{ClosedSegment, ClosedSegmentView};
use crate::codec::{
    be128, checksum, crc32_of, encode_frame, entries_of, extend_from, file_type_identifier,
    file_type_identifier_bytes, frame, frames, lemma_frames_push, lemma_segment_round_trip,
    payloads_fit, scan_entries, segment_header, segment_image, FrameFault, FILE_TYPE_IDENTIFIER_LEN,
    FRAME_PREFIX_LEN, HEADER_LEN, MAX_PAYLOAD_LEN,
};
use crate::error::Error;
use crate::segment_id::SegmentId;

verus! {

/// Summary of one write to a segment.
#[derive(Clone, Copy, PartialEq, Eq, Structural, Debug)]
pub struct WriteSummary {
    /// Total size of the segment in bytes after the write.
    pub total_bytes: usize,
    /// Number of bytes this write appended.
    pub bytes_written: usize,
    /// Checksum of the payload written.
    pub checksum: u32,
}

/// The state of the open segment's writer.
pub struct SegmentFileWriter {
    id: SegmentId,
    size: usize,
    payloads: Ghost<Seq<Seq<u8>>>,
}

/// The abstract value of a [`SegmentFileWriter`]: the segment's identifier,
/// the payloads written so far, and the size of the file.
pub struct WriterView {
    pub id: u128,
    pub payloads: Seq<Seq<u8>>,
    pub size: nat,
}

impl View for SegmentFileWriter {
    type V = WriterView;

    closed spec fn view(&self) -> WriterView {
        WriterView { id: self.id.0, payloads: self.payloads@, size: self.size as nat }
    }
}

impl SegmentFileWriter {
    /// The file holds the header and one frame per payload written, and its
    /// size is the length of those bytes.
    pub open spec fn wf(&self) -> bool {
        &&& payloads_fit(self@.payloads)
        &&& self@.size == segment_image(self@.id, self@.payloads).len()
    }

    /// The bytes of the file this writer has produced.
    pub open spec fn image(&self) -> Seq<u8> {
        segment_image(self@.id, self@.payloads)
    }

    /// A writer for a fresh segment `id`, and the header to write first.
    pub fn new(id: SegmentId) -> (r: (SegmentFileWriter, Vec<u8>))
        ensures
            r.0.wf(),
            r.0@.id == id.0,
            r.0@.payloads == Seq::<Seq<u8>>::empty(),
            r.1@ == segment_header(id.0),
            r.0.image() == r.1@,
    {
        let mut header = file_type_identifier_bytes();
        let id_bytes = id.as_bytes();
        extend_from(&mut header, id_bytes.as_slice());
        let w = SegmentFileWriter { id, size: header.len(), payloads: Ghost(Seq::empty()) };
        assert(frames(Seq::<Seq<u8>>::empty()) == Seq::<u8>::empty());
        assert(w.image() =~= header@);
        (w, header)
    }

    /// The segment's identifier.
    pub fn id(&self) -> (r: SegmentId)
        ensures
            r.0 == self@.id,
    {
        self.id
    }

    /// Appends one entry holding `data`. Hands back the frame to append to
    /// the file and the summary of the write. Fails, changing nothing, when
    /// `data` is longer than a frame can describe or the segment would
    /// outgrow the address space.
    pub fn write(&mut self, data: &[u8]) -> (r: Result<(Vec<u8>, WriteSummary), Error>)
        requires
            old(self).wf(),
        ensures
            final(self).wf(),
            final(self)@.id == old(self)@.id,
            r is Err <==> data@.len() > MAX_PAYLOAD_LEN || old(self)@.size + FRAME_PREFIX_LEN
                + data@.len() > usize::MAX,
            r is Err ==> r == Err::<(Vec<u8>, WriteSummary), Error>(Error::EntryTooLarge)
                && final(self)@ == old(self)@,
            r matches Ok((bytes, summary)) ==> {
                &&& bytes@ == frame(data@)
                &&& final(self)@.payloads == old(self)@.payloads.push(data@)
                &&& final(self).image() == old(self).image() + bytes@
                &&& summary.total_bytes == final(self)@.size
                &&& summary.bytes_written == bytes@.len()
                &&& summary.checksum == crc32_of(data@)
            },
    {
        if data.len() > MAX_PAYLOAD_LEN || FRAME_PREFIX_LEN > usize::MAX - self.size
            || data.len() > usize::MAX - self.size - FRAME_PREFIX_LEN {
            return Err(Error::EntryTooLarge);
        }
        let bytes = encode_frame(data);
        let sum = checksum(data);
        proof {
            lemma_frames_push(self.payloads@, data@);
            assert(segment_image(self.id.0, self.payloads@.push(data@)) =~= segment_image(
                self.id.0,
                self.payloads@,
            ) + frame(data@));
            assert forall|i: int| 0 <= i < self.payloads@.push(data@).len() implies (
            #[trigger] self.payloads@.push(data@)[i]).len() <= MAX_PAYLOAD_LEN by {
                if i < self.payloads@.len() {
                    assert(self.payloads@.push(data@)[i] == self.payloads@[i]);
                }
            }
        }
        self.size = self.size + bytes.len();
        self.payloads = Ghost(self.payloads@.push(data@));
        let summary = WriteSummary {
            total_bytes: self.size,
            bytes_written: bytes.len(),
            checksum: sum,
        };
        Ok((bytes, summary))
    }

    /// Stops writing to the segment and describes it as closed, with the
    /// path and creation time of its file.
    pub fn close(self, path: String, created_at_nanos: u128) -> (r: ClosedSegment)
        requires
            self.wf(),
        ensures
            r@ == (ClosedSegmentView {
                id: self@.id,
                path: path@,
                size: self@.size as u64,
                created_at_nanos,
            }),
    {
        ClosedSegment::new(self.id, path, self.size as u64, created_at_nanos)
    }
}

/// Whatever a writer has written reads back: the file carries the magic
/// value and the writer's identifier, and its entries are the payloads
/// written, in order, each with the checksum its write reported.
pub proof fn lemma_written_segment_reads_back(w: &SegmentFileWriter)
    requires
        w.wf(),
    ensures
        w.image().len() >= HEADER_LEN,
        w.image().subrange(0, FILE_TYPE_IDENTIFIER_LEN as int) == file_type_identifier(),
        forall|x: u128|
            #[trigger] be128(x) == w.image().subrange(
                FILE_TYPE_IDENTIFIER_LEN as int,
                HEADER_LEN as int,
            ) ==> x == w@.id,
        scan_entries(w.image(), HEADER_LEN as int) == Ok::<Seq<(u32, Seq<u8>)>, FrameFault>(
            entries_of(w@.payloads),
        ),
{
    lemma_segment_round_trip(w@.id, w@.payloads);
}

} // verus!
