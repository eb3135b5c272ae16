//! Replay of one segment file: header validation, then a forward-only
//! cursor over its framed entries.

use vstd::prelude::*;
use crate::codec::{
    be128, checksum, copy_range, crc32_of, file_type_identifier, get_be32, scan_at,
    scan_entries, FrameFault, FrameScan, FILE_TYPE_IDENTIFIER_LEN, FRAME_PREFIX_LEN, HEADER_LEN,
};
use crate::error::{fault_error, Error};
use crate::segment_id::SegmentId;

verus! {

/// Raw, uncompressed data of one segment entry, with its checksum.
#[derive(Debug, PartialEq, Eq)]
pub struct SegmentEntry {
    /// The CRC-32 checksum of the data.
    pub checksum: u32,
    /// The data.
    pub data: Vec<u8>,
}

impl View for SegmentEntry {
    type V = (u32, Seq<u8>);

    open spec fn view(&self) -> (u32, Seq<u8>) {
        (self.checksum, self.data@)
    }
}

/// A cursor over the entries of one segment file whose header was checked.
pub struct SegmentFileReader {
    id: SegmentId,
    file: Vec<u8>,
    pos: usize,
    exhausted: bool,
}

/// The abstract value of a [`SegmentFileReader`]: the segment's identifier,
/// the file's bytes, the position of the next entry, and whether the stream
/// has ended.
pub struct ReaderView {
    pub id: u128,
    pub file: Seq<u8>,
    pub pos: int,
    pub exhausted: bool,
}

impl View for SegmentFileReader {
    type V = ReaderView;

    closed spec fn view(&self) -> ReaderView {
        ReaderView {
            id: self.id.0,
            file: self.file@,
            pos: self.pos as int,
            exhausted: self.exhausted,
        }
    }
}

/// The file starts with the segment file magic value.
pub open spec fn has_magic(file: Seq<u8>) -> bool {
    file.len() >= FILE_TYPE_IDENTIFIER_LEN && file.subrange(0, FILE_TYPE_IDENTIFIER_LEN as int)
        == file_type_identifier()
}

/// The views of a list of entries.
pub open spec fn entry_views(es: Seq<SegmentEntry>) -> Seq<(u32, Seq<u8>)> {
    es.map_values(|e: SegmentEntry| e@)
}

impl SegmentFileReader {
    pub open spec fn wf(&self) -> bool {
        HEADER_LEN <= self@.pos <= self@.file.len()
    }

    /// Opens the bytes of a segment file: checks the magic value and reads
    /// the segment identifier that follows it. Reads nothing beyond the
    /// magic value when it does not match.
    pub fn from_bytes(file: Vec<u8>) -> (r: Result<SegmentFileReader, Error>)
        ensures
            r == Err::<SegmentFileReader, Error>(Error::SegmentFileIdentifierMismatch) <==> (
            file@.len() >= FILE_TYPE_IDENTIFIER_LEN && !has_magic(file@)),
            r == Err::<SegmentFileReader, Error>(Error::UnableToReadFileHeader) <==> (file@.len()
                < FILE_TYPE_IDENTIFIER_LEN || (has_magic(file@) && file@.len() < HEADER_LEN)),
            r is Ok <==> has_magic(file@) && file@.len() >= HEADER_LEN,
            r matches Ok(rd) ==> {
                &&& rd.wf()
                &&& rd@.file == file@
                &&& rd@.pos == HEADER_LEN
                &&& !rd@.exhausted
                &&& be128(rd@.id) == file@.subrange(
                    FILE_TYPE_IDENTIFIER_LEN as int,
                    HEADER_LEN as int,
                )
            },
    {
        if file.len() < FILE_TYPE_IDENTIFIER_LEN {
            return Err(Error::UnableToReadFileHeader);
        }
        let magic = crate::codec::file_type_identifier_bytes();
        let mut i: usize = 0;
        while i < FILE_TYPE_IDENTIFIER_LEN
            invariant
                i <= FILE_TYPE_IDENTIFIER_LEN <= file@.len(),
                magic@ == file_type_identifier(),
                forall|j: int| 0 <= j < i ==> file@[j] == magic@[j],
            decreases FILE_TYPE_IDENTIFIER_LEN - i,
        {
            if file[i] != magic[i] {
                assert(file@.subrange(0, FILE_TYPE_IDENTIFIER_LEN as int)[i as int] != magic@[i as int]);
                return Err(Error::SegmentFileIdentifierMismatch);
            }
            i = i + 1;
        }
        assert(file@.subrange(0, FILE_TYPE_IDENTIFIER_LEN as int) =~= file_type_identifier());
        if file.len() < HEADER_LEN {
            return Err(Error::UnableToReadFileHeader);
        }
        let id_bytes = copy_range(file.as_slice(), FILE_TYPE_IDENTIFIER_LEN, HEADER_LEN);
        let id = match SegmentId::from_slice(id_bytes.as_slice()) {
            Some(id) => id,
            None => {
                return Err(Error::UnableToReadFileHeader);
            },
        };
        Ok(SegmentFileReader { id, file, pos: HEADER_LEN, exhausted: false })
    }

    /// The identifier stored in the segment's header.
    pub fn id(&self) -> (r: SegmentId)
        ensures
            r.0 == self@.id,
    {
        self.id
    }

    /// The next entry of the stream. At the end of the file, and at every
    /// pull after the stream has ended, it is `Ok(None)`. An incomplete last
    /// entry ends the stream with `TruncatedEntry`; an entry whose payload
    /// does not match its checksum is reported with `ChecksumMismatch` and
    /// skipped.
    pub fn next_entry(&mut self) -> (r: Result<Option<SegmentEntry>, Error>)
        requires
            old(self).wf(),
        ensures
            final(self).wf(),
            final(self)@.id == old(self)@.id,
            final(self)@.file == old(self)@.file,
            old(self)@.exhausted ==> r == Ok::<Option<SegmentEntry>, Error>(None) && final(self)@
                == old(self)@,
            !old(self)@.exhausted ==> match scan_at(old(self)@.file, old(self)@.pos) {
                FrameScan::End => r == Ok::<Option<SegmentEntry>, Error>(None)
                    && final(self)@.exhausted,
                FrameScan::Truncated => r == Err::<Option<SegmentEntry>, Error>(
                    Error::TruncatedEntry,
                ) && final(self)@.exhausted,
                FrameScan::Frame { checksum, data, next } => {
                    &&& final(self)@.pos == next
                    &&& !final(self)@.exhausted
                    &&& crc32_of(data) == checksum ==> (r matches Ok(Some(e)) && e@ == (
                        checksum,
                        data,
                    ))
                    &&& crc32_of(data) != checksum ==> r == Err::<Option<SegmentEntry>, Error>(
                        Error::ChecksumMismatch { stored: checksum, computed: crc32_of(data) },
                    )
                },
            },
    {
        if self.exhausted {
            return Ok(None);
        }
        let n = self.file.len();
        let pos = self.pos;
        if pos >= n {
            self.exhausted = true;
            return Ok(None);
        }
        if n - pos < FRAME_PREFIX_LEN {
            self.exhausted = true;
            return Err(Error::TruncatedEntry);
        }
        let len = get_be32(self.file.as_slice(), pos) as usize;
        if n - pos - FRAME_PREFIX_LEN < len {
            self.exhausted = true;
            return Err(Error::TruncatedEntry);
        }
        let stored = get_be32(self.file.as_slice(), pos + 4);
        let data = copy_range(self.file.as_slice(), pos + 8, pos + 8 + len);
        let computed = checksum(data.as_slice());
        self.pos = pos + 8 + len;
        if computed != stored {
            Err(Error::ChecksumMismatch { stored, computed })
        } else {
            Ok(Some(SegmentEntry { checksum: stored, data }))
        }
    }

    /// All remaining entries, in file order, after which the stream has
    /// ended. Stops at the first fault and reports it.
    pub fn entries(&mut self) -> (r: Result<Vec<SegmentEntry>, Error>)
        requires
            old(self).wf(),
        ensures
            final(self).wf(),
            final(self)@.id == old(self)@.id,
            final(self)@.file == old(self)@.file,
            old(self)@.exhausted ==> (r matches Ok(es) && es@.len() == 0),
            !old(self)@.exhausted ==> match scan_entries(old(self)@.file, old(self)@.pos) {
                Ok(expected) => (r matches Ok(es) && entry_views(es@) == expected),
                Err(fault) => r == Err::<Vec<SegmentEntry>, Error>(fault_error(fault)),
            },
            r is Ok ==> final(self)@.exhausted,
    {
        let mut out: Vec<SegmentEntry> = Vec::new();
        if self.exhausted {
            return Ok(out);
        }
        let ghost file = self@.file;
        let ghost start = self@.pos;
        loop
            invariant
                self.wf(),
                self@.id == old(self)@.id,
                self@.file == file,
                file == old(self)@.file,
                start == old(self)@.pos,
                !old(self)@.exhausted,
                !self@.exhausted,
                scan_entries(file, start) == match scan_entries(file, self@.pos) {
                    Ok(rest) => Ok(entry_views(out@) + rest),
                    Err(e) => Err::<Seq<(u32, Seq<u8>)>, FrameFault>(e),
                },
            decreases file.len() - self@.pos,
        {
            let ghost pos = self@.pos;
            let ghost before = out@;
            match self.next_entry() {
                Ok(None) => {
                    assert(scan_entries(file, pos) == Ok::<Seq<(u32, Seq<u8>)>, FrameFault>(
                        Seq::empty(),
                    ));
                    assert(entry_views(out@) + Seq::<(u32, Seq<u8>)>::empty() =~= entry_views(
                        out@,
                    ));
                    return Ok(out);
                },
                Err(e) => {
                    return Err(e);
                },
                Ok(Some(entry)) => {
                    proof {
                        if let FrameScan::Frame { checksum, data, next } = scan_at(file, pos) {
                            assert(next > pos);
                        }
                    }
                    out.push(entry);
                    assert(entry_views(out@) =~= entry_views(before).push(entry@));
                    assert(entry_views(out@) =~= entry_views(before) + seq![entry@]);
                    proof {
                        let np = self@.pos;
                        match scan_entries(file, np) {
                            Ok(rest) => {
                                assert(scan_entries(file, pos) == Ok::<
                                    Seq<(u32, Seq<u8>)>,
                                    FrameFault,
                                >(seq![entry@] + rest));
                                assert(entry_views(before) + (seq![entry@] + rest) =~= entry_views(
                                    out@,
                                ) + rest);
                            },
                            Err(e) => {
                                assert(scan_entries(file, pos) == Err::<
                                    Seq<(u32, Seq<u8>)>,
                                    FrameFault,
                                >(e));
                            },
                        }
                    }
                },
            }
        }
    }
}

} // verus!
