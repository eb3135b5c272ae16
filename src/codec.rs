//! The byte layout of a segment file: a fixed header followed by framed
//! entries (length, CRC-32 checksum, payload).

use vstd::prelude::*;

verus! {

/// Length of the magic value that opens every segment file.
pub const FILE_TYPE_IDENTIFIER_LEN: usize = 8;

/// Length of the segment identifier stored after the magic value.
pub const SEGMENT_ID_LEN: usize = 16;

/// Length of the whole file header.
pub const HEADER_LEN: usize = 24;

/// Length of the prefix (length and checksum) in front of every payload.
pub const FRAME_PREFIX_LEN: usize = 8;

/// The largest payload a frame can describe: its length is stored in 32 bits.
pub const MAX_PAYLOAD_LEN: usize = 0xffff_ffff;

/// The magic value `INFLUXV3` that identifies a segment file and its version.
pub open spec fn file_type_identifier() -> Seq<u8> {
    seq![73u8, 78u8, 70u8, 76u8, 85u8, 88u8, 86u8, 51u8]
}

/// CRC-32 of a byte sequence, as computed by the crc32fast crate.
pub uninterp spec fn crc32_of(data: Seq<u8>) -> u32;

/// Relies on crc32fast::hash: the CRC-32 checksum of the bytes, a function of
/// the bytes alone.
#[verifier::external_body]
pub(crate) fn checksum(data: &[u8]) -> (r: u32)
    ensures
        r == crc32_of(data@),
{
    crc32fast::hash(data)
}

/// Big-endian encoding of a 32-bit integer.
pub open spec fn be32(x: u32) -> Seq<u8> {
    seq![(x >> 24u32) as u8, (x >> 16u32) as u8, (x >> 8u32) as u8, x as u8]
}

/// The 32-bit big-endian integer stored at `at`.
pub open spec fn read_be32(s: Seq<u8>, at: int) -> u32 {
    ((s[at] as u32) << 24u32) | ((s[at + 1] as u32) << 16u32) | ((s[at + 2] as u32) << 8u32) | (
    s[at + 3] as u32)
}

/// Big-endian encoding of a 128-bit identifier.
pub open spec fn be128(x: u128) -> Seq<u8> {
    seq![
        (x >> 120u128) as u8, (x >> 112u128) as u8, (x >> 104u128) as u8, (x >> 96u128) as u8,
        (x >> 88u128) as u8, (x >> 80u128) as u8, (x >> 72u128) as u8, (x >> 64u128) as u8,
        (x >> 56u128) as u8, (x >> 48u128) as u8, (x >> 40u128) as u8, (x >> 32u128) as u8,
        (x >> 24u128) as u8, (x >> 16u128) as u8, (x >> 8u128) as u8, x as u8,
    ]
}

/// The header of the segment file with identifier `id`.
pub open spec fn segment_header(id: u128) -> Seq<u8> {
    file_type_identifier() + be128(id)
}

/// One framed entry: payload length, checksum of the payload, payload.
pub open spec fn frame(data: Seq<u8>) -> Seq<u8> {
    be32(data.len() as u32) + be32(crc32_of(data)) + data
}

/// The frames of a sequence of payloads, one after the other.
pub open spec fn frames(payloads: Seq<Seq<u8>>) -> Seq<u8>
    decreases payloads.len(),
{
    if payloads.len() == 0 {
        Seq::empty()
    } else {
        frame(payloads[0]) + frames(payloads.drop_first())
    }
}

/// Every payload fits the 32-bit length field of a frame.
pub open spec fn payloads_fit(payloads: Seq<Seq<u8>>) -> bool {
    forall|i: int| 0 <= i < payloads.len() ==> payloads[i].len() <= MAX_PAYLOAD_LEN
}

/// The file written for segment `id` after the payloads were appended in order.
pub open spec fn segment_image(id: u128, payloads: Seq<Seq<u8>>) -> Seq<u8> {
    segment_header(id) + frames(payloads)
}

/// What the entry stream finds at one position of a file.
pub enum FrameScan {
    /// The position is the end of the file.
    End,
    /// Fewer bytes remain than the frame at this position needs.
    Truncated,
    /// A whole frame, and the position just after it.
    Frame { checksum: u32, data: Seq<u8>, next: int },
}

/// The frame found at `pos` of `file`.
pub open spec fn scan_at(file: Seq<u8>, pos: int) -> FrameScan {
    if pos >= file.len() {
        FrameScan::End
    } else if file.len() - pos < FRAME_PREFIX_LEN {
        FrameScan::Truncated
    } else {
        let len = read_be32(file, pos) as int;
        if file.len() - pos - FRAME_PREFIX_LEN < len {
            FrameScan::Truncated
        } else {
            FrameScan::Frame {
                checksum: read_be32(file, pos + 4),
                data: file.subrange(pos + 8, pos + 8 + len),
                next: pos + 8 + len,
            }
        }
    }
}

/// Why reading the entry stream stopped short.
#[derive(PartialEq, Eq, Structural, Clone, Copy, Debug)]
pub enum FrameFault {
    /// The last frame of the file is incomplete.
    Truncated,
    /// A payload does not match the checksum stored with it.
    ChecksumMismatch { stored: u32, computed: u32 },
}

/// The checked entries (checksum, payload) from `pos` to the end of `file`.
pub open spec fn scan_entries(file: Seq<u8>, pos: int) -> Result<Seq<(u32, Seq<u8>)>, FrameFault>
    decreases file.len() - pos,
{
    match scan_at(file, pos) {
        FrameScan::End => Ok(Seq::empty()),
        FrameScan::Truncated => Err(FrameFault::Truncated),
        FrameScan::Frame { checksum, data, next } => {
            if crc32_of(data) != checksum {
                Err(FrameFault::ChecksumMismatch { stored: checksum, computed: crc32_of(data) })
            } else if next <= pos {
                Ok(Seq::empty())
            } else {
                match scan_entries(file, next) {
                    Ok(rest) => Ok(seq![(checksum, data)] + rest),
                    Err(e) => Err(e),
                }
            }
        }
    }
}

/// The entries that a list of payloads is expected to read back as.
pub open spec fn entries_of(payloads: Seq<Seq<u8>>) -> Seq<(u32, Seq<u8>)> {
    payloads.map_values(|p: Seq<u8>| (crc32_of(p), p))
}

proof fn lemma_be32_round_trip(x: u32)
    ensures
        be32(x).len() == 4,
        read_be32(be32(x), 0) == x,
{
    let s = be32(x);
    let b0 = (x >> 24u32) as u8;
    let b1 = (x >> 16u32) as u8;
    let b2 = (x >> 8u32) as u8;
    let b3 = x as u8;
    assert(s[0] == b0 && s[1] == b1 && s[2] == b2 && s[3] == b3);
    assert((((b0 as u32) << 24u32) | ((b1 as u32) << 16u32) | ((b2 as u32) << 8u32) | (b3 as u32))
        == x) by (bit_vector)
        requires
            b0 == (x >> 24u32) as u8,
            b1 == (x >> 16u32) as u8,
            b2 == (x >> 8u32) as u8,
            b3 == x as u8,
    ;
}

proof fn lemma_read_be32_shift(a: Seq<u8>, b: Seq<u8>, at: int)
    requires
        0 <= at,
        at + 4 <= b.len(),
    ensures
        read_be32(a + b, a.len() + at) == read_be32(b, at),
{
    assert((a + b)[a.len() + at] == b[at]);
    assert((a + b)[a.len() + at + 1] == b[at + 1]);
    assert((a + b)[a.len() + at + 2] == b[at + 2]);
    assert((a + b)[a.len() + at + 3] == b[at + 3]);
}

/// A frame followed by anything scans as that frame.
proof fn lemma_scan_frame(prefix: Seq<u8>, data: Seq<u8>, rest: Seq<u8>)
    requires
        data.len() <= MAX_PAYLOAD_LEN,
    ensures
        scan_at(prefix + frame(data) + rest, prefix.len() as int) == (FrameScan::Frame {
            checksum: crc32_of(data),
            data,
            next: (prefix.len() + frame(data).len()) as int,
        }),
        frame(data).len() == FRAME_PREFIX_LEN + data.len(),
{
    let f = prefix + frame(data) + rest;
    let p = prefix.len() as int;
    let l = be32(data.len() as u32);
    let c = be32(crc32_of(data));
    lemma_be32_round_trip(data.len() as u32);
    lemma_be32_round_trip(crc32_of(data));
    assert(frame(data) == l + c + data);
    assert(f == prefix + (l + (c + (data + rest))));
    lemma_read_be32_shift(prefix, l + (c + (data + rest)), 0);
    assert((l + (c + (data + rest))).subrange(0, 4) == l);
    assert(read_be32(l + (c + (data + rest)), 0) == read_be32(l, 0));
    assert(read_be32(f, p) == data.len());
    assert(f == (prefix + l) + (c + (data + rest)));
    lemma_read_be32_shift(prefix + l, c + (data + rest), 0);
    assert(read_be32(c + (data + rest), 0) == read_be32(c, 0));
    assert(read_be32(f, p + 4) == crc32_of(data));
    assert(f.subrange(p + 8, p + 8 + data.len()) == data);
}

/// Scanning a run of frames followed by anything reads the run's entries,
/// then goes on with what follows.
proof fn lemma_frames_scan(prefix: Seq<u8>, payloads: Seq<Seq<u8>>, rest: Seq<u8>)
    requires
        payloads_fit(payloads),
    ensures
        scan_entries(prefix + frames(payloads) + rest, prefix.len() as int) == match scan_entries(
            prefix + frames(payloads) + rest,
            (prefix.len() + frames(payloads).len()) as int,
        ) {
            Ok(tail) => Ok(entries_of(payloads) + tail),
            Err(e) => Err::<Seq<(u32, Seq<u8>)>, FrameFault>(e),
        },
    decreases payloads.len(),
{
    let f = prefix + frames(payloads) + rest;
    if payloads.len() == 0 {
        assert(frames(payloads) == Seq::<u8>::empty());
        assert(entries_of(payloads) =~= Seq::<(u32, Seq<u8>)>::empty());
        match scan_entries(f, prefix.len() as int) {
            Ok(tail) => {
                assert(entries_of(payloads) + tail =~= tail);
            },
            Err(e) => {},
        }
    } else {
        let d = payloads[0];
        let tl = payloads.drop_first();
        assert(payloads_fit(tl)) by {
            assert forall|i: int| 0 <= i < tl.len() implies tl[i].len() <= MAX_PAYLOAD_LEN by {
                assert(tl[i] == payloads[i + 1]);
            }
        }
        lemma_scan_frame(prefix, d, frames(tl) + rest);
        assert(f =~= prefix + frame(d) + (frames(tl) + rest));
        assert(f =~= (prefix + frame(d)) + frames(tl) + rest);
        lemma_frames_scan(prefix + frame(d), tl, rest);
        assert(entries_of(payloads) =~= seq![(crc32_of(d), d)] + entries_of(tl));
        match scan_entries(f, (prefix.len() + frames(payloads).len()) as int) {
            Ok(tail) => {
                assert(seq![(crc32_of(d), d)] + (entries_of(tl) + tail) =~= entries_of(payloads)
                    + tail);
            },
            Err(e) => {},
        }
    }
}

/// Reading back a segment file written with a sequence of payloads finds
/// the magic value and the segment's identifier in the header, then yields
/// those payloads, in order, each with the checksum computed when it was
/// written.
pub proof fn lemma_segment_round_trip(id: u128, payloads: Seq<Seq<u8>>)
    requires
        payloads_fit(payloads),
    ensures
        segment_image(id, payloads).len() >= HEADER_LEN,
        segment_image(id, payloads).subrange(0, FILE_TYPE_IDENTIFIER_LEN as int)
            == file_type_identifier(),
        segment_image(id, payloads).subrange(FILE_TYPE_IDENTIFIER_LEN as int, HEADER_LEN as int)
            == be128(id),
        forall|x: u128|
            #[trigger] be128(x) == segment_image(id, payloads).subrange(
                FILE_TYPE_IDENTIFIER_LEN as int,
                HEADER_LEN as int,
            ) ==> x == id,
        scan_entries(segment_image(id, payloads), HEADER_LEN as int) == Ok::<
            Seq<(u32, Seq<u8>)>,
            FrameFault,
        >(entries_of(payloads)),
{
    let h = segment_header(id);
    let img = segment_image(id, payloads);
    assert(h.len() == HEADER_LEN);
    assert(img.subrange(0, 8) =~= file_type_identifier());
    assert(img.subrange(8, 24) =~= be128(id));
    assert forall|x: u128| #[trigger] be128(x) == img.subrange(8, 24) implies x == id by {
        lemma_be128_injective(x, id);
    }
    assert(img =~= h + frames(payloads) + Seq::<u8>::empty());
    lemma_frames_scan(h, payloads, Seq::empty());
    assert(scan_at(img, img.len() as int) == FrameScan::End);
    assert(entries_of(payloads) + Seq::<(u32, Seq<u8>)>::empty() =~= entries_of(payloads));
}

/// Distinct identifiers have distinct encodings.
pub proof fn lemma_be128_injective(x: u128, y: u128)
    requires
        be128(x) == be128(y),
    ensures
        x == y,
{
    let a = be128(x);
    let b = be128(y);
    assert(a[0] == b[0] && a[1] == b[1] && a[2] == b[2] && a[3] == b[3]);
    assert(a[4] == b[4] && a[5] == b[5] && a[6] == b[6] && a[7] == b[7]);
    assert(a[8] == b[8] && a[9] == b[9] && a[10] == b[10] && a[11] == b[11]);
    assert(a[12] == b[12] && a[13] == b[13] && a[14] == b[14] && a[15] == b[15]);
    assert(x == y) by (bit_vector)
        requires
            (x >> 120u128) as u8 == (y >> 120u128) as u8,
            (x >> 112u128) as u8 == (y >> 112u128) as u8,
            (x >> 104u128) as u8 == (y >> 104u128) as u8,
            (x >> 96u128) as u8 == (y >> 96u128) as u8,
            (x >> 88u128) as u8 == (y >> 88u128) as u8,
            (x >> 80u128) as u8 == (y >> 80u128) as u8,
            (x >> 72u128) as u8 == (y >> 72u128) as u8,
            (x >> 64u128) as u8 == (y >> 64u128) as u8,
            (x >> 56u128) as u8 == (y >> 56u128) as u8,
            (x >> 48u128) as u8 == (y >> 48u128) as u8,
            (x >> 40u128) as u8 == (y >> 40u128) as u8,
            (x >> 32u128) as u8 == (y >> 32u128) as u8,
            (x >> 24u128) as u8 == (y >> 24u128) as u8,
            (x >> 16u128) as u8 == (y >> 16u128) as u8,
            (x >> 8u128) as u8 == (y >> 8u128) as u8,
            x as u8 == y as u8,
    ;
}

/// A frame whose stored payload was altered, keeping its length.
pub open spec fn corrupted_frame(data: Seq<u8>, altered: Seq<u8>) -> Seq<u8> {
    be32(data.len() as u32) + be32(crc32_of(data)) + altered
}

/// When a stored payload is altered so that its checksum no longer matches
/// the stored one, reading the segment reports the mismatch at that entry
/// instead of returning entries.
pub proof fn lemma_corruption_reported(
    id: u128,
    before: Seq<Seq<u8>>,
    data: Seq<u8>,
    altered: Seq<u8>,
    after: Seq<Seq<u8>>,
)
    requires
        payloads_fit(before),
        data.len() <= MAX_PAYLOAD_LEN,
        altered.len() == data.len(),
        crc32_of(altered) != crc32_of(data),
    ensures
        scan_entries(
            segment_header(id) + frames(before) + corrupted_frame(data, altered) + frames(after),
            HEADER_LEN as int,
        ) == Err::<Seq<(u32, Seq<u8>)>, FrameFault>(
            FrameFault::ChecksumMismatch { stored: crc32_of(data), computed: crc32_of(altered) },
        ),
{
    let h = segment_header(id);
    let rest = corrupted_frame(data, altered) + frames(after);
    let f = h + frames(before) + corrupted_frame(data, altered) + frames(after);
    assert(f =~= h + frames(before) + rest);
    assert(h.len() == HEADER_LEN);
    lemma_frames_scan(h, before, rest);
    let p = (h.len() + frames(before).len()) as int;
    let pre = h + frames(before);
    let l = be32(data.len() as u32);
    let c = be32(crc32_of(data));
    lemma_be32_round_trip(data.len() as u32);
    lemma_be32_round_trip(crc32_of(data));
    assert(f =~= pre + (l + (c + (altered + frames(after)))));
    lemma_read_be32_shift(pre, l + (c + (altered + frames(after))), 0);
    assert(read_be32(l + (c + (altered + frames(after))), 0) == read_be32(l, 0));
    assert(f =~= (pre + l) + (c + (altered + frames(after))));
    lemma_read_be32_shift(pre + l, c + (altered + frames(after)), 0);
    assert(read_be32(c + (altered + frames(after)), 0) == read_be32(c, 0));
    assert(f.subrange(p + 8, p + 8 + altered.len()) =~= altered);
    assert(scan_at(f, p) == FrameScan::Frame {
        checksum: crc32_of(data),
        data: altered,
        next: p + 8 + altered.len() as int,
    });
}

pub(crate) proof fn lemma_frames_push(payloads: Seq<Seq<u8>>, data: Seq<u8>)
    ensures
        frames(payloads.push(data)) == frames(payloads) + frame(data),
    decreases payloads.len(),
{
    if payloads.len() == 0 {
        let one = payloads.push(data);
        assert(one.drop_first() =~= Seq::<Seq<u8>>::empty());
        assert(one[0] == data);
        assert(frames(one.drop_first()) == Seq::<u8>::empty());
        assert(frames(one) =~= frame(data));
        assert(frames(payloads) == Seq::<u8>::empty());
    } else {
        let tail = payloads.drop_first();
        assert(payloads.push(data).drop_first() =~= tail.push(data));
        lemma_frames_push(tail, data);
        assert(frames(payloads.push(data)) =~= frame(payloads[0]) + (frames(tail) + frame(data)));
    }
}

/// Appends the big-endian encoding of `x`.
pub(crate) fn push_be32(out: &mut Vec<u8>, x: u32)
    ensures
        final(out)@ == old(out)@ + be32(x),
{
    out.push((x >> 24u32) as u8);
    out.push((x >> 16u32) as u8);
    out.push((x >> 8u32) as u8);
    out.push(x as u8);
    assert(final(out)@ =~= old(out)@ + be32(x));
}

/// The 32-bit big-endian integer stored at `at`.
pub(crate) fn get_be32(s: &[u8], at: usize) -> (r: u32)
    requires
        at + 4 <= s@.len(),
    ensures
        r == read_be32(s@, at as int),
{
    ((s[at] as u32) << 24u32) | ((s[at + 1] as u32) << 16u32) | ((s[at + 2] as u32) << 8u32) | (
    s[at + 3] as u32)
}

/// The bytes of `s` from `from` up to `to`.
pub(crate) fn copy_range(s: &[u8], from: usize, to: usize) -> (r: Vec<u8>)
    requires
        from <= to <= s@.len(),
    ensures
        r@ == s@.subrange(from as int, to as int),
{
    let mut out: Vec<u8> = Vec::new();
    let mut i: usize = from;
    while i < to
        invariant
            from <= i <= to <= s@.len(),
            out@ == s@.subrange(from as int, i as int),
        decreases to - i,
    {
        out.push(s[i]);
        i = i + 1;
    }
    out
}

/// Appends all of `data` to `out`.
pub(crate) fn extend_from(out: &mut Vec<u8>, data: &[u8])
    ensures
        final(out)@ == old(out)@ + data@,
{
    let mut i: usize = 0;
    while i < data.len()
        invariant
            i <= data@.len(),
            out@ == old(out)@ + data@.subrange(0, i as int),
        decreases data@.len() - i,
    {
        out.push(data[i]);
        i = i + 1;
    }
    assert(data@.subrange(0, data@.len() as int) =~= data@);
}

/// The magic value that opens every segment file.
pub fn file_type_identifier_bytes() -> (r: Vec<u8>)
    ensures
        r@ == file_type_identifier(),
{
    let r: Vec<u8> = vec![73u8, 78u8, 70u8, 76u8, 85u8, 88u8, 86u8, 51u8];
    assert(r@ =~= file_type_identifier());
    r
}

/// The frame that stores `data`: its length, its checksum, then the bytes.
pub fn encode_frame(data: &[u8]) -> (r: Vec<u8>)
    requires
        data@.len() <= MAX_PAYLOAD_LEN,
    ensures
        r@ == frame(data@),
{
    let mut out: Vec<u8> = Vec::new();
    push_be32(&mut out, data.len() as u32);
    push_be32(&mut out, checksum(data));
    extend_from(&mut out, data);
    assert(out@ =~= frame(data@));
    out
}

} // verus!
