use wal::codec::encode_frame;
use wal::error::Error;
use wal::reader::{SegmentEntry, SegmentFileReader};
use wal::segment_id::SegmentId;
use wal::writer::SegmentFileWriter;

/// Writes each payload to a fresh segment and returns the file's bytes and
/// the summaries' checksums.
fn write_segment(id: SegmentId, payloads: &[&[u8]]) -> (Vec<u8>, Vec<u32>) {
    let (mut writer, header) = SegmentFileWriter::new(id);
    let mut file = header;
    let mut sums = Vec::new();
    for p in payloads {
        let (bytes, summary) = writer.write(p).unwrap();
        file.extend_from_slice(&bytes);
        assert_eq!(summary.total_bytes, file.len());
        sums.push(summary.checksum);
    }
    (file, sums)
}

#[test]
fn segment_file_write_and_read_entries() {
    let id = SegmentId::new();
    let (mut writer, header) = SegmentFileWriter::new(id);
    let mut file = header;

    let data = b"whatevs";
    let (bytes, write_summary) = writer.write(data).unwrap();
    file.extend_from_slice(&bytes);

    let data2 = b"another";
    let (bytes, summary2) = writer.write(data2).unwrap();
    file.extend_from_slice(&bytes);

    let closed = writer.close("segment.dat".to_string(), 0);
    assert_eq!(closed.id(), id);
    assert_eq!(closed.size(), file.len() as u64);

    let mut reader = SegmentFileReader::from_bytes(file).unwrap();
    assert_eq!(reader.id(), id);
    let entries = reader.entries().unwrap();
    assert_eq!(
        &entries,
        &[
            SegmentEntry {
                checksum: write_summary.checksum,
                data: data.to_vec(),
            },
            SegmentEntry {
                checksum: summary2.checksum,
                data: data2.to_vec()
            },
        ]
    );
}

#[test]
fn segment_file_write_and_read_ops() {
    let ops: Vec<(u64, String)> = vec![
        (0, "m1,t=foo v=1i 1".to_string()),
        (1, "m1,t=foo v=2i 2".to_string()),
    ];
    let encoded = serde_json::to_vec(&ops).unwrap();
    let (file, _) = write_segment(SegmentId::new(), &[&encoded]);

    let mut reader = SegmentFileReader::from_bytes(file).unwrap();
    let entry = reader.next_entry().unwrap().unwrap();
    let read_ops: Vec<(u64, String)> = serde_json::from_slice(&entry.data).unwrap();
    assert_eq!(ops, read_ops);
    assert_eq!(reader.next_entry(), Ok(None));
}

#[test]
fn write_summary_counts_bytes() {
    let (mut writer, header) = SegmentFileWriter::new(SegmentId(7));
    assert_eq!(header.len(), 24);
    let (bytes, summary) = writer.write(b"whatevs").unwrap();
    assert_eq!(bytes.len(), 15);
    assert_eq!(summary.bytes_written, 15);
    assert_eq!(summary.total_bytes, 39);
    assert_eq!(summary.checksum, crc32fast::hash(b"whatevs"));
    let (_, summary) = writer.write(b"").unwrap();
    assert_eq!(summary.bytes_written, 8);
    assert_eq!(summary.total_bytes, 47);
}

#[test]
fn frame_layout_is_length_checksum_payload() {
    let frame = encode_frame(b"123456789");
    assert_eq!(
        frame,
        vec![0, 0, 0, 9, 0xcb, 0xf4, 0x39, 0x26, b'1', b'2', b'3', b'4', b'5', b'6', b'7', b'8', b'9']
    );
}

#[test]
fn header_holds_magic_and_id() {
    let (_, header) = SegmentFileWriter::new(SegmentId(0x0102030405060708090a0b0c0d0e0f10));
    let mut expected = b"INFLUXV3".to_vec();
    expected.extend_from_slice(&[1, 2, 3, 4, 5, 6, 7, 8, 9, 10, 11, 12, 13, 14, 15, 16]);
    assert_eq!(header, expected);
}

#[test]
fn round_trip_many_payloads() {
    let payloads: Vec<Vec<u8>> = (0..20u8).map(|i| vec![i; i as usize * 3]).collect();
    let refs: Vec<&[u8]> = payloads.iter().map(|p| p.as_slice()).collect();
    let id = SegmentId(42);
    let (file, sums) = write_segment(id, &refs);
    let mut reader = SegmentFileReader::from_bytes(file).unwrap();
    assert_eq!(reader.id(), id);
    let entries = reader.entries().unwrap();
    assert_eq!(entries.len(), payloads.len());
    for (i, e) in entries.iter().enumerate() {
        assert_eq!(e.data, payloads[i]);
        assert_eq!(e.checksum, sums[i]);
    }
}

#[test]
fn wrong_magic_is_identifier_mismatch() {
    let (mut file, _) = write_segment(SegmentId(1), &[b"abc"]);
    file[0] = b'X';
    assert_eq!(
        SegmentFileReader::from_bytes(file).err(),
        Some(Error::SegmentFileIdentifierMismatch)
    );
    let mut other = b"NOTAWAL!".to_vec();
    other.extend_from_slice(&[0u8; 16]);
    assert_eq!(
        SegmentFileReader::from_bytes(other).err(),
        Some(Error::SegmentFileIdentifierMismatch)
    );
}

#[test]
fn short_file_cannot_hold_header() {
    assert_eq!(
        SegmentFileReader::from_bytes(b"INFL".to_vec()).err(),
        Some(Error::UnableToReadFileHeader)
    );
    assert_eq!(
        SegmentFileReader::from_bytes(b"INFLUXV3abcd".to_vec()).err(),
        Some(Error::UnableToReadFileHeader)
    );
    assert_eq!(
        SegmentFileReader::from_bytes(Vec::new()).err(),
        Some(Error::UnableToReadFileHeader)
    );
}

#[test]
fn flipped_bit_is_reported() {
    let (file, sums) = write_segment(SegmentId(3), &[b"whatevs", b"another"]);
    for bit in 0..8 {
        let mut bad = file.clone();
        // first byte of the second payload: 24 + 15 + 8
        bad[47] ^= 1 << bit;
        let mut reader = SegmentFileReader::from_bytes(bad.clone()).unwrap();
        assert!(reader.next_entry().unwrap().is_some());
        match reader.next_entry() {
            Err(Error::ChecksumMismatch { stored, computed }) => {
                assert_eq!(stored, sums[1]);
                assert_ne!(computed, stored);
            }
            other => panic!("unexpected {:?}", other),
        }
        let mut reader = SegmentFileReader::from_bytes(bad).unwrap();
        assert!(matches!(reader.entries(), Err(Error::ChecksumMismatch { .. })));
    }
}

#[test]
fn exhausted_reader_stays_exhausted() {
    let (file, _) = write_segment(SegmentId(4), &[b"one"]);
    let mut reader = SegmentFileReader::from_bytes(file).unwrap();
    assert!(reader.next_entry().unwrap().is_some());
    for _ in 0..3 {
        assert_eq!(reader.next_entry(), Ok(None));
    }
    assert_eq!(reader.entries(), Ok(Vec::new()));
}

#[test]
fn truncated_last_entry_ends_stream() {
    let (mut file, _) = write_segment(SegmentId(5), &[b"one", b"two"]);
    file.pop();
    let mut reader = SegmentFileReader::from_bytes(file).unwrap();
    assert_eq!(reader.next_entry().unwrap().unwrap().data, b"one".to_vec());
    assert_eq!(reader.next_entry(), Err(Error::TruncatedEntry));
    assert_eq!(reader.next_entry(), Ok(None));
}

#[test]
fn truncated_prefix_is_reported_by_entries() {
    let (mut file, _) = write_segment(SegmentId(6), &[b"one"]);
    file.extend_from_slice(&[0, 0, 0]);
    let mut reader = SegmentFileReader::from_bytes(file).unwrap();
    assert_eq!(reader.entries(), Err(Error::TruncatedEntry));
}

#[test]
fn empty_segment_has_no_entries() {
    let (file, _) = write_segment(SegmentId(8), &[]);
    let mut reader = SegmentFileReader::from_bytes(file).unwrap();
    assert_eq!(reader.entries(), Ok(Vec::new()));
    assert_eq!(reader.next_entry(), Ok(None));
}
