use wal::catalog::{closed_segment_from_file, ClosedSegments};
use wal::closed::ClosedSegment;
use wal::error::Error;
use wal::segment_id::{segment_id_from_file_name, SegmentId};

#[test]
fn new_ids_are_version_four() {
    let a = SegmentId::new();
    let b = SegmentId::new();
    assert_ne!(a, b);
    assert_eq!((a.get() >> 76) & 0xf, 4);
    assert_eq!((a.get() >> 62) & 3, 2);
}

#[test]
fn id_bytes_are_big_endian() {
    let id = SegmentId::from(0x67e5504410b1426f9247bb680e5fe0c8u128);
    assert_eq!(
        id.as_bytes(),
        vec![0x67, 0xe5, 0x50, 0x44, 0x10, 0xb1, 0x42, 0x6f, 0x92, 0x47, 0xbb, 0x68, 0x0e, 0x5f, 0xe0, 0xc8]
    );
    assert_eq!(SegmentId::from_slice(&id.as_bytes()), Some(id));
    assert_eq!(SegmentId::from_slice(&[1, 2, 3]), None);
}

#[test]
fn file_name_is_hyphenated_id_with_extension() {
    let id = SegmentId(0x67e5504410b1426f9247bb680e5fe0c8);
    assert_eq!(id.file_name(), b"67e55044-10b1-426f-9247-bb680e5fe0c8.dat".to_vec());
    assert_eq!(segment_id_from_file_name(&id.file_name()), Some(id));
}

#[test]
fn file_names_that_are_not_segments() {
    assert_eq!(segment_id_from_file_name(b"67e55044-10b1-426f-9247-bb680e5fe0c8"), None);
    assert_eq!(segment_id_from_file_name(b"notes.dat"), None);
    assert_eq!(segment_id_from_file_name(b"dat"), None);
    assert_eq!(
        closed_segment_from_file(b"readme.txt", "readme.txt".to_string(), 3, 0).err(),
        Some(Error::InvalidSegmentFileName)
    );
}

#[test]
fn closed_segment_from_directory_entry() {
    let id = SegmentId::new();
    let name = id.file_name();
    let c = closed_segment_from_file(&name, "/wal/x.dat".to_string(), 99, 1234).unwrap();
    assert_eq!(c.id(), id);
    assert_eq!(c.size(), 99);
    assert_eq!(c.path(), "/wal/x.dat");
    assert_eq!(c.created_at_nanos(), 1234);
}

#[test]
fn closed_segments_keep_order_and_remove() {
    let mut list = ClosedSegments::new();
    for i in 1..=3u128 {
        list.push(ClosedSegment::new(SegmentId(i), format!("{i}.dat"), i as u64 * 10, 0));
    }
    let ids: Vec<u128> = list.as_slice().iter().map(|c| c.id().get()).collect();
    assert_eq!(ids, vec![1, 2, 3]);
    assert_eq!(list.position(SegmentId(2)), Some(1));
    let removed = list.remove(SegmentId(2)).unwrap();
    assert_eq!(removed.size(), 20);
    assert_eq!(list.len(), 2);
    assert_eq!(list.position(SegmentId(2)), None);
    assert_eq!(list.remove(SegmentId(2)).err(), Some(Error::UnknownSegment));
    assert_eq!(list.len(), 2);
}

#[test]
fn duplicate_keeps_metadata() {
    let c = ClosedSegment::new(SegmentId(9), "9.dat".to_string(), 5, 6);
    let d = c.duplicate();
    assert_eq!(d.id(), c.id());
    assert_eq!(d.path(), c.path());
    assert_eq!(d.size(), 5);
    assert_eq!(d.created_at_nanos(), 6);
}
