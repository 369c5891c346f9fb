//! Tests of the filtering scanner.

use biff::biff_record::{BiffError, BiffRecord};
use biff::biff_scanner::BiffScanner;
use biff::reader::ByteReader;

/// A stream of four records with identifiers [1, 2, 1, 3] and payloads
/// that tell the two id-1 records apart.
fn stream_a_b_a_c() -> Vec<u8> {
    let mut buf: Vec<u8> = Vec::new();
    BiffRecord::new(1, vec![10]).unwrap().push(&mut buf);
    BiffRecord::new(2, vec![20]).unwrap().push(&mut buf);
    BiffRecord::new(1, vec![11]).unwrap().push(&mut buf);
    BiffRecord::new(3, vec![30]).unwrap().push(&mut buf);
    buf
}

fn collect(
    ids_only: Option<Vec<u16>>,
    ids_skip: Option<Vec<u16>>,
    break_id: Option<u16>,
    max_scan: Option<usize>,
) -> Vec<(u16, Vec<u8>)> {
    let items = BiffRecord::scan(
        ByteReader::new(stream_a_b_a_c()),
        ids_only,
        ids_skip,
        break_id,
        max_scan,
    )
    .unwrap();
    items
        .into_iter()
        .map(|r| {
            let rec = r.expect("no errors in this stream");
            let payload = rec.payload().clone();
            (rec.id(), payload)
        })
        .collect()
}

#[test]
fn scanner_allow_list() {
    // Exactly the two id-1 records, in stream order.
    let got = collect(Some(vec![1]), None, None, None);
    assert_eq!(got, vec![(1, vec![10]), (1, vec![11])]);
}

#[test]
fn scanner_deny_list() {
    let got = collect(None, Some(vec![1]), None, None);
    assert_eq!(got, vec![(2, vec![20]), (3, vec![30])]);
}

#[test]
fn scanner_no_filters_keeps_order() {
    let got = collect(None, None, None, None);
    assert_eq!(got, vec![(1, vec![10]), (2, vec![20]), (1, vec![11]), (3, vec![30])]);
}

#[test]
fn scanner_max_scan_caps_examined_records() {
    // Only the first two records are examined at all.
    let got = collect(None, None, None, Some(2));
    assert_eq!(got, vec![(1, vec![10]), (2, vec![20])]);
    // Rejected records count as examined too.
    let got = collect(Some(vec![2]), None, None, Some(2));
    assert_eq!(got, vec![(2, vec![20])]);
    let got = collect(None, None, None, Some(0));
    assert_eq!(got, vec![]);
}

#[test]
fn scanner_break_id_stops_before_match() {
    // Scanning stops at the first id-2 record, which is itself excluded.
    let got = collect(None, None, Some(2), None);
    assert_eq!(got, vec![(1, vec![10])]);
    // Stopping at an identifier that never occurs changes nothing.
    let got = collect(None, None, Some(9), None);
    assert_eq!(got.len(), 4);
}

#[test]
fn scanner_rejects_conflicting_filters() {
    let res = BiffRecord::scan(
        ByteReader::new(stream_a_b_a_c()),
        Some(vec![1]),
        Some(vec![2]),
        None,
        None,
    );
    assert!(matches!(res, Err(BiffError::FilterConflict)));
    let res = BiffScanner::new(
        ByteReader::new(stream_a_b_a_c()),
        Some(vec![1]),
        Some(vec![2]),
        None,
        None,
    );
    assert!(matches!(res, Err(BiffError::FilterConflict)));
}

#[test]
fn scanner_surfaces_error_as_final_item() {
    let mut buf = stream_a_b_a_c();
    // A truncated record at the tail: id 5, size 9, no payload.
    buf.push(0x05);
    buf.push(0x09);
    let items = BiffRecord::scan(ByteReader::new(buf), None, None, None, None).unwrap();
    assert_eq!(items.len(), 5);
    for item in items.iter().take(4) {
        assert!(item.is_ok());
    }
    assert!(matches!(items[4], Err(BiffError::Truncated)));
}

#[test]
fn scanner_pull_by_pull() {
    let mut sc = BiffScanner::new(
        ByteReader::new(stream_a_b_a_c()),
        Some(vec![3]),
        None,
        None,
        None,
    )
    .unwrap();
    let first = sc.next().expect("one record").expect("no error");
    assert_eq!((first.id(), first.payload().as_slice()), (3, &[30u8][..]));
    assert!(sc.next().is_none());
    // A finished scanner stays finished.
    assert!(sc.next().is_none());
}

#[test]
fn scanner_read_header() {
    let mut sc = BiffScanner::new(ByteReader::new(vec![0xB4, 0x24, 0x85, 0x00]), None, None, None, None)
        .unwrap();
    let (id, sz) = sc.read_header().unwrap();
    assert_eq!(id, 0x1234);
    assert_eq!(sz, 5);
}
