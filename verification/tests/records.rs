//! Tests of the record envelope: reading, writing, round trips and the
//! error taxonomy.

use biff::biff_id::{encode_id, BiffId};
use biff::biff_record::{BiffError, BiffRecord};
use biff::biff_size::BiffSize;
use biff::reader::ByteReader;

#[test]
fn test_biff_record() {
    let r = BiffRecord::new(0, vec![0x00, 0x00, 0x00, 0x00]).unwrap();
    let i: u32 = r.data_as::<u32>().expect("must be u32");
    println!("{:?}", i);

    let mut rd = ByteReader::new(vec![0x01, 0x01, 0x01]);
    let rec = BiffRecord::read(&mut rd).expect("must be ok").expect("must be not EOF");
    let data_2: u8 = rec.data_as::<u8>().expect("must be u8");

    let text = "hello!";
    let mut payload: Vec<u8> = Vec::new();
    payload.extend_from_slice(&(text.len() as u32).to_le_bytes());
    for u in text.encode_utf16() {
        payload.extend_from_slice(&u.to_le_bytes());
    }
    let mut cur: Vec<u8> = Vec::new();
    cur.extend_from_slice(&encode_id(0));
    cur.extend_from_slice(BiffSize::from_size(payload.len() as u32).inner());
    cur.extend_from_slice(&payload);
    let mut rd = ByteReader::new(cur);
    let rec = BiffRecord::read(&mut rd).expect("must be ok").expect("must be not EOF");
    let s = rec.data_as_xlws().expect("must be string").expect("must be not empty");
    assert_eq!(s.as_str(), "hello!");

    let boxed = rec.to_bytes();
    println!("{:?} {:?}", boxed, data_2);
}

#[test]
fn envelope_round_trip_grid() {
    let ids: [u16; 5] = [0, 1, 0x7F, 0x80, 0x3FFF];
    let lens: [usize; 7] = [0, 1, 127, 128, 16383, 16384, 2097151];
    for &id in ids.iter() {
        for &l in lens.iter() {
            let rec = BiffRecord::new(id, vec![0u8; l]).unwrap();
            let mut buf: Vec<u8> = Vec::new();
            let n = rec.push(&mut buf);
            assert_eq!(n, buf.len());
            assert_eq!(n, rec.size_raw());
            let first = buf.clone();
            let mut rd = ByteReader::new(buf);
            let back = BiffRecord::read(&mut rd).expect("read ok").expect("not eof");
            assert_eq!(rd.remaining(), 0);
            assert_eq!(back.id(), id);
            assert_eq!(back.size(), l);
            assert_eq!(back.payload().as_slice(), vec![0u8; l].as_slice());
            // Re-serializing reproduces the minimal wire form byte for byte.
            assert_eq!(back.to_bytes(), first);
        }
    }
}

#[test]
fn read_normalizes_non_minimal_size() {
    // id 1, size 5 written as a padded two-byte chain, then 5 payload bytes.
    let bytes = vec![0x01, 0x85, 0x00, 10, 20, 30, 40, 50];
    let mut rd = ByteReader::new(bytes);
    let rec = BiffRecord::read(&mut rd).unwrap().unwrap();
    assert_eq!(rec.id(), 1);
    assert_eq!(rec.payload().as_slice(), &[10, 20, 30, 40, 50]);
    // The round trip emits the minimal form: one size byte, not two.
    assert_eq!(rec.to_bytes(), vec![0x01, 0x05, 10, 20, 30, 40, 50]);
    assert_eq!(rec.size_raw(), 7);
}

#[test]
fn unknown_id_round_trips() {
    let rec = BiffRecord::new(0x1234, vec![7, 8, 9]).unwrap();
    assert_eq!(rec.biff_id(), BiffId::Unknown(0x24B4));
    let mut buf: Vec<u8> = Vec::new();
    rec.push(&mut buf);
    let back = BiffRecord::read(&mut ByteReader::new(buf)).unwrap().unwrap();
    assert_eq!(back.id(), 0x1234);
    assert_eq!(back.payload().as_slice(), &[7, 8, 9]);
}

#[test]
fn clean_eof_and_sequencing() {
    let a = BiffRecord::new(1, vec![0xAA]).unwrap();
    let b = BiffRecord::new(0x80, vec![]).unwrap();
    let mut buf: Vec<u8> = Vec::new();
    a.push(&mut buf);
    b.push(&mut buf);
    let mut rd = ByteReader::new(buf);
    let r1 = BiffRecord::read(&mut rd).unwrap().unwrap();
    assert_eq!((r1.id(), r1.size()), (1, 1));
    let r2 = BiffRecord::read(&mut rd).unwrap().unwrap();
    assert_eq!((r2.id(), r2.size()), (0x80, 0));
    // Clean end of stream exactly at a record boundary.
    assert!(BiffRecord::read(&mut rd).unwrap().is_none());
}

#[test]
fn truncated_payload_is_fatal() {
    // id 1, size 5, but only one payload byte follows.
    let mut rd = ByteReader::new(vec![0x01, 0x05, 0x01]);
    assert!(matches!(BiffRecord::read(&mut rd), Err(BiffError::Truncated)));
}

#[test]
fn truncated_header_is_fatal() {
    // A two-byte identifier whose second byte never comes.
    let mut rd = ByteReader::new(vec![0x80]);
    assert!(matches!(BiffRecord::read(&mut rd), Err(BiffError::Truncated)));
    // A size chain that ends mid-way.
    let mut rd = ByteReader::new(vec![0x01, 0x85]);
    assert!(matches!(BiffRecord::read(&mut rd), Err(BiffError::Truncated)));
}

#[test]
fn malformed_header_is_fatal() {
    // Second identifier byte with its top bit set: tag out of range.
    let mut rd = ByteReader::new(vec![0x80, 0x80, 0x00]);
    assert!(matches!(BiffRecord::read(&mut rd), Err(BiffError::Malformed)));
    // A size chain of four bytes without a terminator.
    let mut rd = ByteReader::new(vec![0x01, 0x80, 0x80, 0x80, 0x80, 0x00]);
    assert!(matches!(BiffRecord::read(&mut rd), Err(BiffError::Malformed)));
}

#[test]
fn out_of_range_construction_is_rejected() {
    assert_eq!(BiffRecord::new(0x4000, vec![]).unwrap_err(), BiffError::TooLarge);
    assert!(BiffRecord::new(0x3FFF, vec![]).is_ok());
}

#[test]
fn xlws_cases() {
    // Empty payload: no content at all.
    let rec = BiffRecord::new(1, vec![]).unwrap();
    assert_eq!(rec.data_as_xlws(), Err(BiffError::Empty));
    // Too short for the count.
    let rec = BiffRecord::new(1, vec![1, 0]).unwrap();
    assert_eq!(rec.data_as_xlws(), Err(BiffError::SizeMismatch));
    // Odd length.
    let rec = BiffRecord::new(1, vec![0, 0, 0, 0, 1]).unwrap();
    assert_eq!(rec.data_as_xlws(), Err(BiffError::SizeMismatch));
    // The missing-string sentinel.
    let rec = BiffRecord::new(1, vec![0xFF, 0xFF, 0xFF, 0xFF]).unwrap();
    assert_eq!(rec.data_as_xlws(), Ok(None));
    // The empty string.
    let rec = BiffRecord::new(1, vec![0, 0, 0, 0]).unwrap();
    assert_eq!(rec.data_as_xlws(), Ok(Some(String::new())));
    // Count disagreeing with the byte length.
    let rec = BiffRecord::new(1, vec![3, 0, 0, 0, 0x61, 0x00]).unwrap();
    assert_eq!(rec.data_as_xlws(), Err(BiffError::SizeMismatch));
    // An unpaired surrogate is not well-formed UTF-16.
    let rec = BiffRecord::new(1, vec![1, 0, 0, 0, 0x00, 0xD8]).unwrap();
    assert_eq!(rec.data_as_xlws(), Err(BiffError::InvalidCast));
    // A short proper string.
    let rec = BiffRecord::new(1, vec![2, 0, 0, 0, 0x61, 0x00, 0x62, 0x00]).unwrap();
    assert_eq!(rec.data_as_xlws(), Ok(Some(String::from("ab"))));
}
