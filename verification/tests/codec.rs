//! Tests of the size and identifier codecs.

use biff::biff_id::{as_biff_id, encode_id, BiffId};
use biff::biff_scanner::BiffScanner;
use biff::biff_size::BiffSize;
use biff::reader::ByteReader;

#[test]
fn test_biff_size() {
    assert_eq!(BiffSize::from_size(0x7F).inner(), &[0x7F]);
    assert_eq!(BiffSize::from_size(0x80).inner(), &[0x80, 0x01]);
}

#[test]
fn test_known_id() {
    assert_eq!(BiffId::from(as_biff_id(0)), BiffId::BrtRowHdr);
}

#[test]
fn size_codec_exact_bytes() {
    assert_eq!(BiffSize::from_size(0).inner(), &[0x00]);
    assert_eq!(BiffSize::from_size(0x3FFF).inner(), &[0xFF, 0x7F]);
    assert_eq!(BiffSize::from_size(0x4000).inner(), &[0x80, 0x80, 0x01]);
    assert_eq!(BiffSize::from_size(0x1F_FFFF).inner(), &[0xFF, 0xFF, 0x7F]);
    assert_eq!(BiffSize::from_size(0x20_0000).inner(), &[0x80, 0x80, 0x80, 0x01]);
    assert_eq!(BiffSize::from_size(0xFFF_FFFF).inner(), &[0xFF, 0xFF, 0xFF, 0x7F]);
}

/// Decode a size by reading a record header whose identifier byte is 0.
fn decode_size(enc: &[u8]) -> u32 {
    let mut bytes = vec![0u8];
    bytes.extend_from_slice(enc);
    let mut sc = BiffScanner::new(ByteReader::new(bytes), None, None, None, None).unwrap();
    let (id, sz) = sc.read_header().unwrap();
    assert_eq!(id, 0);
    sz
}

#[test]
fn size_codec_round_trip_and_minimal_lengths() {
    let cases: [(u32, usize); 8] = [
        (0, 1),
        (0x7F, 1),
        (0x80, 2),
        (0x3FFF, 2),
        (0x4000, 3),
        (0x1F_FFFF, 3),
        (0x20_0000, 4),
        (0xFFF_FFFF, 4),
    ];
    for (sz, len) in cases {
        let enc = BiffSize::from_size(sz);
        assert_eq!(enc.inner().len(), len);
        assert_eq!(decode_size(enc.inner()), sz);
    }
}

#[test]
fn size_codec_accepts_non_minimal_form() {
    // 0x05 padded out to two bytes with an empty continuation group.
    assert_eq!(decode_size(&[0x85, 0x00]), 5);
}

#[test]
fn id_codec_lengths_and_round_trip() {
    for id in 0u16..=0x3FFF {
        let enc = encode_id(id);
        assert_eq!(enc.len(), if id <= 0x7F { 1 } else { 2 });
        let mut bytes = enc.clone();
        bytes.push(0x00); // size 0
        let mut sc = BiffScanner::new(ByteReader::new(bytes), None, None, None, None).unwrap();
        let (got, sz) = sc.read_header().unwrap();
        assert_eq!(got, id);
        assert_eq!(sz, 0);
    }
}

#[test]
fn id_codec_exact_bytes() {
    assert_eq!(encode_id(0x00), vec![0x00]);
    assert_eq!(encode_id(0x7F), vec![0x7F]);
    assert_eq!(encode_id(0x80), vec![0x80, 0x01]);
    assert_eq!(encode_id(0x1234), vec![0xB4, 0x24]);
    assert_eq!(encode_id(0x3FFF), vec![0xFF, 0x7F]);
}

#[test]
fn raw_tag_values() {
    assert_eq!(as_biff_id(0x12), 0x12);
    assert_eq!(as_biff_id(0x80), 0x180);
    assert_eq!(as_biff_id(0x1234), 0x24B4);
    assert_eq!(BiffId::from(as_biff_id(128)), BiffId::BrtFileVersion);
    assert_eq!(BiffId::from(0x9999), BiffId::Unknown(0x9999));
    assert_eq!(BiffId::Unknown(0x9999).wire(), 0x9999);
    assert_eq!(BiffId::BrtCellBlank.wire(), 0x01);
}
