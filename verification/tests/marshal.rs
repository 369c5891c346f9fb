//! Tests of the marshalling framework, the composite types and
//! validation.

use biff::biff_data::{
    checked, pack_biff_data, BiffDataCompatible, BiffSerializable, CheckBiff, FromBiffData,
    IntoBiffData,
};
use biff::biff_record::{try_to_sized, BiffError, BiffRecord, DataSlice};
use biff::composites::{Cell, CellBlank, CheckedRow, I24Adapter, UncheckedCol, UncheckedRw, WordFlag};

#[test]
fn test_cell() {
    let cell = Cell::new(0x12.into(), I24Adapter::new(0x34).unwrap(), 0x56);
    let mut data = vec![0u8; 8];
    let r = cell.into_biff_data(0, &mut data);
    assert!(r.is_ok());

    let some = pack_biff_data(&cell).unwrap();
    assert_eq!(some, data);

    println!("{:?}", data);
    let cnew = Cell::deserialize(some.as_slice());
    assert!(cnew.is_ok());
    assert_eq!(cnew.unwrap(), cell);

    println!("{:?}", cell);
    println!("{:?}", data);
}

#[test]
fn test_aligned_biff_data_impl() {
    let a = UncheckedCol::from(0);
    let b = UncheckedCol::new(0);
    let c = UncheckedCol { inner: 0 };
    assert_eq!(a, b);
    assert_eq!(a, c);

    // Packing two plain numerics side by side into one buffer.
    let mut buf = vec![0u8; 6];
    assert!(matches!(0u32.into_biff_data(0, &mut buf), Ok(4)));
    assert!(matches!(1u16.into_biff_data(4, &mut buf), Ok(2)));
    assert_eq!(buf, vec![0, 0, 0, 0, 1, 0]);

    let w = WordFlag::new(0, 0);
    let r = w.into_biff();
    assert!(r.is_ok());

    let x = UncheckedRw::new(0);
    assert!(x.is_valid());
    let x = UncheckedRw::new(-1);
    assert!(!x.is_valid());

    let a = CheckedRow::new(UncheckedRw::new(0));
    assert!(a.is_valid());

    let a = CheckedRow::new(UncheckedRw::new(-1));
    assert!(!a.is_valid());
}

#[test]
fn cell_exact_bytes() {
    let cell = Cell::new(UncheckedCol::new(0x12), I24Adapter::new(0x345678).unwrap(), 0x9A);
    assert_eq!(Cell::size_of_type(), 8);
    let bytes = pack_biff_data(&cell).unwrap();
    assert_eq!(bytes, vec![0x12, 0x00, 0x00, 0x00, 0x78, 0x56, 0x34, 0x9A]);
}

#[test]
fn word_flag_static_width_and_round_trip() {
    assert_eq!(WordFlag::size_of_type(), 5);
    let cases: [(u32, u8); 4] = [(0, 0), (1, 255), (0xDEAD_BEEF, 7), (u32::MAX, u8::MAX)];
    for (x, y) in cases {
        let w = WordFlag::new(x, y);
        let bytes = pack_biff_data(&w).unwrap();
        assert_eq!(bytes.len(), 5);
        let back = WordFlag::deserialize(bytes.as_slice()).unwrap();
        assert_eq!(back, w);
    }
}

#[test]
fn encode_into_short_buffer_fails_without_writing() {
    let w = WordFlag::new(0x01020304, 5);
    let mut buf = vec![0u8; 4];
    assert!(matches!(w.into_biff_data(0, &mut buf), Err(BiffError::SizeMismatch)));
    // Not a single byte was written.
    assert_eq!(buf, vec![0u8; 4]);
    // The same at a nonzero offset of a larger buffer.
    let mut buf = vec![0u8; 8];
    assert!(matches!(w.into_biff_data(4, &mut buf), Err(BiffError::SizeMismatch)));
    assert_eq!(buf, vec![0u8; 8]);
    // Decoding from too few bytes fails likewise.
    assert!(matches!(WordFlag::deserialize(&[1, 2, 3, 4]), Err(BiffError::SizeMismatch)));
}

#[test]
fn bounded_row_validation() {
    assert!(!UncheckedRw::new(-1).is_valid());
    assert!(UncheckedRw::new(0).is_valid());
    assert!(UncheckedRw::new(1048576).is_valid());
    assert!(!UncheckedRw::new(1048577).is_valid());
    assert!(matches!(UncheckedRw::new(-1).validated(), Err(BiffError::Invalid)));
}

#[test]
fn composite_validity_follows_fields() {
    // The composite's own predicate is always true, yet an invalid field
    // makes the whole composite invalid.
    assert!(checked(&CheckedRow::new(UncheckedRw::new(-1))));
    assert!(!CheckedRow::new(UncheckedRw::new(-1)).is_valid());
    assert!(CheckedRow::new(UncheckedRw::new(1048576)).is_valid());

    let bad_col = Cell::new(UncheckedCol::new(16384), I24Adapter::new(0).unwrap(), 0);
    assert!(checked(&bad_col));
    assert!(!bad_col.is_valid());
    let good = Cell::new(UncheckedCol::new(16383), I24Adapter::new(0).unwrap(), 0);
    assert!(good.is_valid());
}

#[test]
fn serializable_round_trip_through_envelope() {
    let w = WordFlag::new(0xCAFE_F00D, 0x42);
    let rec = w.into_biff().unwrap();
    assert_eq!(rec.id(), WordFlag::id());
    assert_eq!(rec.id(), 0x25);
    let back: WordFlag = rec.as_biff().unwrap();
    assert_eq!(back, w);

    let cell = Cell::new(UncheckedCol::new(3), I24Adapter::new(9).unwrap(), 1);
    let blank = CellBlank::new(cell);
    let rec = blank.into_biff().unwrap();
    assert_eq!(rec.id(), 0x01);
    let back: CellBlank = rec.as_biff().unwrap();
    assert_eq!(back.cell, cell);

    // Unwrapping under the wrong identifier is rejected.
    assert!(matches!(rec.as_biff::<WordFlag>(), Err(BiffError::InvalidCast)));
    // A wrong payload width under the right identifier is rejected.
    let short = BiffRecord::new(0x25, vec![1, 2, 3]).unwrap();
    assert!(matches!(short.as_biff::<WordFlag>(), Err(BiffError::SizeMismatch)));
}

#[test]
fn invalid_composite_does_not_serialize() {
    let blank = CellBlank::new(Cell::new(UncheckedCol::new(-3), I24Adapter::new(0).unwrap(), 0));
    assert!(matches!(blank.into_biff(), Err(BiffError::Invalid)));
}

#[test]
fn i24_adapter_range_and_value() {
    assert!(matches!(I24Adapter::new(-1), Err(BiffError::TooLarge)));
    assert!(matches!(I24Adapter::new(0x100_0000), Err(BiffError::TooLarge)));
    let a = I24Adapter::new(0xFF_FFFF).unwrap();
    assert_eq!(a.value(), 0xFF_FFFF);
    let b = I24Adapter::new(0x000102).unwrap();
    assert_eq!(pack_biff_data(&b).unwrap(), vec![0x02, 0x01, 0x00]);
}

#[test]
fn signed_numerics_use_twos_complement_bytes() {
    assert_eq!(pack_biff_data(&-2i32).unwrap(), vec![0xFE, 0xFF, 0xFF, 0xFF]);
    assert_eq!(pack_biff_data(&-1i8).unwrap(), vec![0xFF]);
    assert_eq!(pack_biff_data(&-256i16).unwrap(), vec![0x00, 0xFF]);
    assert_eq!(
        pack_biff_data(&-2i64).unwrap(),
        vec![0xFE, 0xFF, 0xFF, 0xFF, 0xFF, 0xFF, 0xFF, 0xFF],
    );
    assert_eq!(i32::deserialize(&[0xFE, 0xFF, 0xFF, 0xFF]).unwrap(), -2);
    assert_eq!(i8::deserialize(&[0x80]).unwrap(), -128);
    assert_eq!(u64::deserialize(&[1, 0, 0, 0, 0, 0, 0, 0x80]).unwrap(), 0x8000_0000_0000_0001);
    assert_eq!(pack_biff_data(&0x0102_0304u32).unwrap(), vec![4, 3, 2, 1]);
}

#[test]
fn payload_window_peeking() {
    let rec = BiffRecord::new(7, vec![1, 0, 2, 0, 3, 0]).unwrap();
    let window = rec.data();
    assert_eq!(window.peek::<u16>(0).unwrap(), 1);
    assert_eq!(window.peek::<u16>(2).unwrap(), 2);
    assert!(matches!(window.peek::<u32>(4), Err(BiffError::SizeMismatch)));
    let all: Vec<u16> = window.peek_many(0, 3).unwrap();
    assert_eq!(all, vec![1, 2, 3]);
    assert!(matches!(window.peek_many::<u16>(0, 4), Err::<Vec<u16>, _>(BiffError::SizeMismatch)));

    assert_eq!(try_to_sized::<u16>(4, rec.payload().as_slice()).unwrap(), 3);
    assert_eq!(rec.as_biff_data::<u16>(2).unwrap(), 2);
    assert!(matches!(rec.as_biff_data::<u16>(5), Err::<u16, _>(BiffError::SizeMismatch)));
    assert!(matches!(rec.data_as::<u32>(), Err::<u32, _>(BiffError::SizeMismatch)));

    let fresh = DataSlice::new(rec.payload().as_slice());
    assert_eq!(fresh.peek::<u8>(1).unwrap(), 0);

    let typed = BiffRecord::from_sized(0x30, &0xABCDu16).unwrap();
    assert_eq!(typed.id(), 0x30);
    assert_eq!(typed.payload().as_slice(), &[0xCD, 0xAB]);
    assert!(matches!(BiffRecord::from_sized(0x4000, &0u8), Err(BiffError::TooLarge)));
}
