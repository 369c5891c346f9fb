//! Composite field types: ordered lists of marshallable fields bound
//! together with a validation rule, and — where a fixed record identifier
//! is attached — directly serializable as whole records.
//!
//! Each composite implements the marshalling contract by delegating to
//! its fields in declared order, offsets strictly increasing, with the
//! total width checked up front so that a failed encode never writes a
//! single byte.

use crate::biff_data::{
    lemma_splice_index, BiffDataCompatible, BiffSerializable, CheckBiff, FromBiffData,
    IntoBiffData, ValidBiff,
};
use crate::biff_record::BiffError;
use vstd::prelude::*;

verus! {

/// A column index field: any 32-bit value travels, but only `0 ..= 16383`
/// is valid.
#[derive(Clone, Copy, Debug, PartialEq, Eq, Structural)]
pub struct UncheckedCol {
    pub inner: i32,
}

impl UncheckedCol {
    /// Wrap a raw column index; validity is checked separately.
    pub fn new(inner: i32) -> (r: UncheckedCol)
        ensures
            r.inner == inner,
    {
        UncheckedCol { inner }
    }
}

impl From<i32> for UncheckedCol {
    fn from(value: i32) -> (r: UncheckedCol) {
        UncheckedCol { inner: value }
    }
}

impl vstd::std_specs::convert::FromSpecImpl<i32> for UncheckedCol {
    open spec fn obeys_from_spec() -> bool {
        true
    }

    open spec fn from_spec(value: i32) -> UncheckedCol {
        UncheckedCol { inner: value }
    }
}

impl BiffDataCompatible for UncheckedCol {
    open spec fn spec_width() -> nat {
        4
    }

    open spec fn wire(&self) -> Seq<u8> {
        self.inner.wire()
    }

    open spec fn of_wire(b: Seq<u8>) -> UncheckedCol {
        UncheckedCol { inner: <i32 as BiffDataCompatible>::of_wire(b) }
    }

    proof fn lemma_wire_len(&self) {
        self.inner.lemma_wire_len();
    }

    proof fn lemma_wire_round_trip(&self) {
        self.inner.lemma_wire_round_trip();
    }

    proof fn lemma_width_bound() {
    }

    fn size_of_type() -> (n: usize) {
        4
    }
}

impl IntoBiffData for UncheckedCol {
    fn size_of(&self) -> (n: usize) {
        4
    }

    fn into_biff_data(&self, offset: usize, out_data: &mut Vec<u8>) -> (res: Result<
        usize,
        BiffError,
    >) {
        self.inner.into_biff_data(offset, out_data)
    }
}

impl FromBiffData for UncheckedCol {
    fn from_biff_data(data: &[u8], offset: usize) -> (res: Result<(Self, usize), BiffError>) {
        match i32::from_biff_data(data, offset) {
            Ok((v, n)) => Ok((UncheckedCol { inner: v }, n)),
            Err(e) => Err(e),
        }
    }
}

impl CheckBiff for UncheckedCol {
    open spec fn spec_valid(&self) -> bool {
        0 <= self.inner <= 16383
    }

    fn validated(&self) -> (res: Result<&Self, BiffError>) {
        if self.inner >= 0 && self.inner <= 16383 {
            Ok(self)
        } else {
            Err(BiffError::Invalid)
        }
    }
}

/// A row index field: any 32-bit value travels, but only `0 ..= 1048576`
/// is valid.
#[derive(Clone, Copy, Debug, PartialEq, Eq, Structural)]
pub struct UncheckedRw {
    pub inner: i32,
}

impl UncheckedRw {
    /// Wrap a raw row index; validity is checked separately.
    pub fn new(inner: i32) -> (r: UncheckedRw)
        ensures
            r.inner == inner,
    {
        UncheckedRw { inner }
    }
}

impl From<i32> for UncheckedRw {
    fn from(value: i32) -> (r: UncheckedRw) {
        UncheckedRw { inner: value }
    }
}

impl vstd::std_specs::convert::FromSpecImpl<i32> for UncheckedRw {
    open spec fn obeys_from_spec() -> bool {
        true
    }

    open spec fn from_spec(value: i32) -> UncheckedRw {
        UncheckedRw { inner: value }
    }
}

impl BiffDataCompatible for UncheckedRw {
    open spec fn spec_width() -> nat {
        4
    }

    open spec fn wire(&self) -> Seq<u8> {
        self.inner.wire()
    }

    open spec fn of_wire(b: Seq<u8>) -> UncheckedRw {
        UncheckedRw { inner: <i32 as BiffDataCompatible>::of_wire(b) }
    }

    proof fn lemma_wire_len(&self) {
        self.inner.lemma_wire_len();
    }

    proof fn lemma_wire_round_trip(&self) {
        self.inner.lemma_wire_round_trip();
    }

    proof fn lemma_width_bound() {
    }

    fn size_of_type() -> (n: usize) {
        4
    }
}

impl IntoBiffData for UncheckedRw {
    fn size_of(&self) -> (n: usize) {
        4
    }

    fn into_biff_data(&self, offset: usize, out_data: &mut Vec<u8>) -> (res: Result<
        usize,
        BiffError,
    >) {
        self.inner.into_biff_data(offset, out_data)
    }
}

impl FromBiffData for UncheckedRw {
    fn from_biff_data(data: &[u8], offset: usize) -> (res: Result<(Self, usize), BiffError>) {
        match i32::from_biff_data(data, offset) {
            Ok((v, n)) => Ok((UncheckedRw { inner: v }, n)),
            Err(e) => Err(e),
        }
    }
}

impl CheckBiff for UncheckedRw {
    open spec fn spec_valid(&self) -> bool {
        0 <= self.inner <= 1048576
    }

    fn validated(&self) -> (res: Result<&Self, BiffError>) {
        if self.inner >= 0 && self.inner <= 1048576 {
            Ok(self)
        } else {
            Err(BiffError::Invalid)
        }
    }
}

/// The bounded row index is valid exactly on `0 ..= 1048576`.
pub proof fn lemma_row_bounds(r: UncheckedRw)
    ensures
        r.spec_valid() <==> 0 <= r.inner <= 1048576,
{
}

/// A 24-bit unsigned field carried in three little-endian bytes. Values
/// outside `0 ..= 0xFF_FFFF` cannot be represented and are rejected at
/// construction.
#[derive(Clone, Copy, Debug, PartialEq, Eq, Structural)]
pub struct I24Adapter {
    pub lo: u8,
    pub mid: u8,
    pub hi: u8,
}

impl I24Adapter {
    /// The numeric value this field carries, in `0 ..= 0xFF_FFFF`.
    pub open spec fn spec_value(&self) -> int {
        self.lo + 0x100 * self.mid + 0x1_0000 * self.hi
    }

    /// Wrap a value, rejecting what three bytes cannot carry.
    pub fn new(value: i32) -> (res: Result<I24Adapter, BiffError>)
        ensures
            match res {
                Ok(a) => 0 <= value < 0x100_0000 && a.spec_value() == value,
                Err(e) => e == BiffError::TooLarge && !(0 <= value < 0x100_0000),
            },
    {
        if value < 0 || value >= 0x100_0000 {
            Err(BiffError::TooLarge)
        } else {
            let a = I24Adapter {
                lo: (value % 0x100) as u8,
                mid: ((value / 0x100) % 0x100) as u8,
                hi: (value / 0x1_0000) as u8,
            };
            proof {
                vstd::arithmetic::div_mod::lemma_div_denominator(value as int, 0x100, 0x100);
            }
            Ok(a)
        }
    }

    /// The numeric value this field carries.
    pub fn value(&self) -> (v: i32)
        ensures
            v == self.spec_value(),
    {
        self.lo as i32 + 0x100 * (self.mid as i32) + 0x1_0000 * (self.hi as i32)
    }
}

impl BiffDataCompatible for I24Adapter {
    open spec fn spec_width() -> nat {
        3
    }

    open spec fn wire(&self) -> Seq<u8> {
        seq![self.lo, self.mid, self.hi]
    }

    open spec fn of_wire(b: Seq<u8>) -> I24Adapter {
        I24Adapter { lo: b[0], mid: b[1], hi: b[2] }
    }

    proof fn lemma_wire_len(&self) {
    }

    proof fn lemma_wire_round_trip(&self) {
    }

    proof fn lemma_width_bound() {
    }

    fn size_of_type() -> (n: usize) {
        3
    }
}

impl IntoBiffData for I24Adapter {
    fn size_of(&self) -> (n: usize) {
        3
    }

    fn into_biff_data(&self, offset: usize, out_data: &mut Vec<u8>) -> (res: Result<
        usize,
        BiffError,
    >) {
        if out_data.len() < 3 || offset > out_data.len() - 3 {
            return Err(BiffError::SizeMismatch);
        }
        let ghost pre = out_data@;
        out_data.set(offset, self.lo);
        out_data.set(offset + 1, self.mid);
        out_data.set(offset + 2, self.hi);
        proof {
            assert(out_data@ =~= pre.subrange(0, offset as int) + self.wire() + pre.subrange(
                offset + 3,
                pre.len() as int,
            ));
        }
        Ok(3)
    }
}

impl FromBiffData for I24Adapter {
    fn from_biff_data(data: &[u8], offset: usize) -> (res: Result<(Self, usize), BiffError>) {
        if data.len() < 3 || offset > data.len() - 3 {
            return Err(BiffError::SizeMismatch);
        }
        let lo = *vstd::slice::slice_index_get(data, offset);
        let mid = *vstd::slice::slice_index_get(data, offset + 1);
        let hi = *vstd::slice::slice_index_get(data, offset + 2);
        let a = I24Adapter { lo, mid, hi };
        proof {
            let sub = data@.subrange(offset as int, offset + 3);
            assert(sub[0] == data@[offset as int]);
            assert(sub[1] == data@[offset + 1]);
            assert(sub[2] == data@[offset + 2]);
        }
        Ok((a, 3))
    }
}

impl ValidBiff for I24Adapter {

}

/// One cell descriptor: a column index, a style reference and a phonetic
/// flag, in that order on the wire.
#[derive(Clone, Copy, Debug, PartialEq, Eq, Structural)]
pub struct Cell {
    pub column: UncheckedCol,
    pub i_style_ref: I24Adapter,
    pub f_ph_show: u8,
}

impl Cell {
    /// Bind the three fields in declared order.
    pub fn new(column: UncheckedCol, i_style_ref: I24Adapter, f_ph_show: u8) -> (c: Cell)
        ensures
            c == (Cell { column, i_style_ref, f_ph_show }),
    {
        Cell { column, i_style_ref, f_ph_show }
    }
}

impl BiffDataCompatible for Cell {
    open spec fn spec_width() -> nat {
        8
    }

    open spec fn wire(&self) -> Seq<u8> {
        self.column.wire() + self.i_style_ref.wire() + self.f_ph_show.wire()
    }

    open spec fn of_wire(b: Seq<u8>) -> Cell {
        Cell {
            column: <UncheckedCol as BiffDataCompatible>::of_wire(b.subrange(0, 4)),
            i_style_ref: <I24Adapter as BiffDataCompatible>::of_wire(b.subrange(4, 7)),
            f_ph_show: <u8 as BiffDataCompatible>::of_wire(b.subrange(7, 8)),
        }
    }

    proof fn lemma_wire_len(&self) {
        self.column.lemma_wire_len();
        self.i_style_ref.lemma_wire_len();
        self.f_ph_show.lemma_wire_len();
    }

    proof fn lemma_wire_round_trip(&self) {
        self.column.lemma_wire_len();
        self.i_style_ref.lemma_wire_len();
        self.f_ph_show.lemma_wire_len();
        let w = self.wire();
        assert(w.subrange(0, 4) =~= self.column.wire());
        assert(w.subrange(4, 7) =~= self.i_style_ref.wire());
        assert(w.subrange(7, 8) =~= self.f_ph_show.wire());
        self.column.lemma_wire_round_trip();
        self.i_style_ref.lemma_wire_round_trip();
        self.f_ph_show.lemma_wire_round_trip();
    }

    proof fn lemma_width_bound() {
    }

    fn size_of_type() -> (n: usize) {
        8
    }
}

impl IntoBiffData for Cell {
    fn size_of(&self) -> (n: usize) {
        8
    }

    fn into_biff_data(&self, offset: usize, out_data: &mut Vec<u8>) -> (res: Result<
        usize,
        BiffError,
    >) {
        proof {
            self.column.lemma_wire_len();
            self.i_style_ref.lemma_wire_len();
            self.f_ph_show.lemma_wire_len();
        }
        if out_data.len() < 8 || offset > out_data.len() - 8 {
            return Err(BiffError::SizeMismatch);
        }
        let ghost pre = out_data@;
        let r1 = self.column.into_biff_data(offset, out_data);
        if r1.is_err() {
            proof {
                assert(false);
            }
            return Err(BiffError::SizeMismatch);
        }
        let ghost s1 = out_data@;
        let r2 = self.i_style_ref.into_biff_data(offset + 4, out_data);
        if r2.is_err() {
            proof {
                assert(false);
            }
            return Err(BiffError::SizeMismatch);
        }
        let ghost s2 = out_data@;
        let r3 = self.f_ph_show.into_biff_data(offset + 7, out_data);
        if r3.is_err() {
            proof {
                assert(false);
            }
            return Err(BiffError::SizeMismatch);
        }
        proof {
            let o = offset as int;
            let s3 = out_data@;
            lemma_splice_index(pre, s1, o, self.column.wire());
            lemma_splice_index(s1, s2, o + 4, self.i_style_ref.wire());
            lemma_splice_index(s2, s3, o + 7, self.f_ph_show.wire());
            let target = pre.subrange(0, o) + self.wire() + pre.subrange(o + 8, pre.len() as int);
            assert forall|j: int| 0 <= j < pre.len() implies s3[j] == target[j] by {
                if j < o {
                    assert(target[j] == pre.subrange(0, o)[j]);
                } else if j < o + 4 {
                    assert(s3[j] == s1[j]);
                    assert(s1[j] == self.column.wire()[j - o]);
                    assert(self.wire()[j - o] == self.column.wire()[j - o]);
                } else if j < o + 7 {
                    assert(s3[j] == s2[j]);
                    assert(s2[j] == self.i_style_ref.wire()[j - (o + 4)]);
                    assert(self.wire()[j - o] == self.i_style_ref.wire()[(j - o) - 4]);
                } else if j < o + 8 {
                    assert(s3[j] == self.f_ph_show.wire()[j - (o + 7)]);
                    assert(self.wire()[j - o] == self.f_ph_show.wire()[(j - o) - 7]);
                } else {
                    assert(target[j] == pre.subrange(o + 8, pre.len() as int)[j - (o + 8)]);
                }
            }
            assert(s3 =~= target);
        }
        Ok(8)
    }
}

impl FromBiffData for Cell {
    fn from_biff_data(data: &[u8], offset: usize) -> (res: Result<(Self, usize), BiffError>) {
        if data.len() < 8 || offset > data.len() - 8 {
            return Err(BiffError::SizeMismatch);
        }
        let column = match UncheckedCol::from_biff_data(data, offset) {
            Ok((v, _)) => v,
            Err(_) => {
                proof {
                    assert(false);
                }
                return Err(BiffError::SizeMismatch);
            },
        };
        let i_style_ref = match I24Adapter::from_biff_data(data, offset + 4) {
            Ok((v, _)) => v,
            Err(_) => {
                proof {
                    assert(false);
                }
                return Err(BiffError::SizeMismatch);
            },
        };
        let f_ph_show = match u8::from_biff_data(data, offset + 7) {
            Ok((v, _)) => v,
            Err(_) => {
                proof {
                    assert(false);
                }
                return Err(BiffError::SizeMismatch);
            },
        };
        proof {
            let o = offset as int;
            let sub = data@.subrange(o, o + 8);
            assert(sub.subrange(0, 4) =~= data@.subrange(o, o + 4));
            assert(sub.subrange(4, 7) =~= data@.subrange(o + 4, o + 7));
            assert(sub.subrange(7, 8) =~= data@.subrange(o + 7, o + 8));
        }
        Ok((Cell { column, i_style_ref, f_ph_show }, 8))
    }
}

impl CheckBiff for Cell {
    open spec fn spec_valid(&self) -> bool {
        &&& self.column.spec_valid()
        &&& self.i_style_ref.spec_valid()
        &&& self.f_ph_show.spec_valid()
    }

    fn validated(&self) -> (res: Result<&Self, BiffError>) {
        match self.column.validated() {
            Err(e) => {
                return Err(e);
            },
            Ok(_) => {},
        }
        match self.i_style_ref.validated() {
            Err(e) => {
                return Err(e);
            },
            Ok(_) => {},
        }
        match self.f_ph_show.validated() {
            Err(e) => {
                return Err(e);
            },
            Ok(_) => {},
        }
        if crate::biff_data::checked(self) {
            Ok(self)
        } else {
            Err(BiffError::Invalid)
        }
    }
}

/// A cell is invalid whenever its column field is, whatever the
/// composite's own predicate would say.
pub proof fn lemma_cell_field_validity(c: Cell)
    ensures
        !c.column.spec_valid() ==> !c.spec_valid(),
{
}

/// A composite of one bounded row index, with an always-true predicate of
/// its own: whatever that predicate says, the composite is invalid
/// whenever its field is.
#[derive(Clone, Copy, Debug, PartialEq, Eq, Structural)]
pub struct CheckedRow {
    pub inner: UncheckedRw,
}

impl CheckedRow {
    /// Wrap a row index field.
    pub fn new(inner: UncheckedRw) -> (r: CheckedRow)
        ensures
            r.inner == inner,
    {
        CheckedRow { inner }
    }
}

impl BiffDataCompatible for CheckedRow {
    open spec fn spec_width() -> nat {
        4
    }

    open spec fn wire(&self) -> Seq<u8> {
        self.inner.wire()
    }

    open spec fn of_wire(b: Seq<u8>) -> CheckedRow {
        CheckedRow { inner: <UncheckedRw as BiffDataCompatible>::of_wire(b) }
    }

    proof fn lemma_wire_len(&self) {
        self.inner.lemma_wire_len();
    }

    proof fn lemma_wire_round_trip(&self) {
        self.inner.lemma_wire_round_trip();
    }

    proof fn lemma_width_bound() {
    }

    fn size_of_type() -> (n: usize) {
        4
    }
}

impl IntoBiffData for CheckedRow {
    fn size_of(&self) -> (n: usize) {
        4
    }

    fn into_biff_data(&self, offset: usize, out_data: &mut Vec<u8>) -> (res: Result<
        usize,
        BiffError,
    >) {
        self.inner.into_biff_data(offset, out_data)
    }
}

impl FromBiffData for CheckedRow {
    fn from_biff_data(data: &[u8], offset: usize) -> (res: Result<(Self, usize), BiffError>) {
        match UncheckedRw::from_biff_data(data, offset) {
            Ok((v, n)) => Ok((CheckedRow { inner: v }, n)),
            Err(e) => Err(e),
        }
    }
}

impl CheckBiff for CheckedRow {
    open spec fn spec_valid(&self) -> bool {
        self.inner.spec_valid()
    }

    fn validated(&self) -> (res: Result<&Self, BiffError>) {
        match self.inner.validated() {
            Err(e) => {
                return Err(e);
            },
            Ok(_) => {},
        }
        if crate::biff_data::checked(self) {
            Ok(self)
        } else {
            Err(BiffError::Invalid)
        }
    }
}

/// A composite embedding the bounded row field is invalid whenever that
/// field is, independent of the composite's own predicate.
pub proof fn lemma_row_composite_validity(r: CheckedRow)
    ensures
        !r.inner.spec_valid() ==> !r.spec_valid(),
{
}

/// The blank-cell record: its payload is exactly one cell descriptor,
/// and its fixed record identifier is 1.
#[derive(Clone, Copy, Debug, PartialEq, Eq, Structural)]
pub struct CellBlank {
    pub cell: Cell,
}

impl CellBlank {
    /// Wrap a cell descriptor as a blank-cell record body.
    pub fn new(cell: Cell) -> (r: CellBlank)
        ensures
            r.cell == cell,
    {
        CellBlank { cell }
    }
}

impl BiffDataCompatible for CellBlank {
    open spec fn spec_width() -> nat {
        8
    }

    open spec fn wire(&self) -> Seq<u8> {
        self.cell.wire()
    }

    open spec fn of_wire(b: Seq<u8>) -> CellBlank {
        CellBlank { cell: <Cell as BiffDataCompatible>::of_wire(b) }
    }

    proof fn lemma_wire_len(&self) {
        self.cell.lemma_wire_len();
    }

    proof fn lemma_wire_round_trip(&self) {
        self.cell.lemma_wire_round_trip();
    }

    proof fn lemma_width_bound() {
    }

    fn size_of_type() -> (n: usize) {
        8
    }
}

impl IntoBiffData for CellBlank {
    fn size_of(&self) -> (n: usize) {
        8
    }

    fn into_biff_data(&self, offset: usize, out_data: &mut Vec<u8>) -> (res: Result<
        usize,
        BiffError,
    >) {
        self.cell.into_biff_data(offset, out_data)
    }
}

impl FromBiffData for CellBlank {
    fn from_biff_data(data: &[u8], offset: usize) -> (res: Result<(Self, usize), BiffError>) {
        match Cell::from_biff_data(data, offset) {
            Ok((v, n)) => Ok((CellBlank { cell: v }, n)),
            Err(e) => Err(e),
        }
    }
}

impl CheckBiff for CellBlank {
    open spec fn spec_valid(&self) -> bool {
        self.cell.spec_valid()
    }

    fn validated(&self) -> (res: Result<&Self, BiffError>) {
        match self.cell.validated() {
            Err(e) => Err(e),
            Ok(_) => Ok(self),
        }
    }
}

impl BiffSerializable for CellBlank {
    open spec fn spec_id() -> u16 {
        0x01
    }

    proof fn lemma_id_bound() {
    }

    fn id() -> (i: u16) {
        0x01
    }
}

/// A two-field composite — a 32-bit word followed by a one-byte flag —
/// carried under the fixed record identifier `0x25`.
#[derive(Clone, Copy, Debug, PartialEq, Eq, Structural)]
pub struct WordFlag {
    pub word: u32,
    pub flag: u8,
}

impl WordFlag {
    /// Bind the two fields in declared order.
    pub fn new(word: u32, flag: u8) -> (r: WordFlag)
        ensures
            r == (WordFlag { word, flag }),
    {
        WordFlag { word, flag }
    }
}

impl BiffDataCompatible for WordFlag {
    open spec fn spec_width() -> nat {
        5
    }

    open spec fn wire(&self) -> Seq<u8> {
        self.word.wire() + self.flag.wire()
    }

    open spec fn of_wire(b: Seq<u8>) -> WordFlag {
        WordFlag {
            word: <u32 as BiffDataCompatible>::of_wire(b.subrange(0, 4)),
            flag: <u8 as BiffDataCompatible>::of_wire(b.subrange(4, 5)),
        }
    }

    proof fn lemma_wire_len(&self) {
        self.word.lemma_wire_len();
        self.flag.lemma_wire_len();
    }

    proof fn lemma_wire_round_trip(&self) {
        self.word.lemma_wire_len();
        self.flag.lemma_wire_len();
        let w = self.wire();
        assert(w.subrange(0, 4) =~= self.word.wire());
        assert(w.subrange(4, 5) =~= self.flag.wire());
        self.word.lemma_wire_round_trip();
        self.flag.lemma_wire_round_trip();
    }

    proof fn lemma_width_bound() {
    }

    fn size_of_type() -> (n: usize) {
        5
    }
}

impl IntoBiffData for WordFlag {
    fn size_of(&self) -> (n: usize) {
        5
    }

    fn into_biff_data(&self, offset: usize, out_data: &mut Vec<u8>) -> (res: Result<
        usize,
        BiffError,
    >) {
        proof {
            self.word.lemma_wire_len();
            self.flag.lemma_wire_len();
        }
        if out_data.len() < 5 || offset > out_data.len() - 5 {
            return Err(BiffError::SizeMismatch);
        }
        let ghost pre = out_data@;
        let r1 = self.word.into_biff_data(offset, out_data);
        if r1.is_err() {
            proof {
                assert(false);
            }
            return Err(BiffError::SizeMismatch);
        }
        let ghost s1 = out_data@;
        let r2 = self.flag.into_biff_data(offset + 4, out_data);
        if r2.is_err() {
            proof {
                assert(false);
            }
            return Err(BiffError::SizeMismatch);
        }
        proof {
            let o = offset as int;
            let s2 = out_data@;
            lemma_splice_index(pre, s1, o, self.word.wire());
            lemma_splice_index(s1, s2, o + 4, self.flag.wire());
            let target = pre.subrange(0, o) + self.wire() + pre.subrange(o + 5, pre.len() as int);
            assert forall|j: int| 0 <= j < pre.len() implies s2[j] == target[j] by {
                if j < o {
                    assert(target[j] == pre.subrange(0, o)[j]);
                } else if j < o + 4 {
                    assert(s2[j] == s1[j]);
                    assert(s1[j] == self.word.wire()[j - o]);
                    assert(self.wire()[j - o] == self.word.wire()[j - o]);
                } else if j < o + 5 {
                    assert(s2[j] == self.flag.wire()[j - (o + 4)]);
                    assert(self.wire()[j - o] == self.flag.wire()[(j - o) - 4]);
                } else {
                    assert(target[j] == pre.subrange(o + 5, pre.len() as int)[j - (o + 5)]);
                }
            }
            assert(s2 =~= target);
        }
        Ok(5)
    }
}

impl FromBiffData for WordFlag {
    fn from_biff_data(data: &[u8], offset: usize) -> (res: Result<(Self, usize), BiffError>) {
        if data.len() < 5 || offset > data.len() - 5 {
            return Err(BiffError::SizeMismatch);
        }
        let word = match u32::from_biff_data(data, offset) {
            Ok((v, _)) => v,
            Err(_) => {
                proof {
                    assert(false);
                }
                return Err(BiffError::SizeMismatch);
            },
        };
        let flag = match u8::from_biff_data(data, offset + 4) {
            Ok((v, _)) => v,
            Err(_) => {
                proof {
                    assert(false);
                }
                return Err(BiffError::SizeMismatch);
            },
        };
        proof {
            let o = offset as int;
            let sub = data@.subrange(o, o + 5);
            assert(sub.subrange(0, 4) =~= data@.subrange(o, o + 4));
            assert(sub.subrange(4, 5) =~= data@.subrange(o + 4, o + 5));
        }
        Ok((WordFlag { word, flag }, 5))
    }
}

impl ValidBiff for WordFlag {

}

impl BiffSerializable for WordFlag {
    open spec fn spec_id() -> u16 {
        0x25
    }

    proof fn lemma_id_bound() {
    }

    fn id() -> (i: u16) {
        0x25
    }
}

} // verus!
