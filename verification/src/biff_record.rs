//! The record envelope: a type identifier together with an opaque payload,
//! read from and written to a byte stream.
//!
//! Reading decodes the identifier, then the payload size, then takes
//! exactly that many payload bytes. A stream that ends cleanly at a record
//! boundary is the end of input; one that ends inside a record is an
//! error. Writing always emits the minimal wire form of both header
//! fields, whatever form the record was read from.

use crate::biff_data::{pack_biff_data, BiffSerializable, FromBiffData, IntoBiffData};
use crate::biff_id::{
    encode_id, id_len, id_limit, lemma_id_bytes_parse, parse_id_at, spec_id_bytes,
};
use std::borrow::Cow;
use crate::biff_size::{
    lemma_parse_size_bound, lemma_size_bytes_parse, parse_size_at, size_len, size_limit,
    spec_size_bytes, BiffSize,
};
use crate::reader::ByteReader;
use crate::ParseOutcome;
use vstd::prelude::*;

verus! {

/// The ways an operation on records can fail.
#[derive(Clone, Copy, Debug, PartialEq, Eq, Structural)]
pub enum BiffError {
    /// A payload was empty where content was required.
    Empty,
    /// A length does not match the width the operation needs.
    SizeMismatch,
    /// Payload bytes cannot be interpreted as the requested kind of value.
    InvalidCast,
    /// A decoded value was rejected by a validation predicate.
    Invalid,
    /// The stream ended in the middle of a record.
    Truncated,
    /// Header bytes lie outside the wire format.
    Malformed,
    /// A magnitude exceeds what the wire format can represent.
    TooLarge,
    /// Mutually exclusive filters were both configured.
    FilterConflict,
}

/// What a record is, mathematically: its identifier and its payload bytes.
pub struct RecordView {
    pub id: u16,
    pub data: Seq<u8>,
}

/// The construction-time invariant of every record: the identifier fits
/// the compact scheme and the payload length is representable by the size
/// codec.
pub open spec fn record_wf(v: RecordView) -> bool {
    &&& v.id < id_limit()
    &&& v.data.len() < size_limit()
}

/// The full wire form of a record: identifier bytes, then the minimal wire
/// form of the payload length, then the payload verbatim.
pub open spec fn spec_record_bytes(v: RecordView) -> Seq<u8>
    recommends
        record_wf(v),
{
    spec_id_bytes(v.id) + spec_size_bytes(v.data.len() as u32) + v.data
}

/// Outcome of parsing one whole record at position `i` of a stream.
pub enum RecParse {
    /// A record was decoded from `n` bytes.
    Rec { id: u16, data: Seq<u8>, n: nat },
    /// The stream ends cleanly exactly at this record boundary.
    Eof,
    /// The record cannot be decoded: the stream ended inside it, or its
    /// header bytes lie outside the wire format.
    Fail(BiffError),
}

/// Parse one record at `s[i]`: identifier, size, then exactly `size`
/// payload bytes.
pub open spec fn parse_record_at(s: Seq<u8>, i: int) -> RecParse {
    if i == s.len() {
        RecParse::Eof
    } else {
        match parse_id_at(s, i) {
            ParseOutcome::Truncated => RecParse::Fail(BiffError::Truncated),
            ParseOutcome::Malformed => RecParse::Fail(BiffError::Malformed),
            ParseOutcome::Parsed { v: id, n: n1 } => match parse_size_at(s, i + n1) {
                ParseOutcome::Truncated => RecParse::Fail(BiffError::Truncated),
                ParseOutcome::Malformed => RecParse::Fail(BiffError::Malformed),
                ParseOutcome::Parsed { v: sz, n: n2 } => if i + n1 + n2 + sz <= s.len() {
                    RecParse::Rec {
                        id,
                        data: s.subrange(i + n1 + n2, i + n1 + n2 + sz),
                        n: n1 + n2 + sz,
                    }
                } else {
                    RecParse::Fail(BiffError::Truncated)
                },
            },
        }
    }
}

/// A successfully parsed record is well formed, consumed at least the
/// two header bytes, and lies inside the stream.
pub proof fn lemma_parse_record_bounds(s: Seq<u8>, i: int)
    ensures
        parse_record_at(s, i) matches RecParse::Rec { id, data, n } ==> {
            &&& record_wf(RecordView { id, data })
            &&& 2 <= n
            &&& 0 <= i
            &&& i + n <= s.len()
        },
{
    if i != s.len() {
        crate::biff_id::lemma_parse_id_bound(s, i);
        if let ParseOutcome::Parsed { v: id, n: n1 } = parse_id_at(s, i) {
            lemma_parse_size_bound(s, i + n1);
        }
    }
}

/// One tag-length-value unit of the stream: a type identifier and an
/// opaque payload. Immutable after construction. A record without payload
/// is simply one whose payload is empty: the two are indistinguishable,
/// on the wire and here.
#[derive(Debug)]
pub struct BiffRecord {
    id: u16,
    data: Vec<u8>,
}

impl View for BiffRecord {
    type V = RecordView;

    closed spec fn view(&self) -> RecordView {
        RecordView { id: self.id, data: self.data@ }
    }
}

impl BiffRecord {
    /// Every record that exists is well formed; out-of-range identifiers
    /// and unrepresentable payload lengths are construction-time errors.
    /// `use_type_invariant` hands this fact to any holder of a record.
    #[verifier::type_invariant]
    pub open spec fn wf(&self) -> bool {
        record_wf(self@)
    }

    /// Construct a record, rejecting identifiers and payload lengths that
    /// the wire format cannot represent.
    pub fn new(id: u16, data: Vec<u8>) -> (res: Result<BiffRecord, BiffError>)
        ensures
            match res {
                Ok(rec) => rec@ == (RecordView { id, data: data@ }) && record_wf(rec@),
                Err(e) => e == BiffError::TooLarge && !record_wf(RecordView { id, data: data@ }),
            },
    {
        if id >= 0x4000 {
            Err(BiffError::TooLarge)
        } else if data.len() >= 0x1000_0000 {
            Err(BiffError::TooLarge)
        } else {
            Ok(BiffRecord { id, data })
        }
    }

    /// Construct a record whose parts are already known to be in range.
    pub(crate) fn from_parts(id: u16, data: Vec<u8>) -> (rec: BiffRecord)
        requires
            id < id_limit(),
            data@.len() < size_limit(),
        ensures
            rec@ == (RecordView { id, data: data@ }),
    {
        BiffRecord { id, data }
    }

    /// The record's type identifier.
    pub fn id(&self) -> (id: u16)
        ensures
            id == self@.id,
    {
        self.id
    }

    /// The symbolic name of the record's type identifier, when one is
    /// registered.
    pub fn biff_id(&self) -> (r: crate::biff_id::BiffId)
        ensures
            r == crate::biff_id::spec_id_of_wire(crate::biff_id::spec_as_biff_id(self@.id)),
    {
        proof {
            use_type_invariant(self);
        }
        crate::biff_id::BiffId::from(crate::biff_id::as_biff_id(self.id))
    }

    /// The payload length in bytes.
    pub fn size(&self) -> (n: usize)
        ensures
            n == self@.data.len(),
    {
        self.data.len()
    }

    /// The payload bytes.
    pub fn payload(&self) -> (r: &Vec<u8>)
        ensures
            r@ == self@.data,
    {
        &self.data
    }

    /// The total number of bytes of the record's wire form: header plus
    /// payload.
    pub fn size_raw(&self) -> (n: usize)
        ensures
            n == spec_record_bytes(self@).len(),
    {
        proof {
            use_type_invariant(self);
        }
        let id_part: usize = if self.id < 0x80 {
            1
        } else {
            2
        };
        let sz = BiffSize::from_size(self.data.len() as u32);
        id_part + sz.inner().len() + self.data.len()
    }

    /// The record's wire form: identifier bytes, minimal size bytes, then
    /// the payload verbatim.
    pub fn to_bytes(&self) -> (out: Vec<u8>)
        ensures
            out@ == spec_record_bytes(self@),
    {
        proof {
            use_type_invariant(self);
        }
        let mut out = encode_id(self.id);
        let sz = BiffSize::from_size(self.data.len() as u32);
        out.extend_from_slice(sz.inner());
        out.extend_from_slice(self.data.as_slice());
        proof {
            assert(out@ =~= spec_record_bytes(self@));
        }
        out
    }

    /// Append the record's wire form to `writer` and return how many bytes
    /// were appended.
    pub fn push(&self, writer: &mut Vec<u8>) -> (n: usize)
        ensures
            final(writer)@ == old(writer)@ + spec_record_bytes(self@),
            n == spec_record_bytes(self@).len(),
    {
        let bytes = self.to_bytes();
        let n = bytes.len();
        writer.extend_from_slice(bytes.as_slice());
        n
    }

    /// Read one record. Returns `Ok(None)` only when the stream ends
    /// cleanly exactly at a record boundary, with nothing consumed; a
    /// stream that ends inside a record is a `Truncated` error.
    pub fn read(r: &mut ByteReader) -> (res: Result<Option<BiffRecord>, BiffError>)
        ensures
            final(r).wf(),
            final(r).spec_buf() == old(r).spec_buf(),
            match res {
                Ok(Some(rec)) => parse_record_at(old(r).spec_buf(), old(r).spec_pos())
                    matches RecParse::Rec { id, data, n }
                    && rec@.id == id
                    && rec@.data == data
                    && final(r).spec_pos() == old(r).spec_pos() + n,
                Ok(None) => parse_record_at(old(r).spec_buf(), old(r).spec_pos()) is Eof
                    && final(r).spec_pos() == old(r).spec_pos(),
                Err(e) => parse_record_at(old(r).spec_buf(), old(r).spec_pos())
                    == RecParse::Fail(e) && final(r).spec_pos() >= old(r).spec_pos(),
            },
    {
        let ghost s = r.spec_buf();
        let ghost p0 = r.spec_pos();
        proof {
            use_type_invariant(&*r);
        }
        if r.remaining() == 0 {
            return Ok(None);
        }
        // Identifier.
        let b0 = match r.read_byte() {
            Some(b) => b,
            None => {
                return Err(BiffError::Truncated);
            },
        };
        let id: u16;
        if b0 < 0x80 {
            id = b0 as u16;
        } else {
            let b1 = match r.read_byte() {
                Some(b) => b,
                None => {
                    return Err(BiffError::Truncated);
                },
            };
            if b1 >= 0x80 {
                return Err(BiffError::Malformed);
            }
            id = (b0 - 0x80) as u16 + 0x80 * (b1 as u16);
        }
        let ghost n1 = (r.spec_pos() - p0) as nat;
        proof {
            assert(parse_id_at(s, p0) == (ParseOutcome::Parsed { v: id, n: n1 }));
        }
        // Payload size.
        let sz = match Self::read_size(r) {
            Ok(sz) => sz,
            Err(e) => {
                return Err(e);
            },
        };
        // Payload.
        let data = match r.read_exact_vec(sz as usize) {
            Some(d) => d,
            None => {
                return Err(BiffError::Truncated);
            },
        };
        Ok(Some(BiffRecord::from_parts(id, data)))
    }

    /// Read a payload size: a continuation chain of at most 4 bytes.
    pub(crate) fn read_size(r: &mut ByteReader) -> (res: Result<u32, BiffError>)
        ensures
            final(r).wf(),
            final(r).spec_buf() == old(r).spec_buf(),
            final(r).spec_pos() >= old(r).spec_pos(),
            match res {
                Ok(sz) => parse_size_at(old(r).spec_buf(), old(r).spec_pos())
                    matches ParseOutcome::Parsed { v, n }
                    && v == sz
                    && sz < size_limit()
                    && final(r).spec_pos() == old(r).spec_pos() + n,
                Err(e) => (e == BiffError::Truncated
                    && parse_size_at(old(r).spec_buf(), old(r).spec_pos()) is Truncated)
                    || (e == BiffError::Malformed
                    && parse_size_at(old(r).spec_buf(), old(r).spec_pos()) is Malformed),
            },
    {
        let ghost s = r.spec_buf();
        let ghost p0 = r.spec_pos();
        proof {
            use_type_invariant(&*r);
            reveal_with_fuel(crate::biff_size::parse_varint_at, 5);
        }
        let b0 = match r.read_byte() {
            Some(b) => b,
            None => {
                return Err(BiffError::Truncated);
            },
        };
        if b0 < 0x80 {
            return Ok(b0 as u32);
        }
        let b1 = match r.read_byte() {
            Some(b) => b,
            None => {
                return Err(BiffError::Truncated);
            },
        };
        if b1 < 0x80 {
            return Ok((b0 - 0x80) as u32 + 0x80 * (b1 as u32));
        }
        let b2 = match r.read_byte() {
            Some(b) => b,
            None => {
                return Err(BiffError::Truncated);
            },
        };
        if b2 < 0x80 {
            return Ok((b0 - 0x80) as u32 + 0x80 * ((b1 - 0x80) as u32 + 0x80 * (b2 as u32)));
        }
        let b3 = match r.read_byte() {
            Some(b) => b,
            None => {
                return Err(BiffError::Truncated);
            },
        };
        if b3 < 0x80 {
            return Ok(
                (b0 - 0x80) as u32 + 0x80 * ((b1 - 0x80) as u32 + 0x80 * ((b2 - 0x80) as u32
                    + 0x80 * (b3 as u32))),
            );
        }
        Err(BiffError::Malformed)
    }
}

/// Round trip of the envelope: the wire form of any well-formed record,
/// read back from any stream that carries it, yields that record again —
/// identifier and payload unchanged — and consumes exactly its own bytes.
/// This holds for every identifier in range, whether or not a symbolic
/// name is registered for it.
pub proof fn lemma_record_bytes_parse(s: Seq<u8>, i: int, v: RecordView)
    requires
        record_wf(v),
        0 <= i,
        i + spec_record_bytes(v).len() <= s.len(),
        s.subrange(i, i + spec_record_bytes(v).len()) == spec_record_bytes(v),
    ensures
        parse_record_at(s, i) == (RecParse::Rec {
            id: v.id,
            data: v.data,
            n: spec_record_bytes(v).len() as nat,
        }),
{
    let a = spec_id_bytes(v.id);
    let b = spec_size_bytes(v.data.len() as u32);
    let enc = spec_record_bytes(v);
    let al = id_len(v.id) as int;
    let bl = size_len(v.data.len() as u32) as int;
    let dl = v.data.len() as int;
    assert(a.len() == al);
    assert(b.len() == bl);
    assert(enc.len() == al + bl + dl);
    let sub = s.subrange(i, i + enc.len());
    assert(s.subrange(i, i + al) =~= a) by {
        assert forall|k: int| 0 <= k < al implies s.subrange(i, i + al)[k] == a[k] by {
            assert(s.subrange(i, i + al)[k] == s[i + k]);
            assert(sub[k] == s[i + k]);
            assert(enc[k] == (a + b)[k]);
        }
    }
    lemma_id_bytes_parse(s, i, v.id);
    assert(s.subrange(i + al, i + al + bl) =~= b) by {
        assert forall|k: int| 0 <= k < bl implies s.subrange(i + al, i + al + bl)[k] == b[k] by {
            assert(s.subrange(i + al, i + al + bl)[k] == s[(i + al) + k]);
            assert(sub[al + k] == s[i + (al + k)]);
            assert(enc[al + k] == (a + b)[al + k]);
            assert((a + b)[al + k] == b[k]);
        }
    }
    lemma_size_bytes_parse(s, i + al, v.data.len() as u32);
    assert(s.subrange(i + al + bl, i + al + bl + dl) =~= v.data) by {
        assert forall|k: int| 0 <= k < dl implies s.subrange(
            i + al + bl,
            i + al + bl + dl,
        )[k] == v.data[k] by {
            assert(s.subrange(i + al + bl, i + al + bl + dl)[k] == s[(i + al + bl) + k]);
            assert(sub[al + bl + k] == s[i + (al + bl + k)]);
            assert(enc[al + bl + k] == v.data[k]);
        }
    }
}

impl BiffRecord {
    /// The payload as a read-only decoding window.
    pub fn data<'a>(&'a self) -> (r: DataSlice<'a>)
        ensures
            r@ == self@.data,
    {
        DataSlice::new(self.data.as_slice())
    }

    /// Interpret the whole payload as one `T`; only a payload of exactly
    /// `T`'s static width qualifies.
    pub fn data_as<T: FromBiffData>(&self) -> (res: Result<T, BiffError>)
        ensures
            match res {
                Ok(v) => self@.data.len() == T::spec_width() && v == T::of_wire(self@.data),
                Err(e) => e == BiffError::SizeMismatch && self@.data.len() != T::spec_width(),
            },
    {
        T::deserialize(self.data.as_slice())
    }

    /// Decode one `T` out of the payload at `offset`.
    pub fn as_biff_data<T: FromBiffData>(&self, offset: usize) -> (res: Result<T, BiffError>)
        ensures
            match res {
                Ok(v) => offset + T::spec_width() <= self@.data.len() && v == T::of_wire(
                    self@.data.subrange(offset as int, offset + T::spec_width()),
                ),
                Err(e) => e == BiffError::SizeMismatch && offset + T::spec_width()
                    > self@.data.len(),
            },
    {
        match T::from_biff_data(self.data.as_slice(), offset) {
            Ok((v, _n)) => Ok(v),
            Err(e) => Err(e),
        }
    }

    /// Unwrap the record into a serializable composite type: only a
    /// record carrying that type's identifier and exactly one value
    /// qualifies.
    pub fn as_biff<T: BiffSerializable>(&self) -> (res: Result<T, BiffError>)
        ensures
            match res {
                Ok(v) => self@.id == T::spec_id() && self@.data.len() == T::spec_width() && v
                    == T::of_wire(self@.data),
                Err(e) => (e == BiffError::InvalidCast && self@.id != T::spec_id()) || (e
                    == BiffError::SizeMismatch && self@.id == T::spec_id() && self@.data.len()
                    != T::spec_width()),
            },
    {
        T::from_biff(self)
    }

    /// Build a record carrying a typed value's wire form under the given
    /// identifier.
    pub fn from_sized<T: IntoBiffData>(id: u16, value: &T) -> (res: Result<BiffRecord, BiffError>)
        ensures
            match res {
                Ok(rec) => id < id_limit() && rec@.id == id && rec@.data == value.wire(),
                Err(e) => e == BiffError::TooLarge && id >= id_limit(),
            },
    {
        if id >= 0x4000 {
            return Err(BiffError::TooLarge);
        }
        match pack_biff_data(value) {
            Ok(data) => {
                proof {
                    T::lemma_width_bound();
                    value.lemma_wire_len();
                }
                Ok(BiffRecord::from_parts(id, data))
            },
            Err(e) => {
                proof {
                    assert(false);
                }
                Err(e)
            },
        }
    }

    /// Interpret the payload as a wide-string cell payload: a 32-bit
    /// character count — `0xFFFF_FFFF` standing for no string at all —
    /// followed by exactly that many UTF-16 code units.
    pub fn data_as_xlws(&self) -> (res: Result<Option<String>, BiffError>)
        ensures
            match res {
                Ok(None) => spec_xlws(self@.data) == Ok::<Option<Seq<char>>, BiffError>(None),
                Ok(Some(s)) => spec_xlws(self@.data) matches Ok(Some(t)) && s@ == t,
                Err(e) => spec_xlws(self@.data) == Err::<Option<Seq<char>>, BiffError>(e),
            },
    {
        proof {
            use_type_invariant(self);
        }
        let n = self.data.len();
        if n == 0 {
            return Err(BiffError::Empty);
        }
        if n < 4 || n % 2 != 0 {
            return Err(BiffError::SizeMismatch);
        }
        let cnt = match crate::le_bytes::read_le_bytes(self.data.as_slice(), 4, 0) {
            Ok(v) => v,
            Err(_) => {
                proof {
                    assert(false);
                }
                return Err(BiffError::SizeMismatch);
            },
        };
        proof {
            crate::le_bytes::lemma_pow256_8_values();
        }
        if cnt == 0xFFFF_FFFF {
            return Ok(None);
        }
        if cnt == 0 {
            return Ok(Some(String::new()));
        }
        if 2 * cnt != (n as u64) - 4 {
            return Err(BiffError::SizeMismatch);
        }
        let rest = vstd::slice::slice_subrange(self.data.as_slice(), 4, n);
        proof {
            assert(rest@ =~= self@.data.skip(4));
        }
        match decode_utf16le(rest) {
            Some(s) => Ok(Some(s)),
            None => Err(BiffError::InvalidCast),
        }
    }
}

/// What a record payload says when read as a wide-string cell payload: a
/// 32-bit character count — `0xFFFF_FFFF` standing for no string at all,
/// zero for the empty string — then exactly `2 * count` bytes of UTF-16
/// code units.
pub open spec fn spec_xlws(d: Seq<u8>) -> Result<Option<Seq<char>>, BiffError> {
    if d.len() == 0 {
        Err(BiffError::Empty)
    } else if d.len() < 4 || d.len() % 2 != 0 {
        Err(BiffError::SizeMismatch)
    } else {
        let n = crate::le_bytes::le_val(d.subrange(0, 4));
        if n == 0xFFFF_FFFF {
            Ok(None)
        } else if n == 0 {
            Ok(Some(Seq::empty()))
        } else if 2 * n != d.len() - 4 {
            Err(BiffError::SizeMismatch)
        } else {
            match utf16le_of(d.skip(4)) {
                Some(s) => Ok(Some(s)),
                None => Err(BiffError::InvalidCast),
            }
        }
    }
}

/// The characters that a byte sequence holds as little-endian UTF-16, or
/// nothing when it is not well-formed UTF-16.
pub uninterp spec fn utf16le_of(b: Seq<u8>) -> Option<Seq<char>>;

/// Relies on encoding_rs's `UTF_16LE.decode_without_bom_handling_and_without_replacement`:
/// over a complete input buffer it returns the decoded string, or `None`
/// exactly when a malformed sequence occurs, and the result depends on
/// the input bytes alone. The length bound keeps its internal buffer-size
/// arithmetic, the one thing that could make it panic, away from
/// overflow.
#[verifier::external_body]
fn decode_utf16le(bytes: &[u8]) -> (r: Option<String>)
    requires
        bytes@.len() < 0x1000_0000,
    ensures
        r is Some <==> utf16le_of(bytes@) is Some,
        r matches Some(s) ==> utf16le_of(bytes@) == Some(s@),
{
    match encoding_rs::UTF_16LE.decode_without_bom_handling_and_without_replacement(bytes) {
        Some(Cow::Borrowed(s)) => Some(s.to_owned()),
        Some(Cow::Owned(s)) => Some(s),
        None => None,
    }
}

/// A read-only window over payload bytes, for decoding typed values out
/// of it at chosen offsets.
pub struct DataSlice<'a> {
    data: &'a [u8],
}

impl<'a> View for DataSlice<'a> {
    type V = Seq<u8>;

    closed spec fn view(&self) -> Seq<u8> {
        self.data@
    }
}

impl<'a> DataSlice<'a> {
    /// Wrap a byte window.
    pub fn new(data: &'a [u8]) -> (r: DataSlice<'a>)
        ensures
            r@ == data@,
    {
        DataSlice { data }
    }

    /// Decode one `T` at `offset`.
    pub fn peek<T: FromBiffData>(&self, offset: usize) -> (res: Result<T, BiffError>)
        ensures
            match res {
                Ok(v) => offset + T::spec_width() <= self@.len() && v == T::of_wire(
                    self@.subrange(offset as int, offset + T::spec_width()),
                ),
                Err(e) => e == BiffError::SizeMismatch && offset + T::spec_width() > self@.len(),
            },
    {
        match T::from_biff_data(self.data, offset) {
            Ok((v, _n)) => Ok(v),
            Err(e) => Err(e),
        }
    }

    /// Decode `count` consecutive `T`s starting at `offset`.
    pub fn peek_many<T: FromBiffData>(&self, offset: usize, count: usize) -> (res: Result<
        Vec<T>,
        BiffError,
    >)
        ensures
            match res {
                Ok(vs) => {
                    &&& vs@.len() == count
                    &&& (count == 0 || offset + count * T::spec_width() <= self@.len())
                    &&& (forall|k: int|
                        0 <= k < count ==> #[trigger] vs@[k] == T::of_wire(
                            self@.subrange(
                                offset + k * T::spec_width(),
                                offset + (k + 1) * T::spec_width(),
                            ),
                        ))
                },
                Err(e) => {
                    &&& e == BiffError::SizeMismatch
                    &&& count > 0
                    &&& offset + count * T::spec_width() > self@.len()
                },
            },
    {
        let avail = self.data.len();
        let mut out: Vec<T> = Vec::new();
        let mut cur: usize = offset;
        let mut j: usize = 0;
        while j < count
            invariant
                j <= count,
                out@.len() == j,
                cur == offset + j * T::spec_width(),
                j > 0 ==> cur <= self@.len(),
                self@.len() == avail,
                self@ == self.data@,
                forall|k: int|
                    0 <= k < j ==> #[trigger] out@[k] == T::of_wire(
                        self@.subrange(
                            offset + k * T::spec_width(),
                            offset + (k + 1) * T::spec_width(),
                        ),
                    ),
            decreases count - j,
        {
            match T::from_biff_data(self.data, cur) {
                Ok((v, n)) => {
                    out.push(v);
                    proof {
                        assert((j + 1) * T::spec_width() == j * T::spec_width() + T::spec_width())
                            by (nonlinear_arith)
                        ;
                    }
                    cur = cur + n;
                    j = j + 1;
                },
                Err(e) => {
                    proof {
                        assert((j + 1) * T::spec_width() == j * T::spec_width() + T::spec_width())
                            by (nonlinear_arith)
                        ;
                        assert((j + 1) * T::spec_width() <= count * T::spec_width())
                            by (nonlinear_arith)
                            requires
                                j + 1 <= count,
                        ;
                    }
                    return Err(BiffError::SizeMismatch);
                },
            }
        }
        Ok(out)
    }
}

/// Decode one `T` at `offset` of a raw byte window.
pub fn try_to_sized<T: FromBiffData>(offset: usize, data: &[u8]) -> (res: Result<T, BiffError>)
    ensures
        match res {
            Ok(v) => offset + T::spec_width() <= data@.len() && v == T::of_wire(
                data@.subrange(offset as int, offset + T::spec_width()),
            ),
            Err(e) => e == BiffError::SizeMismatch && offset + T::spec_width() > data@.len(),
        },
{
    match T::from_biff_data(data, offset) {
        Ok((v, _n)) => Ok(v),
        Err(e) => Err(e),
    }
}

} // verus!
