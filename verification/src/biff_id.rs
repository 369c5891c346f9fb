//! Wire form of the record type identifier, and symbolic names for a few
//! well-known identifiers.
//!
//! An identifier is a number in `0 ..= 0x3FFF`. Identifiers up to `0x7F`
//! are written as that single byte; larger ones are written as two bytes:
//! the low 7 bits with the top bit set, then the remaining 7 bits. The
//! numeric value is what matters on the wire; a symbolic name is a lookup
//! convenience, and identifiers without a registered name are just as
//! valid.

use crate::ParseOutcome;
use vstd::prelude::*;

verus! {

/// Largest identifier the compact scheme can represent, plus one.
pub open spec fn id_limit() -> int {
    0x4000
}

/// Number of bytes in the wire form of `id`.
pub open spec fn id_len(id: u16) -> nat {
    if id < 0x80 {
        1
    } else {
        2
    }
}

/// Wire form of `id`: one byte verbatim, or low 7 bits with the top bit
/// set followed by the remaining bits.
pub open spec fn spec_id_bytes(id: u16) -> Seq<u8>
    recommends
        id < id_limit(),
{
    if id < 0x80 {
        seq![id as u8]
    } else {
        seq![(id % 0x80 + 0x80) as u8, (id / 0x80) as u8]
    }
}

/// The two wire bytes of a two-byte identifier, read as one little-endian
/// 16-bit number. This is the tag value that the raw record stream carries
/// and that the symbolic table is keyed by.
pub open spec fn spec_as_biff_id(id: u16) -> u16
    recommends
        id < id_limit(),
{
    if id < 0x80 {
        id
    } else {
        (id % 0x80 + 0x80 + 0x100 * (id / 0x80 % 0x80)) as u16
    }
}

/// Map an identifier to its raw on-the-wire tag value: the little-endian
/// reading of its wire bytes.
pub fn as_biff_id(id: u16) -> (w: u16)
    ensures
        w == spec_as_biff_id(id),
{
    if id > 0x7f {
        id % 0x80 + 0x80 + (id / 0x80 % 0x80) * 0x100
    } else {
        id
    }
}

/// Encode `id` into its wire bytes.
pub fn encode_id(id: u16) -> (r: Vec<u8>)
    requires
        id < id_limit(),
    ensures
        r@ == spec_id_bytes(id),
        r@.len() == id_len(id),
{
    let mut out: Vec<u8> = Vec::new();
    if id < 0x80 {
        out.push(id as u8);
    } else {
        out.push((id % 0x80 + 0x80) as u8);
        out.push((id / 0x80) as u8);
    }
    proof {
        assert(out@ =~= spec_id_bytes(id));
    }
    out
}

/// Parse an identifier at `s[i]`. A first byte with a clear top bit is the
/// identifier itself; otherwise a second byte follows, and its own top bit
/// must be clear, or the tag would lie outside the 14-bit range.
pub open spec fn parse_id_at(s: Seq<u8>, i: int) -> ParseOutcome<u16> {
    if i < 0 || i >= s.len() {
        ParseOutcome::Truncated
    } else if s[i] < 0x80 {
        ParseOutcome::Parsed { v: s[i] as u16, n: 1 }
    } else if i + 1 >= s.len() {
        ParseOutcome::Truncated
    } else if s[i + 1] >= 0x80 {
        ParseOutcome::Malformed
    } else {
        ParseOutcome::Parsed { v: ((s[i] - 0x80) + 0x80 * s[i + 1]) as u16, n: 2 }
    }
}

/// A parsed identifier lies in the representable range and consumed 1 or 2
/// bytes of the stream.
pub proof fn lemma_parse_id_bound(s: Seq<u8>, i: int)
    ensures
        parse_id_at(s, i) matches ParseOutcome::Parsed { v, n } ==> {
            &&& v < id_limit()
            &&& 1 <= n <= 2
            &&& 0 <= i
            &&& i + n <= s.len()
        },
{
}

/// Round trip of the identifier codec: the wire form of `id`, read back
/// from any stream that carries it, yields `id` again and consumes exactly
/// its own bytes.
pub proof fn lemma_id_bytes_parse(s: Seq<u8>, i: int, id: u16)
    requires
        id < id_limit(),
        0 <= i,
        i + id_len(id) <= s.len(),
        s.subrange(i, i + id_len(id)) == spec_id_bytes(id),
    ensures
        parse_id_at(s, i) == (ParseOutcome::Parsed { v: id, n: id_len(id) }),
{
    let sub = s.subrange(i, i + id_len(id));
    assert(sub.len() == id_len(id));
    assert(s[i] == sub[0]);
    if id < 0x80 {
    } else {
        assert(s[i + 1] == sub[1]);
        assert(s[i] == id % 0x80 + 0x80);
        assert(s[i + 1] == id / 0x80);
        assert(id / 0x80 < 0x80);
        assert((s[i] - 0x80) + 0x80 * (id / 0x80) == id);
    }
}

/// Symbolic names for a few well-known record type identifiers, keyed by
/// the raw on-the-wire tag value. The table is deliberately not
/// exhaustive: a tag without a registered name is carried as
/// [`BiffId::Unknown`] and is in no way less valid.
#[derive(Clone, Copy, Debug, PartialEq, Eq, Structural)]
pub enum BiffId {
    BrtRowHdr,
    BrtCellBlank,
    BrtCellRk,
    BrtCellError,
    BrtCellBool,
    BrtCellReal,
    BrtCellSt,
    BrtCellIsst,
    BrtACBegin,
    BrtACEnd,
    BrtFileVersion,
    BrtBeginSheet,
    BrtEndSheet,
    BrtBeginSheetData,
    BrtEndSheetData,
    /// A tag with no registered symbolic name, carried verbatim.
    Unknown(u16),
}

/// The symbolic name registered for a raw tag value, if any.
pub open spec fn spec_id_of_wire(w: u16) -> BiffId {
    if w == 0x00 {
        BiffId::BrtRowHdr
    } else if w == 0x01 {
        BiffId::BrtCellBlank
    } else if w == 0x02 {
        BiffId::BrtCellRk
    } else if w == 0x03 {
        BiffId::BrtCellError
    } else if w == 0x04 {
        BiffId::BrtCellBool
    } else if w == 0x05 {
        BiffId::BrtCellReal
    } else if w == 0x06 {
        BiffId::BrtCellSt
    } else if w == 0x07 {
        BiffId::BrtCellIsst
    } else if w == 0x25 {
        BiffId::BrtACBegin
    } else if w == 0x26 {
        BiffId::BrtACEnd
    } else if w == 0x180 {
        BiffId::BrtFileVersion
    } else if w == 0x181 {
        BiffId::BrtBeginSheet
    } else if w == 0x182 {
        BiffId::BrtEndSheet
    } else if w == 0x191 {
        BiffId::BrtBeginSheetData
    } else if w == 0x192 {
        BiffId::BrtEndSheetData
    } else {
        BiffId::Unknown(w)
    }
}

impl BiffId {
    /// The raw tag value this name stands for.
    pub open spec fn spec_wire(&self) -> u16 {
        match self {
            BiffId::BrtRowHdr => 0x00,
            BiffId::BrtCellBlank => 0x01,
            BiffId::BrtCellRk => 0x02,
            BiffId::BrtCellError => 0x03,
            BiffId::BrtCellBool => 0x04,
            BiffId::BrtCellReal => 0x05,
            BiffId::BrtCellSt => 0x06,
            BiffId::BrtCellIsst => 0x07,
            BiffId::BrtACBegin => 0x25,
            BiffId::BrtACEnd => 0x26,
            BiffId::BrtFileVersion => 0x180,
            BiffId::BrtBeginSheet => 0x181,
            BiffId::BrtEndSheet => 0x182,
            BiffId::BrtBeginSheetData => 0x191,
            BiffId::BrtEndSheetData => 0x192,
            BiffId::Unknown(w) => *w,
        }
    }

    /// The raw tag value this name stands for.
    pub fn wire(&self) -> (w: u16)
        ensures
            w == self.spec_wire(),
    {
        match self {
            BiffId::BrtRowHdr => 0x00,
            BiffId::BrtCellBlank => 0x01,
            BiffId::BrtCellRk => 0x02,
            BiffId::BrtCellError => 0x03,
            BiffId::BrtCellBool => 0x04,
            BiffId::BrtCellReal => 0x05,
            BiffId::BrtCellSt => 0x06,
            BiffId::BrtCellIsst => 0x07,
            BiffId::BrtACBegin => 0x25,
            BiffId::BrtACEnd => 0x26,
            BiffId::BrtFileVersion => 0x180,
            BiffId::BrtBeginSheet => 0x181,
            BiffId::BrtEndSheet => 0x182,
            BiffId::BrtBeginSheetData => 0x191,
            BiffId::BrtEndSheetData => 0x192,
            BiffId::Unknown(w) => *w,
        }
    }
}

impl From<u16> for BiffId {
    /// Look up the symbolic name of a raw tag value, falling back to the
    /// raw number itself when none is registered.
    fn from(w: u16) -> (r: BiffId) {
        match w {
            0x00 => BiffId::BrtRowHdr,
            0x01 => BiffId::BrtCellBlank,
            0x02 => BiffId::BrtCellRk,
            0x03 => BiffId::BrtCellError,
            0x04 => BiffId::BrtCellBool,
            0x05 => BiffId::BrtCellReal,
            0x06 => BiffId::BrtCellSt,
            0x07 => BiffId::BrtCellIsst,
            0x25 => BiffId::BrtACBegin,
            0x26 => BiffId::BrtACEnd,
            0x180 => BiffId::BrtFileVersion,
            0x181 => BiffId::BrtBeginSheet,
            0x182 => BiffId::BrtEndSheet,
            0x191 => BiffId::BrtBeginSheetData,
            0x192 => BiffId::BrtEndSheetData,
            _ => BiffId::Unknown(w),
        }
    }
}

impl vstd::std_specs::convert::FromSpecImpl<u16> for BiffId {
    open spec fn obeys_from_spec() -> bool {
        true
    }

    open spec fn from_spec(w: u16) -> BiffId {
        spec_id_of_wire(w)
    }
}

/// The name looked up for a tag carries that tag: naming is a convenience
/// and loses nothing, also for tags with no registered name.
pub proof fn lemma_id_name_round_trip(w: u16)
    ensures
        spec_id_of_wire(w).spec_wire() == w,
{
}

} // verus!
