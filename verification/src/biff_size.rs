//! Wire form of the payload-size field of a record.
//!
//! A size is encoded into 1 to 4 bytes. Each byte carries 7 bits of the
//! magnitude, least-significant group first; every byte except the last has
//! its most-significant bit set ("more bytes follow"). The encoding always
//! uses the minimum number of bytes, so sizes up to `0x7F` take one byte and
//! sizes up to `0xFFF_FFFF` take four. Larger magnitudes cannot be
//! represented at all.

use crate::ParseOutcome;
use vstd::prelude::*;

verus! {

/// Largest payload size the wire format can represent, plus one.
pub open spec fn size_limit() -> int {
    0x1000_0000
}

/// Number of bytes in the minimal wire form of `sz`.
pub open spec fn size_len(sz: u32) -> nat {
    if sz < 0x80 {
        1
    } else if sz < 0x4000 {
        2
    } else if sz < 0x20_0000 {
        3
    } else {
        4
    }
}

/// Minimal wire form of `sz`: 7-bit groups, least significant first, the
/// top bit of every byte but the last set.
pub open spec fn spec_size_bytes(sz: u32) -> Seq<u8>
    recommends
        sz < size_limit(),
{
    if sz < 0x80 {
        seq![sz as u8]
    } else if sz < 0x4000 {
        seq![(sz % 0x80 + 0x80) as u8, (sz / 0x80) as u8]
    } else if sz < 0x20_0000 {
        seq![
            (sz % 0x80 + 0x80) as u8,
            (sz / 0x80 % 0x80 + 0x80) as u8,
            (sz / 0x4000) as u8,
        ]
    } else {
        seq![
            (sz % 0x80 + 0x80) as u8,
            (sz / 0x80 % 0x80 + 0x80) as u8,
            (sz / 0x4000 % 0x80 + 0x80) as u8,
            (sz / 0x20_0000) as u8,
        ]
    }
}

/// The wire form of a record's payload size, holding exactly the bytes that
/// are written to the stream.
pub enum BiffSize {
    U8([u8; 1]),
    U16([u8; 2]),
    U24([u8; 3]),
    U32([u8; 4]),
}

impl BiffSize {
    /// The bytes this wire form carries.
    pub open spec fn spec_bytes(&self) -> Seq<u8> {
        match self {
            BiffSize::U8(b) => b@,
            BiffSize::U16(b) => b@,
            BiffSize::U24(b) => b@,
            BiffSize::U32(b) => b@,
        }
    }

    /// Encode `sz` into its minimal wire form. Magnitudes of `0x1000_0000`
    /// and above cannot be represented, so they are ruled out up front.
    pub fn from_size(sz: u32) -> (r: BiffSize)
        requires
            sz < size_limit(),
        ensures
            r.spec_bytes() == spec_size_bytes(sz),
            r.spec_bytes().len() == size_len(sz),
    {
        if sz < 0x80 {
            BiffSize::U8([sz as u8])
        } else if sz < 0x4000 {
            BiffSize::U16([(sz % 0x80 + 0x80) as u8, (sz / 0x80) as u8])
        } else if sz < 0x20_0000 {
            BiffSize::U24(
                [
                    (sz % 0x80 + 0x80) as u8,
                    (sz / 0x80 % 0x80 + 0x80) as u8,
                    (sz / 0x4000) as u8,
                ],
            )
        } else {
            BiffSize::U32(
                [
                    (sz % 0x80 + 0x80) as u8,
                    (sz / 0x80 % 0x80 + 0x80) as u8,
                    (sz / 0x4000 % 0x80 + 0x80) as u8,
                    (sz / 0x20_0000) as u8,
                ],
            )
        }
    }

    /// Borrow the encoded bytes.
    pub fn inner(&self) -> (r: &[u8])
        ensures
            r@ == self.spec_bytes(),
    {
        match self {
            BiffSize::U8(b) => b.as_slice(),
            BiffSize::U16(b) => b.as_slice(),
            BiffSize::U24(b) => b.as_slice(),
            BiffSize::U32(b) => b.as_slice(),
        }
    }
}

/// `0x80` raised to `k`: the number of values a `k`-byte continuation
/// chain can carry.
pub open spec fn pow128(k: nat) -> nat
    decreases k,
{
    if k == 0 {
        1
    } else {
        0x80 * pow128((k - 1) as nat)
    }
}

/// Parse a continuation chain of at most `max` bytes starting at `s[i]`:
/// 7-bit groups accumulate least significant first until a byte with a
/// clear top bit ends the chain.
pub open spec fn parse_varint_at(s: Seq<u8>, i: int, max: nat) -> ParseOutcome<nat>
    decreases max,
{
    if max == 0 {
        ParseOutcome::Malformed
    } else if i < 0 || i >= s.len() {
        ParseOutcome::Truncated
    } else if s[i] < 0x80 {
        ParseOutcome::Parsed { v: s[i] as nat, n: 1 }
    } else if max == 1 {
        ParseOutcome::Malformed
    } else {
        match parse_varint_at(s, i + 1, (max - 1) as nat) {
            ParseOutcome::Parsed { v, n } => ParseOutcome::Parsed {
                v: (s[i] - 0x80) as nat + 0x80 * v,
                n: n + 1,
            },
            o => o,
        }
    }
}

/// Parse a payload size at `s[i]`: a continuation chain of at most 4 bytes.
pub open spec fn parse_size_at(s: Seq<u8>, i: int) -> ParseOutcome<nat> {
    parse_varint_at(s, i, 4)
}

/// A parsed chain of at most `max` bytes stays under `pow128(max)` and
/// consumed between 1 and `max` bytes, all of them in the stream.
pub proof fn lemma_parse_varint_bounds(s: Seq<u8>, i: int, max: nat)
    ensures
        parse_varint_at(s, i, max) matches ParseOutcome::Parsed { v, n } ==> {
            &&& v < pow128(max)
            &&& 1 <= n <= max
            &&& i + n <= s.len()
            &&& 0 <= i
        },
    decreases max,
{
    if max == 0 || i < 0 || i >= s.len() {
    } else if s[i] < 0x80 {
        assert(pow128(max) == 0x80 * pow128((max - 1) as nat));
        lemma_pow128_pos((max - 1) as nat);
        assert(s[i] < 0x80 * pow128((max - 1) as nat)) by (nonlinear_arith)
            requires
                s[i] < 0x80,
                pow128((max - 1) as nat) >= 1,
        ;
    } else if max == 1 {
    } else {
        lemma_parse_varint_bounds(s, i + 1, (max - 1) as nat);
        if let ParseOutcome::Parsed { v, n } = parse_varint_at(s, i + 1, (max - 1) as nat) {
            assert((s[i] - 0x80) as nat + 0x80 * v < 0x80 * pow128((max - 1) as nat))
                by (nonlinear_arith)
                requires
                    v < pow128((max - 1) as nat),
                    s[i] < 0x100,
                    s[i] >= 0x80,
            ;
        }
    }
}

/// `pow128` is positive.
pub proof fn lemma_pow128_pos(k: nat)
    ensures
        pow128(k) >= 1,
    decreases k,
{
    if k > 0 {
        lemma_pow128_pos((k - 1) as nat);
        assert(0x80 * pow128((k - 1) as nat) >= pow128((k - 1) as nat)) by (nonlinear_arith)
            requires
                pow128((k - 1) as nat) >= 1,
        ;
    }
}

/// A size parsed from at most 4 continuation bytes fits the representable
/// range of the format.
pub proof fn lemma_parse_size_bound(s: Seq<u8>, i: int)
    ensures
        parse_size_at(s, i) matches ParseOutcome::Parsed { v, n } ==> {
            &&& v < size_limit()
            &&& 1 <= n <= 4
            &&& 0 <= i
            &&& i + n <= s.len()
        },
{
    lemma_parse_varint_bounds(s, i, 4);
    assert(pow128(4) == 0x1000_0000) by {
        reveal_with_fuel(pow128, 5);
    }
}

/// Round trip of the size codec: the minimal wire form of `sz`, read back
/// from any stream that carries it, yields `sz` again and consumes exactly
/// its own bytes.
pub proof fn lemma_size_bytes_parse(s: Seq<u8>, i: int, sz: u32)
    requires
        sz < size_limit(),
        0 <= i,
        i + size_len(sz) <= s.len(),
        s.subrange(i, i + size_len(sz)) == spec_size_bytes(sz),
    ensures
        parse_size_at(s, i) == (ParseOutcome::Parsed { v: sz as nat, n: size_len(sz) }),
{
    reveal_with_fuel(parse_varint_at, 5);
    let sub = s.subrange(i, i + size_len(sz));
    assert(sub.len() == size_len(sz));
    assert(s[i] == sub[0]);
    if size_len(sz) >= 2 {
        assert(s[i + 1] == sub[1]);
    }
    if size_len(sz) >= 3 {
        assert(s[i + 2] == sub[2]);
    }
    if size_len(sz) == 4 {
        assert(s[i + 3] == sub[3]);
    }
    if sz < 0x80 {
        assert(s[i] == sz);
    } else if sz < 0x4000 {
        assert(s[i] == sz % 0x80 + 0x80);
        assert(s[i + 1] == sz / 0x80);
        assert(sz / 0x80 < 0x80);
        assert((s[i] - 0x80) as nat + 0x80 * (sz / 0x80) as nat == sz);
    } else if sz < 0x20_0000 {
        assert(s[i] == sz % 0x80 + 0x80);
        assert(s[i + 1] == sz / 0x80 % 0x80 + 0x80);
        assert(s[i + 2] == sz / 0x4000);
        assert(sz / 0x4000 < 0x80);
        assert(sz / 0x80 / 0x80 == sz / 0x4000) by (nonlinear_arith);
        assert((s[i + 1] - 0x80) as nat + 0x80 * (sz / 0x4000) as nat == sz / 0x80) by {
            assert(sz / 0x80 % 0x80 + 0x80 * (sz / 0x80 / 0x80) == sz / 0x80);
        }
        assert((s[i] - 0x80) as nat + 0x80 * (sz / 0x80) as nat == sz);
    } else {
        assert(s[i] == sz % 0x80 + 0x80);
        assert(s[i + 1] == sz / 0x80 % 0x80 + 0x80);
        assert(s[i + 2] == sz / 0x4000 % 0x80 + 0x80);
        assert(s[i + 3] == sz / 0x20_0000);
        assert(sz / 0x20_0000 < 0x80);
        assert(sz / 0x4000 / 0x80 == sz / 0x20_0000) by (nonlinear_arith);
        assert(sz / 0x80 / 0x80 == sz / 0x4000) by (nonlinear_arith);
        assert((s[i + 2] - 0x80) as nat + 0x80 * (sz / 0x20_0000) as nat == sz / 0x4000) by {
            assert(sz / 0x4000 % 0x80 + 0x80 * (sz / 0x4000 / 0x80) == sz / 0x4000);
        }
        assert((s[i + 1] - 0x80) as nat + 0x80 * (sz / 0x4000) as nat == sz / 0x80) by {
            assert(sz / 0x80 % 0x80 + 0x80 * (sz / 0x80 / 0x80) == sz / 0x80);
        }
        assert((s[i] - 0x80) as nat + 0x80 * (sz / 0x80) as nat == sz);
    }
}

} // verus!
