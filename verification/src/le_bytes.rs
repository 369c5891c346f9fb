//! Little-endian byte layouts for fixed-width numeric values.
//!
//! Numeric fields are written byte for byte, least significant first,
//! with explicit arithmetic rather than any in-memory layout, so the wire
//! form is the same on every platform.

use crate::biff_record::BiffError;
use vstd::prelude::*;

verus! {

/// `0x100` raised to `k`: the number of values `k` bytes can carry.
pub open spec fn pow256(k: nat) -> nat
    decreases k,
{
    if k == 0 {
        1
    } else {
        0x100 * pow256((k - 1) as nat)
    }
}

/// The `n` little-endian bytes of `v`.
pub open spec fn le_bytes_of(v: nat, n: nat) -> Seq<u8>
    decreases n,
{
    if n == 0 {
        Seq::empty()
    } else {
        seq![(v % 0x100) as u8] + le_bytes_of(v / 0x100, (n - 1) as nat)
    }
}

/// The value carried by a little-endian byte sequence.
pub open spec fn le_val(b: Seq<u8>) -> nat
    decreases b.len(),
{
    if b.len() == 0 {
        0
    } else {
        b[0] as nat + 0x100 * le_val(b.skip(1))
    }
}

/// `pow256` is positive.
pub proof fn lemma_pow256_pos(k: nat)
    ensures
        pow256(k) >= 1,
    decreases k,
{
    if k > 0 {
        lemma_pow256_pos((k - 1) as nat);
        assert(0x100 * pow256((k - 1) as nat) >= pow256((k - 1) as nat)) by (nonlinear_arith)
            requires
                pow256((k - 1) as nat) >= 1,
        ;
    }
}

/// `le_bytes_of` yields exactly `n` bytes.
pub proof fn lemma_le_bytes_len(v: nat, n: nat)
    ensures
        le_bytes_of(v, n).len() == n,
    decreases n,
{
    if n > 0 {
        lemma_le_bytes_len(v / 0x100, (n - 1) as nat);
    }
}

/// Byte `k` of the little-endian form of `v` is digit `k` in base 256.
pub proof fn lemma_le_bytes_index(v: nat, n: nat, k: int)
    requires
        0 <= k < n,
    ensures
        le_bytes_of(v, n).len() == n,
        le_bytes_of(v, n)[k] == (v / pow256(k as nat)) % 0x100,
    decreases n,
{
    lemma_le_bytes_len(v, n);
    if k == 0 {
        assert(pow256(0) == 1);
        assert(v / 1 == v);
        assert(le_bytes_of(v, n)[0] == (v % 0x100) as u8);
    } else {
        lemma_le_bytes_index(v / 0x100, (n - 1) as nat, k - 1);
        assert(le_bytes_of(v, n)[k] == le_bytes_of(v / 0x100, (n - 1) as nat)[k - 1]);
        assert(v / 0x100 / pow256((k - 1) as nat) == v / pow256(k as nat)) by {
            assert(pow256(k as nat) == 0x100 * pow256((k - 1) as nat));
            lemma_pow256_pos((k - 1) as nat);
            vstd::arithmetic::div_mod::lemma_div_denominator(
                v as int,
                0x100,
                pow256((k - 1) as nat) as int,
            );
        }
        assert(le_bytes_of(v, n)[k] == (v / 0x100 / pow256((k - 1) as nat)) % 0x100);
    }
}

/// A byte sequence of length `n` carries a value below `pow256(n)`.
pub proof fn lemma_le_val_bound(b: Seq<u8>)
    ensures
        le_val(b) < pow256(b.len()),
    decreases b.len(),
{
    if b.len() == 0 {
    } else {
        lemma_le_val_bound(b.skip(1));
        assert(b[0] + 0x100 * le_val(b.skip(1)) < 0x100 * pow256((b.len() - 1) as nat))
            by (nonlinear_arith)
            requires
                b[0] < 0x100,
                le_val(b.skip(1)) < pow256((b.len() - 1) as nat),
        ;
    }
}

/// `pow256` grows with its exponent.
pub proof fn lemma_pow256_mono(a: nat, b: nat)
    requires
        a <= b,
    ensures
        pow256(a) <= pow256(b),
    decreases b,
{
    if a < b {
        lemma_pow256_mono(a, (b - 1) as nat);
        lemma_pow256_pos((b - 1) as nat);
        assert(0x100 * pow256((b - 1) as nat) >= pow256((b - 1) as nat)) by (nonlinear_arith)
            requires
                pow256((b - 1) as nat) >= 1,
        ;
    }
}

/// Round trip: reading back the `n` little-endian bytes of a value below
/// `pow256(n)` yields the value again.
pub proof fn lemma_le_round_trip(v: nat, n: nat)
    requires
        v < pow256(n),
    ensures
        le_val(le_bytes_of(v, n)) == v,
    decreases n,
{
    if n == 0 {
    } else {
        assert(v / 0x100 < pow256((n - 1) as nat)) by (nonlinear_arith)
            requires
                v < 0x100 * pow256((n - 1) as nat),
        ;
        lemma_le_round_trip(v / 0x100, (n - 1) as nat);
        let b = le_bytes_of(v, n);
        assert(b.skip(1) =~= le_bytes_of(v / 0x100, (n - 1) as nat));
        assert(b[0] == v % 0x100);
        assert(v % 0x100 + 0x100 * (v / 0x100) == v);
    }
}

/// Write the `width` little-endian bytes of `v` into `out[offset..]`,
/// failing (and writing nothing) when the buffer is too short.
pub fn write_le_bytes(v: u64, width: usize, offset: usize, out: &mut Vec<u8>) -> (res: Result<
    usize,
    BiffError,
>)
    requires
        width <= 8,
    ensures
        match res {
            Ok(n) => {
                &&& n == width
                &&& offset + width <= old(out)@.len()
                &&& final(out)@ == old(out)@.subrange(0, offset as int) + le_bytes_of(
                    v as nat,
                    width as nat,
                ) + old(out)@.subrange(offset + width, old(out)@.len() as int)
            },
            Err(e) => {
                &&& e == BiffError::SizeMismatch
                &&& offset + width > old(out)@.len()
                &&& final(out)@ == old(out)@
            },
        },
{
    if out.len() < width || offset > out.len() - width {
        return Err(BiffError::SizeMismatch);
    }
    let mut cur: u64 = v;
    let mut k: usize = 0;
    proof {
        assert(pow256(0) == 1);
        assert((v as nat) / 1 == v as nat);
    }
    while k < width
        invariant
            k <= width <= 8,
            offset + width <= old(out)@.len(),
            old(out)@.len() <= usize::MAX,
            out@.len() == old(out)@.len(),
            cur as nat == (v as nat) / pow256(k as nat),
            forall|j: int| 0 <= j < offset ==> out@[j] == old(out)@[j],
            forall|j: int| offset + k <= j < out@.len() ==> out@[j] == old(out)@[j],
            forall|j: int|
                0 <= j < k ==> out@[offset + j] == le_bytes_of(v as nat, width as nat)[j],
        decreases width - k,
    {
        proof {
            lemma_le_bytes_index(v as nat, width as nat, k as int);
        }
        out.set(offset + k, (cur % 0x100) as u8);
        proof {
            lemma_pow256_pos(k as nat);
            assert(pow256((k + 1) as nat) == 0x100 * pow256(k as nat));
            assert((v as nat) / pow256(k as nat) / 0x100 == (v as nat) / pow256((k + 1) as nat))
                by (nonlinear_arith)
                requires
                    pow256(k as nat) >= 1,
                    pow256((k + 1) as nat) == 0x100 * pow256(k as nat),
            ;
        }
        cur = cur / 0x100;
        k = k + 1;
    }
    proof {
        lemma_le_bytes_len(v as nat, width as nat);
        assert(out@ =~= old(out)@.subrange(0, offset as int) + le_bytes_of(v as nat, width as nat)
            + old(out)@.subrange(offset + width, old(out)@.len() as int));
    }
    Ok(width)
}

/// Read the value of the `width` little-endian bytes at `data[offset..]`,
/// failing when fewer than `width` bytes remain there.
pub fn read_le_bytes(data: &[u8], width: usize, offset: usize) -> (res: Result<u64, BiffError>)
    requires
        width <= 8,
    ensures
        match res {
            Ok(v) => {
                &&& offset + width <= data@.len()
                &&& v as nat == le_val(data@.subrange(offset as int, offset + width))
                &&& (v as nat) < pow256(width as nat)
            },
            Err(e) => {
                &&& e == BiffError::SizeMismatch
                &&& offset + width > data@.len()
            },
        },
{
    if data.len() < width || offset > data.len() - width {
        return Err(BiffError::SizeMismatch);
    }
    let ghost whole = data@.subrange(offset as int, offset + width);
    let mut acc: u64 = 0;
    let mut k: usize = width;
    proof {
        assert(whole.subrange(width as int, width as int) =~= Seq::<u8>::empty());
    }
    while k > 0
        invariant
            k <= width <= 8,
            offset + width <= data@.len(),
            data@.len() <= usize::MAX,
            whole == data@.subrange(offset as int, offset + width),
            acc as nat == le_val(whole.subrange(k as int, width as int)),
            (acc as nat) < pow256((width - k) as nat),
        decreases k,
    {
        let b = *vstd::slice::slice_index_get(data, offset + k - 1);
        proof {
            assert(whole[k - 1] == data@[offset + k - 1]);
            assert(whole.subrange(k - 1, width as int).skip(1) =~= whole.subrange(
                k as int,
                width as int,
            ));
            assert(pow256((width - k + 1) as nat) == 0x100 * pow256((width - k) as nat));
            lemma_pow256_mono((width - k + 1) as nat, 8);
            lemma_pow256_8_values();
            assert((b as nat) + 0x100 * (acc as nat) < pow256((width - k + 1) as nat))
                by (nonlinear_arith)
                requires
                    (acc as nat) < pow256((width - k) as nat),
                    b < 0x100,
                    pow256((width - k + 1) as nat) == 0x100 * pow256((width - k) as nat),
            ;
        }
        acc = (b as u64) + 0x100 * acc;
        k = k - 1;
    }
    proof {
        lemma_le_val_bound(whole);
        assert(whole.subrange(0, width as int) =~= whole);
    }
    Ok(acc)
}

/// The concrete values of `pow256` up to 8, for the widths the framework
/// uses.
pub proof fn lemma_pow256_8_values()
    ensures
        pow256(0) == 0x1,
        pow256(1) == 0x100,
        pow256(2) == 0x1_0000,
        pow256(3) == 0x100_0000,
        pow256(4) == 0x1_0000_0000,
        pow256(5) == 0x100_0000_0000,
        pow256(6) == 0x1_0000_0000_0000,
        pow256(7) == 0x100_0000_0000_0000,
        pow256(8) == 0x1_0000_0000_0000_0000,
{
    reveal_with_fuel(pow256, 9);
}

} // verus!
