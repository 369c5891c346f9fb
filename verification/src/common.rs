//! The primitive fixed-width numeric field types: the trusted base
//! category of the marshalling framework.
//!
//! Each integer type is written as its little-endian bytes — explicitly,
//! byte by byte — and every decoded value is unconditionally valid.
//! Signed types travel as their two's-complement unsigned mirror.

use crate::biff_data::{BiffDataCompatible, FromBiffData, IntoBiffData, ValidBiff};
use crate::biff_record::BiffError;
use crate::le_bytes::{
    le_bytes_of, le_val, lemma_le_bytes_len, lemma_le_round_trip, lemma_pow256_8_values,
    read_le_bytes, write_le_bytes,
};
use vstd::prelude::*;

verus! {

/// The unsigned two's-complement mirror of `x` modulo `m`.
pub open spec fn twos_of(x: int, m: nat) -> nat {
    if x >= 0 {
        x as nat
    } else {
        (x + m) as nat
    }
}

/// The signed value whose two's-complement mirror modulo `m` is `v`.
pub open spec fn twos_val(v: nat, m: nat) -> int {
    if v < m / 2 {
        v as int
    } else {
        v - m
    }
}

impl BiffDataCompatible for u8 {
    open spec fn spec_width() -> nat {
        1
    }

    open spec fn wire(&self) -> Seq<u8> {
        le_bytes_of(*self as nat, 1)
    }

    open spec fn of_wire(b: Seq<u8>) -> u8 {
        le_val(b) as u8
    }

    proof fn lemma_wire_len(&self) {
        lemma_le_bytes_len(*self as nat, 1);
    }

    proof fn lemma_wire_round_trip(&self) {
        lemma_pow256_8_values();
        lemma_le_round_trip(*self as nat, 1);
    }

    proof fn lemma_width_bound() {
    }

    fn size_of_type() -> (n: usize) {
        1
    }
}

impl IntoBiffData for u8 {
    fn size_of(&self) -> (n: usize) {
        1
    }

    fn into_biff_data(&self, offset: usize, out_data: &mut Vec<u8>) -> (res: Result<
        usize,
        BiffError,
    >) {
        write_le_bytes(*self as u64, 1, offset, out_data)
    }
}

impl FromBiffData for u8 {
    fn from_biff_data(data: &[u8], offset: usize) -> (res: Result<(Self, usize), BiffError>) {
        match read_le_bytes(data, 1, offset) {
            Ok(v) => {
                proof {
                    lemma_pow256_8_values();
                }
                Ok((v as u8, 1))
            },
            Err(e) => Err(e),
        }
    }
}

impl ValidBiff for u8 {

}

impl BiffDataCompatible for u16 {
    open spec fn spec_width() -> nat {
        2
    }

    open spec fn wire(&self) -> Seq<u8> {
        le_bytes_of(*self as nat, 2)
    }

    open spec fn of_wire(b: Seq<u8>) -> u16 {
        le_val(b) as u16
    }

    proof fn lemma_wire_len(&self) {
        lemma_le_bytes_len(*self as nat, 2);
    }

    proof fn lemma_wire_round_trip(&self) {
        lemma_pow256_8_values();
        lemma_le_round_trip(*self as nat, 2);
    }

    proof fn lemma_width_bound() {
    }

    fn size_of_type() -> (n: usize) {
        2
    }
}

impl IntoBiffData for u16 {
    fn size_of(&self) -> (n: usize) {
        2
    }

    fn into_biff_data(&self, offset: usize, out_data: &mut Vec<u8>) -> (res: Result<
        usize,
        BiffError,
    >) {
        write_le_bytes(*self as u64, 2, offset, out_data)
    }
}

impl FromBiffData for u16 {
    fn from_biff_data(data: &[u8], offset: usize) -> (res: Result<(Self, usize), BiffError>) {
        match read_le_bytes(data, 2, offset) {
            Ok(v) => {
                proof {
                    lemma_pow256_8_values();
                }
                Ok((v as u16, 2))
            },
            Err(e) => Err(e),
        }
    }
}

impl ValidBiff for u16 {

}

impl BiffDataCompatible for u32 {
    open spec fn spec_width() -> nat {
        4
    }

    open spec fn wire(&self) -> Seq<u8> {
        le_bytes_of(*self as nat, 4)
    }

    open spec fn of_wire(b: Seq<u8>) -> u32 {
        le_val(b) as u32
    }

    proof fn lemma_wire_len(&self) {
        lemma_le_bytes_len(*self as nat, 4);
    }

    proof fn lemma_wire_round_trip(&self) {
        lemma_pow256_8_values();
        lemma_le_round_trip(*self as nat, 4);
    }

    proof fn lemma_width_bound() {
    }

    fn size_of_type() -> (n: usize) {
        4
    }
}

impl IntoBiffData for u32 {
    fn size_of(&self) -> (n: usize) {
        4
    }

    fn into_biff_data(&self, offset: usize, out_data: &mut Vec<u8>) -> (res: Result<
        usize,
        BiffError,
    >) {
        write_le_bytes(*self as u64, 4, offset, out_data)
    }
}

impl FromBiffData for u32 {
    fn from_biff_data(data: &[u8], offset: usize) -> (res: Result<(Self, usize), BiffError>) {
        match read_le_bytes(data, 4, offset) {
            Ok(v) => {
                proof {
                    lemma_pow256_8_values();
                }
                Ok((v as u32, 4))
            },
            Err(e) => Err(e),
        }
    }
}

impl ValidBiff for u32 {

}

impl BiffDataCompatible for u64 {
    open spec fn spec_width() -> nat {
        8
    }

    open spec fn wire(&self) -> Seq<u8> {
        le_bytes_of(*self as nat, 8)
    }

    open spec fn of_wire(b: Seq<u8>) -> u64 {
        le_val(b) as u64
    }

    proof fn lemma_wire_len(&self) {
        lemma_le_bytes_len(*self as nat, 8);
    }

    proof fn lemma_wire_round_trip(&self) {
        lemma_pow256_8_values();
        lemma_le_round_trip(*self as nat, 8);
    }

    proof fn lemma_width_bound() {
    }

    fn size_of_type() -> (n: usize) {
        8
    }
}

impl IntoBiffData for u64 {
    fn size_of(&self) -> (n: usize) {
        8
    }

    fn into_biff_data(&self, offset: usize, out_data: &mut Vec<u8>) -> (res: Result<
        usize,
        BiffError,
    >) {
        write_le_bytes(*self, 8, offset, out_data)
    }
}

impl FromBiffData for u64 {
    fn from_biff_data(data: &[u8], offset: usize) -> (res: Result<(Self, usize), BiffError>) {
        match read_le_bytes(data, 8, offset) {
            Ok(v) => {
                proof {
                    lemma_pow256_8_values();
                }
                Ok((v, 8))
            },
            Err(e) => Err(e),
        }
    }
}

impl ValidBiff for u64 {

}

impl BiffDataCompatible for i8 {
    open spec fn spec_width() -> nat {
        1
    }

    open spec fn wire(&self) -> Seq<u8> {
        le_bytes_of(twos_of(*self as int, 0x100), 1)
    }

    open spec fn of_wire(b: Seq<u8>) -> i8 {
        twos_val(le_val(b), 0x100) as i8
    }

    proof fn lemma_wire_len(&self) {
        lemma_le_bytes_len(twos_of(*self as int, 0x100), 1);
    }

    proof fn lemma_wire_round_trip(&self) {
        lemma_pow256_8_values();
        lemma_le_round_trip(twos_of(*self as int, 0x100), 1);
    }

    proof fn lemma_width_bound() {
    }

    fn size_of_type() -> (n: usize) {
        1
    }
}

impl IntoBiffData for i8 {
    fn size_of(&self) -> (n: usize) {
        1
    }

    fn into_biff_data(&self, offset: usize, out_data: &mut Vec<u8>) -> (res: Result<
        usize,
        BiffError,
    >) {
        let x = *self;
        let u: u8 = if x >= 0 {
            x as u8
        } else {
            ((x as i16) + 0x100) as u8
        };
        write_le_bytes(u as u64, 1, offset, out_data)
    }
}

impl FromBiffData for i8 {
    fn from_biff_data(data: &[u8], offset: usize) -> (res: Result<(Self, usize), BiffError>) {
        match read_le_bytes(data, 1, offset) {
            Ok(v) => {
                proof {
                    lemma_pow256_8_values();
                }
                let x: i8 = if v < 0x80 {
                    v as i8
                } else {
                    ((v as i16) - 0x100) as i8
                };
                Ok((x, 1))
            },
            Err(e) => Err(e),
        }
    }
}

impl ValidBiff for i8 {

}

impl BiffDataCompatible for i16 {
    open spec fn spec_width() -> nat {
        2
    }

    open spec fn wire(&self) -> Seq<u8> {
        le_bytes_of(twos_of(*self as int, 0x1_0000), 2)
    }

    open spec fn of_wire(b: Seq<u8>) -> i16 {
        twos_val(le_val(b), 0x1_0000) as i16
    }

    proof fn lemma_wire_len(&self) {
        lemma_le_bytes_len(twos_of(*self as int, 0x1_0000), 2);
    }

    proof fn lemma_wire_round_trip(&self) {
        lemma_pow256_8_values();
        lemma_le_round_trip(twos_of(*self as int, 0x1_0000), 2);
    }

    proof fn lemma_width_bound() {
    }

    fn size_of_type() -> (n: usize) {
        2
    }
}

impl IntoBiffData for i16 {
    fn size_of(&self) -> (n: usize) {
        2
    }

    fn into_biff_data(&self, offset: usize, out_data: &mut Vec<u8>) -> (res: Result<
        usize,
        BiffError,
    >) {
        let x = *self;
        let u: u16 = if x >= 0 {
            x as u16
        } else {
            ((x as i32) + 0x1_0000) as u16
        };
        write_le_bytes(u as u64, 2, offset, out_data)
    }
}

impl FromBiffData for i16 {
    fn from_biff_data(data: &[u8], offset: usize) -> (res: Result<(Self, usize), BiffError>) {
        match read_le_bytes(data, 2, offset) {
            Ok(v) => {
                proof {
                    lemma_pow256_8_values();
                }
                let x: i16 = if v < 0x8000 {
                    v as i16
                } else {
                    ((v as i32) - 0x1_0000) as i16
                };
                Ok((x, 2))
            },
            Err(e) => Err(e),
        }
    }
}

impl ValidBiff for i16 {

}

impl BiffDataCompatible for i32 {
    open spec fn spec_width() -> nat {
        4
    }

    open spec fn wire(&self) -> Seq<u8> {
        le_bytes_of(twos_of(*self as int, 0x1_0000_0000), 4)
    }

    open spec fn of_wire(b: Seq<u8>) -> i32 {
        twos_val(le_val(b), 0x1_0000_0000) as i32
    }

    proof fn lemma_wire_len(&self) {
        lemma_le_bytes_len(twos_of(*self as int, 0x1_0000_0000), 4);
    }

    proof fn lemma_wire_round_trip(&self) {
        lemma_pow256_8_values();
        lemma_le_round_trip(twos_of(*self as int, 0x1_0000_0000), 4);
    }

    proof fn lemma_width_bound() {
    }

    fn size_of_type() -> (n: usize) {
        4
    }
}

impl IntoBiffData for i32 {
    fn size_of(&self) -> (n: usize) {
        4
    }

    fn into_biff_data(&self, offset: usize, out_data: &mut Vec<u8>) -> (res: Result<
        usize,
        BiffError,
    >) {
        let x = *self;
        let u: u32 = if x >= 0 {
            x as u32
        } else {
            ((x as i64) + 0x1_0000_0000) as u32
        };
        write_le_bytes(u as u64, 4, offset, out_data)
    }
}

impl FromBiffData for i32 {
    fn from_biff_data(data: &[u8], offset: usize) -> (res: Result<(Self, usize), BiffError>) {
        match read_le_bytes(data, 4, offset) {
            Ok(v) => {
                proof {
                    lemma_pow256_8_values();
                }
                let x: i32 = if v < 0x8000_0000 {
                    v as i32
                } else {
                    ((v as i64) - 0x1_0000_0000) as i32
                };
                Ok((x, 4))
            },
            Err(e) => Err(e),
        }
    }
}

impl ValidBiff for i32 {

}

impl BiffDataCompatible for i64 {
    open spec fn spec_width() -> nat {
        8
    }

    open spec fn wire(&self) -> Seq<u8> {
        le_bytes_of(twos_of(*self as int, 0x1_0000_0000_0000_0000), 8)
    }

    open spec fn of_wire(b: Seq<u8>) -> i64 {
        twos_val(le_val(b), 0x1_0000_0000_0000_0000) as i64
    }

    proof fn lemma_wire_len(&self) {
        lemma_le_bytes_len(twos_of(*self as int, 0x1_0000_0000_0000_0000), 8);
    }

    proof fn lemma_wire_round_trip(&self) {
        lemma_pow256_8_values();
        lemma_le_round_trip(twos_of(*self as int, 0x1_0000_0000_0000_0000), 8);
    }

    proof fn lemma_width_bound() {
    }

    fn size_of_type() -> (n: usize) {
        8
    }
}

impl IntoBiffData for i64 {
    fn size_of(&self) -> (n: usize) {
        8
    }

    fn into_biff_data(&self, offset: usize, out_data: &mut Vec<u8>) -> (res: Result<
        usize,
        BiffError,
    >) {
        let x = *self;
        let u: u64 = if x >= 0 {
            x as u64
        } else {
            ((x as i128) + 0x1_0000_0000_0000_0000) as u64
        };
        write_le_bytes(u, 8, offset, out_data)
    }
}

impl FromBiffData for i64 {
    fn from_biff_data(data: &[u8], offset: usize) -> (res: Result<(Self, usize), BiffError>) {
        match read_le_bytes(data, 8, offset) {
            Ok(v) => {
                proof {
                    lemma_pow256_8_values();
                }
                let x: i64 = if v < 0x8000_0000_0000_0000 {
                    v as i64
                } else {
                    ((v as i128) - 0x1_0000_0000_0000_0000) as i64
                };
                Ok((x, 8))
            },
            Err(e) => Err(e),
        }
    }
}

impl ValidBiff for i64 {

}

} // verus!
