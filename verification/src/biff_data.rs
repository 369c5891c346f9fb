//! The field-marshalling framework: the contract every type packed into a
//! record payload implements.
//!
//! A marshallable type has a fixed wire width known without an instance,
//! an encoder that writes exactly that window of a buffer, a decoder that
//! reads it back, and a validation predicate. Composites implement the
//! same contract by delegating to their fields in declared order, offsets
//! strictly increasing, and a record identifier can be attached to make a
//! composite directly serializable as a whole record.

use crate::biff_id::id_limit;
use crate::biff_record::{BiffError, BiffRecord};
use vstd::prelude::*;

verus! {

/// A type with a fixed wire width and a bijection between its values and
/// the byte windows that encode them.
pub trait BiffDataCompatible: Sized {
    /// The fixed wire width, independent of any instance.
    spec fn spec_width() -> nat;

    /// The wire bytes of a value.
    spec fn wire(&self) -> Seq<u8>;

    /// The value a window of wire bytes stands for.
    spec fn of_wire(b: Seq<u8>) -> Self;

    /// A value's wire form has exactly the static width.
    proof fn lemma_wire_len(&self)
        ensures
            self.wire().len() == Self::spec_width(),
    ;

    /// Decoding a value's wire form yields the value again.
    proof fn lemma_wire_round_trip(&self)
        ensures
            Self::of_wire(self.wire()) == *self,
    ;

    /// Every width is representable as a payload length.
    proof fn lemma_width_bound()
        ensures
            Self::spec_width() < 0x1000_0000,
    ;

    /// The fixed wire width, independent of any instance.
    fn size_of_type() -> (n: usize)
        ensures
            n == Self::spec_width(),
    ;
}

/// The encoding half of the marshalling contract.
pub trait IntoBiffData: BiffDataCompatible {
    /// The wire width of this value; for the fixed-width types of this
    /// framework it always equals the static width.
    fn size_of(&self) -> (n: usize)
        ensures
            n == Self::spec_width(),
    ;

    /// Write the value's wire bytes into `out_data[offset..]`. Fails,
    /// writing nothing at all, when the buffer is too short; never touches
    /// a byte outside the window.
    fn into_biff_data(&self, offset: usize, out_data: &mut Vec<u8>) -> (res: Result<
        usize,
        BiffError,
    >)
        ensures
            match res {
                Ok(n) => {
                    &&& n == Self::spec_width()
                    &&& offset + Self::spec_width() <= old(out_data)@.len()
                    &&& final(out_data)@ == old(out_data)@.subrange(0, offset as int)
                        + self.wire() + old(out_data)@.subrange(
                        offset + Self::spec_width(),
                        old(out_data)@.len() as int,
                    )
                },
                Err(e) => {
                    &&& e == BiffError::SizeMismatch
                    &&& offset + Self::spec_width() > old(out_data)@.len()
                    &&& final(out_data)@ == old(out_data)@
                },
            },
    ;
}

/// The decoding half of the marshalling contract.
pub trait FromBiffData: BiffDataCompatible {
    /// Read one value from `data[offset..]`. Fails when fewer than
    /// `spec_width` bytes remain there.
    fn from_biff_data(data: &[u8], offset: usize) -> (res: Result<(Self, usize), BiffError>)
        ensures
            match res {
                Ok((v, n)) => {
                    &&& n == Self::spec_width()
                    &&& offset + Self::spec_width() <= data@.len()
                    &&& v == Self::of_wire(
                        data@.subrange(offset as int, offset + Self::spec_width()),
                    )
                },
                Err(e) => {
                    &&& e == BiffError::SizeMismatch
                    &&& offset + Self::spec_width() > data@.len()
                },
            },
    ;

    /// Decode a whole buffer: it must hold exactly one value.
    fn deserialize(data: &[u8]) -> (res: Result<Self, BiffError>)
        ensures
            match res {
                Ok(v) => data@.len() == Self::spec_width() && v == Self::of_wire(data@),
                Err(e) => e == BiffError::SizeMismatch && data@.len() != Self::spec_width(),
            },
    {
        if data.len() != Self::size_of_type() {
            Err(BiffError::SizeMismatch)
        } else {
            match Self::from_biff_data(data, 0) {
                Ok((v, _n)) => {
                    proof {
                        assert(data@.subrange(0, Self::spec_width() as int) =~= data@);
                    }
                    Ok(v)
                },
                Err(e) => Err(e),
            }
        }
    }
}

/// Validation: a pure predicate over a fully decoded value, checked after
/// every contained field has validated itself. Types opt in by
/// implementing it — decoding alone never implies validity — and the
/// primitive numerics opt in wholesale through [`ValidBiff`].
pub trait CheckBiff: FromBiffData + IntoBiffData {
    /// What it means for a value of this type to be valid.
    spec fn spec_valid(&self) -> bool;

    /// Hand the value back when it is valid, an error when it is not.
    fn validated(&self) -> (res: Result<&Self, BiffError>)
        ensures
            match res {
                Ok(v) => self.spec_valid() && v == self,
                Err(e) => !self.spec_valid() && e == BiffError::Invalid,
            },
    ;

    /// Whether the value is valid.
    fn is_valid(&self) -> (b: bool)
        ensures
            b == self.spec_valid(),
    {
        self.validated().is_ok()
    }
}

/// Marker for the trusted base category: types whose every decoded value
/// is unconditionally valid.
pub trait ValidBiff: FromBiffData + IntoBiffData {

}

impl<T: ValidBiff> CheckBiff for T {
    open spec fn spec_valid(&self) -> bool {
        true
    }

    fn validated(&self) -> (res: Result<&Self, BiffError>) {
        Ok(self)
    }
}

/// Pack a single value into a buffer of exactly its wire form. Never
/// fails: the buffer is allocated to the value's own width.
pub fn pack_biff_data<T: IntoBiffData>(value: &T) -> (res: Result<Vec<u8>, BiffError>)
    ensures
        res matches Ok(d) && d@ == value.wire(),
{
    let w = T::size_of_type();
    let mut data: Vec<u8> = vec![0u8; w];
    match value.into_biff_data(0, &mut data) {
        Ok(_) => {
            proof {
                value.lemma_wire_len();
                assert(data@ =~= value.wire());
            }
            Ok(data)
        },
        Err(e) => Err(e),
    }
}

/// The always-true validation predicate: the base case for composites
/// that need no constraint of their own.
pub fn checked<T: BiffDataCompatible>(_value: &T) -> (b: bool)
    ensures
        b,
{
    true
}

/// Round trip of the marshalling framework: decoding any value's wire
/// form yields the value again, unchanged, and that wire form has the
/// type's static width. Together with the encoder and decoder contracts
/// this says that `from_biff_data` inverts `into_biff_data` wherever a
/// value was written.
pub proof fn lemma_marshal_round_trip<T: BiffDataCompatible>(v: T)
    ensures
        T::of_wire(v.wire()) == v,
        v.wire().len() == T::spec_width(),
{
    v.lemma_wire_len();
    v.lemma_wire_round_trip();
}

/// Read a buffer equation of the shape the encoder contract uses — a
/// window spliced into an unchanged buffer — back as byte-level facts.
pub proof fn lemma_splice_index(pre: Seq<u8>, post: Seq<u8>, offset: int, w: Seq<u8>)
    requires
        0 <= offset,
        offset + w.len() <= pre.len(),
        post == pre.subrange(0, offset) + w + pre.subrange(offset + w.len(), pre.len() as int),
    ensures
        post.len() == pre.len(),
        forall|j: int| 0 <= j < offset ==> post[j] == pre[j],
        forall|j: int| offset <= j < offset + w.len() ==> post[j] == w[j - offset],
        forall|j: int| offset + w.len() <= j < pre.len() ==> post[j] == pre[j],
{
    assert forall|j: int| 0 <= j < offset implies post[j] == pre[j] by {
        assert(post[j] == pre.subrange(0, offset)[j]);
    }
    assert forall|j: int| offset <= j < offset + w.len() implies post[j] == w[j - offset] by {
        assert(post[j] == w[j - offset]);
    }
    assert forall|j: int| offset + w.len() <= j < pre.len() implies post[j] == pre[j] by {
        assert(post[j] == pre.subrange(offset + w.len(), pre.len() as int)[j - offset - w.len()]);
    }
}

/// A composite carrying a fixed record identifier, directly serializable
/// as a whole record.
pub trait BiffSerializable: CheckBiff {
    /// The fixed record identifier of this composite type.
    spec fn spec_id() -> u16;

    /// The fixed identifier fits the compact identifier scheme.
    proof fn lemma_id_bound()
        ensures
            Self::spec_id() < id_limit(),
    ;

    /// The fixed record identifier of this composite type.
    fn id() -> (i: u16)
        ensures
            i == Self::spec_id(),
    ;

    /// Validate the value and wrap its wire form as a record with this
    /// type's fixed identifier.
    fn into_biff(&self) -> (res: Result<BiffRecord, BiffError>)
        ensures
            match res {
                Ok(rec) => self.spec_valid() && rec@.id == Self::spec_id() && rec@.data
                    == self.wire(),
                Err(e) => !self.spec_valid() && e == BiffError::Invalid,
            },
    {
        match self.validated() {
            Ok(me) => {
                match pack_biff_data(me) {
                    Ok(data) => {
                        proof {
                            Self::lemma_id_bound();
                            Self::lemma_width_bound();
                            me.lemma_wire_len();
                        }
                        Ok(BiffRecord::from_parts(Self::id(), data))
                    },
                    Err(e) => Err(e),
                }
            },
            Err(e) => Err(e),
        }
    }

    /// Unwrap a record back into this composite type; only a record that
    /// carries this type's identifier and exactly one value qualifies.
    fn from_biff(rec: &BiffRecord) -> (res: Result<Self, BiffError>)
        ensures
            match res {
                Ok(v) => rec@.id == Self::spec_id() && rec@.data.len() == Self::spec_width() && v
                    == Self::of_wire(rec@.data),
                Err(e) => (e == BiffError::InvalidCast && rec@.id != Self::spec_id()) || (e
                    == BiffError::SizeMismatch && rec@.id == Self::spec_id() && rec@.data.len()
                    != Self::spec_width()),
            },
    {
        if Self::id() == rec.id() {
            Self::deserialize(rec.payload().as_slice())
        } else {
            Err(BiffError::InvalidCast)
        }
    }
}

} // verus!
