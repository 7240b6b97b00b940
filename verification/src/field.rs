//! Field elements and group elements, as the engine sees them.
//!
//! The engine never does arithmetic on these values. It compares them, hands
//! them to the hashing and proving collaborators, and writes them out, so a
//! value is held as the 256 bits of its canonical little-endian encoding.
use vstd::bytes::*;
use vstd::prelude::*;
use vstd::slice::*;

verus! {

/// The number of bytes in the canonical encoding of a field element.
pub const FIELD_BYTES: usize = 32;

/// An element of the base field: a hash, a commitment, a checksum, a
/// transcript key or an index.
#[derive(Clone, Copy, Debug, PartialEq, Eq, Hash, Structural)]
pub struct Field {
    /// The low 128 bits of the canonical encoding.
    pub lo: u128,
    /// The high 128 bits of the canonical encoding.
    pub hi: u128,
}

/// An element of the scalar field: a randomizer.
#[derive(Clone, Copy, Debug, PartialEq, Eq, Hash, Structural)]
pub struct Scalar {
    /// The low 128 bits of the canonical encoding.
    pub lo: u128,
    /// The high 128 bits of the canonical encoding.
    pub hi: u128,
}

/// An element of the curve group, identified by its x-coordinate.
#[derive(Clone, Copy, Debug, PartialEq, Eq, Hash, Structural)]
pub struct Group {
    pub x: Field,
}

impl Field {
    /// The integer that the encoding stands for.
    pub open spec fn as_nat(self) -> nat {
        (self.lo + self.hi * 0x1_0000_0000_0000_0000_0000_0000_0000_0000) as nat
    }

    /// The canonical encoding: 32 bytes, least significant first.
    pub open spec fn bytes_le(self) -> Seq<u8> {
        spec_u128_to_le_bytes(self.lo) + spec_u128_to_le_bytes(self.hi)
    }

    /// The field element that 32 bytes encode.
    pub open spec fn parse_le(bytes: Seq<u8>) -> Field
        recommends
            bytes.len() == FIELD_BYTES,
    {
        Field {
            lo: spec_u128_from_le_bytes(bytes.subrange(0, 16)),
            hi: spec_u128_from_le_bytes(bytes.subrange(16, 32)),
        }
    }

    /// The field element zero.
    pub fn zero() -> (r: Field)
        ensures
            r.as_nat() == 0,
            r == (Field { lo: 0, hi: 0 }),
    {
        Field { lo: 0, hi: 0 }
    }

    /// The field element with the value of a 16-bit integer.
    pub fn from_u16(value: u16) -> (r: Field)
        ensures
            r.as_nat() == value,
            r == (Field { lo: value as u128, hi: 0 }),
    {
        Field { lo: value as u128, hi: 0 }
    }

    /// The field element with the value of a 64-bit integer.
    pub fn from_u64(value: u64) -> (r: Field)
        ensures
            r.as_nat() == value,
            r == (Field { lo: value as u128, hi: 0 }),
    {
        Field { lo: value as u128, hi: 0 }
    }

    /// The field element with the value of a 128-bit integer.
    pub fn from_u128(value: u128) -> (r: Field)
        ensures
            r.as_nat() == value,
            r == (Field { lo: value, hi: 0 }),
    {
        Field { lo: value, hi: 0 }
    }

    /// Writes the canonical encoding.
    pub fn to_bytes_le(&self) -> (r: Vec<u8>)
        ensures
            r@ == self.bytes_le(),
            r@.len() == FIELD_BYTES,
    {
        let mut out = u128_to_le_bytes(self.lo);
        let mut high = u128_to_le_bytes(self.hi);
        out.append(&mut high);
        out
    }

    /// Reads a field element from exactly 32 bytes.
    pub fn from_bytes_le(bytes: &[u8]) -> (r: Option<Field>)
        ensures
            r is Some <==> bytes@.len() == FIELD_BYTES,
            r matches Some(f) ==> f == Field::parse_le(bytes@) && f.bytes_le() == bytes@,
    {
        if bytes.len() != FIELD_BYTES {
            return None;
        }
        let lo = u128_from_le_bytes(slice_subrange(bytes, 0, 16));
        let hi = u128_from_le_bytes(slice_subrange(bytes, 16, 32));
        proof {
            Field::lemma_parse_then_write(bytes@);
        }
        Some(Field { lo, hi })
    }

    /// A field element is read back from its canonical encoding.
    pub proof fn lemma_write_then_parse(self)
        ensures
            self.bytes_le().len() == FIELD_BYTES,
            Field::parse_le(self.bytes_le()) == self,
    {
        lemma_auto_spec_u128_to_from_le_bytes();
        let low = spec_u128_to_le_bytes(self.lo);
        let high = spec_u128_to_le_bytes(self.hi);
        assert(self.bytes_le().subrange(0, 16) =~= low);
        assert(self.bytes_le().subrange(16, 32) =~= high);
    }

    /// Every string of 32 bytes is the canonical encoding of the field
    /// element that it parses to.
    pub proof fn lemma_parse_then_write(bytes: Seq<u8>)
        requires
            bytes.len() == FIELD_BYTES,
        ensures
            Field::parse_le(bytes).bytes_le() == bytes,
    {
        lemma_auto_spec_u128_to_from_le_bytes();
        let low = bytes.subrange(0, 16);
        let high = bytes.subrange(16, 32);
        assert(spec_u128_to_le_bytes(spec_u128_from_le_bytes(low)) == low);
        assert(spec_u128_to_le_bytes(spec_u128_from_le_bytes(high)) == high);
        assert(low + high =~= bytes);
    }
}

} // verus!
