//! Pixel updates: an index and a 4-bit color packed into one 64-bit word.

use vstd::prelude::*;

use crate::color::Color;
use crate::CHUNK_SIZE;

verus! {

/// A pixel-change request as the legacy clients sent it.
#[derive(Debug, Clone)]
pub struct CellChangeMessage {
    pub index: usize,
    pub value: u8,
}

/// The 64-bit word that carries an index in its high 60 bits and a color
/// value in its low 4 bits.
pub open spec fn spec_packed(index: int, value: u8) -> u64 {
    ((index as u64) << 4) | (value as u64)
}

/// The little-endian 8-byte encoding of a 64-bit word.
pub open spec fn spec_le_bytes(v: u64) -> Seq<u8> {
    seq![
        (v & 0xFF) as u8,
        ((v >> 8) & 0xFF) as u8,
        ((v >> 16) & 0xFF) as u8,
        ((v >> 24) & 0xFF) as u8,
        ((v >> 32) & 0xFF) as u8,
        ((v >> 40) & 0xFF) as u8,
        ((v >> 48) & 0xFF) as u8,
        ((v >> 56) & 0xFF) as u8,
    ]
}

/// The 64-bit word read little-endian from 8 bytes.
pub open spec fn spec_le_u64(s: Seq<u8>) -> u64
    recommends
        s.len() == 8,
{
    (s[0] as u64) | ((s[1] as u64) << 8) | ((s[2] as u64) << 16) | ((s[3] as u64) << 24) | ((
    s[4] as u64) << 32) | ((s[5] as u64) << 40) | ((s[6] as u64) << 48) | ((s[7] as u64) << 56)
}

/// A pixel update: a pixel index below `CHUNK_SIZE` and a 4-bit color value,
/// packed into a `u64`. Values flow one way: client to chunk manager to all
/// subscribers.
#[derive(Debug, Clone, Copy)]
pub struct PackedCell(u64);

impl PackedCell {
    /// The packed word itself.
    pub closed spec fn raw(self) -> u64 {
        self.0
    }

    /// The pixel index carried in the high 60 bits.
    pub open spec fn spec_index(self) -> int {
        (self.raw() >> 4) as int
    }

    /// The color value carried in the low 4 bits.
    pub open spec fn spec_value(self) -> u8 {
        (self.raw() & 0xF) as u8
    }

    /// Every cell the constructors accept addresses a pixel of the chunk.
    #[verifier::type_invariant]
    pub open spec fn wf(self) -> bool {
        self.spec_index() < CHUNK_SIZE
    }

    /// Packs `index` and `value`; rejects an index outside the chunk and a
    /// value that is not a palette index.
    pub fn new(index: usize, value: u8) -> (r: Option<PackedCell>)
        ensures
            r is Some <==> (index < CHUNK_SIZE && value < 16),
            r is Some ==> r->0.spec_index() == index as int && r->0.spec_value() == value,
    {
        if index >= CHUNK_SIZE {
            return None;
        }
        if Color::new(value).is_none() {
            return None;
        }
        let word = ((index as u64) << 4) | (value as u64);
        proof {
            let iu = index as u64;
            assert(iu < 10000 && value < 16 ==> ((((iu << 4) | (value as u64)) >> 4) == iu && (((iu
                << 4) | (value as u64)) & 0xF) == value as u64)) by (bit_vector);
        }
        Some(PackedCell(word))
    }

    /// Unpacks a raw wire word; rejects one whose index is out of range.
    /// Every 4-bit value is a palette color, so the index is the only check.
    pub fn new_from_u64(packed_value: u64) -> (r: Option<PackedCell>)
        ensures
            r is Some <==> (packed_value >> 4) < CHUNK_SIZE as u64,
            r is Some ==> r->0.spec_index() == (packed_value >> 4) as int && r->0.spec_value() == (
            packed_value & 0xF) as u8,
    {
        if (packed_value >> 4) >= CHUNK_SIZE as u64 {
            return None;
        }
        let index = (packed_value >> 4) as usize;
        let value = (packed_value & 0xF) as u8;
        proof {
            assert((packed_value >> 4) < 10000 ==> (packed_value >> 4) <= 0xFFFF_FFFFu64)
                by (bit_vector);
            assert((packed_value & 0xF) < 16) by (bit_vector);
        }
        let r = Self::new(index, value);
        proof {
            assert(r is Some);
        }
        r
    }

    /// The pixel index of this update.
    pub fn index(&self) -> (r: usize)
        ensures
            r as int == self.spec_index(),
            r < CHUNK_SIZE,
    {
        proof {
            use_type_invariant(self);
        }
        (self.0 >> 4) as usize
    }

    /// The 4-bit color value of this update.
    pub fn value(&self) -> (r: u8)
        ensures
            r == self.spec_value(),
            r < 16,
    {
        proof {
            let v = self.raw();
            assert((v & 0xF) < 16) by (bit_vector);
        }
        (self.0 & 0xF) as u8
    }

    /// The color of this update: the 4-bit value is always a palette index.
    pub fn color(&self) -> (r: Color)
        ensures
            r.spec_u8() == self.spec_value(),
    {
        let v = self.value();
        let c = Color::new(v);
        c.unwrap()
    }

    /// The 8-byte little-endian wire form of this update.
    pub fn to_binary(&self) -> (r: [u8; 8])
        ensures
            r@ == spec_le_bytes(spec_packed(self.spec_index(), self.spec_value())),
    {
        proof {
            use_type_invariant(self);
            lemma_packed_repack(self.0);
        }
        let v = self.0;
        let r = [
            (v & 0xFF) as u8,
            ((v >> 8) & 0xFF) as u8,
            ((v >> 16) & 0xFF) as u8,
            ((v >> 24) & 0xFF) as u8,
            ((v >> 32) & 0xFF) as u8,
            ((v >> 40) & 0xFF) as u8,
            ((v >> 48) & 0xFF) as u8,
            ((v >> 56) & 0xFF) as u8,
        ];
        proof {
            assert(r@ =~= spec_le_bytes(v));
        }
        r
    }

    /// The 8-byte little-endian wire form, as a growable vector.
    pub fn to_vec(&self) -> (r: Vec<u8>)
        ensures
            r@ == spec_le_bytes(spec_packed(self.spec_index(), self.spec_value())),
    {
        let bytes = self.to_binary();
        let mut r: Vec<u8> = Vec::new();
        let mut i: usize = 0;
        while i < 8
            invariant
                i <= 8,
                r@ == bytes@.take(i as int),
            decreases 8 - i,
        {
            r.push(bytes[i]);
            proof {
                assert(r@ =~= bytes@.take(i + 1 as int));
            }
            i = i + 1;
        }
        proof {
            assert(r@ =~= bytes@);
        }
        r
    }

    /// Reads one update back from its 8-byte little-endian wire form.
    pub fn from_binary(bytes: &[u8; 8]) -> (r: Option<PackedCell>)
        ensures
            ({
                let v = spec_le_u64(bytes@);
                &&& (r is Some <==> (v >> 4) < CHUNK_SIZE as u64)
                &&& (r is Some ==> r->0.spec_index() == (v >> 4) as int && r->0.spec_value() == (v
                    & 0xF) as u8)
            }),
    {
        let v = (bytes[0] as u64) | ((bytes[1] as u64) << 8) | ((bytes[2] as u64) << 16) | ((
        bytes[3] as u64) << 24) | ((bytes[4] as u64) << 32) | ((bytes[5] as u64) << 40) | ((
        bytes[6] as u64) << 48) | ((bytes[7] as u64) << 56);
        Self::new_from_u64(v)
    }
}

/// A well-formed cell's word is the packing of its own index and value.
pub proof fn lemma_packed_repack(v: u64)
    ensures
        spec_packed((v >> 4) as int, (v & 0xF) as u8) == v,
{
    assert((((v >> 4) as u64) << 4) | (((v & 0xF) as u8) as u64) == v) by (bit_vector);
}

/// Law: the little-endian byte encoding of a word reads back to that word,
/// so a packed cell's wire bytes decode to the same index and color.
pub proof fn lemma_le_bytes_round_trip(v: u64)
    ensures
        spec_le_u64(spec_le_bytes(v)) == v,
{
    assert(((v & 0xFF) as u8 as u64) | ((((v >> 8) & 0xFF) as u8 as u64) << 8) | ((((v >> 16)
        & 0xFF) as u8 as u64) << 16) | ((((v >> 24) & 0xFF) as u8 as u64) << 24) | ((((v >> 32)
        & 0xFF) as u8 as u64) << 32) | ((((v >> 40) & 0xFF) as u8 as u64) << 40) | ((((v >> 48)
        & 0xFF) as u8 as u64) << 48) | ((((v >> 56) & 0xFF) as u8 as u64) << 56) == v)
        by (bit_vector);
}

/// Law: a valid packed cell survives the trip through its wire bytes with
/// index and color intact.
pub proof fn lemma_packed_cell_round_trip(index: int, value: u8)
    requires
        0 <= index < CHUNK_SIZE,
        value < 16,
    ensures
        ({
            let v = spec_le_u64(spec_le_bytes(spec_packed(index, value)));
            &&& (v >> 4) as int == index
            &&& (v & 0xF) as u8 == value
        }),
{
    let w = spec_packed(index, value);
    lemma_le_bytes_round_trip(w);
    let iu = index as u64;
    assert(iu < 10000 && value < 16 ==> ((((iu << 4) | (value as u64)) >> 4) == iu && (((iu << 4)
        | (value as u64)) & 0xF) == value as u64)) by (bit_vector);
}

} // verus!
