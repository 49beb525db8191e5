//! Chunks: fixed-size squares of pixels, two 4-bit colors packed per byte.

use vstd::prelude::*;

use crate::color::Color;
use crate::packed::PackedCell;
use crate::{CHUNK_BYTE_SIZE, CHUNK_LENGTH};

verus! {

/// One byte holding two colors: the high nibble is the "left" pixel, the
/// low nibble the "right" pixel.
#[derive(Debug, Copy, Clone, PartialEq, Eq, Structural)]
pub struct ChunkColor(u8);

impl ChunkColor {
    /// The packed byte itself.
    pub closed spec fn spec_byte(self) -> u8 {
        self.0
    }

    /// The 4-bit value of the left (high-nibble) pixel.
    pub open spec fn spec_left(self) -> u8 {
        self.spec_byte() >> 4
    }

    /// The 4-bit value of the right (low-nibble) pixel.
    pub open spec fn spec_right(self) -> u8 {
        self.spec_byte() & 0xF
    }

    /// Packs two colors into one byte.
    pub fn new(color1: Color, color2: Color) -> (r: ChunkColor)
        ensures
            r.spec_left() == color1.spec_u8(),
            r.spec_right() == color2.spec_u8(),
            r.spec_byte() == (color1.spec_u8() << 4) | color2.spec_u8(),
    {
        let c1 = color1.u8();
        let c2 = color2.u8();
        proof {
            assert(c1 < 16 && c2 < 16 ==> (((c1 << 4) | c2) >> 4) == c1 && (((c1 << 4) | c2) & 0xF)
                == c2) by (bit_vector);
        }
        ChunkColor((c1 << 4) | c2)
    }

    /// Rebuilds the packed byte as it came from the wire or from storage;
    /// every byte is two valid 4-bit colors, so nothing can be rejected.
    pub fn from_byte(byte: u8) -> (r: ChunkColor)
        ensures
            r.spec_byte() == byte,
    {
        ChunkColor(byte)
    }

    /// The packed byte, as carried in storage and in full-chunk frames.
    pub fn to_byte(&self) -> (r: u8)
        ensures
            r == self.spec_byte(),
    {
        self.0
    }

    /// The left (high-nibble) color value.
    pub fn left(&self) -> (r: u8)
        ensures
            r == self.spec_left(),
            r < 16,
    {
        proof {
            let b = self.spec_byte();
            assert((b >> 4) < 16) by (bit_vector);
        }
        self.0 >> 4
    }

    /// The left pixel as a palette color.
    pub fn left_color(&self) -> (r: Color)
        ensures
            r.spec_u8() == self.spec_left(),
    {
        Color::new(self.left()).unwrap()
    }

    /// The right (low-nibble) color value.
    pub fn right(&self) -> (r: u8)
        ensures
            r == self.spec_right(),
            r < 16,
    {
        proof {
            let b = self.spec_byte();
            assert((b & 0xF) < 16) by (bit_vector);
        }
        self.0 & 0xF
    }

    /// The right pixel as a palette color.
    pub fn right_color(&self) -> (r: Color)
        ensures
            r.spec_u8() == self.spec_right(),
    {
        Color::new(self.right()).unwrap()
    }

    /// Replaces the left (high-nibble) pixel, leaving the right untouched.
    pub fn set_left(&mut self, color: Color)
        ensures
            final(self).spec_left() == color.spec_u8(),
            final(self).spec_right() == old(self).spec_right(),
    {
        let c = color.u8();
        let b = self.0;
        proof {
            assert(c < 16 ==> ((((c << 4) | (b & 0xF)) >> 4) == c && (((c << 4) | (b & 0xF)) & 0xF)
                == (b & 0xF))) by (bit_vector);
            assert(((b & 0xF) & 0xF) == (b & 0xF)) by (bit_vector);
        }
        self.0 = (c << 4) | (b & 0xF);
    }

    /// Replaces the right (low-nibble) pixel, leaving the left untouched.
    pub fn set_right(&mut self, color: Color)
        ensures
            final(self).spec_right() == color.spec_u8(),
            final(self).spec_left() == old(self).spec_left(),
    {
        let c = color.u8();
        let b = self.0;
        proof {
            assert(c < 16 ==> ((((b & 0xF0) | c) & 0xF) == c && (((b & 0xF0) | c) >> 4) == (b
                >> 4))) by (bit_vector);
        }
        self.0 = (b & 0xF0) | c;
    }
}

impl Default for ChunkColor {
    /// Both pixels default to color 0.
    fn default() -> (r: Self)
        ensures
            r.spec_byte() == 0,
    {
        ChunkColor(0)
    }
}

/// Law: a packed byte is exactly its left nibble shifted up, or-ed with its
/// right nibble.
pub proof fn lemma_chunk_color_round_trip(c: ChunkColor)
    ensures
        (c.spec_left() << 4) | c.spec_right() == c.spec_byte(),
{
    let b = c.spec_byte();
    assert(((b >> 4) << 4) | (b & 0xF) == b) by (bit_vector);
}

/// A square tile of `N` packed bytes (`2 * N` pixels). Pixel `i` lives in
/// byte `i / 2`; even `i` is the high nibble, odd `i` the low one.
#[derive(Debug, Clone)]
pub struct InnerChunk<const N: usize> {
    data: Vec<ChunkColor>,
}

/// The canvas chunk proper: `CHUNK_LENGTH × CHUNK_LENGTH` pixels.
pub type Chunk = InnerChunk<CHUNK_BYTE_SIZE>;

/// A five-byte tile, handy for exercising the packing logic.
pub type SmallChunkArray = InnerChunk<5>;

impl<const N: usize> InnerChunk<N> {
    /// The bytes of the tile, in index order.
    pub closed spec fn spec_bytes(self) -> Seq<u8> {
        Seq::new(self.data@.len(), |i: int| self.data@[i].spec_byte())
    }

    /// A tile always holds exactly `N` bytes.
    pub open spec fn wf(self) -> bool {
        self.spec_bytes().len() == N
    }

    /// The 4-bit value of pixel `i`.
    pub open spec fn spec_pixel(self, i: int) -> u8
        recommends
            0 <= i < 2 * N,
    {
        if i % 2 == 0 {
            self.spec_bytes()[i / 2] >> 4
        } else {
            self.spec_bytes()[i / 2] & 0xF
        }
    }

    /// A fresh tile: every pixel is color 0.
    pub fn new() -> (r: Self)
        ensures
            r.spec_bytes() =~= Seq::new(N as nat, |i: int| 0u8),
    {
        let mut data: Vec<ChunkColor> = Vec::new();
        let mut i: usize = 0;
        while i < N
            invariant
                i <= N,
                data@.len() == i,
                forall|j: int| 0 <= j < i ==> data@[j].spec_byte() == 0,
            decreases N - i,
        {
            data.push(ChunkColor::from_byte(0));
            i = i + 1;
        }
        InnerChunk { data }
    }

    /// Wraps `N` packed bytes' worth of colors.
    pub fn new_with(data: Vec<ChunkColor>) -> (r: Self)
        requires
            data@.len() == N,
        ensures
            r.spec_bytes().len() == N,
            forall|i: int| 0 <= i < N ==> r.spec_bytes()[i] == data@[i].spec_byte(),
    {
        InnerChunk { data }
    }

    /// Rebuilds a tile from its raw bytes.
    pub fn from_u8vec(value: &Vec<u8>) -> (r: Self)
        requires
            value@.len() == N,
        ensures
            r.spec_bytes() =~= value@,
    {
        let mut data: Vec<ChunkColor> = Vec::new();
        let mut i: usize = 0;
        while i < N
            invariant
                i <= N,
                value@.len() == N,
                data@.len() == i,
                forall|j: int| 0 <= j < i ==> data@[j].spec_byte() == value@[j],
            decreases N - i,
        {
            data.push(ChunkColor::from_byte(value[i]));
            i = i + 1;
        }
        InnerChunk { data }
    }

    /// The tile's colors, byte by byte.
    pub fn to_vec(self) -> (r: Vec<ChunkColor>)
        requires
            self.wf(),
        ensures
            r@.len() == N,
            forall|i: int| 0 <= i < N ==> r@[i].spec_byte() == self.spec_bytes()[i],
    {
        self.data
    }

    /// The raw bytes of the tile, as stored and as sent in full-chunk frames.
    pub fn to_u8vec(self) -> (r: Vec<u8>)
        requires
            self.wf(),
        ensures
            r@ =~= self.spec_bytes(),
    {
        self.data()
    }

    /// The raw bytes of the tile, leaving the tile in place.
    pub fn data(&self) -> (r: Vec<u8>)
        requires
            self.wf(),
        ensures
            r@ =~= self.spec_bytes(),
    {
        let mut r: Vec<u8> = Vec::new();
        let mut i: usize = 0;
        while i < N
            invariant
                i <= N,
                self.spec_bytes().len() == N,
                self.data@.len() == N,
                r@.len() == i,
                forall|j: int| 0 <= j < i ==> r@[j] == self.spec_bytes()[j],
            decreases N - i,
        {
            r.push(self.data[i].to_byte());
            i = i + 1;
        }
        r
    }

    /// The packed byte at a byte index.
    pub fn byte_at(&self, i: usize) -> (r: ChunkColor)
        requires
            self.wf(),
            i < N,
        ensures
            r.spec_byte() == self.spec_bytes()[i as int],
    {
        self.data[i]
    }

    /// Sets pixel `packed_index` to `color`, touching nothing else; an index
    /// past the tile leaves it unchanged.
    pub fn set_pixel(&mut self, packed_index: usize, color: Color)
        requires
            old(self).wf(),
        ensures
            final(self).wf(),
            packed_index < 2 * N ==> final(self).spec_pixel(packed_index as int)
                == color.spec_u8(),
            forall|j: int|
                0 <= j < 2 * N && j != packed_index ==> final(self).spec_pixel(j) == old(
                    self,
                ).spec_pixel(j),
            packed_index as int >= 2 * N ==> final(self).spec_bytes() =~= old(self).spec_bytes(),
    {
        let byte_index = packed_index / 2;
        let is_left = packed_index % 2 == 0;
        if byte_index >= N {
            return ;
        }
        let mut b = self.data[byte_index];
        if is_left {
            b.set_left(color);
        } else {
            b.set_right(color);
        }
        self.data[byte_index] = b;
        proof {
            let bi = byte_index as int;
            let pi = packed_index as int;
            assert(final(self).spec_bytes() =~= old(self).spec_bytes().update(
                bi,
                b.spec_byte(),
            ));
            assert forall|j: int| 0 <= j < 2 * N && j != pi implies final(self).spec_pixel(j)
                == old(self).spec_pixel(j) by {
                if j / 2 == bi {
                    lemma_chunk_color_round_trip(b);
                } else {
                    assert(final(self).spec_bytes()[j / 2] == old(self).spec_bytes()[j / 2]);
                }
            }
        }
    }

    /// The 4-bit value of pixel `packed_index`.
    pub fn pixel(&self, packed_index: usize) -> (r: u8)
        requires
            self.wf(),
            packed_index < 2 * N,
        ensures
            r == self.spec_pixel(packed_index as int),
            r < 16,
    {
        let b = self.byte_at(packed_index / 2);
        if packed_index % 2 == 0 {
            b.left()
        } else {
            b.right()
        }
    }

    /// Applies one packed-cell update to this tile.
    pub fn apply_packed_cell(&mut self, packed_cell: &PackedCell)
        requires
            old(self).wf(),
        ensures
            final(self).wf(),
            packed_cell.spec_index() < 2 * N ==> final(self).spec_pixel(packed_cell.spec_index())
                == packed_cell.spec_value(),
            forall|j: int|
                0 <= j < 2 * N && j != packed_cell.spec_index() ==> final(self).spec_pixel(j)
                    == old(self).spec_pixel(j),
    {
        self.set_pixel(packed_cell.index(), packed_cell.color());
    }
}

impl<const N: usize> Default for InnerChunk<N> {
    /// A fresh tile: every pixel is color 0.
    fn default() -> (r: Self)
        ensures
            r.spec_bytes() =~= Seq::new(N as nat, |i: int| 0u8),
    {
        Self::new()
    }
}

impl Chunk {
    /// The hundred colors of row `row`, left to right.
    pub fn row_of_colors(&self, row: usize) -> (r: Vec<Color>)
        requires
            self.wf(),
            row < CHUNK_LENGTH,
        ensures
            r@.len() == CHUNK_LENGTH,
            forall|j: int|
                0 <= j < CHUNK_LENGTH ==> r@[j].spec_u8() == self.spec_pixel(
                    row * CHUNK_LENGTH + j,
                ),
    {
        proof {
            assert(CHUNK_LENGTH == 100 && CHUNK_BYTE_SIZE == 5000);
        }
        let start = row * (CHUNK_LENGTH / 2);
        let mut r: Vec<Color> = Vec::new();
        let mut i: usize = 0;
        while i < CHUNK_LENGTH / 2
            invariant
                i <= 50,
                row < 100,
                start == row * 50,
                start <= 4950,
                self.wf(),
                self.spec_bytes().len() == 5000,
                r@.len() == 2 * i,
                forall|j: int|
                    0 <= j < 2 * i ==> r@[j].spec_u8() == self.spec_pixel(
                        row * CHUNK_LENGTH + j,
                    ),
            decreases CHUNK_LENGTH / 2 - i,
        {
            let b = self.byte_at(start + i);
            r.push(b.left_color());
            r.push(b.right_color());
            proof {
                let p = row * CHUNK_LENGTH + 2 * i;
                assert(CHUNK_LENGTH == 100);
                assert((row * 100 + 2 * i) / 2 == row * 50 + i);
                assert(p % 2 == 0 && (p + 1) % 2 == 1 && (p + 1) / 2 == p / 2);
            }
            i = i + 1;
        }
        r
    }
}

} // verus!
