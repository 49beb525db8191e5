//! The wire protocol: server-to-client frames are a one-byte tag and a
//! payload; client-to-server frames are a run of 8-byte little-endian packed
//! cells.

use vstd::prelude::*;

use crate::board::BoardManagerError;
use crate::chunk::Chunk;
use crate::packed::{spec_le_bytes, spec_le_u64, spec_packed, PackedCell};
use crate::{CHUNK_BYTE_SIZE, CHUNK_SIZE};

verus! {

/// The tag byte of a server-to-client frame.
pub enum WsMessage {
    /// A full chunk follows.
    EntireChunk,
    /// A batch of packed-cell updates follows.
    ChunkUpdate,
    /// The requested chunk does not exist or could not be loaded.
    ChunkNotFound,
    /// The cap on live chunks is reached.
    TooManyChunksLoaded,
}

impl WsMessage {
    /// The numeric tag of this frame kind.
    pub open spec fn spec_u8(self) -> u8 {
        match self {
            WsMessage::EntireChunk => 1,
            WsMessage::ChunkUpdate => 2,
            WsMessage::ChunkNotFound => 3,
            WsMessage::TooManyChunksLoaded => 4,
        }
    }

    /// The numeric tag of this frame kind.
    #[verifier::when_used_as_spec(spec_u8)]
    pub fn u8(self) -> (r: u8)
        ensures
            r == self.spec_u8(),
    {
        match self {
            WsMessage::EntireChunk => 1,
            WsMessage::ChunkUpdate => 2,
            WsMessage::ChunkNotFound => 3,
            WsMessage::TooManyChunksLoaded => 4,
        }
    }

    /// The one-byte frame refusing a connection at the live-chunk cap.
    pub fn too_many_chunks_buffer() -> (r: Vec<u8>)
        ensures
            r@ =~= seq![4u8],
    {
        let mut r: Vec<u8> = Vec::new();
        r.push(WsMessage::TooManyChunksLoaded.u8());
        r
    }

    /// The one-byte frame reporting a chunk that could not be had.
    pub fn chunk_not_found_buffer() -> (r: Vec<u8>)
        ensures
            r@ =~= seq![3u8],
    {
        let mut r: Vec<u8> = Vec::new();
        r.push(WsMessage::ChunkNotFound.u8());
        r
    }

    /// The frame broadcasting a batch of updates: the update tag, then each
    /// cell's 8 little-endian bytes in batch order.
    pub fn chunk_update_buffer(updates: Vec<PackedCell>) -> (r: Vec<u8>)
        ensures
            r@ == seq![2u8] + spec_cells_bytes(updates@),
            r@.len() == 1 + 8 * updates@.len(),
    {
        let mut r: Vec<u8> = Vec::new();
        r.push(WsMessage::ChunkUpdate.u8());
        let mut t: usize = 0;
        while t < updates.len()
            invariant
                t <= updates@.len(),
                r@ =~= seq![2u8] + spec_cells_bytes(updates@.take(t as int)),
            decreases updates@.len() - t,
        {
            let mut bytes = updates[t].to_vec();
            r.append(&mut bytes);
            proof {
                assert(r@ =~= seq![2u8] + spec_cells_bytes(updates@.take(t + 1 as int)));
            }
            t = t + 1;
        }
        proof {
            assert(updates@.take(updates@.len() as int) =~= updates@);
        }
        r
    }

    /// The frame carrying a whole chunk: the full-chunk tag, then the
    /// chunk's `CHUNK_BYTE_SIZE` raw bytes.
    pub fn entire_chunk_buffer(chunk: Chunk) -> (r: Vec<u8>)
        requires
            chunk.wf(),
        ensures
            r@ == seq![1u8] + chunk.spec_bytes(),
            r@.len() == 1 + CHUNK_BYTE_SIZE,
    {
        let mut r: Vec<u8> = Vec::new();
        r.push(WsMessage::EntireChunk.u8());
        let mut bytes = chunk.to_u8vec();
        r.append(&mut bytes);
        proof {
            assert(r@ =~= seq![1u8] + chunk.spec_bytes());
        }
        r
    }
}

/// The bytes of a batch of cells on the wire: each cell contributes its
/// 8-byte little-endian form, in batch order.
pub open spec fn spec_cells_bytes(cells: Seq<PackedCell>) -> Seq<u8> {
    Seq::new(
        (cells.len() * 8) as nat,
        |b: int|
            spec_le_bytes(spec_packed(cells[b / 8].spec_index(), cells[b / 8].spec_value()))[b % 8],
    )
}

/// The `k`-th 8-byte word of a frame, read little-endian.
pub open spec fn spec_frame_word(data: Seq<u8>, k: int) -> u64 {
    spec_le_u64(data.subrange(8 * k, 8 * k + 8))
}

/// The words among the first `upto` of a frame whose index is in range, in
/// frame order.
pub open spec fn spec_accepted_words(data: Seq<u8>, upto: int) -> Seq<u64>
    decreases upto,
{
    if upto <= 0 {
        Seq::empty()
    } else {
        let rest = spec_accepted_words(data, upto - 1);
        let w = spec_frame_word(data, upto - 1);
        if (w >> 4) < CHUNK_SIZE as u64 {
            rest.push(w)
        } else {
            rest
        }
    }
}

/// What a client-to-server frame parses to: nothing when its length is not
/// a multiple of 8, else its in-range words in order.
pub open spec fn spec_parse_frame(data: Seq<u8>) -> Seq<u64> {
    if data.len() % 8 != 0 {
        Seq::empty()
    } else {
        spec_accepted_words(data, data.len() as int / 8)
    }
}

/// Parses one inbound binary frame into a batch of updates: a frame whose
/// length is not a multiple of 8 is discarded whole; a word whose pixel
/// index is out of range is dropped; the rest become cells in frame order.
pub fn parse_update_frame(data: &[u8]) -> (r: Vec<PackedCell>)
    ensures
        r@.len() == spec_parse_frame(data@).len(),
        forall|k: int|
            0 <= k < r@.len() ==> r@[k].spec_index() == (#[trigger] spec_parse_frame(data@)[k]
                >> 4) as int && r@[k].spec_value() == (spec_parse_frame(data@)[k] & 0xF) as u8,
{
    let mut r: Vec<PackedCell> = Vec::new();
    if data.len() % 8 != 0 {
        return r;
    }
    let words = data.len() / 8;
    proof {
        assert(data@.len() == 8 * (data@.len() / 8));
    }
    let mut k: usize = 0;
    while k < words
        invariant
            data@.len() % 8 == 0,
            words == data@.len() / 8,
            data@.len() == 8 * words,
            data@.len() <= usize::MAX,
            k <= words,
            ({
                let accepted = spec_accepted_words(data@, k as int);
                &&& r@.len() == accepted.len()
                &&& forall|j: int|
                    0 <= j < r@.len() ==> r@[j].spec_index() == (#[trigger] accepted[j]
                        >> 4) as int && r@[j].spec_value() == (accepted[j] & 0xF) as u8
            }),
        decreases words - k,
    {
        let base = 8 * k;
        let v = (data[base] as u64) | ((data[base + 1] as u64) << 8) | ((data[base + 2] as u64)
            << 16) | ((data[base + 3] as u64) << 24) | ((data[base + 4] as u64) << 32) | ((data[base
            + 5] as u64) << 40) | ((data[base + 6] as u64) << 48) | ((data[base + 7] as u64) << 56);
        proof {
            assert(data@.subrange(8 * (k as int), 8 * (k as int) + 8) =~= data@.skip(
                8 * (k as int),
            ).take(8));
            assert(v == spec_frame_word(data@, k as int));
        }
        match PackedCell::new_from_u64(v) {
            Some(cell) => {
                r.push(cell);
            },
            None => {
            },
        }
        k = k + 1;
    }
    r
}

/// The frame a refused connection is sent: the cap frame at capacity, the
/// not-found frame for a chunk that could not be had.
pub fn error_frame(err: &BoardManagerError) -> (r: Vec<u8>)
    ensures
        err is TooManyChunksLoaded ==> r@ =~= seq![4u8],
        err is LoadingChunks ==> r@ =~= seq![3u8],
{
    match err {
        BoardManagerError::TooManyChunksLoaded => WsMessage::too_many_chunks_buffer(),
        BoardManagerError::LoadingChunks => WsMessage::chunk_not_found_buffer(),
    }
}

} // verus!
