//! Server-side coordination plane for a collaborative pixel canvas.
//!
//! The canvas is a grid of fixed-size chunks. Each chunk is a square of
//! 4-bit palette pixels, packed two to a byte. This crate holds the data
//! model (colors, packed cells, chunks, coordinates), the bit-exact storage
//! codec, the wire protocol frames, the update-coalescing core of a chunk
//! manager, the admission registry of live chunks, and the screenshot
//! rasteriser. The surrounding process (sockets, timers, object storage)
//! drives these pieces and stays outside this crate.

use vstd::prelude::*;

pub mod board;
pub mod chunk;
pub mod codec;
pub mod color;
pub mod coords;
pub mod manager;
pub mod packed;
pub mod screenshot;
pub mod storage;
pub mod wire;

verus! {

/// Side length of a chunk, in pixels.
pub const CHUNK_LENGTH: usize = 100;

/// Number of pixels in a chunk.
pub const CHUNK_SIZE: usize = CHUNK_LENGTH * CHUNK_LENGTH;

/// Number of bytes a chunk occupies: two pixels per byte.
pub const CHUNK_BYTE_SIZE: usize = CHUNK_SIZE / 2;

/// Half-extent of the chunk grid: a coordinate axis runs from
/// `-CHUNKS_IN_DIRECTION` to `CHUNKS_IN_DIRECTION`, inclusive.
pub const CHUNKS_IN_DIRECTION: i64 = 10;

/// Cap on the number of chunk managers alive at once.
pub const MAX_LIVE_CHUNKS: usize = 100;

/// A chunk manager with no subscribers and no updates for this long
/// (milliseconds) tears itself down.
pub const IDLE_TTL_MS: u64 = 300000;

/// Default length of the update-coalescing window, in milliseconds.
pub const CLEAR_BUFFER_INTERVAL_DEFAULT: u64 = 500;

} // verus!
