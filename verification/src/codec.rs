//! The bit-exact storage format of a chunk: a one-byte compression tag, then
//! the payload; a tagless body of exactly `CHUNK_BYTE_SIZE` bytes is the
//! legacy raw form.

use vstd::prelude::*;
use vstd::slice::{slice_subrange, slice_to_vec};

use crate::chunk::{Chunk, InnerChunk};
use crate::CHUNK_BYTE_SIZE;

verus! {

/// How a chunk payload is compressed in storage.
#[derive(Debug, Clone, Copy)]
pub enum CompressionType {
    Raw,
    Zstd,
    Lz4,
}

/// The compression used when writing chunks out.
pub const USED_COMPRESSION: CompressionType = CompressionType::Zstd;

/// What `zstd::bulk::compress` returns on the given bytes (at this crate's
/// fixed compression level).
pub uninterp spec fn zstd_compress_of(data: Seq<u8>) -> Seq<u8>;

/// What `lz4_flex::block::compress` returns on the given bytes.
pub uninterp spec fn lz4_compress_of(data: Seq<u8>) -> Seq<u8>;

/// The storage tag of a compression choice.
pub open spec fn spec_tag(c: CompressionType) -> u8 {
    match c {
        CompressionType::Raw => 0,
        CompressionType::Zstd => 1,
        CompressionType::Lz4 => 2,
    }
}

/// The storage encoding of chunk bytes under a compression choice: the tag,
/// then the (possibly compressed) payload.
pub open spec fn spec_encoded(bytes: Seq<u8>, c: CompressionType) -> Seq<u8> {
    seq![spec_tag(c)] + match c {
        CompressionType::Raw => bytes,
        CompressionType::Zstd => zstd_compress_of(bytes),
        CompressionType::Lz4 => lz4_compress_of(bytes),
    }
}

/// Chunk payload compression through the zstd block API.
#[derive(Debug, Clone)]
pub struct ZstdCompression;

/// Chunk payload compression through the lz4 block API.
#[derive(Debug, Clone)]
pub struct LZ4Compression;

impl ZstdCompression {
    /// Relies on `zstd::bulk::compress`: the compressed block is a function
    /// of the input bytes alone once the level is fixed, as it is here.
    #[verifier::external_body]
    pub fn compress(data: &[u8]) -> (r: Result<Vec<u8>, ()>)
        ensures
            r is Ok ==> r->Ok_0@ == zstd_compress_of(data@),
    {
        match zstd::bulk::compress(data, 1) {
            Ok(v) => Ok(v),
            Err(_) => Err(()),
        }
    }

    /// Relies on `zstd::bulk::decompress`: it returns the decompressed block
    /// when it fits in `capacity` bytes and errs otherwise, and it inverts
    /// `zstd::bulk::compress`.
    #[verifier::external_body]
    fn raw_decompress(data: &[u8], capacity: usize) -> (r: Result<Vec<u8>, ()>)
        ensures
            r is Ok ==> r->Ok_0@.len() <= capacity,
            forall|d: Seq<u8>|
                data@ == #[trigger] zstd_compress_of(d) && d.len() <= capacity ==> r is Ok
                    && r->Ok_0@ == d,
    {
        match zstd::bulk::decompress(data, capacity) {
            Ok(v) => Ok(v),
            Err(_) => Err(()),
        }
    }

    /// Decompresses a zstd block, accepting only a payload that decompresses
    /// to exactly `expected_size` bytes.
    pub fn decompress(data: &[u8], expected_size: usize) -> (r: Result<Vec<u8>, ()>)
        ensures
            r is Ok ==> r->Ok_0@.len() == expected_size,
            forall|d: Seq<u8>|
                data@ == #[trigger] zstd_compress_of(d) && d.len() == expected_size ==> r is Ok
                    && r->Ok_0@ == d,
    {
        match Self::raw_decompress(data, expected_size) {
            Ok(v) => {
                if v.len() == expected_size {
                    Ok(v)
                } else {
                    Err(())
                }
            },
            Err(_) => Err(()),
        }
    }
}

impl LZ4Compression {
    /// Relies on `lz4_flex::block::compress`: the compressed block is a
    /// function of the input bytes alone, and compression cannot fail.
    #[verifier::external_body]
    pub fn compress(data: &[u8]) -> (r: Vec<u8>)
        ensures
            r@ == lz4_compress_of(data@),
    {
        lz4_flex::block::compress(data)
    }

    /// Relies on `lz4_flex::block::decompress_into`: it fills the output
    /// buffer from the front, reports how many bytes it wrote, errs rather
    /// than overrun the buffer, and inverts `lz4_flex::block::compress`.
    #[verifier::external_body]
    fn raw_decompress_into(data: &[u8], out_len: usize) -> (r: Result<(Vec<u8>, usize), ()>)
        ensures
            r is Ok ==> r->Ok_0.0@.len() == out_len && r->Ok_0.1 <= out_len,
            forall|d: Seq<u8>|
                data@ == #[trigger] lz4_compress_of(d) && d.len() <= out_len ==> r is Ok
                    && r->Ok_0.1 == d.len() && r->Ok_0.0@.take(d.len() as int) == d,
    {
        let mut out = vec![0u8; out_len];
        match lz4_flex::block::decompress_into(data, &mut out) {
            Ok(n) => Ok((out, n)),
            Err(_) => Err(()),
        }
    }

    /// Decompresses an lz4 block, accepting only a payload that decompresses
    /// to exactly `expected_size` bytes.
    pub fn decompress(data: &[u8], expected_size: usize) -> (r: Result<Vec<u8>, ()>)
        ensures
            r is Ok ==> r->Ok_0@.len() == expected_size,
            forall|d: Seq<u8>|
                data@ == #[trigger] lz4_compress_of(d) && d.len() == expected_size ==> r is Ok
                    && r->Ok_0@ == d,
    {
        match Self::raw_decompress_into(data, expected_size) {
            Ok((v, n)) => {
                if n == expected_size {
                    proof {
                        assert(v@.take(expected_size as int) =~= v@);
                    }
                    Ok(v)
                } else {
                    Err(())
                }
            },
            Err(_) => Err(()),
        }
    }
}

impl Chunk {
    /// Encodes this chunk for storage: the compression tag, then the raw or
    /// compressed payload. Only a compressor failure can err, so the raw
    /// form always succeeds.
    pub fn to_storage_bytes(self, compression: CompressionType) -> (r: Result<Vec<u8>, String>)
        requires
            self.wf(),
        ensures
            r is Ok ==> r->Ok_0@ == spec_encoded(self.spec_bytes(), compression),
            compression is Raw ==> r is Ok,
    {
        let raw = self.to_u8vec();
        let mut result: Vec<u8> = Vec::new();
        match compression {
            CompressionType::Raw => {
                result.push(0);
                let mut payload = raw;
                result.append(&mut payload);
            },
            CompressionType::Zstd => {
                result.push(1);
                match ZstdCompression::compress(raw.as_slice()) {
                    Ok(compressed) => {
                        let mut payload = compressed;
                        result.append(&mut payload);
                    },
                    Err(_) => {
                        return Err("failed to compress with zstd".to_owned());
                    },
                }
            },
            CompressionType::Lz4 => {
                result.push(2);
                let mut payload = LZ4Compression::compress(raw.as_slice());
                result.append(&mut payload);
            },
        }
        proof {
            assert(result@ =~= spec_encoded(self.spec_bytes(), compression));
        }
        Ok(result)
    }

    /// Decodes stored bytes, without the round-trip clause; `from_raw_data`
    /// wraps this and states it.
    fn decode_storage(data: &[u8]) -> (r: Result<Chunk, String>)
        ensures
            r is Ok ==> r->Ok_0.wf(),
            data@.len() == 0 ==> r is Err,
            data@.len() == CHUNK_BYTE_SIZE ==> r is Ok && r->Ok_0.spec_bytes() == data@,
            data@.len() != CHUNK_BYTE_SIZE && data@.len() > 0 ==> {
                let tag = data@[0];
                let content = data@.skip(1);
                &&& (tag == 0 ==> ((r is Ok <==> content.len() == CHUNK_BYTE_SIZE) && (r is Ok
                    ==> r->Ok_0.spec_bytes() == content)))
                &&& (tag == 1 ==> forall|d: Seq<u8>|
                    content == #[trigger] zstd_compress_of(d) && d.len() == CHUNK_BYTE_SIZE
                        ==> r is Ok && r->Ok_0.spec_bytes() == d)
                &&& (tag == 2 ==> forall|d: Seq<u8>|
                    content == #[trigger] lz4_compress_of(d) && d.len() == CHUNK_BYTE_SIZE ==> r
                        is Ok && r->Ok_0.spec_bytes() == d)
                &&& (tag > 2 ==> r is Err)
            },
    {
        if data.len() == 0 {
            return Err("empty data".to_owned());
        }
        if data.len() == CHUNK_BYTE_SIZE {
            let v = slice_to_vec(data);
            return Ok(InnerChunk::from_u8vec(&v));
        }
        let format = data[0];
        let content = slice_subrange(data, 1, data.len());
        proof {
            assert(content@ =~= data@.skip(1));
        }
        match format {
            0 => {
                if content.len() != CHUNK_BYTE_SIZE {
                    return Err("Invalid chunk size with uncompressed data".to_owned());
                }
                let v = slice_to_vec(content);
                Ok(InnerChunk::from_u8vec(&v))
            },
            1 => {
                match ZstdCompression::decompress(content, CHUNK_BYTE_SIZE) {
                    Ok(uncompressed) => Ok(InnerChunk::from_u8vec(&uncompressed)),
                    Err(_) => Err("zstd decompression failed".to_owned()),
                }
            },
            2 => {
                match LZ4Compression::decompress(content, CHUNK_BYTE_SIZE) {
                    Ok(uncompressed) => Ok(InnerChunk::from_u8vec(&uncompressed)),
                    Err(_) => Err("lz4 decompression failed".to_owned()),
                }
            },
            _ => Err("Unknown compression format".to_owned()),
        }
    }

    /// Decodes stored bytes back into a chunk.
    ///
    /// A body of exactly `CHUNK_BYTE_SIZE` bytes is the legacy raw form;
    /// otherwise the first byte is the compression tag and the rest the
    /// payload, which must yield exactly `CHUNK_BYTE_SIZE` bytes. The final
    /// clause is the round trip law: decoding an encoding returns the
    /// chunk's bytes, for every compression tag — except for a compressed
    /// image whose total length collides with the legacy raw length, which
    /// is read as legacy.
    pub fn from_raw_data(data: &[u8]) -> (r: Result<Chunk, String>)
        ensures
            r is Ok ==> r->Ok_0.wf(),
            data@.len() == 0 ==> r is Err,
            data@.len() == CHUNK_BYTE_SIZE ==> r is Ok && r->Ok_0.spec_bytes() == data@,
            data@.len() != CHUNK_BYTE_SIZE && data@.len() > 0 ==> {
                let tag = data@[0];
                let content = data@.skip(1);
                &&& (tag == 0 ==> ((r is Ok <==> content.len() == CHUNK_BYTE_SIZE) && (r is Ok
                    ==> r->Ok_0.spec_bytes() == content)))
                &&& (tag == 1 ==> forall|d: Seq<u8>|
                    content == #[trigger] zstd_compress_of(d) && d.len() == CHUNK_BYTE_SIZE
                        ==> r is Ok && r->Ok_0.spec_bytes() == d)
                &&& (tag == 2 ==> forall|d: Seq<u8>|
                    content == #[trigger] lz4_compress_of(d) && d.len() == CHUNK_BYTE_SIZE ==> r
                        is Ok && r->Ok_0.spec_bytes() == d)
                &&& (tag > 2 ==> r is Err)
            },
            forall|d: Seq<u8>, c: CompressionType|
                d.len() == CHUNK_BYTE_SIZE && data@ == #[trigger] spec_encoded(d, c)
                    && data@.len() != CHUNK_BYTE_SIZE ==> r is Ok && r->Ok_0.spec_bytes() == d,
    {
        let r = Self::decode_storage(data);
        proof {
            assert forall|d: Seq<u8>, c: CompressionType|
                d.len() == CHUNK_BYTE_SIZE && data@ == #[trigger] spec_encoded(d, c)
                    && data@.len() != CHUNK_BYTE_SIZE implies r is Ok && r->Ok_0.spec_bytes()
                == d by {
                match c {
                    CompressionType::Raw => {
                        assert(data@[0] == 0);
                        assert(data@.skip(1) =~= d);
                    },
                    CompressionType::Zstd => {
                        assert(data@[0] == 1);
                        assert(data@.skip(1) =~= zstd_compress_of(d));
                    },
                    CompressionType::Lz4 => {
                        assert(data@[0] == 2);
                        assert(data@.skip(1) =~= lz4_compress_of(d));
                    },
                }
            }
        }
        r
    }
}

} // verus!
