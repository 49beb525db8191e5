use paintplayground::chunk::Chunk;
use paintplayground::codec::{CompressionType, LZ4Compression, ZstdCompression, USED_COMPRESSION};
use paintplayground::color::Color;
use paintplayground::coords::ChunkCoordinates;
use paintplayground::storage::{chunk_file_path, chunk_object_path, chunk_from_loaded, ChunkLoaderSaverError};
use paintplayground::CHUNK_BYTE_SIZE;

fn sample_chunk() -> Chunk {
    let mut chunk = Chunk::new();
    chunk.set_pixel(0, Color::Ten);
    chunk.set_pixel(9999, Color::Eight);
    chunk.set_pixel(5000, Color::One);
    chunk.set_pixel(137, Color::Fifteen);
    chunk
}

#[test]
fn storage_round_trip_raw() {
    let chunk = sample_chunk();
    let encoded = chunk.clone().to_storage_bytes(CompressionType::Raw).unwrap();
    assert_eq!(encoded.len(), CHUNK_BYTE_SIZE + 1);
    assert_eq!(encoded[0], 0);
    let decoded = Chunk::from_raw_data(&encoded).unwrap();
    assert_eq!(decoded.data(), chunk.data());
}

#[test]
fn storage_round_trip_zstd() {
    let chunk = sample_chunk();
    let encoded = chunk.clone().to_storage_bytes(CompressionType::Zstd).unwrap();
    assert_eq!(encoded[0], 1);
    // compression actually shrinks this mostly-empty chunk
    assert!(encoded.len() < CHUNK_BYTE_SIZE);
    let decoded = Chunk::from_raw_data(&encoded).unwrap();
    assert_eq!(decoded.data(), chunk.data());
}

#[test]
fn storage_round_trip_lz4() {
    let chunk = sample_chunk();
    let encoded = chunk.clone().to_storage_bytes(CompressionType::Lz4).unwrap();
    assert_eq!(encoded[0], 2);
    let decoded = Chunk::from_raw_data(&encoded).unwrap();
    assert_eq!(decoded.data(), chunk.data());
}

#[test]
fn storage_reads_legacy_raw_files() {
    let chunk = sample_chunk();
    let bare = chunk.data();
    assert_eq!(bare.len(), CHUNK_BYTE_SIZE);
    let decoded = Chunk::from_raw_data(&bare).unwrap();
    assert_eq!(decoded.data(), chunk.data());
}

#[test]
fn storage_rejects_malformed_bodies() {
    assert!(Chunk::from_raw_data(&[]).is_err());
    // tag 0 with a short payload
    assert!(Chunk::from_raw_data(&[0u8, 1, 2, 3]).is_err());
    // unknown tag
    let mut body = vec![7u8];
    body.extend_from_slice(&[0u8; CHUNK_BYTE_SIZE]);
    assert!(Chunk::from_raw_data(&body).is_err());
    // tag 1 with bytes that are not a zstd block
    assert!(Chunk::from_raw_data(&[1u8, 0xde, 0xad, 0xbe, 0xef]).is_err());
    // tag 2 with bytes that are not an lz4 block of the right size
    assert!(Chunk::from_raw_data(&[2u8, 0xff, 0xff]).is_err());
}

#[test]
fn compressors_invert_themselves() {
    let data: Vec<u8> = (0..CHUNK_BYTE_SIZE).map(|i| (i % 251) as u8).collect();
    let z = ZstdCompression::compress(&data).unwrap();
    assert_ne!(z, data);
    assert_eq!(ZstdCompression::decompress(&z, CHUNK_BYTE_SIZE).unwrap(), data);
    // a buffer bound below the decompressed size is refused
    assert!(ZstdCompression::decompress(&z, CHUNK_BYTE_SIZE - 1).is_err());

    let l = LZ4Compression::compress(&data);
    assert_ne!(l, data);
    assert_eq!(LZ4Compression::decompress(&l, CHUNK_BYTE_SIZE).unwrap(), data);
    assert!(LZ4Compression::decompress(&l, CHUNK_BYTE_SIZE - 1).is_err());
}

#[test]
fn default_compression_is_zstd() {
    assert!(matches!(USED_COMPRESSION, CompressionType::Zstd));
}

#[test]
fn loaded_bytes_become_chunks() {
    // a missing object with creation asked for becomes a fresh chunk
    let fresh = chunk_from_loaded(None, true).unwrap();
    assert!(fresh.data().iter().all(|&b| b == 0));

    // a missing object without creation is a load error
    let missing = chunk_from_loaded(None, false);
    assert!(matches!(missing, Err(ChunkLoaderSaverError::ChunkLoadError(_))));

    // stored bytes decode
    let chunk = sample_chunk();
    let encoded = chunk.clone().to_storage_bytes(CompressionType::Zstd).unwrap();
    let loaded = chunk_from_loaded(Some(encoded), false).unwrap();
    assert_eq!(loaded.data(), chunk.data());

    // undecodable bytes are a compression error
    let broken = chunk_from_loaded(Some(vec![1u8, 2, 3]), true);
    assert!(matches!(broken, Err(ChunkLoaderSaverError::CompressionError(_))));
}

#[test]
fn storage_paths() {
    let c = ChunkCoordinates::new(2, 3).unwrap();
    assert_eq!(chunk_file_path(&c), "canvas/2_3.chunk");
    assert_eq!(chunk_object_path(&c), "chunks/2_3.chunk");
    let d = ChunkCoordinates::new(-1, 0).unwrap();
    assert_eq!(chunk_file_path(&d), "canvas/-1_0.chunk");
    assert_eq!(chunk_object_path(&d), "chunks/-1_0.chunk");
}
