use paintplayground::board::{BoardManagerError, ChunkRegistry};
use paintplayground::chunk::Chunk;
use paintplayground::color::Color;
use paintplayground::coords::ChunkCoordinates;
use paintplayground::manager::{coalesce, ChunkManagerCore, WindowOutcome};
use paintplayground::packed::PackedCell;
use paintplayground::wire::{error_frame, parse_update_frame, WsMessage};
use paintplayground::{CHUNK_BYTE_SIZE, CHUNK_SIZE, IDLE_TTL_MS, MAX_LIVE_CHUNKS};

#[test]
fn handshake_frame_is_tag_plus_chunk_bytes() {
    let frame = WsMessage::entire_chunk_buffer(Chunk::new());
    assert_eq!(frame.len(), 5001);
    assert_eq!(frame[0], 0x01);
    assert!(frame[1..].iter().all(|&b| b == 0));
    assert_eq!(frame.len(), CHUNK_BYTE_SIZE + 1);
}

#[test]
fn update_frame_carries_le_cells() {
    // index 13, color 7: (13 << 4) | 7 == 215 == 0xD7, little-endian
    let cell = PackedCell::new(13, 7).unwrap();
    let frame = WsMessage::chunk_update_buffer(vec![cell]);
    assert_eq!(frame, vec![0x02, 0xD7, 0, 0, 0, 0, 0, 0, 0]);
}

#[test]
fn refusal_frames() {
    assert_eq!(WsMessage::too_many_chunks_buffer(), vec![0x04]);
    assert_eq!(WsMessage::chunk_not_found_buffer(), vec![0x03]);
    assert_eq!(error_frame(&BoardManagerError::TooManyChunksLoaded), vec![0x04]);
    assert_eq!(error_frame(&BoardManagerError::LoadingChunks), vec![0x03]);
    assert_eq!(WsMessage::EntireChunk.u8(), 1);
    assert_eq!(WsMessage::ChunkUpdate.u8(), 2);
    assert_eq!(WsMessage::ChunkNotFound.u8(), 3);
    assert_eq!(WsMessage::TooManyChunksLoaded.u8(), 4);
}

#[test]
fn inbound_frames_parse_to_cells() {
    let a = PackedCell::new(13, 7).unwrap();
    let b = PackedCell::new(9999, 15).unwrap();
    let mut data = Vec::new();
    data.extend_from_slice(&a.to_binary());
    data.extend_from_slice(&b.to_binary());
    let parsed = parse_update_frame(&data);
    assert_eq!(parsed.len(), 2);
    assert_eq!((parsed[0].index(), parsed[0].value()), (13, 7));
    assert_eq!((parsed[1].index(), parsed[1].value()), (9999, 15));
}

#[test]
fn inbound_frame_drops_out_of_range_cells() {
    let good = PackedCell::new(5, 2).unwrap();
    let bad_word: u64 = (CHUNK_SIZE as u64) << 4;  // index one past the chunk
    let mut data = Vec::new();
    data.extend_from_slice(&bad_word.to_le_bytes());
    data.extend_from_slice(&good.to_binary());
    let parsed = parse_update_frame(&data);
    assert_eq!(parsed.len(), 1);
    assert_eq!((parsed[0].index(), parsed[0].value()), (5, 2));
}

#[test]
fn inbound_frame_of_ragged_length_is_discarded() {
    let cell = PackedCell::new(5, 2).unwrap();
    let mut data = cell.to_binary().to_vec();
    data.push(0);
    assert!(parse_update_frame(&data).is_empty());
    assert!(parse_update_frame(&[1, 2, 3]).is_empty());
    assert!(parse_update_frame(&[]).is_empty());
}

#[test]
fn coalescing_keeps_the_last_write_per_pixel() {
    let updates = vec![
        PackedCell::new(5, 3).unwrap(),
        PackedCell::new(5, 9).unwrap(),
        PackedCell::new(5, 2).unwrap(),
    ];
    let batch = coalesce(&updates);
    assert_eq!(batch.len(), 1);
    assert_eq!((batch[0].index(), batch[0].value()), (5, 2));

    let updates = vec![
        PackedCell::new(1, 4).unwrap(),
        PackedCell::new(2, 5).unwrap(),
        PackedCell::new(1, 6).unwrap(),
    ];
    let batch = coalesce(&updates);
    assert_eq!(batch.len(), 2);
    assert_eq!((batch[0].index(), batch[0].value()), (1, 6));
    assert_eq!((batch[1].index(), batch[1].value()), (2, 5));

    assert!(coalesce(&Vec::new()).is_empty());
}

#[test]
fn window_with_updates_commits_and_broadcasts() {
    let coords = ChunkCoordinates::new(0, 0).unwrap();
    let mut core = ChunkManagerCore::new(coords, Chunk::new(), 0);
    let pending = vec![
        PackedCell::new(5, 3).unwrap(),
        PackedCell::new(5, 9).unwrap(),
        PackedCell::new(5, 2).unwrap(),
    ];
    let outcome = core.end_window(&pending, 2, 500);
    match outcome {
        WindowOutcome::Commit(batch) => {
            assert_eq!(batch.len(), 1);
            assert_eq!((batch[0].index(), batch[0].value()), (5, 2));
        }
        _ => panic!("a window with updates must commit"),
    }
    assert_eq!(core.chunk().pixel(5), 2);
    assert_eq!(core.chunk().pixel(4), 0);
    assert_eq!(core.chunk_bytes()[2], 0x02);
    assert_eq!(core.coordinates(), coords);
}

#[test]
fn idle_window_keeps_serving_until_the_ttl() {
    let coords = ChunkCoordinates::new(1, -1).unwrap();
    let mut core = ChunkManagerCore::new(coords, Chunk::new(), 0);
    let empty: Vec<PackedCell> = Vec::new();

    // subscribers present: never terminate
    assert!(matches!(core.end_window(&empty, 3, IDLE_TTL_MS + 1), WindowOutcome::Idle));
    // no subscribers, but not idle long enough
    assert!(matches!(core.end_window(&empty, 0, IDLE_TTL_MS - 1), WindowOutcome::Idle));
    // no subscribers, idle past the TTL: tear down
    assert!(matches!(core.end_window(&empty, 0, IDLE_TTL_MS), WindowOutcome::Terminate));
}

#[test]
fn registry_admits_up_to_the_cap() {
    let mut registry: ChunkRegistry<u32> = ChunkRegistry::new();
    let mut coords = Vec::new();
    'outer: for x in -10i64..=10 {
        for y in -10i64..=10 {
            coords.push(ChunkCoordinates::new(x, y).unwrap());
            if coords.len() == MAX_LIVE_CHUNKS + 1 {
                break 'outer;
            }
        }
    }
    for (i, c) in coords.iter().take(MAX_LIVE_CHUNKS).enumerate() {
        assert!(registry.try_insert(*c, i as u32).is_ok());
    }
    assert_eq!(registry.len(), MAX_LIVE_CHUNKS);

    // the 101st coordinate is refused, and nothing is created
    let overflow = coords[MAX_LIVE_CHUNKS];
    let refused = registry.try_insert(overflow, 999);
    assert!(matches!(refused, Err(BoardManagerError::TooManyChunksLoaded)));
    assert_eq!(registry.len(), MAX_LIVE_CHUNKS);
    assert!(registry.get(&overflow).is_none());

    // an existing entry is observed, not recreated
    assert_eq!(registry.get(&coords[7]), Some(&7));

    // after a manager announces its death its coordinate is free again
    registry.remove(&coords[7]);
    assert!(registry.get(&coords[7]).is_none());
    assert_eq!(registry.len(), MAX_LIVE_CHUNKS - 1);
    assert!(registry.try_insert(overflow, 999).is_ok());
    assert_eq!(registry.get(&overflow), Some(&999));

    // removing an absent coordinate changes nothing
    registry.remove(&coords[7]);
    assert_eq!(registry.len(), MAX_LIVE_CHUNKS);
}

#[test]
fn pixel_updates_survive_the_wire_and_the_window() {
    // a client frame with one update, index 205 color 6
    let cell = PackedCell::new(205, 6).unwrap();
    let frame: Vec<u8> = cell.to_vec();
    let batch = parse_update_frame(&frame);
    assert_eq!(batch.len(), 1);

    let coords = ChunkCoordinates::new(0, 0).unwrap();
    let mut core = ChunkManagerCore::new(coords, Chunk::new(), 0);
    match core.end_window(&batch, 1, 500) {
        WindowOutcome::Commit(out) => {
            let broadcast = WsMessage::chunk_update_buffer(out);
            assert_eq!(broadcast[0], 0x02);
            assert_eq!(broadcast.len(), 9);
            let reparsed = parse_update_frame(&broadcast[1..]);
            assert_eq!((reparsed[0].index(), reparsed[0].value()), (205, 6));
        }
        _ => panic!("a window with updates must commit"),
    }
    assert_eq!(core.chunk().pixel(205), 6);
}
