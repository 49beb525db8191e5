use paintplayground::chunk::{Chunk, ChunkColor, SmallChunkArray};
use paintplayground::color::Color;
use paintplayground::coords::ChunkCoordinates;
use paintplayground::packed::PackedCell;
use paintplayground::{CHUNK_BYTE_SIZE, CHUNK_SIZE};

#[test]
fn chunk_color_packed_values() {
    let mut chunk_color = ChunkColor::default();
    assert_eq!(chunk_color.left(), Color::Zero.u8());
    assert_eq!(chunk_color.right(), Color::Zero.u8());

    chunk_color.set_left(Color::Ten);

    assert_eq!(chunk_color.left(), Color::Ten.u8());
    // right should be untouched
    assert_eq!(chunk_color.right(), Color::Zero.u8());

    chunk_color.set_right(Color::Twelve);
    assert_eq!(chunk_color.right(), Color::Twelve.u8());
    // left should be untouched
    assert_eq!(chunk_color.left(), Color::Ten.u8());
}

// test to vec etc for chunk
#[test]
fn chunk_to_vec() {
    let mut chunk = SmallChunkArray::default();
    chunk.set_pixel(0, Color::Ten);
    chunk.set_pixel(3, Color::Eight);
    chunk.set_pixel(8, Color::One);

    let vec = chunk.clone().to_u8vec();
    let chunk2 = SmallChunkArray::from_u8vec(&vec);

    for i in 0..5 {
        let a = chunk.byte_at(i);
        let b = chunk2.byte_at(i);
        assert_eq!((a.left(), a.right()), (b.left(), b.right()));
    }
}

#[test]
fn chunk_color_byte_round_trip() {
    for b in 0..=255u8 {
        let c = ChunkColor::from_byte(b);
        assert_eq!((c.left() << 4) | c.right(), b);
        assert_eq!(c.to_byte(), b);
    }
}

#[test]
fn chunk_color_new_packs_nibbles() {
    let c = ChunkColor::new(Color::Three, Color::Nine);
    assert_eq!(c.left(), 3);
    assert_eq!(c.right(), 9);
    assert_eq!(c.to_byte(), 0x39);
}

#[test]
fn color_values_and_palette() {
    assert_eq!(Color::Zero.u8(), 0);
    assert_eq!(Color::Fifteen.u8(), 15);
    assert_eq!(Color::Zero.to_rgb(), (224, 211, 200));
    assert_eq!(Color::One.to_rgb(), (245, 238, 176));
    let palette = Color::all_colors_rgb();
    assert_eq!(palette.len(), 16);
    assert_eq!(palette[0], (224, 211, 200));
    assert_eq!(palette[15], (235, 108, 152));
    for v in 0..16u8 {
        let color = Color::new(v).unwrap();
        assert_eq!(color.u8(), v);
        assert_eq!(color.to_index(), v);
        let (r, g, b) = color.to_rgb();
        assert_eq!(Color::rgb_to_index(r, g, b), v);
    }
    assert!(Color::new(16).is_none());
    assert_eq!(Color::rgb_to_index(1, 2, 3), 0);
}

#[test]
fn packed_cell_round_trip() {
    let pc = PackedCell::new(13, 7).unwrap();
    assert_eq!(pc.index(), 13);
    assert_eq!(pc.value(), 7);
    assert_eq!(pc.color().u8(), 7);

    let bytes = pc.to_binary();
    // (13 << 4) | 7 == 215 == 0xD7, little-endian
    assert_eq!(bytes, [0xD7, 0, 0, 0, 0, 0, 0, 0]);
    assert_eq!(pc.to_vec(), vec![0xD7, 0, 0, 0, 0, 0, 0, 0]);

    let pc2 = PackedCell::from_binary(&bytes).unwrap();
    assert_eq!(pc2.index(), 13);
    assert_eq!(pc2.value(), 7);

    let last = PackedCell::new(CHUNK_SIZE - 1, 15).unwrap();
    let again = PackedCell::from_binary(&last.to_binary()).unwrap();
    assert_eq!(again.index(), CHUNK_SIZE - 1);
    assert_eq!(again.value(), 15);
}

#[test]
fn packed_cell_constructor_bounds() {
    assert!(PackedCell::new(CHUNK_SIZE, 0).is_none());
    assert!(PackedCell::new(0, 16).is_none());
    let pc = PackedCell::new(CHUNK_SIZE - 1, 15).unwrap();
    assert!(pc.index() < CHUNK_SIZE);
    assert!(pc.value() < 16);
    let zero = PackedCell::new(0, 0).unwrap();
    assert_eq!(zero.index(), 0);
    assert_eq!(zero.value(), 0);

    // the raw wire word carries the index in its high 60 bits
    assert!(PackedCell::new_from_u64((CHUNK_SIZE as u64) << 4).is_none());
    let pc = PackedCell::new_from_u64(((CHUNK_SIZE as u64 - 1) << 4) | 0xF).unwrap();
    assert_eq!(pc.index(), CHUNK_SIZE - 1);
    assert_eq!(pc.value(), 15);
}

#[test]
fn coordinates_accept_only_the_grid() {
    assert!(ChunkCoordinates::new(0, 0).is_ok());
    assert!(ChunkCoordinates::new(10, 10).is_ok());
    assert!(ChunkCoordinates::new(-10, -10).is_ok());
    assert!(ChunkCoordinates::new(11, 0).is_err());
    assert!(ChunkCoordinates::new(0, -11).is_err());
    assert!(ChunkCoordinates::new(999999, 0).is_err());

    let c = ChunkCoordinates::new(3, -4).unwrap();
    assert_eq!(c.x(), 3);
    assert_eq!(c.y(), -4);

    assert!(ChunkCoordinates::with_limit(50, -50, 64).is_ok());
    assert!(ChunkCoordinates::with_limit(65, 0, 64).is_err());

    let d = ChunkCoordinates::default();
    assert_eq!((d.x(), d.y()), (0, 0));
}

#[test]
fn object_names() {
    assert_eq!(ChunkCoordinates::new(0, 0).unwrap().object_name(), "0_0.chunk");
    assert_eq!(ChunkCoordinates::new(3, -4).unwrap().object_name(), "3_-4.chunk");
    assert_eq!(ChunkCoordinates::new(-10, 10).unwrap().object_name(), "-10_10.chunk");
}

#[test]
fn chunk_pixels() {
    let mut chunk = Chunk::new();
    assert_eq!(chunk.data().len(), CHUNK_BYTE_SIZE);
    assert!(chunk.data().iter().all(|&b| b == 0));

    chunk.set_pixel(0, Color::One);
    chunk.set_pixel(1, Color::Two);
    chunk.set_pixel(CHUNK_SIZE - 1, Color::Fifteen);
    assert_eq!(chunk.pixel(0), 1);
    assert_eq!(chunk.pixel(1), 2);
    assert_eq!(chunk.pixel(2), 0);
    assert_eq!(chunk.pixel(CHUNK_SIZE - 1), 15);

    // out-of-range indices leave the chunk alone
    chunk.set_pixel(CHUNK_SIZE, Color::Nine);
    assert_eq!(chunk.data()[0], 0x12);

    let pc = PackedCell::new(205, 6).unwrap();
    chunk.apply_packed_cell(&pc);
    assert_eq!(chunk.pixel(205), 6);

    let row = chunk.row_of_colors(0);
    assert_eq!(row.len(), 100);
    assert_eq!(row[0].u8(), 1);
    assert_eq!(row[1].u8(), 2);
    let row2 = chunk.row_of_colors(2);
    assert_eq!(row2[5].u8(), 6);
}
