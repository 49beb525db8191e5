use paintplayground::chunk::Chunk;
use paintplayground::color::Color;
use paintplayground::coords::ChunkCoordinates;
use paintplayground::screenshot::{
    palette_bytes, plan_screenshot_query, screenshot_coordinates, Screenshot,
    ScreenshotQueryError,
};

#[test]
fn query_defaults_and_refusals() {
    // the second corner and the quality default
    let (tl, br, q) = plan_screenshot_query(1, 2, None, None, None).unwrap();
    assert_eq!((tl.x(), tl.y()), (1, 2));
    assert_eq!((br.x(), br.y()), (1, 2));
    assert_eq!(q, 4);

    // quality is capped at 8
    let (_, _, q) = plan_screenshot_query(0, 0, None, None, Some(9)).unwrap();
    assert_eq!(q, 8);
    let (_, _, q) = plan_screenshot_query(0, 0, None, None, Some(0)).unwrap();
    assert_eq!(q, 1);

    // a backwards rectangle is a bad request
    assert_eq!(
        plan_screenshot_query(2, 0, Some(1), Some(0), None),
        Err(ScreenshotQueryError::BadRequest)
    );
    assert_eq!(
        plan_screenshot_query(0, 0, Some(1), Some(1), None),
        Err(ScreenshotQueryError::BadRequest)
    );

    // a corner off the grid is not found
    assert_eq!(
        plan_screenshot_query(999999, 0, None, None, None),
        Err(ScreenshotQueryError::NotFound)
    );
    assert_eq!(
        plan_screenshot_query(0, 0, Some(11), Some(0), None),
        Err(ScreenshotQueryError::NotFound)
    );
}

#[test]
fn rectangle_coordinates_run_top_down() {
    let tl = ChunkCoordinates::new(0, 1).unwrap();
    let br = ChunkCoordinates::new(1, 0).unwrap();
    let coords = screenshot_coordinates(&tl, &br);
    let pairs: Vec<(i64, i64)> = coords.iter().map(|c| (c.x(), c.y())).collect();
    assert_eq!(pairs, vec![(0, 1), (1, 1), (0, 0), (1, 0)]);

    // corners in any order span the same rectangle
    let coords2 = screenshot_coordinates(&br, &tl);
    let pairs2: Vec<(i64, i64)> = coords2.iter().map(|c| (c.x(), c.y())).collect();
    assert_eq!(pairs, pairs2);

    let single = screenshot_coordinates(&tl, &tl);
    assert_eq!(single.len(), 1);
    assert_eq!((single[0].x(), single[0].y()), (0, 1));
}

fn dot_chunk() -> Chunk {
    let mut chunk = Chunk::new();
    chunk.set_pixel(0, Color::One);
    chunk
}

#[test]
fn single_dot_rasterises_to_the_first_nibble() {
    let screenshot = Screenshot::from_chunks(vec![vec![Some(dot_chunk())]]);
    let (buffer, w, h) = screenshot.generate_indexed_buffer_4bit(1);
    assert_eq!((w, h), (100, 100));
    assert_eq!(buffer.len(), 5000);
    // pixel (0,0) is color 1 in the high nibble, everything else is 0
    assert_eq!(buffer[0], 0x10);
    assert!(buffer[1..].iter().all(|&b| b == 0));
}

#[test]
fn missing_cells_rasterise_as_color_zero() {
    let screenshot = Screenshot::from_fetched(2, vec![Some(dot_chunk()), None]);
    let (buffer, w, h) = screenshot.generate_indexed_buffer_4bit(1);
    assert_eq!((w, h), (200, 100));
    assert_eq!(buffer.len(), 10000);
    assert_eq!(buffer[0], 0x10);
    assert!(buffer[50..100].iter().all(|&b| b == 0));
}

#[test]
fn scaling_expands_each_pixel_to_a_block() {
    let screenshot = Screenshot::from_chunks(vec![vec![Some(dot_chunk())]]);
    let (buffer, w, h) = screenshot.generate_indexed_buffer_4bit(2);
    assert_eq!((w, h), (200, 200));
    // the dot covers the 2×2 block at the top-left corner
    assert_eq!(buffer[0], 0x11);
    assert_eq!(buffer[100], 0x11);
    assert_eq!(buffer[1], 0x00);
}

#[test]
fn rgb_buffer_uses_the_palette() {
    let screenshot = Screenshot::from_chunks(vec![vec![Some(dot_chunk())]]);
    let (buffer, w, h) = screenshot.generate_buffer(1);
    assert_eq!((w, h), (100, 100));
    assert_eq!(buffer.len(), 30000);
    // the dot is palette entry 1, its neighbour palette entry 0
    assert_eq!(&buffer[0..3], &[245, 238, 176]);
    assert_eq!(&buffer[3..6], &[224, 211, 200]);
}

#[test]
fn png_of_a_single_dot() {
    let screenshot = Screenshot::from_chunks(vec![vec![Some(dot_chunk())]]);
    let png_bytes = screenshot.create_png(1);

    let decoder = png::Decoder::new(std::io::Cursor::new(png_bytes));
    let mut reader = decoder.read_info().unwrap();
    let info = reader.info();
    assert_eq!((info.width, info.height), (100, 100));
    assert_eq!(info.bit_depth, png::BitDepth::Four);
    assert_eq!(info.color_type, png::ColorType::Indexed);
    assert_eq!(info.palette.as_ref().unwrap().as_ref(), palette_bytes().as_slice());

    let mut buf = vec![0u8; reader.output_buffer_size().unwrap()];
    let out = reader.next_frame(&mut buf).unwrap();
    let frame = &buf[..out.buffer_size()];
    // two 4-bit pixels per byte: the dot is the high nibble of the first byte
    assert_eq!(frame[0], 0x10);
    assert!(frame[1..].iter().all(|&b| b == 0));
}
