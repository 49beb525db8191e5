//! The screenshot renderer: a rectangle of chunks rasterised to an
//! indexed-color image, two 4-bit pixels per byte, and encoded as a PNG with
//! the fixed 16-entry palette. Fetching the chunks is the surrounding
//! process's work; this module plans the fetch and renders what came back.

use vstd::prelude::*;

use crate::chunk::Chunk;
use crate::color::Color;
use crate::coords::ChunkCoordinates;
use crate::{CHUNKS_IN_DIRECTION, CHUNK_BYTE_SIZE, CHUNK_LENGTH, CHUNK_SIZE};

verus! {

/// Why a screenshot request is refused: a rectangle given backwards, or a
/// corner off the grid.
#[derive(Debug, PartialEq, Eq, Structural)]
pub enum ScreenshotQueryError {
    BadRequest,
    NotFound,
}

/// Resolves a screenshot query's parameters: the second corner defaults to
/// the first, the quality defaults to 4 and is clamped into `[1, 8]`; a
/// rectangle with `x > x2` or `y < y2` is a bad request; a corner off the
/// grid is not found.
pub fn plan_screenshot_query(x: i64, y: i64, x2: Option<i64>, y2: Option<i64>, q: Option<u8>) -> (r:
    Result<(ChunkCoordinates, ChunkCoordinates, u8), ScreenshotQueryError>)
    ensures
        ({
            let x2v = if x2 is Some {
                x2->0
            } else {
                x
            };
            let y2v = if y2 is Some {
                y2->0
            } else {
                y
            };
            let qv: u8 = if q is Some {
                if q->0 > 8 {
                    8
                } else if q->0 < 1 {
                    1
                } else {
                    q->0
                }
            } else {
                4
            };
            &&& (x > x2v || y < y2v ==> r is Err && r->Err_0 == ScreenshotQueryError::BadRequest)
            &&& (x <= x2v && y >= y2v && !(ChunkCoordinates::spec_in_grid(
                x,
                y,
                CHUNKS_IN_DIRECTION,
            ) && ChunkCoordinates::spec_in_grid(x2v, y2v, CHUNKS_IN_DIRECTION)) ==> r is Err
                && r->Err_0 == ScreenshotQueryError::NotFound)
            &&& (x <= x2v && y >= y2v && ChunkCoordinates::spec_in_grid(x, y, CHUNKS_IN_DIRECTION)
                && ChunkCoordinates::spec_in_grid(x2v, y2v, CHUNKS_IN_DIRECTION) ==> r is Ok && {
                let (top_left, bottom_right, quality) = r->Ok_0;
                &&& top_left.spec_x() == x && top_left.spec_y() == y
                &&& bottom_right.spec_x() == x2v && bottom_right.spec_y() == y2v
                &&& quality == qv
            })
        }),
{
    let x2v = match x2 {
        Some(v) => v,
        None => x,
    };
    let y2v = match y2 {
        Some(v) => v,
        None => y,
    };
    let quality = match q {
        Some(v) => {
            if v > 8 {
                8
            } else if v < 1 {
                1
            } else {
                v
            }
        },
        None => 4,
    };
    if x > x2v || y < y2v {
        return Err(ScreenshotQueryError::BadRequest);
    }
    let top_left = match ChunkCoordinates::new(x, y) {
        Ok(c) => c,
        Err(_) => {
            return Err(ScreenshotQueryError::NotFound);
        },
    };
    let bottom_right = match ChunkCoordinates::new(x2v, y2v) {
        Ok(c) => c,
        Err(_) => {
            return Err(ScreenshotQueryError::NotFound);
        },
    };
    Ok((top_left, bottom_right, quality))
}

/// The smaller of two values.
pub open spec fn spec_min64(a: i64, b: i64) -> i64 {
    if a <= b {
        a
    } else {
        b
    }
}

/// The larger of two values.
pub open spec fn spec_max64(a: i64, b: i64) -> i64 {
    if a >= b {
        a
    } else {
        b
    }
}

/// The coordinates of every chunk in the rectangle spanned by two corners,
/// row-major with `y` decreasing from top to bottom, `x` increasing left to
/// right — image orientation.
pub fn screenshot_coordinates(top_left: &ChunkCoordinates, bottom_right: &ChunkCoordinates) -> (r:
    Vec<ChunkCoordinates>)
    requires
        ChunkCoordinates::spec_in_grid(top_left.spec_x(), top_left.spec_y(), CHUNKS_IN_DIRECTION),
        ChunkCoordinates::spec_in_grid(
            bottom_right.spec_x(),
            bottom_right.spec_y(),
            CHUNKS_IN_DIRECTION,
        ),
    ensures
        ({
            let min_x = spec_min64(top_left.spec_x(), bottom_right.spec_x());
            let max_x = spec_max64(top_left.spec_x(), bottom_right.spec_x());
            let min_y = spec_min64(top_left.spec_y(), bottom_right.spec_y());
            let max_y = spec_max64(top_left.spec_y(), bottom_right.spec_y());
            let width = max_x - min_x + 1;
            let height = max_y - min_y + 1;
            &&& r@.len() == width * height
            &&& forall|i: int|
                0 <= i < r@.len() ==> (#[trigger] r@[i]).spec_x() == min_x + (i % width)
                    && r@[i].spec_y() == max_y - (i / width)
        }),
{
    let min_x = if top_left.x() <= bottom_right.x() {
        top_left.x()
    } else {
        bottom_right.x()
    };
    let max_x = if top_left.x() >= bottom_right.x() {
        top_left.x()
    } else {
        bottom_right.x()
    };
    let min_y = if top_left.y() <= bottom_right.y() {
        top_left.y()
    } else {
        bottom_right.y()
    };
    let max_y = if top_left.y() >= bottom_right.y() {
        top_left.y()
    } else {
        bottom_right.y()
    };
    proof {
        assert(max_x - min_x + 1 <= 21 && max_y - min_y + 1 <= 21);
    }
    let width = (max_x - min_x + 1) as usize;
    let height = (max_y - min_y + 1) as usize;
    proof {
        assert(width as int * height as int <= 441) by (nonlinear_arith)
            requires
                0 <= width <= 21,
                0 <= height <= 21,
        ;
    }
    let total = width * height;
    let mut r: Vec<ChunkCoordinates> = Vec::new();
    let mut i: usize = 0;
    while i < total
        invariant
            -CHUNKS_IN_DIRECTION <= min_x <= max_x <= CHUNKS_IN_DIRECTION,
            -CHUNKS_IN_DIRECTION <= min_y <= max_y <= CHUNKS_IN_DIRECTION,
            min_x == spec_min64(top_left.spec_x(), bottom_right.spec_x()),
            max_x == spec_max64(top_left.spec_x(), bottom_right.spec_x()),
            min_y == spec_min64(top_left.spec_y(), bottom_right.spec_y()),
            max_y == spec_max64(top_left.spec_y(), bottom_right.spec_y()),
            width == max_x - min_x + 1,
            height == max_y - min_y + 1,
            total == width * height,
            i <= total,
            r@.len() == i,
            forall|j: int|
                0 <= j < i ==> (#[trigger] r@[j]).spec_x() == min_x + (j % width as int)
                    && r@[j].spec_y() == max_y - (j / width as int),
        decreases total - i,
    {
        let dx = i % width;
        let dy = i / width;
        proof {
            assert(dy < height) by (nonlinear_arith)
                requires
                    i < width * height,
                    width > 0,
                    dy == i as int / width as int,
            ;
        }
        let xi = min_x + (dx as i64);
        let yi = max_y - (dy as i64);
        let c = ChunkCoordinates::new(xi, yi).unwrap();
        r.push(c);
        i = i + 1;
    }
    r
}

/// A fetched rectangle of chunks, ready to rasterise. A missing cell — a
/// chunk that does not exist or could not be loaded — renders as color 0.
pub struct Screenshot {
    chunks: Vec<Vec<Option<Chunk>>>,
}

impl Screenshot {
    /// How many chunk rows the rectangle has.
    pub closed spec fn spec_rows(self) -> int {
        self.chunks@.len() as int
    }

    /// How many chunk columns the rectangle has.
    pub closed spec fn spec_cols(self) -> int {
        if self.chunks@.len() == 0 {
            0
        } else {
            self.chunks@[0]@.len() as int
        }
    }

    /// The cell at chunk row `cy`, chunk column `cx`.
    pub closed spec fn spec_chunk_at(self, cy: int, cx: int) -> Option<Chunk> {
        self.chunks@[cy]@[cx]
    }

    /// A rectangle is non-empty, its rows all have the same width, and every
    /// present chunk holds a full chunk's bytes.
    pub closed spec fn wf(self) -> bool {
        &&& 0 < self.spec_rows()
        &&& 0 < self.spec_cols()
        &&& forall|cy: int|
            0 <= cy < self.spec_rows() ==> (#[trigger] self.chunks@[cy])@.len() == self.spec_cols()
        &&& forall|cy: int, cx: int|
            0 <= cy < self.spec_rows() && 0 <= cx < self.spec_cols() && self.spec_chunk_at(
                cy,
                cx,
            ) is Some ==> (#[trigger] self.spec_chunk_at(cy, cx))->0.wf()
    }

    /// The color of pixel `(px, py)` of the cell at `(cx, cy)`: the chunk's
    /// pixel, or 0 where the cell is missing.
    pub open spec fn spec_source_pixel(self, cx: int, cy: int, px: int, py: int) -> u8 {
        match self.spec_chunk_at(cy, cx) {
            Some(chunk) => chunk.spec_pixel(py * CHUNK_LENGTH + px),
            None => 0,
        }
    }

    /// The image width at scale `q`.
    pub open spec fn spec_width(self, q: int) -> int {
        self.spec_cols() * CHUNK_LENGTH * q
    }

    /// The image height at scale `q`.
    pub open spec fn spec_height(self, q: int) -> int {
        self.spec_rows() * CHUNK_LENGTH * q
    }

    /// The color index of image pixel `(x, y)` at scale `q`: each source
    /// pixel covers a `q × q` block.
    pub open spec fn spec_pixel_index(self, q: int, x: int, y: int) -> u8 {
        self.spec_source_pixel(
            x / (CHUNK_LENGTH * q),
            y / (CHUNK_LENGTH * q),
            (x / q) % (CHUNK_LENGTH as int),
            (y / q) % (CHUNK_LENGTH as int),
        )
    }

    /// The rasterised image at scale `q`, two 4-bit pixels per byte, the
    /// earlier pixel in the high nibble, rows top to bottom.
    pub open spec fn spec_indexed_buffer(self, q: int) -> Seq<u8> {
        let w = self.spec_width(q);
        let h = self.spec_height(q);
        Seq::new(
            (w * h / 2) as nat,
            |b: int|
                (self.spec_pixel_index(q, (2 * b) % w, (2 * b) / w) << 4) | self.spec_pixel_index(
                    q,
                    (2 * b + 1) % w,
                    (2 * b + 1) / w,
                ),
        )
    }

    /// The rasterised image at scale `q` as RGB triples, row-major.
    pub open spec fn spec_rgb_buffer(self, q: int) -> Seq<u8> {
        let w = self.spec_width(q);
        let h = self.spec_height(q);
        Seq::new(
            (w * h * 3) as nat,
            |i: int|
                {
                    let (r, g, b) = Color::spec_palette(
                        self.spec_pixel_index(q, (i / 3) % w, (i / 3) / w) as int,
                    );
                    if i % 3 == 0 {
                        r
                    } else if i % 3 == 1 {
                        g
                    } else {
                        b
                    }
                },
        )
    }

    /// Wraps an already-assembled rectangle of chunks.
    pub fn from_chunks(chunks: Vec<Vec<Option<Chunk>>>) -> (r: Screenshot)
        requires
            0 < chunks@.len(),
            0 < chunks@[0]@.len(),
            forall|cy: int|
                0 <= cy < chunks@.len() ==> (#[trigger] chunks@[cy])@.len() == chunks@[0]@.len(),
            forall|cy: int, cx: int|
                0 <= cy < chunks@.len() && 0 <= cx < chunks@[0]@.len() && chunks@[cy]@[cx] is Some
                    ==> (#[trigger] chunks@[cy]@[cx])->0.wf(),
        ensures
            r.wf(),
            r.spec_rows() == chunks@.len(),
            r.spec_cols() == chunks@[0]@.len(),
            forall|cy: int, cx: int|
                0 <= cy < chunks@.len() && 0 <= cx < chunks@[0]@.len()
                    ==> #[trigger] r.spec_chunk_at(cy, cx) == chunks@[cy]@[cx],
    {
        Screenshot { chunks }
    }

    /// Lays a row-major list of fetched cells out as a rectangle of the
    /// given width: list position `cy * width + cx` becomes the cell at
    /// chunk row `cy`, column `cx`.
    pub fn from_fetched(width: usize, fetched: Vec<Option<Chunk>>) -> (r: Screenshot)
        requires
            0 < width,
            0 < fetched@.len(),
            fetched@.len() as int % width as int == 0,
            forall|i: int|
                0 <= i < fetched@.len() && fetched@[i] is Some ==> (#[trigger] fetched@[i])->0.wf(),
        ensures
            r.wf(),
            r.spec_rows() == fetched@.len() as int / width as int,
            r.spec_cols() == width,
            forall|cy: int, cx: int|
                0 <= cy < r.spec_rows() && 0 <= cx < width ==> #[trigger] r.spec_chunk_at(cy, cx)
                    == fetched@[cy * width + cx],
    {
        let ghost all = fetched@;
        let height = fetched.len() / width;
        proof {
            vstd::arithmetic::div_mod::lemma_fundamental_div_mod(
                all.len() as int,
                width as int,
            );
            assert(all.len() == width as int * height as int);
            assert(height > 0) by (nonlinear_arith)
                requires
                    all.len() == width as int * height as int,
                    all.len() > 0,
                    width > 0,
                    height >= 0,
            ;
        }
        let mut remaining = fetched;
        let mut rows: Vec<Vec<Option<Chunk>>> = Vec::new();
        let mut cy: usize = 0;
        while cy < height
            invariant
                0 < width,
                all.len() == width as int * height as int,
                all.len() <= usize::MAX,
                cy <= height,
                rows@.len() == cy,
                remaining@ =~= all.skip(cy as int * width as int),
                forall|j: int| 0 <= j < cy ==> (#[trigger] rows@[j])@.len() == width,
                forall|j: int, cx: int|
                    0 <= j < cy && 0 <= cx < width ==> #[trigger] rows@[j]@[cx] == all[j * width
                        + cx],
                forall|i: int| 0 <= i < all.len() && all[i] is Some ==> (#[trigger] all[i])->0.wf(),
            decreases height - cy,
        {
            proof {
                assert(cy as int * width as int + width as int <= all.len()) by (nonlinear_arith)
                    requires
                        all.len() == width as int * height as int,
                        0 <= cy < height,
                        0 < width,
                ;
            }
            let mut row: Vec<Option<Chunk>> = Vec::new();
            let mut cx: usize = 0;
            while cx < width
                invariant
                    0 < width,
                    all.len() <= usize::MAX,
                    cy as int * width as int + width as int <= all.len(),
                    cx <= width,
                    row@.len() == cx,
                    remaining@ =~= all.skip(cy as int * width as int + cx as int),
                    forall|j: int|
                        0 <= j < cx ==> #[trigger] row@[j] == all[cy as int * width as int + j],
                decreases width - cx,
            {
                let c = remaining.remove(0);
                row.push(c);
                proof {
                    assert(remaining@ =~= all.skip(cy as int * width as int + cx as int + 1));
                }
                cx = cx + 1;
            }
            rows.push(row);
            proof {
                assert((cy + 1) as int * width as int == cy as int * width as int
                    + width as int) by (nonlinear_arith);
                assert(remaining@ =~= all.skip((cy + 1) as int * width as int));
            }
            cy = cy + 1;
        }
        let r = Screenshot { chunks: rows };
        proof {
            assert forall|cy2: int, cx2: int|
                0 <= cy2 < height && 0 <= cx2 < width implies #[trigger] r.spec_chunk_at(cy2, cx2)
                == all[cy2 * width as int + cx2] by {
                assert(rows@[cy2]@[cx2] == all[cy2 * width as int + cx2]);
            }
            assert forall|cy2: int, cx2: int|
                0 <= cy2 < height && 0 <= cx2 < width implies 0 <= #[trigger] (cy2 * width as int
                + cx2) < all.len() by {
                assert((cy2 + 1) * width as int <= height as int * width as int)
                    by (nonlinear_arith)
                    requires
                        0 <= cy2 < height,
                        0 < width,
                ;
                assert((cy2 + 1) * width as int == cy2 * width as int + width as int)
                    by (nonlinear_arith);
                assert(cy2 * width as int >= 0) by (nonlinear_arith)
                    requires
                        cy2 >= 0,
                        width as int > 0,
                ;
            }
            assert(r.wf());
        }
        r
    }

    /// The color index of image pixel `(x, y)` at scale `q`.
    fn pixel_at(&self, q: usize, x: usize, y: usize) -> (r: u8)
        requires
            self.wf(),
            1 <= q <= 8,
            self.spec_cols() <= 32,
            self.spec_rows() <= 32,
            x < self.spec_width(q as int),
            y < self.spec_height(q as int),
        ensures
            r == self.spec_pixel_index(q as int, x as int, y as int),
            r < 16,
    {
        let ghost cols = self.spec_cols();
        let ghost rows = self.spec_rows();
        proof {
            assert(CHUNK_LENGTH == 100 && CHUNK_SIZE == 10000 && CHUNK_BYTE_SIZE == 5000);
        }
        let cs = CHUNK_LENGTH * q;
        let cx = x / cs;
        let cy = y / cs;
        let px = (x / q) % CHUNK_LENGTH;
        let py = (y / q) % CHUNK_LENGTH;
        proof {
            assert((cx as int) < cols && (cy as int) < rows) by (nonlinear_arith)
                requires
                    (x as int) < cols * 100 * (q as int),
                    (y as int) < rows * 100 * (q as int),
                    cs as int == 100 * (q as int),
                    cx as int == x as int / (cs as int),
                    cy as int == y as int / (cs as int),
                    1 <= (q as int),
                    0 <= x as int,
                    0 <= y as int,
                    0 <= cols,
                    0 <= rows,
            ;
        }
        match &self.chunks[cy][cx] {
            Some(chunk) => {
                proof {
                    assert(self.spec_chunk_at(cy as int, cx as int) is Some);
                    assert(chunk.wf());
                }
                chunk.pixel(py * CHUNK_LENGTH + px)
            },
            None => 0,
        }
    }

    /// Rasterises the rectangle at scale `quality` into an indexed 4-bit
    /// buffer, two pixels per byte, high nibble first; also returns the
    /// image's width and height in pixels.
    pub fn generate_indexed_buffer_4bit(&self, quality: u8) -> (r: (Vec<u8>, u32, u32))
        requires
            self.wf(),
            1 <= quality <= 8,
            self.spec_cols() <= 32,
            self.spec_rows() <= 32,
        ensures
            r.0@ == self.spec_indexed_buffer(quality as int),
            r.1 == self.spec_width(quality as int),
            r.2 == self.spec_height(quality as int),
    {
        let ghost cols = self.spec_cols();
        let ghost rows = self.spec_rows();
        proof {
            assert(CHUNK_LENGTH == 100);
        }
        let q = quality as usize;
        let x_chunks = self.chunks[0].len();
        let y_chunks = self.chunks.len();
        let cs = CHUNK_LENGTH * q;
        proof {
            assert(x_chunks as int * cs as int <= 25600 && y_chunks as int * cs as int <= 25600)
                by (nonlinear_arith)
                requires
                    0 <= x_chunks as int <= 32,
                    0 <= y_chunks as int <= 32,
                    0 <= cs as int <= 800,
            ;
        }
        let img_width = x_chunks * cs;
        let img_height = y_chunks * cs;
        proof {
            assert(img_width as int == self.spec_width(q as int) && img_height as int
                == self.spec_height(q as int) && img_width as int == 2 * (x_chunks as int * (50
                * q as int)) && img_width as int >= 100) by (nonlinear_arith)
                requires
                    img_width as int == x_chunks as int * (100 * q as int),
                    img_height as int == y_chunks as int * (100 * q as int),
                    self.spec_width(q as int) == cols * 100 * (q as int),
                    self.spec_height(q as int) == rows * 100 * (q as int),
                    cols == x_chunks as int,
                    rows == y_chunks as int,
                    1 <= q as int,
                    1 <= x_chunks as int,
                    1 <= y_chunks as int,
            ;
        }
        let half_w = img_width / 2;
        proof {
            assert(half_w as int * img_height as int <= 327680000 && 2 * (half_w as int
                * img_height as int) == img_width as int * img_height as int)
                by (nonlinear_arith)
                requires
                    img_width as int == 2 * (half_w as int),
                    0 <= half_w as int <= 12800,
                    0 <= img_height as int <= 25600,
            ;
        }
        let total = half_w * img_height;
        let mut buffer: Vec<u8> = Vec::new();
        let mut b: usize = 0;
        while b < total
            invariant
                self.wf(),
                1 <= q <= 8,
                self.spec_cols() <= 32,
                self.spec_rows() <= 32,
                quality == q,
                img_width as int == self.spec_width(q as int),
                img_height as int == self.spec_height(q as int),
                img_width >= 100,
                total <= 327680000,
                2 * total as int == img_width as int * img_height as int,
                b <= total,
                buffer@.len() == b,
                forall|j: int|
                    0 <= j < b ==> buffer@[j] == self.spec_indexed_buffer(q as int)[j],
            decreases total - b,
        {
            let p0 = 2 * b;
            let p1 = 2 * b + 1;
            let x0 = p0 % img_width;
            let y0 = p0 / img_width;
            let x1 = p1 % img_width;
            let y1 = p1 / img_width;
            proof {
                assert((y0 as int) < img_height as int && (y1 as int) < img_height as int) by (nonlinear_arith)
                    requires
                        p0 as int == 2 * b as int,
                        p1 as int == p0 as int + 1,
                        (p1 as int) < 2 * (total as int),
                        2 * total as int == img_width as int * img_height as int,
                        y0 as int == p0 as int / (img_width as int),
                        y1 as int == p1 as int / (img_width as int),
                        img_width as int > 0,
                        0 <= img_height as int,
                ;
            }
            let hi = self.pixel_at(q, x0, y0);
            let lo = self.pixel_at(q, x1, y1);
            buffer.push((hi << 4) | lo);
            b = b + 1;
        }
        proof {
            assert(buffer@ =~= self.spec_indexed_buffer(q as int));
        }
        (buffer, img_width as u32, img_height as u32)
    }

    /// Rasterises the rectangle at scale `quality` into an RGB8 buffer,
    /// row-major, three bytes per pixel; also returns the image's width and
    /// height in pixels.
    pub fn generate_buffer(&self, quality: u8) -> (r: (Vec<u8>, u32, u32))
        requires
            self.wf(),
            1 <= quality <= 8,
            self.spec_cols() <= 32,
            self.spec_rows() <= 32,
        ensures
            r.0@ == self.spec_rgb_buffer(quality as int),
            r.1 == self.spec_width(quality as int),
            r.2 == self.spec_height(quality as int),
    {
        let ghost cols = self.spec_cols();
        let ghost rows = self.spec_rows();
        proof {
            assert(CHUNK_LENGTH == 100);
        }
        let q = quality as usize;
        let x_chunks = self.chunks[0].len();
        let y_chunks = self.chunks.len();
        let cs = CHUNK_LENGTH * q;
        proof {
            assert(x_chunks as int * cs as int <= 25600 && y_chunks as int * cs as int <= 25600)
                by (nonlinear_arith)
                requires
                    0 <= x_chunks as int <= 32,
                    0 <= y_chunks as int <= 32,
                    0 <= cs as int <= 800,
            ;
        }
        let img_width = x_chunks * cs;
        let img_height = y_chunks * cs;
        proof {
            assert(img_width as int == self.spec_width(q as int) && img_height as int
                == self.spec_height(q as int) && img_width as int >= 100) by (nonlinear_arith)
                requires
                    img_width as int == x_chunks as int * (100 * q as int),
                    img_height as int == y_chunks as int * (100 * q as int),
                    self.spec_width(q as int) == cols * 100 * (q as int),
                    self.spec_height(q as int) == rows * 100 * (q as int),
                    cols == x_chunks as int,
                    rows == y_chunks as int,
                    1 <= q as int,
                    1 <= x_chunks as int,
                    1 <= y_chunks as int,
            ;
            assert(img_width as int * img_height as int <= 655360000) by (nonlinear_arith)
                requires
                    0 <= img_width as int <= 25600,
                    0 <= img_height as int <= 25600,
            ;
        }
        let pixels = img_width * img_height;
        let mut buffer: Vec<u8> = Vec::new();
        let mut p: usize = 0;
        while p < pixels
            invariant
                self.wf(),
                1 <= q <= 8,
                self.spec_cols() <= 32,
                self.spec_rows() <= 32,
                quality == q,
                img_width as int == self.spec_width(q as int),
                img_height as int == self.spec_height(q as int),
                img_width >= 100,
                pixels <= 655360000,
                pixels as int == img_width as int * img_height as int,
                p <= pixels,
                buffer@.len() == 3 * p,
                forall|j: int|
                    0 <= j < 3 * p ==> buffer@[j] == self.spec_rgb_buffer(q as int)[j],
            decreases pixels - p,
        {
            let x = p % img_width;
            let y = p / img_width;
            proof {
                assert((y as int) < img_height as int) by (nonlinear_arith)
                    requires
                        (p as int) < img_width as int * img_height as int,
                        y as int == p as int / (img_width as int),
                        img_width as int > 0,
                        0 <= img_height as int,
                ;
            }
            let v = self.pixel_at(q, x, y);
            let color = Color::new(v).unwrap();
            let (cr, cg, cb) = color.to_rgb();
            buffer.push(cr);
            buffer.push(cg);
            buffer.push(cb);
            proof {
                assert forall|j: int| 3 * p <= j < 3 * (p + 1) implies buffer@[j]
                    == self.spec_rgb_buffer(q as int)[j] by {
                    assert(j / 3 == p && (j == 3 * p || j == 3 * p + 1 || j == 3 * p + 2));
                }
            }
            p = p + 1;
        }
        proof {
            assert(buffer@ =~= self.spec_rgb_buffer(q as int));
        }
        (buffer, img_width as u32, img_height as u32)
    }
}

/// The palette as PNG wants it: 16 RGB triples, 48 bytes.
pub open spec fn spec_palette_bytes() -> Seq<u8> {
    Seq::new(
        48,
        |i: int|
            {
                let (r, g, b) = Color::spec_palette(i / 3);
                if i % 3 == 0 {
                    r
                } else if i % 3 == 1 {
                    g
                } else {
                    b
                }
            },
    )
}

/// The palette as PNG wants it: 16 RGB triples, 48 bytes.
pub fn palette_bytes() -> (r: Vec<u8>)
    ensures
        r@ == spec_palette_bytes(),
{
    let colors = Color::all_colors_rgb();
    let mut r: Vec<u8> = Vec::new();
    let mut i: usize = 0;
    while i < 16
        invariant
            i <= 16,
            colors@.len() == 16,
            forall|k: int| 0 <= k < 16 ==> colors@[k] == Color::spec_palette(k),
            r@.len() == 3 * i,
            forall|j: int| 0 <= j < 3 * i ==> r@[j] == spec_palette_bytes()[j],
        decreases 16 - i,
    {
        let (cr, cg, cb) = colors[i];
        r.push(cr);
        r.push(cg);
        r.push(cb);
        proof {
            assert forall|j: int| 3 * i <= j < 3 * (i + 1) implies r@[j]
                == spec_palette_bytes()[j] by {
                assert(j / 3 == i && (j == 3 * i || j == 3 * i + 1 || j == 3 * i + 2));
            }
        }
        i = i + 1;
    }
    proof {
        assert(r@ =~= spec_palette_bytes());
    }
    r
}

/// What the png encoder emits for a 4-bit indexed image with the given
/// pixel data, dimensions and palette, at this crate's fixed encoder
/// settings.
pub uninterp spec fn indexed_png_of(data: Seq<u8>, width: u32, height: u32, palette: Seq<u8>) -> Seq<
    u8,
>;

/// Relies on `png::Encoder` with indexed color, bit depth four, no filter
/// and a fixed compression setting: the PNG stream it writes to a vector is
/// a function of the pixel data, the dimensions and the palette alone, and
/// with a palette present, matching dimensions and a buffer of exactly one
/// nibble per pixel the encoder does not fail.
#[verifier::external_body]
fn encode_indexed_png(data: &Vec<u8>, width: u32, height: u32, palette: &Vec<u8>) -> (r: Vec<u8>)
    requires
        0 < width,
        width % 2 == 0,
        0 < height,
        data@.len() == (width as int / 2) * height as int,
        palette@.len() == 48,
    ensures
        r@ == indexed_png_of(data@, width, height, palette@),
{
    let mut out: Vec<u8> = Vec::new();
    let mut encoder = png::Encoder::new(&mut out, width, height);
    encoder.set_color(png::ColorType::Indexed);
    encoder.set_depth(png::BitDepth::Four);
    encoder.set_compression(png::Compression::High);
    encoder.set_filter(png::Filter::NoFilter);
    encoder.set_palette(palette.as_slice());
    let mut writer = encoder.write_header().unwrap();
    writer.write_image_data(data.as_slice()).unwrap();
    drop(writer);
    out
}

impl Screenshot {
    /// Renders the rectangle at scale `quality` as a PNG: indexed color,
    /// bit depth four, the 16-entry palette, no filter.
    pub fn create_png(self, quality: u8) -> (r: Vec<u8>)
        requires
            self.wf(),
            1 <= quality <= 8,
            self.spec_cols() <= 32,
            self.spec_rows() <= 32,
        ensures
            r@ == indexed_png_of(
                self.spec_indexed_buffer(quality as int),
                self.spec_width(quality as int) as u32,
                self.spec_height(quality as int) as u32,
                spec_palette_bytes(),
            ),
    {
        let (indexed_buffer, width, height) = self.generate_indexed_buffer_4bit(quality);
        let palette = palette_bytes();
        proof {
            let w = self.spec_width(quality as int);
            let h = self.spec_height(quality as int);
            assert(0 < w && w % 2 == 0 && 0 < h && self.spec_indexed_buffer(quality as int).len()
                == (w / 2) * h && w <= 25600 && h <= 25600) by (nonlinear_arith)
                requires
                    w == self.spec_cols() * 100 * (quality as int),
                    h == self.spec_rows() * 100 * (quality as int),
                    self.spec_indexed_buffer(quality as int).len() == w * h / 2,
                    1 <= self.spec_cols() <= 32,
                    1 <= self.spec_rows() <= 32,
                    1 <= quality as int <= 8,
            ;
        }
        encode_indexed_png(&indexed_buffer, width, height, &palette)
    }
}

} // verus!
