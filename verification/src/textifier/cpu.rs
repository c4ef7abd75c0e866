use vstd::prelude::*;

use crate::pixels::RgbaImage;
use crate::textifier::types::{CharacterData, Direction};

verus! {

/// Relative luminance of an 8-bit colour divided by 256, in units of
/// `1 / BRIGHTNESS_ONE`: `r/256 · 0.2126 + g/256 · 0.7152 + b/256 · 0.0722`.
pub open spec fn luminance(p: [u8; 4]) -> u32 {
    (2126 * p[0] + 7152 * p[1] + 722 * p[2]) as u32
}

/// The sampling step along one side: the side divided into `count + 1` parts.
pub open spec fn sample_step(side: u32, count: u32) -> int {
    side as int / (count as int + 1)
}

/// The cell at column `x` and row `y` of the simple sampling.
pub open spec fn simple_cell(img: RgbaImage, image_width: u32, image_height: u32, columns: u32, rows: u32, x: int, y: int) -> CharacterData {
    let p = img.pixel(sample_step(image_width, columns) * x, sample_step(image_height, rows) * y);
    CharacterData {
        direction: Direction::NoEdge,
        brightness: luminance(p),
        color: [p[0], p[1], p[2]],
    }
}

/// `row` is row `y` of the simple sampling.
pub open spec fn simple_row(img: RgbaImage, image_width: u32, image_height: u32, columns: u32, rows: u32, y: int, row: Seq<CharacterData>) -> bool {
    row.len() == columns && forall|x: int|
        0 <= x < columns ==> #[trigger] row[x] == simple_cell(
            img,
            image_width,
            image_height,
            columns,
            rows,
            x,
            y,
        )
}

proof fn lemma_sample_in_range(side: u32, count: u32, i: int, limit: u32)
    requires
        count < u32::MAX,
        0 <= i < count,
        sample_step(side, count) * (count - 1) < limit,
    ensures
        0 <= sample_step(side, count) * i <= sample_step(side, count) * (count - 1),
        sample_step(side, count) * i < limit,
{
    let s = sample_step(side, count);
    assert(0 <= s * i <= s * (count - 1)) by (nonlinear_arith)
        requires
            0 <= i <= count - 1,
            s >= 0,
    ;
}

/// `simple` can sample the picture on this grid: the counts leave room for
/// their `+ 1` and the last sample point lies inside the picture.
pub open spec fn simple_fits(image: RgbaImage, image_width: u32, image_height: u32, columns: u32, rows: u32) -> bool {
    &&& columns < u32::MAX
    &&& rows < u32::MAX
    &&& columns > 0 && rows > 0 ==> sample_step(image_width, columns) * (columns - 1)
        < image.width && sample_step(image_height, rows) * (rows - 1) < image.height
}

/// Whether `simple` can sample the picture on this grid.
pub fn can_sample(image: &RgbaImage, image_width: u32, image_height: u32, columns: u32, rows: u32) -> (r: bool)
    ensures
        r == simple_fits(*image, image_width, image_height, columns, rows),
{
    if columns == u32::MAX || rows == u32::MAX {
        return false;
    }
    if columns == 0 || rows == 0 {
        return true;
    }
    let sx = (image_width / (columns + 1)) as u64;
    let sy = (image_height / (rows + 1)) as u64;
    assert(sx * (columns - 1) <= 0xffff_ffff * 0xffff_ffffu64) by (nonlinear_arith)
        requires
            sx <= 0xffff_ffffu64,
            columns - 1 <= 0xffff_ffffu64,
            columns >= 1,
    ;
    assert(sy * (rows - 1) <= 0xffff_ffff * 0xffff_ffffu64) by (nonlinear_arith)
        requires
            sy <= 0xffff_ffffu64,
            rows - 1 <= 0xffff_ffffu64,
            rows >= 1,
    ;
    sx * ((columns - 1) as u64) < image.width as u64 && sy * ((rows - 1) as u64) < image.height as u64
}

/// Samples the picture on a grid of `columns × rows` points, one cell each,
/// without edge detection: point `(x, y)` is pixel
/// `(image_width / (columns + 1) · x, image_height / (rows + 1) · y)`.
pub fn simple(
    image: &RgbaImage,
    image_width: u32,
    image_height: u32,
    columns: u32,
    rows: u32,
) -> (res: Result<Vec<Vec<CharacterData>>, String>)
    requires
        image.wf(),
        simple_fits(*image, image_width, image_height, columns, rows),
    ensures
        res matches Ok(grid) && grid@.len() == rows && forall|y: int|
            0 <= y < rows ==> simple_row(
                *image,
                image_width,
                image_height,
                columns,
                rows,
                y,
                #[trigger] grid@[y]@,
            ),
{
    let mut result: Vec<Vec<CharacterData>> = Vec::new();
    let step_x = image_width / (columns + 1);
    let step_y = image_height / (rows + 1);
    for y in 0..rows
        invariant
            image.wf(),
            columns < u32::MAX,
            rows < u32::MAX,
            columns > 0 && rows > 0 ==> sample_step(image_width, columns) * (columns - 1)
                < image.width && sample_step(image_height, rows) * (rows - 1) < image.height,
            step_x == sample_step(image_width, columns),
            step_y == sample_step(image_height, rows),
            result@.len() == y,
            forall|yy: int|
                0 <= yy < y ==> simple_row(
                    *image,
                    image_width,
                    image_height,
                    columns,
                    rows,
                    yy,
                    #[trigger] result@[yy]@,
                ),
    {
        let mut row: Vec<CharacterData> = Vec::new();
        for x in 0..columns
            invariant
                image.wf(),
                columns < u32::MAX,
                rows < u32::MAX,
                y < rows,
                columns > 0 ==> sample_step(image_width, columns) * (columns - 1) < image.width,
                columns > 0 ==> sample_step(image_height, rows) * (rows - 1) < image.height,
                step_x == sample_step(image_width, columns),
                step_y == sample_step(image_height, rows),
                row@.len() == x,
                forall|xx: int|
                    0 <= xx < x ==> #[trigger] row@[xx] == simple_cell(
                        *image,
                        image_width,
                        image_height,
                        columns,
                        rows,
                        xx,
                        y as int,
                    ),
        {
            proof {
                lemma_sample_in_range(image_width, columns, x as int, image.width);
                lemma_sample_in_range(image_height, rows, y as int, image.height);
            }
            let actual_x = step_x * x;
            let actual_y = step_y * y;
            let pixel = image.get_pixel(actual_x, actual_y);
            let brightness = 2126 * (pixel[0] as u32) + 7152 * (pixel[1] as u32) + 722 * (
            pixel[2] as u32);
            row.push(
                CharacterData {
                    direction: Direction::NoEdge,
                    brightness,
                    color: [pixel[0], pixel[1], pixel[2]],
                },
            );
        }
        let ghost old_result = result@;
        result.push(row);
        assert(result@[y as int]@ == row@);
        assert forall|yy: int| 0 <= yy < y + 1 implies simple_row(
            *image,
            image_width,
            image_height,
            columns,
            rows,
            yy,
            #[trigger] result@[yy]@,
        ) by {
            if yy < y {
                assert(result@[yy] == old_result[yy]);
            }
        }
    }
    Ok(result)
}

/// What `simple` returns, cell by cell: the cell in row `y` (row 0 at the
/// top) and column `x` is the pixel at
/// `(⌊image_width / (columns + 1)⌋ · x, ⌊image_height / (rows + 1)⌋ · y)`, with its
/// red, green and blue as colour, no edge, and brightness
/// `2126 · r + 7152 · g + 722 · b` (relative luminance in units of
/// `1 / BRIGHTNESS_ONE`); so row 0 samples the picture's top row.
pub proof fn lemma_simple_cells(
    img: RgbaImage,
    image_width: u32,
    image_height: u32,
    columns: u32,
    rows: u32,
    grid: Seq<Seq<CharacterData>>,
    x: int,
    y: int,
)
    requires
        grid.len() == rows,
        forall|yy: int| 0 <= yy < rows ==> simple_row(img, image_width, image_height, columns, rows, yy, #[trigger] grid[yy]),
        0 <= x < columns,
        0 <= y < rows,
    ensures
        grid[y].len() == columns,
        ({
            let p = img.pixel(
                (image_width as int / (columns as int + 1)) * x,
                (image_height as int / (rows as int + 1)) * y,
            );
            &&& grid[y][x].color == [p[0], p[1], p[2]]
            &&& grid[y][x].brightness == 2126 * p[0] + 7152 * p[1] + 722 * p[2]
            &&& grid[y][x].direction == Direction::NoEdge
        }),
        y == 0 ==> grid[0][x].color == [
            img.pixel((image_width as int / (columns as int + 1)) * x, 0)[0],
            img.pixel((image_width as int / (columns as int + 1)) * x, 0)[1],
            img.pixel((image_width as int / (columns as int + 1)) * x, 0)[2],
        ],
{
    assert(simple_row(img, image_width, image_height, columns, rows, y, grid[y]));
    assert(grid[y][x] == simple_cell(img, image_width, image_height, columns, rows, x, y));
    let p = img.pixel(sample_step(image_width, columns) * x, sample_step(image_height, rows) * y);
    assert(2126 * p[0] + 7152 * p[1] + 722 * p[2] <= 2_550_000);
}

/// A cell's brightness grows with each colour channel of its pixel: more red,
/// green or blue, the others unchanged, gives a strictly brighter cell; white
/// is `2_550_000` (just under `BRIGHTNESS_ONE`) and black is 0.
pub proof fn lemma_luminance_monotone(p: [u8; 4], q: [u8; 4])
    ensures
        p[0] <= q[0] && p[1] <= q[1] && p[2] <= q[2] ==> luminance(p) <= luminance(q),
        p[0] == q[0] && p[2] == q[2] && p[1] < q[1] ==> luminance(p) < luminance(q),
        p[1] == q[1] && p[2] == q[2] && p[0] < q[0] ==> luminance(p) < luminance(q),
        p[0] == q[0] && p[1] == q[1] && p[2] < q[2] ==> luminance(p) < luminance(q),
        p[0] == 255 && p[1] == 255 && p[2] == 255 ==> luminance(p) == 2_550_000,
        p[0] == 0 && p[1] == 0 && p[2] == 0 ==> luminance(p) == 0,
{
    assert(2126 * p[0] + 7152 * p[1] + 722 * p[2] <= 2_550_000);
    assert(2126 * q[0] + 7152 * q[1] + 722 * q[2] <= 2_550_000);
}

} // verus!
