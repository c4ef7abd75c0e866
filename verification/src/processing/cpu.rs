use vstd::prelude::*;

use crate::processing::image::{Direction, PixelData};

verus! {

/// How many samples of `row[x_min..x_end]` have direction `d`.
pub open spec fn row_count(row: Seq<PixelData>, x_min: int, x_end: int, d: Direction) -> nat
    decreases x_end - x_min,
{
    if x_end <= x_min {
        0
    } else {
        row_count(row, x_min, x_end - 1, d) + if row[x_end - 1].direction == d {
            1nat
        } else {
            0nat
        }
    }
}

/// How many samples of the window `[x_min, x_max) × [y_min, y_end)` have
/// direction `d`.
pub open spec fn window_count(
    image: Seq<Seq<PixelData>>,
    x_min: int,
    x_max: int,
    y_min: int,
    y_end: int,
    d: Direction,
) -> nat
    decreases y_end - y_min,
{
    if y_end <= y_min {
        0
    } else {
        window_count(image, x_min, x_max, y_min, y_end - 1, d) + row_count(
            image[y_end - 1],
            x_min,
            x_max,
            d,
        )
    }
}

/// The direction that represents a window, from the counts of each
/// direction: no edge when every sample has none, otherwise the most common
/// edge direction, ties going to the later of top-to-bottom,
/// topright-to-botleft, topleft-to-botright, left-to-right.
pub open spec fn average_direction(
    top_to_bottom: nat,
    topright_to_botleft: nat,
    topleft_to_botright: nat,
    left_to_right: nat,
    no_edge: nat,
    area: nat,
) -> Direction {
    if no_edge >= area {
        Direction::NoEdge
    } else if top_to_bottom > topright_to_botleft && top_to_bottom > topleft_to_botright
        && top_to_bottom > left_to_right {
        Direction::TopToBottom
    } else if topright_to_botleft > topleft_to_botright && topright_to_botleft > left_to_right {
        Direction::ToprightToBotleft
    } else if topleft_to_botright > left_to_right {
        Direction::TopleftToBotright
    } else {
        Direction::LeftToRight
    }
}

/// The direction `get_pixel_data` gives the window.
pub open spec fn window_direction(
    image: Seq<Seq<PixelData>>,
    x_min: int,
    x_max: int,
    y_min: int,
    y_max: int,
) -> Direction {
    average_direction(
        window_count(image, x_min, x_max, y_min, y_max, Direction::TopToBottom),
        window_count(image, x_min, x_max, y_min, y_max, Direction::ToprightToBotleft),
        window_count(image, x_min, x_max, y_min, y_max, Direction::TopleftToBotright),
        window_count(image, x_min, x_max, y_min, y_max, Direction::LeftToRight),
        window_count(image, x_min, x_max, y_min, y_max, Direction::NoEdge),
        ((y_max - y_min) * (x_max - x_min)) as nat,
    )
}

pub open spec fn grid_view(image: Seq<Vec<PixelData>>) -> Seq<Seq<PixelData>> {
    image.map_values(|r: Vec<PixelData>| r@)
}

/// The window can be read: its rows (when it is not empty) lie inside the
/// grid, its centre exists, and
/// the arithmetic on its bounds stays inside `u32` (and each edge direction's
/// count inside `i32`).
pub open spec fn window_readable(
    image: Seq<Seq<PixelData>>,
    x_min: u32,
    x_max: u32,
    y_min: u32,
    y_max: u32,
) -> bool {
    &&& x_min <= x_max
    &&& y_min <= y_max
    &&& (y_max - y_min) * (x_max - x_min) <= u32::MAX
    &&& y_min + y_max <= u32::MAX
    &&& x_min + x_max <= u32::MAX
    &&& x_min < x_max ==> forall|y: int| y_min <= y < y_max ==> y < image.len() && x_max <= #[trigger] image[y].len()
    &&& (y_min + y_max) / 2 < image.len()
    &&& (x_min + x_max) / 2 < image[(y_min + y_max) / 2].len()
    &&& window_count(image, x_min as int, x_max as int, y_min as int, y_max as int, Direction::TopToBottom) <= i32::MAX
    &&& window_count(image, x_min as int, x_max as int, y_min as int, y_max as int, Direction::ToprightToBotleft) <= i32::MAX
    &&& window_count(image, x_min as int, x_max as int, y_min as int, y_max as int, Direction::TopleftToBotright) <= i32::MAX
    &&& window_count(image, x_min as int, x_max as int, y_min as int, y_max as int, Direction::LeftToRight) <= i32::MAX
}

proof fn lemma_row_count_bound(row: Seq<PixelData>, x_min: int, x_end: int, d: Direction)
    ensures
        x_min <= x_end ==> row_count(row, x_min, x_end, d) <= x_end - x_min,
    decreases x_end - x_min,
{
    if x_end > x_min {
        lemma_row_count_bound(row, x_min, x_end - 1, d);
    }
}

proof fn lemma_window_count_bound(
    image: Seq<Seq<PixelData>>,
    x_min: int,
    x_max: int,
    y_min: int,
    y_end: int,
    d: Direction,
)
    requires
        x_min <= x_max,
    ensures
        y_min <= y_end ==> window_count(image, x_min, x_max, y_min, y_end, d) <= (y_end - y_min)
            * (x_max - x_min),
    decreases y_end - y_min,
{
    if y_end > y_min {
        lemma_window_count_bound(image, x_min, x_max, y_min, y_end - 1, d);
        lemma_row_count_bound(image[y_end - 1], x_min, x_max, d);
        assert((y_end - 1 - y_min) * (x_max - x_min) + (x_max - x_min) == (y_end - y_min) * (x_max
            - x_min)) by (nonlinear_arith);
    }
}

proof fn lemma_window_count_mono(
    image: Seq<Seq<PixelData>>,
    x_min: int,
    x_max: int,
    y_min: int,
    y_end: int,
    y_last: int,
    d: Direction,
)
    requires
        y_min <= y_end <= y_last,
    ensures
        window_count(image, x_min, x_max, y_min, y_end, d) <= window_count(
            image,
            x_min,
            x_max,
            y_min,
            y_last,
            d,
        ),
    decreases y_last - y_end,
{
    if y_end < y_last {
        lemma_window_count_mono(image, x_min, x_max, y_min, y_end, y_last - 1, d);
    }
}

/// The prevailing direction of a window: when not every sample of the window
/// is without an edge, and one edge direction occurs strictly more often
/// than each of the other three, the window takes that direction. A window
/// whose samples all have no edge has no edge.
pub proof fn lemma_majority_direction(
    image: Seq<Seq<PixelData>>,
    x_min: int,
    x_max: int,
    y_min: int,
    y_max: int,
)
    requires
        x_min <= x_max,
        y_min <= y_max,
    ensures
        ({
            let tb = window_count(image, x_min, x_max, y_min, y_max, Direction::TopToBottom);
            let tr = window_count(image, x_min, x_max, y_min, y_max, Direction::ToprightToBotleft);
            let tl = window_count(image, x_min, x_max, y_min, y_max, Direction::TopleftToBotright);
            let lr = window_count(image, x_min, x_max, y_min, y_max, Direction::LeftToRight);
            let none = window_count(image, x_min, x_max, y_min, y_max, Direction::NoEdge);
            let area = (y_max - y_min) * (x_max - x_min);
            let d = window_direction(image, x_min, x_max, y_min, y_max);
            &&& none >= area ==> d == Direction::NoEdge
            &&& none < area && tb > tr && tb > tl && tb > lr ==> d == Direction::TopToBottom
            &&& none < area && tr > tb && tr > tl && tr > lr ==> d == Direction::ToprightToBotleft
            &&& none < area && tl > tb && tl > tr && tl > lr ==> d == Direction::TopleftToBotright
            &&& none < area && lr > tb && lr > tr && lr > tl ==> d == Direction::LeftToRight
        }),
{
    assert((y_max - y_min) * (x_max - x_min) >= 0) by (nonlinear_arith)
        requires
            x_min <= x_max,
            y_min <= y_max,
    ;
}

/// Summarises the window `[x_min, x_max) × [y_min, y_max)` of the grid: the
/// sample at its centre, with the window's prevailing edge direction.
#[verifier::spinoff_prover]
pub fn get_pixel_data(image: &Vec<Vec<PixelData>>, x_min: u32, x_max: u32, y_min: u32, y_max: u32) -> (r: PixelData)
    requires
        window_readable(grid_view(image@), x_min, x_max, y_min, y_max),
    ensures
        r.direction == window_direction(
            grid_view(image@),
            x_min as int,
            x_max as int,
            y_min as int,
            y_max as int,
        ),
        r.brightness == grid_view(image@)[(y_min + y_max) / 2][(x_min + x_max) / 2].brightness,
        r.color == grid_view(image@)[(y_min + y_max) / 2][(x_min + x_max) / 2].color,
{
    let ghost g = grid_view(image@);
    let mut count_top_to_bottom: u32 = 0;
    let mut count_topright_to_botleft: u32 = 0;
    let mut count_topleft_to_botright: u32 = 0;
    let mut count_left_to_right: u32 = 0;
    let mut count_none: u32 = 0;
    let ghost area = (y_max - y_min) * (x_max - x_min);

    let mut y = y_min;
    while y < y_max
        invariant
            g == grid_view(image@),
            window_readable(g, x_min, x_max, y_min, y_max),
            area == (y_max - y_min) * (x_max - x_min),
            y_min <= y <= y_max,
            count_top_to_bottom == window_count(g, x_min as int, x_max as int, y_min as int, y as int, Direction::TopToBottom),
            count_topright_to_botleft == window_count(g, x_min as int, x_max as int, y_min as int, y as int, Direction::ToprightToBotleft),
            count_topleft_to_botright == window_count(g, x_min as int, x_max as int, y_min as int, y as int, Direction::TopleftToBotright),
            count_left_to_right == window_count(g, x_min as int, x_max as int, y_min as int, y as int, Direction::LeftToRight),
            count_none == window_count(g, x_min as int, x_max as int, y_min as int, y as int, Direction::NoEdge),
        decreases y_max - y,
    {
        if x_min < x_max {
            assert(x_max <= g[y as int].len());
            assert(y < g.len());
            let row = &image[y as usize];
            assert(g[y as int] == row@);
            let mut x = x_min;
            while x < x_max
                invariant
                    g == grid_view(image@),
                    window_readable(g, x_min, x_max, y_min, y_max),
                    area == (y_max - y_min) * (x_max - x_min),
                    y_min <= y < y_max,
                    g[y as int] == row@,
                    x_min <= x <= x_max,
                    x_max <= row@.len(),
                    count_top_to_bottom == window_count(g, x_min as int, x_max as int, y_min as int, y as int, Direction::TopToBottom) + row_count(row@, x_min as int, x as int, Direction::TopToBottom),
                    count_topright_to_botleft == window_count(g, x_min as int, x_max as int, y_min as int, y as int, Direction::ToprightToBotleft) + row_count(row@, x_min as int, x as int, Direction::ToprightToBotleft),
                    count_topleft_to_botright == window_count(g, x_min as int, x_max as int, y_min as int, y as int, Direction::TopleftToBotright) + row_count(row@, x_min as int, x as int, Direction::TopleftToBotright),
                    count_left_to_right == window_count(g, x_min as int, x_max as int, y_min as int, y as int, Direction::LeftToRight) + row_count(row@, x_min as int, x as int, Direction::LeftToRight),
                    count_none == window_count(g, x_min as int, x_max as int, y_min as int, y as int, Direction::NoEdge) + row_count(row@, x_min as int, x as int, Direction::NoEdge),
                decreases x_max - x,
            {
                proof {
                    let d_all = seq![
                        Direction::TopToBottom,
                        Direction::ToprightToBotleft,
                        Direction::TopleftToBotright,
                        Direction::LeftToRight,
                        Direction::NoEdge,
                    ];
                    assert forall|k: int| 0 <= k < 5 implies window_count(g, x_min as int, x_max as int, y_min as int, y as int, #[trigger] d_all[k]) + row_count(row@, x_min as int, x + 1, d_all[k]) <= area by {
                        assert(window_count(g, x_min as int, x_max as int, y_min as int, y + 1, d_all[k]) == window_count(g, x_min as int, x_max as int, y_min as int, y as int, d_all[k]) + row_count(g[y as int], x_min as int, x_max as int, d_all[k]));
                        lemma_window_count_mono(g, x_min as int, x_max as int, y_min as int, y + 1, y_max as int, d_all[k]);
                        lemma_window_count_bound(g, x_min as int, x_max as int, y_min as int, y_max as int, d_all[k]);
                        lemma_row_count_mono(row@, x_min as int, x + 1, x_max as int, d_all[k]);
                    }
                    assert(window_count(g, x_min as int, x_max as int, y_min as int, y as int, d_all[0]) + row_count(row@, x_min as int, x + 1, d_all[0]) <= area);
                    assert(window_count(g, x_min as int, x_max as int, y_min as int, y as int, d_all[1]) + row_count(row@, x_min as int, x + 1, d_all[1]) <= area);
                    assert(window_count(g, x_min as int, x_max as int, y_min as int, y as int, d_all[2]) + row_count(row@, x_min as int, x + 1, d_all[2]) <= area);
                    assert(window_count(g, x_min as int, x_max as int, y_min as int, y as int, d_all[3]) + row_count(row@, x_min as int, x + 1, d_all[3]) <= area);
                    assert(window_count(g, x_min as int, x_max as int, y_min as int, y as int, d_all[4]) + row_count(row@, x_min as int, x + 1, d_all[4]) <= area);
                }
                match row[x as usize].direction {
                    Direction::TopToBottom => count_top_to_bottom = count_top_to_bottom + 1,
                    Direction::LeftToRight => count_left_to_right = count_left_to_right + 1,
                    Direction::TopleftToBotright => {
                        count_topleft_to_botright = count_topleft_to_botright + 1
                    },
                    Direction::ToprightToBotleft => {
                        count_topright_to_botleft = count_topright_to_botleft + 1
                    },
                    Direction::NoEdge => count_none = count_none + 1,
                }
                x = x + 1;
            }
        } else {
            assert(window_count(g, x_min as int, x_max as int, y_min as int, y + 1, Direction::TopToBottom) == window_count(g, x_min as int, x_max as int, y_min as int, y as int, Direction::TopToBottom));
            assert(window_count(g, x_min as int, x_max as int, y_min as int, y + 1, Direction::ToprightToBotleft) == window_count(g, x_min as int, x_max as int, y_min as int, y as int, Direction::ToprightToBotleft));
            assert(window_count(g, x_min as int, x_max as int, y_min as int, y + 1, Direction::TopleftToBotright) == window_count(g, x_min as int, x_max as int, y_min as int, y as int, Direction::TopleftToBotright));
            assert(window_count(g, x_min as int, x_max as int, y_min as int, y + 1, Direction::LeftToRight) == window_count(g, x_min as int, x_max as int, y_min as int, y as int, Direction::LeftToRight));
            assert(window_count(g, x_min as int, x_max as int, y_min as int, y + 1, Direction::NoEdge) == window_count(g, x_min as int, x_max as int, y_min as int, y as int, Direction::NoEdge));
        }
        y = y + 1;
    }

    let average_direction;
    if count_none >= (y_max - y_min) * (x_max - x_min) {
        average_direction = Direction::NoEdge;
    } else if count_top_to_bottom > count_topright_to_botleft && count_top_to_bottom
        > count_topleft_to_botright && count_top_to_bottom > count_left_to_right {
        average_direction = Direction::TopToBottom;
    } else if count_topright_to_botleft > count_topleft_to_botright && count_topright_to_botleft
        > count_left_to_right {
        average_direction = Direction::ToprightToBotleft;
    } else if count_topleft_to_botright > count_left_to_right {
        average_direction = Direction::TopleftToBotright;
    } else {
        average_direction = Direction::LeftToRight;
    }

    let cy = ((y_min + y_max) / 2) as usize;
    let cx = ((x_min + x_max) / 2) as usize;
    assert(g[cy as int] == image@[cy as int]@);
    let mut result = image[cy][cx];
    result.direction = average_direction;
    result
}

proof fn lemma_row_count_mono(row: Seq<PixelData>, x_min: int, x_end: int, x_last: int, d: Direction)
    requires
        x_end <= x_last,
    ensures
        row_count(row, x_min, x_end, d) <= row_count(row, x_min, x_last, d),
    decreases x_last - x_end,
{
    if x_end < x_last {
        lemma_row_count_mono(row, x_min, x_end, x_last - 1, d);
        if x_last <= x_min {
        }
    }
}

/// Every sample of the window `[x_min, x_max) × [y_min, y_max)` has
/// direction `d`.
pub open spec fn window_uniform(
    image: Seq<Seq<PixelData>>,
    x_min: int,
    x_max: int,
    y_min: int,
    y_max: int,
    d: Direction,
) -> bool {
    forall|y: int, x: int| y_min <= y < y_max && x_min <= x < x_max ==> (#[trigger] image[y][x]).direction == d
}

proof fn lemma_row_count_uniform(row: Seq<PixelData>, x_min: int, x_end: int, d: Direction, e: Direction)
    requires
        x_min <= x_end,
        forall|x: int| x_min <= x < x_end ==> (#[trigger] row[x]).direction == d,
    ensures
        row_count(row, x_min, x_end, e) == if e == d { x_end - x_min } else { 0 },
    decreases x_end - x_min,
{
    if x_end > x_min {
        lemma_row_count_uniform(row, x_min, x_end - 1, d, e);
    }
}

proof fn lemma_window_count_uniform(
    image: Seq<Seq<PixelData>>,
    x_min: int,
    x_max: int,
    y_min: int,
    y_end: int,
    d: Direction,
    e: Direction,
)
    requires
        x_min <= x_max,
        y_min <= y_end,
        window_uniform(image, x_min, x_max, y_min, y_end, d),
    ensures
        window_count(image, x_min, x_max, y_min, y_end, e) == if e == d {
            (y_end - y_min) * (x_max - x_min)
        } else {
            0
        },
    decreases y_end - y_min,
{
    if y_end > y_min {
        lemma_window_count_uniform(image, x_min, x_max, y_min, y_end - 1, d, e);
        let row = image[y_end - 1];
        assert forall|x: int| x_min <= x < x_max implies (#[trigger] row[x]).direction == d by {
            assert(image[y_end - 1][x] == row[x]);
        }
        lemma_row_count_uniform(row, x_min, x_max, d, e);
        assert((y_end - 1 - y_min) * (x_max - x_min) + (x_max - x_min) == (y_end - y_min) * (x_max
            - x_min)) by (nonlinear_arith);
    } else {
        assert((y_end - y_min) * (x_max - x_min) == 0) by (nonlinear_arith)
            requires
                y_end == y_min,
        ;
    }
}

/// A window whose samples all have the same direction is summarised with
/// that direction.
pub proof fn lemma_uniform_window(
    image: Seq<Seq<PixelData>>,
    x_min: int,
    x_max: int,
    y_min: int,
    y_max: int,
    d: Direction,
)
    requires
        x_min < x_max,
        y_min < y_max,
        window_uniform(image, x_min, x_max, y_min, y_max, d),
    ensures
        window_direction(image, x_min, x_max, y_min, y_max) == d,
{
    assert((y_max - y_min) * (x_max - x_min) > 0) by (nonlinear_arith)
        requires
            x_min < x_max,
            y_min < y_max,
    ;
    lemma_window_count_uniform(image, x_min, x_max, y_min, y_max, d, Direction::TopToBottom);
    lemma_window_count_uniform(image, x_min, x_max, y_min, y_max, d, Direction::ToprightToBotleft);
    lemma_window_count_uniform(image, x_min, x_max, y_min, y_max, d, Direction::TopleftToBotright);
    lemma_window_count_uniform(image, x_min, x_max, y_min, y_max, d, Direction::LeftToRight);
    lemma_window_count_uniform(image, x_min, x_max, y_min, y_max, d, Direction::NoEdge);
}

} // verus!
