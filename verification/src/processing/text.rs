use vstd::prelude::*;

use crate::args::CharSet;
use crate::processing::cpu::{
    get_pixel_data, grid_view, window_direction, window_readable,
};
use crate::processing::image::{Direction, PixelData};
use crate::strings::{decimal, lemma_decimal_is_digits, push_char, push_decimal};
use crate::textifier::text::{
    lemma_char_set_clean, lemma_concat_no_newline, lemma_digits_no_newline, lemma_prefix_extends,
};
use crate::video::{
    lemma_newline_count_concat, lemma_no_newline_count, line_count, newline_count, no_newline,
};
use crate::textifier::text::{brightness_index, char_index, char_set_strs};

verus! {

pub const BLACK: &'static str = "\x1b[30m";
pub const RED: &'static str = "\x1b[31m";
pub const GREEN: &'static str = "\x1b[32m";
pub const YELLOW: &'static str = "\x1b[33m";
pub const BLUE: &'static str = "\x1b[34m";
pub const MAGENTA: &'static str = "\x1b[35m";
pub const CYAN: &'static str = "\x1b[36m";
pub const WHITE: &'static str = "\x1b[37m";
pub const GRAY: &'static str = "\x1b[90m";
pub const BRIGHT_RED: &'static str = "\x1b[91m";
pub const BRIGHT_GREEN: &'static str = "\x1b[92m";
pub const BRIGHT_YELLOW: &'static str = "\x1b[93m";
pub const BRIGHT_BLUE: &'static str = "\x1b[94m";
pub const BRIGHT_MANGENTA: &'static str = "\x1b[95m";
pub const BRIGHT_CYAN: &'static str = "\x1b[96m";
pub const BRIGHT_WHITE: &'static str = "\x1b[97m";

/// The colour modes of the edge-detecting renderer.
#[derive(Clone, Copy, Debug, PartialEq, Eq, Structural)]
pub enum ColorSet {
    NoColor,
    FewColors,
    ColorFull,
    All,
    Real,
}

/// The terminal colours a mode quantises to, each with its escape and RGBA value.
pub open spec fn palette(color_set: ColorSet) -> Seq<(&'static str, [u8; 4])> {
    match color_set {
        ColorSet::ColorFull => seq![
            (RED, [170u8, 0u8, 0u8, 0u8]),
            (GREEN, [0u8, 170u8, 0u8, 0u8]),
            (YELLOW, [170u8, 170u8, 0u8, 0u8]),
            (BLUE, [0u8, 0u8, 170u8, 0u8]),
            (MAGENTA, [170u8, 0u8, 170u8, 0u8]),
            (CYAN, [0u8, 170u8, 170u8, 0u8]),
            (BRIGHT_RED, [255u8, 85u8, 85u8, 0u8]),
            (BRIGHT_GREEN, [85u8, 255u8, 85u8, 0u8]),
            (BRIGHT_YELLOW, [255u8, 255u8, 85u8, 0u8]),
            (BRIGHT_BLUE, [85u8, 85u8, 255u8, 0u8]),
            (BRIGHT_MANGENTA, [255u8, 85u8, 255u8, 0u8]),
            (BRIGHT_CYAN, [85u8, 255u8, 255u8, 0u8]),
        ],
        ColorSet::All => seq![
            (BLACK, [0u8, 0u8, 0u8, 0u8]),
            (RED, [170u8, 0u8, 0u8, 0u8]),
            (GREEN, [0u8, 170u8, 0u8, 0u8]),
            (YELLOW, [170u8, 170u8, 0u8, 0u8]),
            (BLUE, [0u8, 0u8, 170u8, 0u8]),
            (MAGENTA, [170u8, 0u8, 170u8, 0u8]),
            (CYAN, [0u8, 170u8, 170u8, 0u8]),
            (WHITE, [170u8, 170u8, 170u8, 0u8]),
            (GRAY, [85u8, 85u8, 85u8, 0u8]),
            (BRIGHT_RED, [255u8, 85u8, 85u8, 0u8]),
            (BRIGHT_GREEN, [85u8, 255u8, 85u8, 0u8]),
            (BRIGHT_YELLOW, [255u8, 255u8, 85u8, 0u8]),
            (BRIGHT_BLUE, [85u8, 85u8, 255u8, 0u8]),
            (BRIGHT_MANGENTA, [255u8, 85u8, 255u8, 0u8]),
            (BRIGHT_CYAN, [85u8, 255u8, 255u8, 0u8]),
            (BRIGHT_WHITE, [255u8, 255u8, 255u8, 0u8]),
        ],
        ColorSet::FewColors => seq![
            (WHITE, [170u8, 170u8, 170u8, 0u8]),
            (BRIGHT_RED, [255u8, 85u8, 85u8, 0u8]),
            (BRIGHT_GREEN, [85u8, 255u8, 85u8, 0u8]),
            (BRIGHT_YELLOW, [255u8, 255u8, 85u8, 0u8]),
            (BRIGHT_BLUE, [85u8, 85u8, 255u8, 0u8]),
            (BRIGHT_MANGENTA, [255u8, 85u8, 255u8, 0u8]),
            (BRIGHT_CYAN, [85u8, 255u8, 255u8, 0u8]),
        ],
        _ => Seq::empty(),
    }
}

fn palette_vec(color_set: &ColorSet) -> (v: Vec<(&'static str, [u8; 4])>)
    ensures
        v@ == palette(*color_set),
{
    match color_set {
        ColorSet::ColorFull => vec![
            (RED, [170, 0, 0, 0]),
            (GREEN, [0, 170, 0, 0]),
            (YELLOW, [170, 170, 0, 0]),
            (BLUE, [0, 0, 170, 0]),
            (MAGENTA, [170, 0, 170, 0]),
            (CYAN, [0, 170, 170, 0]),
            (BRIGHT_RED, [255, 85, 85, 0]),
            (BRIGHT_GREEN, [85, 255, 85, 0]),
            (BRIGHT_YELLOW, [255, 255, 85, 0]),
            (BRIGHT_BLUE, [85, 85, 255, 0]),
            (BRIGHT_MANGENTA, [255, 85, 255, 0]),
            (BRIGHT_CYAN, [85, 255, 255, 0]),
        ],
        ColorSet::All => vec![
            (BLACK, [0, 0, 0, 0]),
            (RED, [170, 0, 0, 0]),
            (GREEN, [0, 170, 0, 0]),
            (YELLOW, [170, 170, 0, 0]),
            (BLUE, [0, 0, 170, 0]),
            (MAGENTA, [170, 0, 170, 0]),
            (CYAN, [0, 170, 170, 0]),
            (WHITE, [170, 170, 170, 0]),
            (GRAY, [85, 85, 85, 0]),
            (BRIGHT_RED, [255, 85, 85, 0]),
            (BRIGHT_GREEN, [85, 255, 85, 0]),
            (BRIGHT_YELLOW, [255, 255, 85, 0]),
            (BRIGHT_BLUE, [85, 85, 255, 0]),
            (BRIGHT_MANGENTA, [255, 85, 255, 0]),
            (BRIGHT_CYAN, [85, 255, 255, 0]),
            (BRIGHT_WHITE, [255, 255, 255, 0]),
        ],
        ColorSet::FewColors => vec![
            (WHITE, [170, 170, 170, 0]),
            (BRIGHT_RED, [255, 85, 85, 0]),
            (BRIGHT_GREEN, [85, 255, 85, 0]),
            (BRIGHT_YELLOW, [255, 255, 85, 0]),
            (BRIGHT_BLUE, [85, 85, 255, 0]),
            (BRIGHT_MANGENTA, [255, 85, 255, 0]),
            (BRIGHT_CYAN, [85, 255, 255, 0]),
        ],
        _ => Vec::new(),
    }
}

/// `Σ (one[i] + two[i])²` over the four channels, in unbounded integers.
pub open spec fn square_sum(one: [u8; 4], two: [u8; 4]) -> int {
    (one[0] + two[0]) * (one[0] + two[0]) + (one[1] + two[1]) * (one[1] + two[1]) + (one[2]
        + two[2]) * (one[2] + two[2]) + (one[3] + two[3]) * (one[3] + two[3])
}

/// The whole-number square root of `n`, rounded down.
pub open spec fn is_isqrt(n: int, k: int) -> bool {
    0 <= k && k * k <= n < (k + 1) * (k + 1)
}

/// The arithmetic of `get_distance`, which works in `u8`, does not overflow.
pub open spec fn distance_defined(one: [u8; 4], two: [u8; 4]) -> bool {
    square_sum(one, two) <= 255
}

fn square(x: usize) -> (r: usize)
    requires
        x <= 16,
    ensures
        r == x * x,
{
    assert(x * x <= 256) by (nonlinear_arith)
        requires
            x <= 16,
    ;
    x * x
}

/// `⌊√(Σ (one[i] + two[i])²)⌋`, computed in 8-bit arithmetic.
fn get_distance(one: [u8; 4], two: [u8; 4]) -> (d: usize)
    requires
        distance_defined(one, two),
    ensures
        is_isqrt(square_sum(one, two), d as int),
{
    let ghost (a, b, c, e) = (
        one[0] + two[0],
        one[1] + two[1],
        one[2] + two[2],
        one[3] + two[3],
    );
    assert(a * a >= 0 && b * b >= 0 && c * c >= 0 && e * e >= 0) by (nonlinear_arith);
    assert(a <= 15 && b <= 15 && c <= 15 && e <= 15) by (nonlinear_arith)
        requires
            a * a + b * b + c * c + e * e <= 255,
            a >= 0,
            b >= 0,
            c >= 0,
            e >= 0,
            a * a >= 0,
            b * b >= 0,
            c * c >= 0,
            e * e >= 0,
    ;
    let s0: u8 = one[0] + two[0];
    let s1: u8 = one[1] + two[1];
    let s2: u8 = one[2] + two[2];
    let s3: u8 = one[3] + two[3];
    let total: u8 = s0 * s0 + s1 * s1 + s2 * s2 + s3 * s3;
    let mut k: usize = 0;
    while k < 15 && square(k + 1) <= total as usize
        invariant
            k * k <= total,
            total <= 255,
            k <= 15,
        decreases 15 - k,
    {
        k = k + 1;
    }
    assert(total == square_sum(one, two));
    if k == 15 {
        assert((k + 1) * (k + 1) == 256) by (nonlinear_arith)
            requires
                k == 15,
        ;
    }
    k
}

/// The palette entry chosen after looking at the first `k` entries: the first
/// one at the greatest distance from `color`, or `""` while every distance
/// seen is 0.
pub open spec fn pick(p: Seq<(&'static str, [u8; 4])>, color: [u8; 4], k: int) -> (int, &'static str)
    decreases k,
{
    if k <= 0 {
        (0, "")
    } else {
        let prev = pick(p, color, k - 1);
        let d = choose|d: int| #[trigger] is_isqrt(square_sum(color, p[k - 1].1), d);
        if d > prev.0 {
            (d, p[k - 1].0)
        } else {
            prev
        }
    }
}

/// Every palette entry of the mode is at a distance `get_distance` can compute
/// (true in the modes without a palette, false of every colour in the
/// palette modes).
pub open spec fn palette_defined(color_set: ColorSet, color: [u8; 4]) -> bool {
    forall|k: int| 0 <= k < palette(color_set).len() ==> distance_defined(color, #[trigger] palette(color_set)[k].1)
}

proof fn lemma_isqrt_unique(n: int, a: int, b: int)
    requires
        is_isqrt(n, a),
        is_isqrt(n, b),
    ensures
        a == b,
{
    if a < b {
        assert((a + 1) * (a + 1) <= b * b) by (nonlinear_arith)
            requires
                0 <= a < b,
        ;
    } else if b < a {
        assert((b + 1) * (b + 1) <= a * a) by (nonlinear_arith)
            requires
                0 <= b < a,
        ;
    }
}

/// The distance between two colours does not depend on their order: the
/// 8-bit arithmetic fits for `(one, two)` exactly when it fits for
/// `(two, one)`, and then both give the same whole-number square root.
pub proof fn lemma_distance_symmetric(one: [u8; 4], two: [u8; 4])
    ensures
        square_sum(one, two) == square_sum(two, one),
        distance_defined(one, two) == distance_defined(two, one),
        forall|d: int, e: int|
            #![trigger is_isqrt(square_sum(one, two), d), is_isqrt(square_sum(two, one), e)]
            is_isqrt(square_sum(one, two), d) && is_isqrt(square_sum(two, one), e) ==> d == e,
{
    assert forall|d: int, e: int|
        is_isqrt(square_sum(one, two), d) && is_isqrt(square_sum(two, one), e) implies d == e by {
        lemma_isqrt_unique(square_sum(one, two), d, e);
    }
}

/// The colour escape for a pixel: a 24-bit escape in `Real` mode, the escape
/// of the palette entry farthest from the colour in the palette modes, and
/// nothing otherwise.
pub open spec fn ansi_code_spec(color_set: ColorSet, color: [u8; 4]) -> Seq<char> {
    match color_set {
        ColorSet::Real => "\x1b[38;2;"@ + decimal(color[0] as nat) + seq![';'] + decimal(
            color[1] as nat,
        ) + seq![';'] + decimal(color[2] as nat) + seq!['m'],
        ColorSet::NoColor => Seq::empty(),
        _ => pick(palette(color_set), color, palette(color_set).len() as int).1@,
    }
}

/// The colour escape that goes before a character.
///
/// In the palette modes the distance to each entry is computed in 8-bit
/// arithmetic, which overflows on the palette entries with a channel of 85
/// or more (every palette has some), so `palette_defined` holds of no colour
/// there and only
/// `Real` and `NoColor` can be called; the palette search is kept as the
/// statement of what those modes would compute.
pub fn get_ansi_color_code(color_set: &ColorSet, color: [u8; 4]) -> (r: String)
    requires
        palette_defined(*color_set, color),
    ensures
        r@ == ansi_code_spec(*color_set, color),
{
    match color_set {
        ColorSet::Real => {
            let mut s = String::from_str("\x1b[38;2;");
            push_decimal(&mut s, color[0] as u64);
            push_char(&mut s, ';');
            push_decimal(&mut s, color[1] as u64);
            push_char(&mut s, ';');
            push_decimal(&mut s, color[2] as u64);
            push_char(&mut s, 'm');
            return s;
        },
        ColorSet::NoColor => {
            return String::new();
        },
        _ => {},
    }
    let set = palette_vec(color_set);
    let mut lowest_distance: usize = 0;
    let mut chosen_text: &str = "";
    let n = set.len();
    for i in 0..n
        invariant
            n == set@.len(),
            set@ == palette(*color_set),
            palette_defined(*color_set, color),
            (lowest_distance as int, chosen_text) == pick(set@, color, i as int),
    {
        let (text, text_color) = set[i];
        assert(set@[i as int].1 == text_color);
        let distance = get_distance(color, text_color);
        proof {
            let d = choose|d: int| is_isqrt(square_sum(color, set@[i as int].1), d);
            assert(is_isqrt(square_sum(color, set@[i as int].1), distance as int));
            lemma_isqrt_unique(square_sum(color, set@[i as int].1), d, distance as int);
        }
        if distance > lowest_distance {
            lowest_distance = distance;
            chosen_text = text;
        }
    }
    String::from_str(chosen_text)
}

/// The line character drawn for an edge direction, if it has one.
pub open spec fn edge_str(d: Direction) -> Option<&'static str> {
    match d {
        Direction::TopToBottom => Some("|"),
        Direction::LeftToRight => Some("-"),
        Direction::TopleftToBotright => Some("\\"),
        Direction::ToprightToBotleft => Some("/"),
        Direction::NoEdge => None,
    }
}

/// A pixel can be drawn: a brightness character it needs lies inside the set.
pub open spec fn pixel_drawable(char_set: CharSet, pixel: PixelData, inverted: bool, no_lines: bool) -> bool {
    (no_lines || edge_str(pixel.direction) is None) ==> char_index(
        pixel.brightness,
        inverted,
        char_set_strs(char_set).len(),
    ) < char_set_strs(char_set).len()
}

/// The character for one pixel: its edge line unless lines are off, otherwise
/// a character of the set by brightness.
pub open spec fn pixel_char_spec(char_set: CharSet, pixel: PixelData, inverted: bool, no_lines: bool) -> Seq<char> {
    if !no_lines && edge_str(pixel.direction) is Some {
        edge_str(pixel.direction)->0@
    } else {
        char_set_strs(char_set)[char_index(
            pixel.brightness,
            inverted,
            char_set_strs(char_set).len(),
        )]@
    }
}

/// Each output position's text is its window's colour escape followed by the
/// window's character: the escape is a prefix, the character the rest.
pub proof fn lemma_window_text_order(
    g: Seq<Seq<PixelData>>,
    columns: int,
    rows: int,
    set: CharSet,
    color: ColorSet,
    inverted: bool,
    no_lines: bool,
    y: int,
    x: int,
)
    ensures
        ({
            let p = window_pixel(g, columns, rows, y, x);
            let code = ansi_code_spec(color, rgba_of(p));
            let t = window_text(g, columns, rows, set, color, inverted, no_lines, y, x);
            &&& t.len() == code.len() + pixel_char_spec(set, p, inverted, no_lines).len()
            &&& t.take(code.len() as int) == code
            &&& t.skip(code.len() as int) == pixel_char_spec(set, p, inverted, no_lines)
        }),
{
    let p = window_pixel(g, columns, rows, y, x);
    let code = ansi_code_spec(color, rgba_of(p));
    let ch = pixel_char_spec(set, p, inverted, no_lines);
    assert((code + ch).take(code.len() as int) =~= code);
    assert((code + ch).skip(code.len() as int) =~= ch);
}

/// An output line starts with the text of its first window: windows are
/// written left to right.
pub proof fn lemma_line_starts_with_first_window(
    g: Seq<Seq<PixelData>>,
    columns: int,
    rows: int,
    set: CharSet,
    color: ColorSet,
    inverted: bool,
    no_lines: bool,
    y: int,
    xs: int,
)
    requires
        xs >= 1,
    ensures
        ({
            let first = window_text(g, columns, rows, set, color, inverted, no_lines, y, 0);
            let line = line_text(g, columns, rows, set, color, inverted, no_lines, y, xs);
            first.len() <= line.len() && line.take(first.len() as int) == first
        }),
    decreases xs,
{
    let first = window_text(g, columns, rows, set, color, inverted, no_lines, y, 0);
    if xs == 1 {
        assert(line_text(g, columns, rows, set, color, inverted, no_lines, y, 0) == Seq::<char>::empty());
        assert(line_text(g, columns, rows, set, color, inverted, no_lines, y, 1).take(first.len() as int) =~= first);
    } else {
        lemma_line_starts_with_first_window(g, columns, rows, set, color, inverted, no_lines, y, xs - 1);
        lemma_prefix_extends(
            line_text(g, columns, rows, set, color, inverted, no_lines, y, xs - 1),
            window_text(g, columns, rows, set, color, inverted, no_lines, y, xs - 1),
            first,
        );
    }
}

/// A rendered picture starts with its first output line and its newline:
/// lines are written top to bottom.
pub proof fn lemma_picture_starts_with_first_line(
    g: Seq<Seq<PixelData>>,
    columns: int,
    rows: int,
    set: CharSet,
    color: ColorSet,
    inverted: bool,
    no_lines: bool,
    ys: int,
)
    requires
        ys >= 1,
    ensures
        ({
            let first = line_text(g, columns, rows, set, color, inverted, no_lines, 0, rows) + seq!['\n'];
            let pic = picture_text(g, columns, rows, set, color, inverted, no_lines, ys);
            first.len() <= pic.len() && pic.take(first.len() as int) == first
        }),
    decreases ys,
{
    let first = line_text(g, columns, rows, set, color, inverted, no_lines, 0, rows) + seq!['\n'];
    if ys == 1 {
        assert(picture_text(g, columns, rows, set, color, inverted, no_lines, 0) == Seq::<char>::empty());
        assert(picture_text(g, columns, rows, set, color, inverted, no_lines, 1).take(first.len() as int) =~= first);
    } else {
        lemma_picture_starts_with_first_line(g, columns, rows, set, color, inverted, no_lines, ys - 1);
        let before = picture_text(g, columns, rows, set, color, inverted, no_lines, ys - 1);
        let line = line_text(g, columns, rows, set, color, inverted, no_lines, ys - 1, rows);
        lemma_prefix_extends(before, line, first);
        lemma_prefix_extends(before + line, seq!['\n'], first);
    }
}

/// Output line `y` of `columns` and position `x` of `rows` cover the `y`-th of
/// `columns` equal bands of the grid's rows and the `x`-th of `rows` equal
/// bands of its first row, `[⌊len · i / count⌋, ⌊len · (i + 1) / count⌋)`;
/// the first band starts at 0 and the last ends at the grid's edge, and the
/// window takes the colour and brightness of the sample at its centre, with
/// the prevailing direction of its samples.
pub proof fn lemma_window_covers_band(g: Seq<Seq<PixelData>>, columns: int, rows: int, y: int, x: int)
    requires
        0 <= y < columns,
        0 <= x < rows,
    ensures
        ({
            let h = g.len() as int;
            let w = g[0].len() as int;
            let y0 = h * y / columns;
            let y1 = h * (y + 1) / columns;
            let x0 = w * x / rows;
            let x1 = w * (x + 1) / rows;
            let p = window_pixel(g, columns, rows, y, x);
            &&& 0 <= y0 <= (y0 + y1) / 2 <= y1 <= h
            &&& 0 <= x0 <= (x0 + x1) / 2 <= x1 <= w
            &&& y == 0 ==> y0 == 0
            &&& x == 0 ==> x0 == 0
            &&& y == columns - 1 ==> y1 == h
            &&& x == rows - 1 ==> x1 == w
            &&& p.color == g[(y0 + y1) / 2][(x0 + x1) / 2].color
            &&& p.brightness == g[(y0 + y1) / 2][(x0 + x1) / 2].brightness
            &&& p.direction == window_direction(g, x0, x1, y0, y1)
        }),
{
    let h = g.len() as int;
    let w = g[0].len() as int;
    lemma_band(h, y, columns);
    lemma_band(w, x, rows);
    assert(h * columns / columns == h) by (nonlinear_arith)
        requires
            columns > 0,
    ;
    assert(w * rows / rows == w) by (nonlinear_arith)
        requires
            rows > 0,
    ;
}

/// Unless lines are off, a pixel with an edge is drawn as that edge's line:
/// `|` top to bottom, `-` left to right, `\` top-left to bottom-right and
/// `/` top-right to bottom-left, whatever its brightness.
pub proof fn lemma_edges_drawn_as_lines(set: CharSet, pixel: PixelData, inverted: bool)
    ensures
        pixel.direction == Direction::TopToBottom ==> pixel_char_spec(set, pixel, inverted, false) == "|"@,
        pixel.direction == Direction::LeftToRight ==> pixel_char_spec(set, pixel, inverted, false) == "-"@,
        pixel.direction == Direction::TopleftToBotright ==> pixel_char_spec(set, pixel, inverted, false) == "\\"@,
        pixel.direction == Direction::ToprightToBotleft ==> pixel_char_spec(set, pixel, inverted, false) == "/"@,
{
}

/// The character for one pixel.
pub fn get_char(char_set: &CharSet, pixel: PixelData, inverted: bool, no_lines: bool) -> (r: String)
    requires
        pixel_drawable(*char_set, pixel, inverted, no_lines),
    ensures
        r@ == pixel_char_spec(*char_set, pixel, inverted, no_lines),
{
    if !no_lines {
        match pixel.direction {
            Direction::TopToBottom => return String::from_str("|"),
            Direction::LeftToRight => return String::from_str("-"),
            Direction::TopleftToBotright => return String::from_str("\\"),
            Direction::ToprightToBotleft => return String::from_str("/"),
            Direction::NoEdge => {},
        }
    }
    let set: Vec<&str> = match char_set {
        CharSet::Ascii => vec![" ", ".", "\"", "+", "o", "?", "#"],
        CharSet::Numbers => vec!["0", "1", "2", "3", "4", "5", "6", "7", "8", "9"],
        CharSet::Discord => vec![
            ":black_large_square:",
            ":new_moon:",
            ":elephant:",
            ":fog:",
            ":white_large_square:",
        ],
        CharSet::Braile => vec!["⠀", "⢀", "⡈", "⡊", "⢕", "⢝", "⣫", "⣟", "⣿"],
    };
    assert(set@ == char_set_strs(*char_set));
    let id = brightness_index(pixel.brightness, inverted, set.len());
    String::from_str(set[id])
}

/// The start of band `i` when `len` samples are split into `count` bands:
/// `⌊len · i / count⌋`.
pub open spec fn band(len: int, i: int, count: int) -> int {
    len * i / count
}

/// The summary of the window that output character `(x, y)` covers: bands `y`
/// of the rows (`columns` bands) and `x` of the first row's samples (`rows`
/// bands), as `get_pixel_data` gives it.
pub open spec fn window_pixel(g: Seq<Seq<PixelData>>, columns: int, rows: int, y: int, x: int) -> PixelData {
    let h = g.len() as int;
    let w = g[0].len() as int;
    let y0 = band(h, y, columns);
    let y1 = band(h, y + 1, columns);
    let x0 = band(w, x, rows);
    let x1 = band(w, x + 1, rows);
    let c = g[(y0 + y1) / 2][(x0 + x1) / 2];
    PixelData { direction: window_direction(g, x0, x1, y0, y1), brightness: c.brightness, color: c.color }
}

/// The colour of a pixel with a zero alpha channel added.
pub open spec fn rgba_of(p: PixelData) -> [u8; 4] {
    [p.color[0], p.color[1], p.color[2], 0u8]
}

/// Colour escape and character of one output position.
pub open spec fn window_text(
    g: Seq<Seq<PixelData>>,
    columns: int,
    rows: int,
    set: CharSet,
    color: ColorSet,
    inverted: bool,
    no_lines: bool,
    y: int,
    x: int,
) -> Seq<char> {
    let p = window_pixel(g, columns, rows, y, x);
    ansi_code_spec(color, rgba_of(p)) + pixel_char_spec(set, p, inverted, no_lines)
}

/// The first `xs` positions of output line `y`.
pub open spec fn line_text(
    g: Seq<Seq<PixelData>>,
    columns: int,
    rows: int,
    set: CharSet,
    color: ColorSet,
    inverted: bool,
    no_lines: bool,
    y: int,
    xs: int,
) -> Seq<char>
    decreases xs,
{
    if xs <= 0 {
        Seq::empty()
    } else {
        line_text(g, columns, rows, set, color, inverted, no_lines, y, xs - 1) + window_text(
            g,
            columns,
            rows,
            set,
            color,
            inverted,
            no_lines,
            y,
            xs - 1,
        )
    }
}

/// The first `ys` output lines, each ended by a newline.
pub open spec fn picture_text(
    g: Seq<Seq<PixelData>>,
    columns: int,
    rows: int,
    set: CharSet,
    color: ColorSet,
    inverted: bool,
    no_lines: bool,
    ys: int,
) -> Seq<char>
    decreases ys,
{
    if ys <= 0 {
        Seq::empty()
    } else {
        picture_text(g, columns, rows, set, color, inverted, no_lines, ys - 1) + line_text(
            g,
            columns,
            rows,
            set,
            color,
            inverted,
            no_lines,
            ys - 1,
            rows,
        ) + seq!['\n']
    }
}

/// The window of the grid that output character `(x, y)` covers can be read
/// by `get_pixel_data`: its rows hold it, its centre exists, and its bounds,
/// its area and each edge direction's count fit the integer types
/// `get_pixel_data` works in.
pub open spec fn window_at_readable(g: Seq<Seq<PixelData>>, columns: int, rows: int, y: int, x: int) -> bool {
    let h = g.len() as int;
    let w = g[0].len() as int;
    window_readable(
        g,
        band(w, x, rows) as u32,
        band(w, x + 1, rows) as u32,
        band(h, y, columns) as u32,
        band(h, y + 1, columns) as u32,
    )
}

/// The grid can be rendered at this size: it has a first row, its height and
/// the length of its first row fit the `u32` window bounds, and at every
/// output position the window can be read and its colour and character can
/// be computed.
pub open spec fn renderable(
    g: Seq<Seq<PixelData>>,
    columns: u32,
    rows: u32,
    set: CharSet,
    color: ColorSet,
    inverted: bool,
    no_lines: bool,
) -> bool {
    columns > 0 && rows > 0 ==> {
        &&& g.len() > 0
        &&& g.len() <= u32::MAX
        &&& g[0].len() <= u32::MAX
        &&& forall|y: int, x: int|
            #![trigger window_pixel(g, columns as int, rows as int, y, x)]
            0 <= y < columns && 0 <= x < rows ==> {
                &&& window_at_readable(g, columns as int, rows as int, y, x)
                &&& pixel_drawable(set, window_pixel(g, columns as int, rows as int, y, x), inverted, no_lines)
                &&& palette_defined(color, rgba_of(window_pixel(g, columns as int, rows as int, y, x)))
            }
    }
}

proof fn lemma_band(len: int, i: int, count: int)
    requires
        len >= 0,
        0 <= i < count,
    ensures
        0 <= band(len, i, count) <= band(len, i + 1, count) <= len,
        len > 0 ==> band(len, i, count) < len,
{
    assert(0 <= len * i / count) by (nonlinear_arith)
        requires
            len >= 0,
            i >= 0,
            count > 0,
    ;
    assert(len * i / count <= len * (i + 1) / count) by (nonlinear_arith)
        requires
            len >= 0,
            i >= 0,
            count > 0,
    ;
    assert(len * (i + 1) / count <= len) by (nonlinear_arith)
        requires
            len >= 0,
            0 <= i < count,
    ;
    if len > 0 {
        assert(len * i / count < len) by (nonlinear_arith)
            requires
                len > 0,
                0 <= i < count,
        ;
    }
}

fn band_exec(len: u32, i: u32, count: u32) -> (b: u32)
    requires
        0 <= i < count,
    ensures
        b == band(len as int, i as int, count as int),
{
    proof {
        lemma_band(len as int, i as int, count as int);
        assert(len * i <= 0xffff_ffff * 0xffff_ffffu64) by (nonlinear_arith)
            requires
                len <= 0xffff_ffffu64,
                i <= 0xffff_ffffu64,
        ;
    }
    ((len as u64) * (i as u64) / (count as u64)) as u32
}

fn band_end_exec(len: u32, i: u32, count: u32) -> (b: u32)
    requires
        0 <= i < count,
    ensures
        b == band(len as int, i + 1, count as int),
{
    proof {
        lemma_band(len as int, i as int, count as int);
        assert(len * (i + 1) <= 0xffff_ffff * 0x1_0000_0000u64) by (nonlinear_arith)
            requires
                len <= 0xffff_ffffu64,
                i + 1 <= 0x1_0000_0000u64,
        ;
    }
    ((len as u64) * (i as u64 + 1) / (count as u64)) as u32
}

proof fn lemma_window_bands(g: Seq<Seq<PixelData>>, columns: u32, rows: u32, y: int, x: int)
    requires
        columns > 0,
        rows > 0,
        g.len() > 0,
        g.len() <= u32::MAX,
        g[0].len() <= u32::MAX,
        0 <= y < columns,
        0 <= x < rows,
    ensures
        0 <= band(g[0].len() as int, x, rows as int) <= band(g[0].len() as int, x + 1, rows as int) <= g[0].len(),
        0 <= band(g.len() as int, y, columns as int) <= band(g.len() as int, y + 1, columns as int) <= g.len(),
{
    lemma_band(g.len() as int, y, columns as int);
    lemma_band(g[0].len() as int, x, rows as int);
}

fn push_window(
    result: &mut String,
    image: &Vec<Vec<PixelData>>,
    columns: u32,
    rows: u32,
    set: CharSet,
    color: ColorSet,
    inverted: bool,
    no_lines: bool,
    y: u32,
    x: u32,
)
    requires
        renderable(grid_view(image@), columns, rows, set, color, inverted, no_lines),
        y < columns,
        x < rows,
    ensures
        final(result)@ == old(result)@ + window_text(
            grid_view(image@),
            columns as int,
            rows as int,
            set,
            color,
            inverted,
            no_lines,
            y as int,
            x as int,
        ),
{
    let ghost g = grid_view(image@);
    let ghost expected = window_pixel(g, columns as int, rows as int, y as int, x as int);
    proof {
        lemma_window_bands(g, columns, rows, y as int, x as int);
        assert(window_at_readable(g, columns as int, rows as int, y as int, x as int));
    }
    assert(image@[0]@ == g[0]);
    let h = image.len() as u32;
    let w = image[0].len() as u32;
    let pixel_y_min = band_exec(h, y, columns);
    let pixel_y_max = band_end_exec(h, y, columns);
    let pixel_x_min = band_exec(w, x, rows);
    let pixel_x_max = band_end_exec(w, x, rows);
    let pixel = get_pixel_data(image, pixel_x_min, pixel_x_max, pixel_y_min, pixel_y_max);
    assert(pixel == expected);
    let rgba: [u8; 4] = [pixel.color[0], pixel.color[1], pixel.color[2], 0];
    assert(rgba == rgba_of(expected));
    let code = get_ansi_color_code(&color, rgba);
    let ch = get_char(&set, pixel, inverted, no_lines);
    result.append(code.as_str());
    result.append(ch.as_str());
}

/// Renders the grid as `columns` lines of `rows` characters (each line ended
/// by a newline); each character summarises its window of the grid.
#[verifier::spinoff_prover]
pub fn translate_to_text(
    image: Vec<Vec<PixelData>>,
    columns: u32,
    rows: u32,
    set: CharSet,
    color: ColorSet,
    inverted: bool,
    no_lines: bool,
) -> (r: String)
    requires
        renderable(grid_view(image@), columns, rows, set, color, inverted, no_lines),
    ensures
        r@ == picture_text(
            grid_view(image@),
            columns as int,
            rows as int,
            set,
            color,
            inverted,
            no_lines,
            columns as int,
        ),
{
    let ghost g = grid_view(image@);
    let mut result = String::new();
    for y in 0..columns
        invariant
            g == grid_view(image@),
            renderable(g, columns, rows, set, color, inverted, no_lines),
            result@ == picture_text(g, columns as int, rows as int, set, color, inverted, no_lines, y as int),
    {
        for x in 0..rows
            invariant
                g == grid_view(image@),
                renderable(g, columns, rows, set, color, inverted, no_lines),
                0 <= y < columns,
                result@ == picture_text(g, columns as int, rows as int, set, color, inverted, no_lines, y as int)
                    + line_text(g, columns as int, rows as int, set, color, inverted, no_lines, y as int, x as int),
        {
            push_window(&mut result, &image, columns, rows, set, color, inverted, no_lines, y, x);
        }
        push_char(&mut result, '\n');
    }
    result
}

proof fn lemma_palette_clean(color_set: ColorSet)
    ensures
        forall|k: int| 0 <= k < palette(color_set).len() ==> no_newline((#[trigger] palette(color_set)[k]).0@),
{
    reveal_strlit("\x1b[30m");
    reveal_strlit("\x1b[31m");
    reveal_strlit("\x1b[32m");
    reveal_strlit("\x1b[33m");
    reveal_strlit("\x1b[34m");
    reveal_strlit("\x1b[35m");
    reveal_strlit("\x1b[36m");
    reveal_strlit("\x1b[37m");
    reveal_strlit("\x1b[90m");
    reveal_strlit("\x1b[91m");
    reveal_strlit("\x1b[92m");
    reveal_strlit("\x1b[93m");
    reveal_strlit("\x1b[94m");
    reveal_strlit("\x1b[95m");
    reveal_strlit("\x1b[96m");
    reveal_strlit("\x1b[97m");
}

proof fn lemma_pick_clean(p: Seq<(&'static str, [u8; 4])>, color: [u8; 4], k: int)
    requires
        0 <= k <= p.len(),
        forall|i: int| 0 <= i < p.len() ==> no_newline((#[trigger] p[i]).0@),
    ensures
        no_newline(pick(p, color, k).1@),
    decreases k,
{
    reveal_strlit("");
    if k > 0 {
        lemma_pick_clean(p, color, k - 1);
        assert(no_newline(p[k - 1].0@));
    }
}

proof fn lemma_window_text_clean(
    g: Seq<Seq<PixelData>>,
    columns: int,
    rows: int,
    set: CharSet,
    color: ColorSet,
    inverted: bool,
    no_lines: bool,
    y: int,
    x: int,
)
    requires
        pixel_drawable(set, window_pixel(g, columns, rows, y, x), inverted, no_lines),
    ensures
        no_newline(window_text(g, columns, rows, set, color, inverted, no_lines, y, x)),
{
    let p = window_pixel(g, columns, rows, y, x);
    let c = rgba_of(p);
    reveal_strlit("\x1b[38;2;");
    reveal_strlit("|");
    reveal_strlit("-");
    reveal_strlit("\\");
    reveal_strlit("/");
    lemma_char_set_clean(set);
    match color {
        ColorSet::Real => {
            lemma_decimal_is_digits(c[0] as nat);
            lemma_decimal_is_digits(c[1] as nat);
            lemma_decimal_is_digits(c[2] as nat);
            lemma_digits_no_newline(decimal(c[0] as nat));
            lemma_digits_no_newline(decimal(c[1] as nat));
            lemma_digits_no_newline(decimal(c[2] as nat));
            let p0 = "\x1b[38;2;"@;
            assert(no_newline(p0));
            assert(no_newline(seq![';']));
            assert(no_newline(seq!['m']));
            lemma_concat_no_newline(p0, decimal(c[0] as nat));
            lemma_concat_no_newline(p0 + decimal(c[0] as nat), seq![';']);
            lemma_concat_no_newline(p0 + decimal(c[0] as nat) + seq![';'], decimal(c[1] as nat));
            lemma_concat_no_newline(p0 + decimal(c[0] as nat) + seq![';'] + decimal(c[1] as nat), seq![';']);
            lemma_concat_no_newline(p0 + decimal(c[0] as nat) + seq![';'] + decimal(c[1] as nat) + seq![';'], decimal(c[2] as nat));
            lemma_concat_no_newline(p0 + decimal(c[0] as nat) + seq![';'] + decimal(c[1] as nat) + seq![';'] + decimal(c[2] as nat), seq!['m']);
        },
        ColorSet::NoColor => {
            assert(no_newline(Seq::<char>::empty()));
        },
        _ => {
            lemma_palette_clean(color);
            lemma_pick_clean(palette(color), c, palette(color).len() as int);
        },
    }
    let ch = pixel_char_spec(set, p, inverted, no_lines);
    if !no_lines && edge_str(p.direction) is Some {
    } else {
        let i = char_index(p.brightness, inverted, char_set_strs(set).len());
        assert(no_newline(char_set_strs(set)[i]@));
    }
    lemma_concat_no_newline(ansi_code_spec(color, c), ch);
}

proof fn lemma_line_text_clean(
    g: Seq<Seq<PixelData>>,
    columns: u32,
    rows: u32,
    set: CharSet,
    color: ColorSet,
    inverted: bool,
    no_lines: bool,
    y: int,
    xs: int,
)
    requires
        renderable(g, columns, rows, set, color, inverted, no_lines),
        columns > 0,
        0 <= y < columns,
        0 <= xs <= rows,
    ensures
        no_newline(line_text(g, columns as int, rows as int, set, color, inverted, no_lines, y, xs)),
    decreases xs,
{
    if xs > 0 {
        lemma_line_text_clean(g, columns, rows, set, color, inverted, no_lines, y, xs - 1);
        assert(pixel_drawable(set, window_pixel(g, columns as int, rows as int, y, xs - 1), inverted, no_lines));
        lemma_window_text_clean(g, columns as int, rows as int, set, color, inverted, no_lines, y, xs - 1);
        lemma_concat_no_newline(
            line_text(g, columns as int, rows as int, set, color, inverted, no_lines, y, xs - 1),
            window_text(g, columns as int, rows as int, set, color, inverted, no_lines, y, xs - 1),
        );
    } else {
        assert(no_newline(Seq::<char>::empty()));
    }
}

proof fn lemma_picture_newlines(
    g: Seq<Seq<PixelData>>,
    columns: u32,
    rows: u32,
    set: CharSet,
    color: ColorSet,
    inverted: bool,
    no_lines: bool,
    ys: int,
)
    requires
        renderable(g, columns, rows, set, color, inverted, no_lines),
        0 <= ys <= columns,
    ensures
        newline_count(picture_text(g, columns as int, rows as int, set, color, inverted, no_lines, ys)) == ys,
        ys > 0 ==> picture_text(g, columns as int, rows as int, set, color, inverted, no_lines, ys).last() == '\n',
    decreases ys,
{
    if ys > 0 {
        lemma_picture_newlines(g, columns, rows, set, color, inverted, no_lines, ys - 1);
        let before = picture_text(g, columns as int, rows as int, set, color, inverted, no_lines, ys - 1);
        let line = line_text(g, columns as int, rows as int, set, color, inverted, no_lines, ys - 1, rows as int);
        if rows > 0 {
            lemma_line_text_clean(g, columns, rows, set, color, inverted, no_lines, ys - 1, rows as int);
        } else {
            assert(line == Seq::<char>::empty());
            assert(no_newline(line));
        }
        lemma_no_newline_count(line);
        lemma_newline_count_concat(before, line);
        lemma_newline_count_concat(before + line, seq!['\n']);
        assert(newline_count(seq!['\n']) == 1) by {
            assert(seq!['\n'].drop_last() =~= Seq::<char>::empty());
            assert(newline_count(Seq::<char>::empty()) == 0);
        }
    } else {
        assert(newline_count(Seq::<char>::empty()) == 0);
    }
}

/// A rendered picture has exactly one line per output row (`columns` of
/// them), each ended by a newline: no colour escape or character holds one.
pub proof fn lemma_picture_line_count(
    g: Seq<Seq<PixelData>>,
    columns: u32,
    rows: u32,
    set: CharSet,
    color: ColorSet,
    inverted: bool,
    no_lines: bool,
)
    requires
        renderable(g, columns, rows, set, color, inverted, no_lines),
    ensures
        line_count(picture_text(g, columns as int, rows as int, set, color, inverted, no_lines, columns as int)) == columns,
{
    lemma_picture_newlines(g, columns, rows, set, color, inverted, no_lines, columns as int);
}

} // verus!
