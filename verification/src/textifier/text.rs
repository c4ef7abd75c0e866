use vstd::prelude::*;

use crate::args::{CharSet, ColorSet, RenderOptions};
use crate::strings::{all_digits, decimal, digit_value, lemma_decimal_is_digits, push_char, push_decimal};
use crate::video::{
    lemma_newline_count_concat, lemma_no_newline_count, line_count, newline_count, no_newline,
};
use crate::textifier::types::{CharacterData, Direction, BRIGHTNESS_ONE};

verus! {

/// The characters of each set, from darkest to brightest.
pub open spec fn char_set_strs(set: CharSet) -> Seq<&'static str> {
    match set {
        CharSet::Ascii => seq![" ", ".", "\"", "+", "o", "?", "#"],
        CharSet::Numbers => seq!["0", "1", "2", "3", "4", "5", "6", "7", "8", "9"],
        CharSet::Discord => seq![
            ":black_large_square:",
            ":new_moon:",
            ":elephant:",
            ":fog:",
            ":white_large_square:",
        ],
        CharSet::Braile => seq!["⠀", "⢀", "⡈", "⡊", "⢕", "⢝", "⣫", "⣟", "⣿"],
    }
}

/// The line character drawn for an edge direction, if it has one.
pub open spec fn line_str(d: Direction) -> Option<&'static str> {
    match d {
        Direction::Slash => Some("/"),
        Direction::Backslash => Some("\\"),
        Direction::Dash => Some("-"),
        Direction::Bar => Some("|"),
        Direction::Underscore => Some("_"),
        Direction::NoEdge => None,
    }
}

/// Brightness after inversion, in fixed point: `1 - b` when inverted, never
/// below zero.
pub open spec fn level(brightness: u32, inverted: bool) -> int {
    if inverted {
        if brightness >= BRIGHTNESS_ONE {
            0
        } else {
            BRIGHTNESS_ONE - brightness
        }
    } else {
        brightness as int
    }
}

/// `round(level · (n - 1))` with halves rounded up: the position in a set of
/// `n` characters.
pub open spec fn char_index(brightness: u32, inverted: bool, n: nat) -> int {
    (2 * level(brightness, inverted) * (n - 1) + BRIGHTNESS_ONE) / (2 * BRIGHTNESS_ONE as int)
}

/// The character chosen for a cell is a brightness character (not a line and
/// not suppressed).
pub open spec fn uses_brightness(pixel: CharacterData, no_lines: bool, only_lines: bool) -> bool {
    (no_lines || line_str(pixel.direction) is None) && !only_lines
}

/// How brightness picks a character of a set of `n`: black gives the first
/// (darkest) character and full brightness the last, a brighter cell never
/// gets an earlier character, and inverting the picture reads a brightness
/// `b` as `1 - b` (anything at or above 1 as 0).
pub proof fn lemma_char_index_order(b1: u32, b2: u32, n: nat)
    requires
        n >= 1,
    ensures
        char_index(0, false, n) == 0,
        char_index(BRIGHTNESS_ONE, false, n) == n - 1,
        b1 <= b2 ==> char_index(b1, false, n) <= char_index(b2, false, n),
        b1 <= BRIGHTNESS_ONE ==> char_index(b1, true, n) == char_index((BRIGHTNESS_ONE - b1) as u32, false, n),
        b1 >= BRIGHTNESS_ONE ==> char_index(b1, true, n) == 0,
{
    let one = BRIGHTNESS_ONE as int;
    let k = n - 1;
    assert((2 * one * k + one) / (2 * one) == k) by (nonlinear_arith)
        requires
            one == 2_560_000,
            k >= 0,
    ;
    assert(one / (2 * one) == 0) by (nonlinear_arith)
        requires
            one == 2_560_000,
    ;
    if b1 <= b2 {
        assert((2 * b1 * k + one) / (2 * one) <= (2 * b2 * k + one) / (2 * one)) by (nonlinear_arith)
            requires
                one == 2_560_000,
                k >= 0,
                0 <= b1 <= b2,
        ;
    }
}

/// A cell can be drawn: a brightness character it needs lies inside the set.
pub open spec fn drawable(
    char_set: CharSet,
    pixel: CharacterData,
    inverted: bool,
    no_lines: bool,
    only_lines: bool,
) -> bool {
    uses_brightness(pixel, no_lines, only_lines) ==> char_index(
        pixel.brightness,
        inverted,
        char_set_strs(char_set).len(),
    ) < char_set_strs(char_set).len()
}

/// The text of one cell's character.
pub open spec fn char_spec(
    char_set: CharSet,
    pixel: CharacterData,
    inverted: bool,
    no_lines: bool,
    only_lines: bool,
) -> Seq<char> {
    if !no_lines && line_str(pixel.direction) is Some {
        line_str(pixel.direction)->0@
    } else if !only_lines {
        char_set_strs(char_set)[char_index(
            pixel.brightness,
            inverted,
            char_set_strs(char_set).len(),
        )]@
    } else {
        " "@
    }
}

/// The colour escape for one cell: a 24-bit foreground escape in RGB mode,
/// nothing otherwise.
pub open spec fn color_code_spec(color_set: ColorSet, color: [u8; 3]) -> Seq<char> {
    match color_set {
        ColorSet::RGB => "\x1b[38;2;"@ + decimal(color[0] as nat) + seq![';'] + decimal(
            color[1] as nat,
        ) + seq![';'] + decimal(color[2] as nat) + seq!['m'],
        ColorSet::NoColor => Seq::empty(),
    }
}

fn char_set_vec(char_set: &CharSet) -> (v: Vec<&'static str>)
    ensures
        v@ == char_set_strs(*char_set),
{
    match char_set {
        CharSet::Ascii => vec![" ", ".", "\"", "+", "o", "?", "#"],
        CharSet::Numbers => vec!["0", "1", "2", "3", "4", "5", "6", "7", "8", "9"],
        CharSet::Discord => vec![
            ":black_large_square:",
            ":new_moon:",
            ":elephant:",
            ":fog:",
            ":white_large_square:",
        ],
        CharSet::Braile => vec!["⠀", "⢀", "⡈", "⡊", "⢕", "⢝", "⣫", "⣟", "⣿"],
    }
}

/// The index into a set of `n` characters for a brightness.
pub fn brightness_index(brightness: u32, inverted: bool, n: usize) -> (i: usize)
    requires
        1 <= n <= 16,
    ensures
        i == char_index(brightness, inverted, n as nat),
{
    let level: u64 = if inverted {
        if brightness >= BRIGHTNESS_ONE {
            0
        } else {
            (BRIGHTNESS_ONE - brightness) as u64
        }
    } else {
        brightness as u64
    };
    let steps = (n - 1) as u64;
    assert(2 * level * steps <= 2 * 0xffff_ffff * 15) by (nonlinear_arith)
        requires
            level <= 0xffff_ffff,
            steps <= 15,
    ;
    let i = (2 * level * steps + BRIGHTNESS_ONE as u64) / (2 * BRIGHTNESS_ONE as u64);
    assert(i <= 2 * 0xffff_ffffu64 * 15 + 2560000);
    i as usize
}

/// The character for one cell: its edge line unless lines are off, otherwise
/// a character of the set by brightness, or a space when only lines are drawn.
pub fn get_char(
    char_set: &CharSet,
    pixel: &CharacterData,
    inverted: bool,
    no_lines: bool,
    only_lines: bool,
) -> (r: String)
    requires
        drawable(*char_set, *pixel, inverted, no_lines, only_lines),
    ensures
        r@ == char_spec(*char_set, *pixel, inverted, no_lines, only_lines),
{
    if !no_lines {
        match pixel.direction {
            Direction::Slash => return String::from_str("/"),
            Direction::Backslash => return String::from_str("\\"),
            Direction::Dash => return String::from_str("-"),
            Direction::Bar => return String::from_str("|"),
            Direction::Underscore => return String::from_str("_"),
            Direction::NoEdge => {},
        }
    }
    if !only_lines {
        let set = char_set_vec(char_set);
        let id = brightness_index(pixel.brightness, inverted, set.len());
        return String::from_str(set[id]);
    }
    String::from_str(" ")
}

/// Whether `get_char` can draw the cell with these options (see [`drawable`]).
pub fn is_drawable(
    char_set: &CharSet,
    pixel: &CharacterData,
    inverted: bool,
    no_lines: bool,
    only_lines: bool,
) -> (r: bool)
    ensures
        r == drawable(*char_set, *pixel, inverted, no_lines, only_lines),
{
    let lines_drawn = !no_lines && match pixel.direction {
        Direction::NoEdge => false,
        _ => true,
    };
    if lines_drawn || only_lines {
        return true;
    }
    let set = char_set_vec(char_set);
    brightness_index(pixel.brightness, inverted, set.len()) < set.len()
}

/// The colour escape that goes before a cell's character.
pub fn get_ansi_color_code(color_set: &ColorSet, color: [u8; 3]) -> (r: String)
    ensures
        r@ == color_code_spec(*color_set, color),
{
    match color_set {
        ColorSet::RGB => {
            let mut s = String::from_str("\x1b[38;2;");
            push_decimal(&mut s, color[0] as u64);
            push_char(&mut s, ';');
            push_decimal(&mut s, color[1] as u64);
            push_char(&mut s, ';');
            push_decimal(&mut s, color[2] as u64);
            push_char(&mut s, 'm');
            s
        },
        ColorSet::NoColor => String::new(),
    }
}

/// The text of one cell: colour escape, then character.
pub open spec fn cell_text(args: RenderOptions, cell: CharacterData) -> Seq<char> {
    color_code_spec(args.color, cell.color) + char_spec(
        args.set,
        cell,
        args.inverted,
        args.no_lines,
        args.only_lines,
    )
}

/// The text of a row of cells.
pub open spec fn row_text(args: RenderOptions, row: Seq<CharacterData>) -> Seq<char>
    decreases row.len(),
{
    if row.len() == 0 {
        Seq::empty()
    } else {
        row_text(args, row.drop_last()) + cell_text(args, row.last())
    }
}

/// The rows' texts joined by newlines (no newline after the last row).
pub open spec fn grid_text(args: RenderOptions, rows: Seq<Seq<CharacterData>>) -> Seq<char>
    decreases rows.len(),
{
    if rows.len() == 0 {
        Seq::empty()
    } else if rows.len() == 1 {
        row_text(args, rows[0])
    } else {
        grid_text(args, rows.drop_last()) + seq!['\n'] + row_text(args, rows.last())
    }
}

pub open spec fn rows_view(data: Seq<Vec<CharacterData>>) -> Seq<Seq<CharacterData>> {
    data.map_values(|r: Vec<CharacterData>| r@)
}

/// Every cell of the grid can be drawn with these options.
pub open spec fn grid_drawable(args: RenderOptions, rows: Seq<Seq<CharacterData>>) -> bool {
    forall|i: int, j: int|
        0 <= i < rows.len() && 0 <= j < rows[i].len() ==> drawable(
            args.set,
            #[trigger] rows[i][j],
            args.inverted,
            args.no_lines,
            args.only_lines,
        )
}

/// Unless lines are off, a cell with an edge is drawn as that edge's line
/// (`/`, `\`, `-`, `|`, `_`), whether or not only lines are drawn and
/// whatever its brightness; with only lines drawn, every other cell is a
/// space.
pub proof fn lemma_edges_drawn_as_lines(char_set: CharSet, pixel: CharacterData, inverted: bool, only_lines: bool)
    ensures
        pixel.direction == Direction::Slash ==> char_spec(char_set, pixel, inverted, false, only_lines) == "/"@,
        pixel.direction == Direction::Backslash ==> char_spec(char_set, pixel, inverted, false, only_lines) == "\\"@,
        pixel.direction == Direction::Dash ==> char_spec(char_set, pixel, inverted, false, only_lines) == "-"@,
        pixel.direction == Direction::Bar ==> char_spec(char_set, pixel, inverted, false, only_lines) == "|"@,
        pixel.direction == Direction::Underscore ==> char_spec(char_set, pixel, inverted, false, only_lines) == "_"@,
        pixel.direction != Direction::NoEdge ==> char_spec(char_set, pixel, inverted, false, true)
            == char_spec(char_set, pixel, inverted, false, false),
        pixel.direction == Direction::NoEdge ==> char_spec(char_set, pixel, inverted, false, true) == " "@,
        char_spec(char_set, pixel, inverted, true, true) == " "@,
{
}

/// Each cell's text is its colour escape followed by its character: the
/// escape is a prefix, the character the rest.
pub proof fn lemma_cell_text_order(args: RenderOptions, cell: CharacterData)
    ensures
        ({
            let code = color_code_spec(args.color, cell.color);
            let ch = char_spec(args.set, cell, args.inverted, args.no_lines, args.only_lines);
            let t = cell_text(args, cell);
            &&& t.len() == code.len() + ch.len()
            &&& t.take(code.len() as int) == code
            &&& t.skip(code.len() as int) == ch
        }),
{
    let code = color_code_spec(args.color, cell.color);
    let ch = char_spec(args.set, cell, args.inverted, args.no_lines, args.only_lines);
    assert((code + ch).take(code.len() as int) =~= code);
    assert((code + ch).skip(code.len() as int) =~= ch);
}

pub(crate) proof fn lemma_prefix_extends(a: Seq<char>, b: Seq<char>, c: Seq<char>)
    requires
        c.len() <= a.len(),
        a.take(c.len() as int) == c,
    ensures
        (a + b).take(c.len() as int) == c,
{
    assert((a + b).take(c.len() as int) =~= a.take(c.len() as int));
}

/// The text of a row starts with the text of its first cell: cells are
/// written left to right.
pub proof fn lemma_row_text_starts_with_first_cell(args: RenderOptions, row: Seq<CharacterData>)
    requires
        row.len() >= 1,
    ensures
        cell_text(args, row[0]).len() <= row_text(args, row).len(),
        row_text(args, row).take(cell_text(args, row[0]).len() as int) == cell_text(args, row[0]),
    decreases row.len(),
{
    let c = cell_text(args, row[0]);
    if row.len() == 1 {
        assert(row.drop_last().len() == 0);
        assert(row_text(args, row) =~= c);
    } else {
        lemma_row_text_starts_with_first_cell(args, row.drop_last());
        assert(row.drop_last()[0] == row[0]);
        lemma_prefix_extends(row_text(args, row.drop_last()), cell_text(args, row.last()), c);
    }
}

/// The text of a grid starts with the text of its first row: rows are
/// written top to bottom.
pub proof fn lemma_grid_text_starts_with_first_row(args: RenderOptions, rows: Seq<Seq<CharacterData>>)
    requires
        rows.len() >= 1,
    ensures
        row_text(args, rows[0]).len() <= grid_text(args, rows).len(),
        grid_text(args, rows).take(row_text(args, rows[0]).len() as int) == row_text(args, rows[0]),
    decreases rows.len(),
{
    let r = row_text(args, rows[0]);
    if rows.len() == 1 {
        assert(grid_text(args, rows).take(r.len() as int) =~= r);
    } else {
        lemma_grid_text_starts_with_first_row(args, rows.drop_last());
        assert(rows.drop_last()[0] == rows[0]);
        lemma_prefix_extends(grid_text(args, rows.drop_last()), seq!['\n'], r);
        lemma_prefix_extends(grid_text(args, rows.drop_last()) + seq!['\n'], row_text(args, rows.last()), r);
    }
}

fn push_cell(result: &mut String, args: &RenderOptions, cell: &CharacterData)
    requires
        drawable(args.set, *cell, args.inverted, args.no_lines, args.only_lines),
    ensures
        final(result)@ == old(result)@ + cell_text(*args, *cell),
{
    let code = get_ansi_color_code(&args.color, cell.color);
    let ch = get_char(&args.set, cell, args.inverted, args.no_lines, args.only_lines);
    result.append(code.as_str());
    result.append(ch.as_str());
}

/// Turns a grid of cells into text: each cell's colour escape and character,
/// rows separated by newlines.
#[verifier::spinoff_prover]
pub fn translate_to_text(args: &RenderOptions, data: Vec<Vec<CharacterData>>) -> (r: String)
    requires
        grid_drawable(*args, rows_view(data@)),
    ensures
        r@ == grid_text(*args, rows_view(data@)),
{
    let ghost rows = rows_view(data@);
    let mut result = String::new();
    let n = data.len();
    for i in 0..n
        invariant
            n == data@.len(),
            rows == rows_view(data@),
            grid_drawable(*args, rows),
            result@ == grid_text(*args, rows.take(i as int)),
    {
        let ghost before = result@;
        if i != 0 {
            push_char(&mut result, '\n');
        }
        let row = &data[i];
        let m = row.len();
        assert(rows[i as int] == row@);
        for j in 0..m
            invariant
                m == row@.len(),
                rows[i as int] == row@,
                grid_drawable(*args, rows),
                0 <= i < rows.len(),
                result@ == before + (if i != 0 {
                    seq!['\n']
                } else {
                    Seq::empty()
                }) + row_text(*args, row@.take(j as int)),
        {
            let cell = &row[j];
            assert(rows[i as int][j as int] == *cell);
            push_cell(&mut result, args, cell);
            assert(row@.take(j + 1).drop_last() == row@.take(j as int));
        }
        assert(row@.take(m as int) == row@);
        assert(rows.take(i + 1).drop_last() == rows.take(i as int));
        assert(rows.take(i + 1).last() == row@);
        if i == 0 {
            assert(rows.take(1)[0] == row@);
        }
    }
    assert(rows.take(n as int) == rows);
    result
}

/// Digits are not newlines.
pub proof fn lemma_digits_no_newline(d: Seq<char>)
    requires
        all_digits(d),
    ensures
        no_newline(d),
{
    assert forall|i: int| 0 <= i < d.len() implies d[i] != '\n' by {
        assert(digit_value(d[i]) is Some);
    }
}

/// Joining two texts without newlines gives a text without newlines.
pub proof fn lemma_concat_no_newline(a: Seq<char>, b: Seq<char>)
    requires
        no_newline(a),
        no_newline(b),
    ensures
        no_newline(a + b),
{
    assert forall|i: int| 0 <= i < (a + b).len() implies (a + b)[i] != '\n' by {
        if i < a.len() {
            assert((a + b)[i] == a[i]);
        } else {
            assert((a + b)[i] == b[i - a.len()]);
        }
    }
}

/// Every character of every set is a non-empty text without newlines.
pub proof fn lemma_char_set_clean(set: CharSet)
    ensures
        forall|i: int|
            0 <= i < char_set_strs(set).len() ==> (#[trigger] char_set_strs(set)[i])@.len() > 0
                && no_newline(char_set_strs(set)[i]@),
{
    reveal_strlit(" ");
    reveal_strlit(".");
    reveal_strlit("\"");
    reveal_strlit("+");
    reveal_strlit("o");
    reveal_strlit("?");
    reveal_strlit("#");
    reveal_strlit("0");
    reveal_strlit("1");
    reveal_strlit("2");
    reveal_strlit("3");
    reveal_strlit("4");
    reveal_strlit("5");
    reveal_strlit("6");
    reveal_strlit("7");
    reveal_strlit("8");
    reveal_strlit("9");
    reveal_strlit(":black_large_square:");
    reveal_strlit(":new_moon:");
    reveal_strlit(":elephant:");
    reveal_strlit(":fog:");
    reveal_strlit(":white_large_square:");
    reveal_strlit("⠀");
    reveal_strlit("⢀");
    reveal_strlit("⡈");
    reveal_strlit("⡊");
    reveal_strlit("⢕");
    reveal_strlit("⢝");
    reveal_strlit("⣫");
    reveal_strlit("⣟");
    reveal_strlit("⣿");
}

/// A drawable cell's text is non-empty, holds no newline, and does not end
/// in one.
pub proof fn lemma_cell_text_clean(args: RenderOptions, cell: CharacterData)
    requires
        drawable(args.set, cell, args.inverted, args.no_lines, args.only_lines),
    ensures
        cell_text(args, cell).len() > 0,
        no_newline(cell_text(args, cell)),
{
    lemma_char_set_clean(args.set);
    reveal_strlit("/");
    reveal_strlit("\\");
    reveal_strlit("-");
    reveal_strlit("|");
    reveal_strlit("_");
    reveal_strlit(" ");
    reveal_strlit("\x1b[38;2;");
    let code = color_code_spec(args.color, cell.color);
    let ch = char_spec(args.set, cell, args.inverted, args.no_lines, args.only_lines);
    if args.color == ColorSet::RGB {
        lemma_decimal_is_digits(cell.color[0] as nat);
        lemma_decimal_is_digits(cell.color[1] as nat);
        lemma_decimal_is_digits(cell.color[2] as nat);
        lemma_digits_no_newline(decimal(cell.color[0] as nat));
        lemma_digits_no_newline(decimal(cell.color[1] as nat));
        lemma_digits_no_newline(decimal(cell.color[2] as nat));
        let p0 = "\x1b[38;2;"@;
        assert(no_newline(p0));
        assert(no_newline(seq![';']));
        assert(no_newline(seq!['m']));
        lemma_concat_no_newline(p0, decimal(cell.color[0] as nat));
        lemma_concat_no_newline(p0 + decimal(cell.color[0] as nat), seq![';']);
        lemma_concat_no_newline(p0 + decimal(cell.color[0] as nat) + seq![';'], decimal(cell.color[1] as nat));
        lemma_concat_no_newline(p0 + decimal(cell.color[0] as nat) + seq![';'] + decimal(cell.color[1] as nat), seq![';']);
        lemma_concat_no_newline(p0 + decimal(cell.color[0] as nat) + seq![';'] + decimal(cell.color[1] as nat) + seq![';'], decimal(cell.color[2] as nat));
        lemma_concat_no_newline(p0 + decimal(cell.color[0] as nat) + seq![';'] + decimal(cell.color[1] as nat) + seq![';'] + decimal(cell.color[2] as nat), seq!['m']);
    }
    assert(no_newline(code));
    if !args.no_lines && line_str(cell.direction) is Some {
    } else if !args.only_lines {
        let i = char_index(cell.brightness, args.inverted, char_set_strs(args.set).len());
        assert(char_set_strs(args.set)[i]@.len() > 0);
    }
    assert(ch.len() > 0 && no_newline(ch));
    lemma_concat_no_newline(code, ch);
}

proof fn lemma_row_text_clean(args: RenderOptions, row: Seq<CharacterData>)
    requires
        forall|j: int| 0 <= j < row.len() ==> drawable(args.set, #[trigger] row[j], args.inverted, args.no_lines, args.only_lines),
    ensures
        no_newline(row_text(args, row)),
        row.len() > 0 ==> row_text(args, row).len() > 0,
    decreases row.len(),
{
    if row.len() > 0 {
        lemma_row_text_clean(args, row.drop_last());
        lemma_cell_text_clean(args, row.last());
        lemma_concat_no_newline(row_text(args, row.drop_last()), cell_text(args, row.last()));
    } else {
        assert(no_newline(Seq::<char>::empty()));
    }
}

proof fn lemma_grid_newlines(args: RenderOptions, rows: Seq<Seq<CharacterData>>)
    requires
        rows.len() > 0,
        grid_drawable(args, rows),
        forall|i: int| 0 <= i < rows.len() ==> #[trigger] rows[i].len() > 0,
    ensures
        newline_count(grid_text(args, rows)) == rows.len() - 1,
        grid_text(args, rows).len() > 0,
        grid_text(args, rows).last() != '\n',
    decreases rows.len(),
{
    let last = rows.last();
    assert forall|j: int| 0 <= j < last.len() implies drawable(args.set, #[trigger] last[j], args.inverted, args.no_lines, args.only_lines) by {
        assert(rows[rows.len() - 1][j] == last[j]);
    }
    lemma_row_text_clean(args, last);
    lemma_no_newline_count(row_text(args, last));
    let rt = row_text(args, last);
    assert(rt[rt.len() - 1] != '\n');
    if rows.len() == 1 {
        assert(rows[0] == last);
    } else {
        let front = rows.drop_last();
        assert forall|i: int, j: int| 0 <= i < front.len() && 0 <= j < front[i].len() implies drawable(args.set, #[trigger] front[i][j], args.inverted, args.no_lines, args.only_lines) by {
            assert(front[i] == rows[i]);
        }
        assert forall|i: int| 0 <= i < front.len() implies #[trigger] front[i].len() > 0 by {
            assert(front[i] == rows[i]);
        }
        lemma_grid_newlines(args, front);
        let g = grid_text(args, front);
        lemma_newline_count_concat(g, seq!['\n']);
        lemma_newline_count_concat(g + seq!['\n'], rt);
        assert(newline_count(seq!['\n']) == 1) by {
            assert(seq!['\n'].drop_last() =~= Seq::<char>::empty());
            assert(newline_count(Seq::<char>::empty()) == 0);
            assert(seq!['\n'].last() == '\n');
        }
        assert((g + seq!['\n'] + rt).last() == rt.last());
    }
}

/// The text of a frame with `k` non-empty rows has exactly `k` lines: the
/// rows are joined by newlines and no cell's text holds one. (So after
/// printing it the cursor is `k - 1` lines below the frame's top.)
pub proof fn lemma_frame_line_count(args: RenderOptions, rows: Seq<Seq<CharacterData>>)
    requires
        rows.len() > 0,
        grid_drawable(args, rows),
        forall|i: int| 0 <= i < rows.len() ==> #[trigger] rows[i].len() > 0,
    ensures
        line_count(grid_text(args, rows)) == rows.len(),
{
    lemma_grid_newlines(args, rows);
}

} // verus!
