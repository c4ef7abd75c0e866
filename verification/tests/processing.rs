use aar::args::CharSet;
use aar::processing::cpu::get_pixel_data;
use aar::processing::image::{Direction, PixelData};
use aar::processing::text::{get_ansi_color_code, get_char, translate_to_text, ColorSet};
use aar::textifier::types::BRIGHTNESS_ONE;

fn px(direction: Direction, brightness: u32) -> PixelData {
    PixelData { direction, brightness, color: [1, 2, 3] }
}

#[test]
fn direction_test_decodes_every_code() {
    assert_eq!(Direction::test(0), Direction::NoEdge);
    assert_eq!(Direction::test(1), Direction::TopToBottom);
    assert_eq!(Direction::test(2), Direction::ToprightToBotleft);
    assert_eq!(Direction::test(3), Direction::LeftToRight);
    assert_eq!(Direction::test(4), Direction::TopleftToBotright);
}

#[test]
fn pixel_data_takes_centre_and_majority_direction() {
    let mut grid = vec![vec![px(Direction::NoEdge, 0); 3]; 3];
    grid[1][1] = PixelData { direction: Direction::NoEdge, brightness: 42, color: [9, 9, 9] };
    grid[0][0].direction = Direction::LeftToRight;
    grid[0][1].direction = Direction::LeftToRight;
    grid[2][2].direction = Direction::TopToBottom;
    let r = get_pixel_data(&grid, 0, 3, 0, 3);
    assert_eq!(r.direction, Direction::LeftToRight);
    assert_eq!(r.brightness, 42);
    assert_eq!(r.color, [9, 9, 9]);
}

#[test]
fn pixel_data_without_edges_has_none() {
    let grid = vec![vec![px(Direction::NoEdge, 5); 2]; 2];
    assert_eq!(get_pixel_data(&grid, 0, 2, 0, 2).direction, Direction::NoEdge);
    // an empty window keeps its centre sample and has no edge either
    assert_eq!(get_pixel_data(&grid, 1, 1, 1, 1).direction, Direction::NoEdge);
}

#[test]
fn pixel_data_ties_go_to_later_directions() {
    // one top-to-bottom and one topleft-to-botright: the tie goes past top-to-bottom
    let grid = vec![vec![px(Direction::TopToBottom, 0), px(Direction::TopleftToBotright, 0)]];
    assert_eq!(get_pixel_data(&grid, 0, 2, 0, 1).direction, Direction::TopleftToBotright);
    let grid = vec![vec![px(Direction::ToprightToBotleft, 0), px(Direction::LeftToRight, 0)]];
    assert_eq!(get_pixel_data(&grid, 0, 2, 0, 1).direction, Direction::LeftToRight);
}

#[test]
fn old_ansi_color_code_real_and_none() {
    assert_eq!(get_ansi_color_code(&ColorSet::Real, [255, 0, 10, 3]), "\x1b[38;2;255;0;10m");
    assert_eq!(get_ansi_color_code(&ColorSet::NoColor, [255, 0, 10, 3]), "");
}

#[test]
fn old_get_char_maps_edges_and_brightness() {
    assert_eq!(get_char(&CharSet::Ascii, px(Direction::TopToBottom, 0), false, false), "|");
    assert_eq!(get_char(&CharSet::Ascii, px(Direction::LeftToRight, 0), false, false), "-");
    assert_eq!(get_char(&CharSet::Ascii, px(Direction::TopleftToBotright, 0), false, false), "\\");
    assert_eq!(get_char(&CharSet::Ascii, px(Direction::ToprightToBotleft, 0), false, false), "/");
    assert_eq!(get_char(&CharSet::Ascii, px(Direction::ToprightToBotleft, 0), false, true), " ");
    assert_eq!(get_char(&CharSet::Numbers, px(Direction::NoEdge, BRIGHTNESS_ONE), false, false), "9");
}

#[test]
fn old_translate_to_text_renders_windows() {
    // 2 × 4 grid rendered as 2 lines of 2 characters
    let mut grid = vec![vec![px(Direction::NoEdge, 0); 4]; 2];
    grid[0][2].brightness = BRIGHTNESS_ONE;
    grid[0][3].brightness = BRIGHTNESS_ONE;
    grid[1][0].direction = Direction::TopToBottom;
    grid[1][1].direction = Direction::TopToBottom;
    let text = translate_to_text(grid, 2, 2, CharSet::Ascii, ColorSet::NoColor, false, false);
    assert_eq!(text, " #\n| \n");
    let empty = translate_to_text(vec![], 0, 0, CharSet::Ascii, ColorSet::NoColor, false, false);
    assert_eq!(empty, "");
}
