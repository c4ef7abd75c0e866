use aar::args::{CharSet, ColorSet, RenderOptions};
use aar::pixels::RgbaImage;
use aar::textifier::cpu::simple;
use aar::textifier::gpu::split_rows;
use aar::textifier::lines::get_line_pieces;
use aar::textifier::modes::{after_gpu, backend_for, Backend, GpuVerdict};
use aar::textifier::text::{brightness_index, get_ansi_color_code, get_char, translate_to_text};
use aar::textifier::types::{CharacterData, Direction, BRIGHTNESS_ONE};

fn cell(direction: Direction, brightness: u32, color: [u8; 3]) -> CharacterData {
    CharacterData { direction, brightness, color }
}

#[test]
fn direction_from_int_decodes_every_code() {
    assert_eq!(Direction::from_int(0), Direction::NoEdge);
    assert_eq!(Direction::from_int(1), Direction::Slash);
    assert_eq!(Direction::from_int(2), Direction::Backslash);
    assert_eq!(Direction::from_int(3), Direction::Dash);
    assert_eq!(Direction::from_int(4), Direction::Bar);
    assert_eq!(Direction::from_int(5), Direction::Underscore);
}

#[test]
fn get_char_draws_lines_unless_disabled() {
    let p = cell(Direction::Slash, 0, [0, 0, 0]);
    assert_eq!(get_char(&CharSet::Ascii, &p, false, false, false), "/");
    assert_eq!(get_char(&CharSet::Ascii, &cell(Direction::Backslash, 0, [0; 3]), false, false, false), "\\");
    assert_eq!(get_char(&CharSet::Ascii, &cell(Direction::Dash, 0, [0; 3]), false, false, false), "-");
    assert_eq!(get_char(&CharSet::Ascii, &cell(Direction::Bar, 0, [0; 3]), false, false, false), "|");
    assert_eq!(get_char(&CharSet::Ascii, &cell(Direction::Underscore, 0, [0; 3]), false, false, false), "_");
    // lines switched off: brightness decides
    assert_eq!(get_char(&CharSet::Ascii, &p, false, true, false), " ");
}

#[test]
fn get_char_picks_by_brightness() {
    let dark = cell(Direction::NoEdge, 0, [0; 3]);
    let full = cell(Direction::NoEdge, BRIGHTNESS_ONE, [0; 3]);
    let half = cell(Direction::NoEdge, BRIGHTNESS_ONE / 2, [0; 3]);
    assert_eq!(get_char(&CharSet::Ascii, &dark, false, false, false), " ");
    assert_eq!(get_char(&CharSet::Ascii, &full, false, false, false), "#");
    // 0.5 · 6 = 3 -> "+"
    assert_eq!(get_char(&CharSet::Ascii, &half, false, false, false), "+");
    assert_eq!(get_char(&CharSet::Numbers, &full, false, false, false), "9");
    assert_eq!(get_char(&CharSet::Discord, &dark, false, false, false), ":black_large_square:");
    assert_eq!(get_char(&CharSet::Braile, &full, false, false, false), "⣿");
    // inverted swaps dark and light
    assert_eq!(get_char(&CharSet::Ascii, &dark, true, false, false), "#");
    assert_eq!(get_char(&CharSet::Ascii, &full, true, false, false), " ");
    // only lines: a space where there is no edge
    assert_eq!(get_char(&CharSet::Ascii, &full, false, false, true), " ");
}

#[test]
fn brightness_index_rounds_half_up() {
    // 0.25 of 6 steps is 1.5 -> 2
    assert_eq!(brightness_index(BRIGHTNESS_ONE / 4, false, 7), 2);
    // just under 1.5 -> 1
    assert_eq!(brightness_index(BRIGHTNESS_ONE / 4 - 1, false, 7), 1);
    // inverted brightness above one counts as zero
    assert_eq!(brightness_index(BRIGHTNESS_ONE * 2, true, 7), 0);
}

#[test]
fn ansi_color_code_is_truecolor_in_rgb_mode() {
    assert_eq!(get_ansi_color_code(&ColorSet::RGB, [1, 22, 255]), "\x1b[38;2;1;22;255m");
    assert_eq!(get_ansi_color_code(&ColorSet::NoColor, [1, 22, 255]), "");
}

#[test]
fn translate_to_text_joins_rows_with_newlines() {
    let args = RenderOptions::default();
    let data = vec![
        vec![cell(Direction::NoEdge, 0, [0; 3]), cell(Direction::Bar, 0, [0; 3])],
        vec![cell(Direction::NoEdge, BRIGHTNESS_ONE, [0; 3]), cell(Direction::Dash, 0, [0; 3])],
    ];
    assert_eq!(translate_to_text(&args, data), " |\n#-");
    assert_eq!(translate_to_text(&args, vec![]), "");
}

#[test]
fn translate_to_text_colours_each_cell() {
    let mut args = RenderOptions::default();
    args.color = ColorSet::RGB;
    let data = vec![vec![cell(Direction::Slash, 0, [9, 8, 7])]];
    assert_eq!(translate_to_text(&args, data), "\x1b[38;2;9;8;7m/");
}

#[test]
fn render_options_default_values() {
    let r = RenderOptions::default();
    assert_eq!(r.width, None);
    assert_eq!(r.height, None);
    assert_eq!(r.color, ColorSet::NoColor);
    assert_eq!(r.set, CharSet::Ascii);
    assert!(!r.inverted && !r.no_lines && !r.only_lines);
    assert_eq!(f32::from_bits(r.threshold_bits), 0.5);
    assert_eq!((r.char_width, r.char_height), (9, 20));
}

#[test]
fn simple_samples_grid_points() {
    // 4 × 2 picture, pixel (x, y) has red x * 10, green y * 100, blue 7
    let mut data = vec![];
    for y in 0..2u8 {
        for x in 0..4u8 {
            data.extend_from_slice(&[x * 10, y * 100, 7, 255]);
        }
    }
    let img = RgbaImage::from_raw(4, 2, data).unwrap();
    // 3 columns: step 4 / 4 = 1; 1 row: step 2 / 2 = 1
    let grid = simple(&img, 4, 2, 3, 1).unwrap();
    assert_eq!(grid.len(), 1);
    assert_eq!(grid[0].len(), 3);
    for (x, c) in grid[0].iter().enumerate() {
        let r = x as u32 * 10;
        assert_eq!(c.color, [r as u8, 0, 7]);
        assert_eq!(c.brightness, 2126 * r + 722 * 7);
        assert_eq!(c.direction, Direction::NoEdge);
    }
    assert!(simple(&img, 4, 2, 0, 5).unwrap().iter().all(|r| r.is_empty()));
}

#[test]
fn rgba_from_raw_checks_length() {
    assert!(RgbaImage::from_raw(2, 2, vec![0; 16]).is_some());
    assert!(RgbaImage::from_raw(2, 2, vec![0; 15]).is_none());
    assert_eq!(RgbaImage::from_raw(1, 1, vec![1, 2, 3, 4]).unwrap().get_pixel(0, 0), [1, 2, 3, 4]);
}

#[test]
fn split_rows_cuts_like_chunks() {
    let cells: Vec<CharacterData> = (0..7).map(|i| cell(Direction::NoEdge, i, [0; 3])).collect();
    let rows = split_rows(cells, 3);
    let lens: Vec<usize> = rows.iter().map(|r| r.len()).collect();
    assert_eq!(lens, vec![3, 3, 1]);
    assert_eq!(rows[1][0].brightness, 3);
    assert_eq!(rows[2][0].brightness, 6);
    assert!(split_rows(vec![], 4).is_empty());
}

#[test]
fn modes_settle_after_first_frame() {
    assert_eq!(backend_for(None), Backend::TryGpu);
    assert_eq!(backend_for(Some(aar::args::ProcessingModes::Gpu)), Backend::Gpu);
    assert_eq!(backend_for(Some(aar::args::ProcessingModes::CpuSimple)), Backend::Cpu);
    assert_eq!(after_gpu(None, true), (Some(aar::args::ProcessingModes::Gpu), GpuVerdict::Use));
    assert_eq!(after_gpu(None, false), (Some(aar::args::ProcessingModes::CpuSimple), GpuVerdict::FallBack));
    assert_eq!(
        after_gpu(Some(aar::args::ProcessingModes::Gpu), false),
        (Some(aar::args::ProcessingModes::Gpu), GpuVerdict::Fail)
    );
}

#[test]
fn line_pieces_decode_to_grey_pixels() {
    let img = image::GrayImage::from_raw(2, 1, vec![10, 200]).unwrap();
    let mut png: Vec<u8> = Vec::new();
    img.write_to(&mut std::io::Cursor::new(&mut png), image::ImageFormat::Png).unwrap();
    let decoded = get_line_pieces(&png).unwrap();
    assert_eq!((decoded.width, decoded.height), (2, 1));
    assert_eq!(decoded.data, vec![10, 200]);
    assert!(get_line_pieces(b"not a picture").is_none());
}

#[test]
fn line_pieces_must_be_png() {
    let img = image::GrayImage::from_raw(2, 1, vec![10, 200]).unwrap();
    let mut bmp: Vec<u8> = Vec::new();
    img.write_to(&mut std::io::Cursor::new(&mut bmp), image::ImageFormat::Bmp).unwrap();
    assert!(image::load_from_memory(&bmp).is_ok());
    assert!(get_line_pieces(&bmp).is_none());
}
