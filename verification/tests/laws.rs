use aar::args::{CharSet, RenderOptions};
use aar::ffutils::{ffplay_args, is_csv_readable, parse_meta, parse_meta_csv};
use aar::pixels::RgbaImage;
use aar::processing::cpu::get_pixel_data;
use aar::processing::image::{Direction as EdgeDirection, PixelData};
use aar::processing::text::{translate_to_text as render_picture, ColorSet as EdgeColorSet};
use aar::terminal::{get_scale, output_scale};
use aar::textifier::cpu::can_sample;
use aar::textifier::text::{is_drawable, translate_to_text};
use aar::textifier::types::{CharacterData, Direction, BRIGHTNESS_ONE};
use aar::video::{frame_prefix, rows_after};

#[test]
fn frame_text_has_one_line_per_row() {
    let args = RenderOptions::default();
    let row = vec![CharacterData { direction: Direction::NoEdge, brightness: 0, color: [0; 3] }; 4];
    let text = translate_to_text(&args, vec![row.clone(), row.clone(), row]);
    assert_eq!(text.lines().count(), 3);
    // the next frame moves the cursor up two lines
    assert_eq!(rows_after(&text), 2);
    assert_eq!(frame_prefix(rows_after(&text)), "\x1b[1G\x1b[2A");
}

#[test]
fn picture_text_has_one_line_per_output_row() {
    let grid = vec![vec![PixelData { direction: EdgeDirection::NoEdge, brightness: 0, color: [0; 3] }; 6]; 6];
    let text = render_picture(grid, 3, 2, CharSet::Ascii, EdgeColorSet::Real, true, false);
    assert_eq!(text.lines().count(), 3);
    assert!(text.ends_with('\n'));
    assert_eq!(text.matches('\n').count(), 3);
}

#[test]
fn decimal_text_reads_back() {
    for n in [0u32, 7, 10, 99, 255, 65536, 4294967295] {
        let written = ffplay_args("f", (n % 256) as u8).pop().unwrap();
        assert_eq!(written.parse::<u32>().unwrap(), n % 256);
        let meta = parse_meta(&format!("width={}\nheight=1\n", n));
        if n == 0 {
            assert!(meta.is_err());
        } else {
            assert_eq!(meta.unwrap().scale.0, n);
        }
    }
}

#[test]
fn uniform_window_keeps_its_direction() {
    let grid = vec![vec![PixelData { direction: EdgeDirection::ToprightToBotleft, brightness: 1, color: [0; 3] }; 3]; 2];
    assert_eq!(get_pixel_data(&grid, 0, 3, 0, 2).direction, EdgeDirection::ToprightToBotleft);
    let grid = vec![vec![PixelData { direction: EdgeDirection::LeftToRight, brightness: 1, color: [0; 3] }; 2]; 2];
    assert_eq!(get_pixel_data(&grid, 0, 2, 0, 2).direction, EdgeDirection::LeftToRight);
}

#[test]
fn output_fits_limit_without_specified_size() {
    for (w, h) in [(1, 1000), (1000, 1), (640, 480), (3, 7)] {
        let (internal, output) = get_scale((9, 20), (None, None), (w, h), (120, 40));
        assert!(output.0 <= 120 && output.1 <= 40);
        assert_eq!(internal, (output.0 * 4, output.1 * 4));
        assert_eq!(output, output_scale((9, 20), (None, None), (w, h), (120, 40)));
    }
}

#[test]
fn parse_meta_csv_reads_fields() {
    let (scale, duration, frames) = parse_meta_csv("640,480,12.5,300\r\n").unwrap();
    assert_eq!(scale, (640, 480));
    assert_eq!(duration, "12.5");
    assert_eq!(frames, Some(300));
    let (_, duration, frames) = parse_meta_csv("1,2,N/A,N/A\n\n").unwrap();
    assert_eq!(duration, "N/A");
    assert_eq!(frames, None);
    assert_eq!(
        parse_meta_csv("").err(),
        Some("file is not an image or video (or not parsable by ffmpeg)".to_string())
    );
}

#[test]
fn can_sample_checks_last_point() {
    let img = RgbaImage::from_raw(4, 4, vec![0; 64]).unwrap();
    assert!(can_sample(&img, 4, 4, 3, 3));
    // a claimed size larger than the picture puts the last point outside it
    assert!(!can_sample(&img, 40, 4, 3, 3));
    assert!(!can_sample(&img, 4, 4, u32::MAX, 1));
    assert!(can_sample(&img, 400, 400, 0, 3));
}

#[test]
fn is_drawable_flags_too_bright_cells() {
    let bright = CharacterData { direction: Direction::NoEdge, brightness: BRIGHTNESS_ONE * 2, color: [0; 3] };
    assert!(!is_drawable(&CharSet::Ascii, &bright, false, false, false));
    // inverted, it is simply the darkest character
    assert!(is_drawable(&CharSet::Ascii, &bright, true, false, false));
    // a line does not need the brightness
    let line = CharacterData { direction: Direction::Dash, ..bright };
    assert!(is_drawable(&CharSet::Ascii, &line, false, false, false));
    assert!(!is_drawable(&CharSet::Ascii, &line, false, true, false));
    assert!(is_drawable(&CharSet::Ascii, &bright, false, false, true));
}

#[test]
fn csv_readable_checks_fields() {
    assert!(is_csv_readable("640,480,12.5,300\r\n"));
    assert!(is_csv_readable("1,2,N/A,N/A\n\n"));
    assert!(is_csv_readable(""));
    assert!(!is_csv_readable("640,480,12.5\n"));
    assert!(!is_csv_readable("wide,480,12.5,300\n"));
    assert!(!is_csv_readable("640,,12.5,300"));
    assert!(!is_csv_readable("\n"));
}
