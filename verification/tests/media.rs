use aar::args::{MediaModes, VideoOptions};
use aar::ffutils::{ffmpeg_args, ffplay_args, ffprobe_args, frame_size, parse_meta};
use aar::terminal::get_scale;
use aar::video::{frame_prefix, is_video, rows_after};

#[test]
fn parse_meta_reads_stream_fields() {
    let out = "[STREAM]\nwidth=1920\nheight=1080\nr_frame_rate=30/1\nnb_frames=250\nduration=10.000000\n[/STREAM]\n";
    let m = parse_meta(out).unwrap();
    assert_eq!(m.scale, (1920, 1080));
    assert_eq!(m.fps.as_deref(), Some("30/1"));
    assert_eq!(m.frames, Some(250));
    assert_eq!(m.duration.as_deref(), Some("10.000000"));
}

#[test]
fn parse_meta_handles_crlf_and_missing_values() {
    let out = "width=+64\r\nheight=48\r\nr_frame_rate=N/A\r\nnb_frames=N/A\r\n";
    let m = parse_meta(out).unwrap();
    assert_eq!(m.scale, (64, 48));
    assert_eq!(m.fps, None);
    assert_eq!(m.frames, None);
    assert_eq!(m.duration, None);
}

#[test]
fn parse_meta_later_lines_win_except_bad_sizes() {
    let out = "width=10\nheight=20\nwidth=abc\nheight=30\nnb_frames=5\nnb_frames=x";
    let m = parse_meta(out).unwrap();
    assert_eq!(m.scale, (10, 30));
    assert_eq!(m.frames, None);
}

#[test]
fn parse_meta_errors() {
    assert_eq!(
        parse_meta("").err(),
        Some("file is not an image or video (or not parsable by ffmpeg)".to_string())
    );
    assert_eq!(
        parse_meta("width=10\n").err(),
        Some("No width or height found in ffprobe result".to_string())
    );
    assert_eq!(
        parse_meta("width=0\nheight=5\n").err(),
        Some("No width or height found in ffprobe result".to_string())
    );
    // too large for a u32
    assert!(parse_meta("width=4294967296\nheight=5\n").is_err());
    assert_eq!(parse_meta("width=4294967295\nheight=5").unwrap().scale, (4294967295, 5));
}

#[test]
fn get_scale_keeps_specified_sides() {
    // chars 9 × 20, picture 100 × 200
    let (internal, output) = get_scale((9, 20), (Some(10), Some(7)), (100, 200), (80, 24));
    assert_eq!(output, (10, 7));
    assert_eq!(internal, (40, 28));
    // width 40: 40 · 2 / (20 / 9) = 36
    let (_, output) = get_scale((9, 20), (Some(40), None), (100, 200), (80, 24));
    assert_eq!(output, (40, 36));
    // height 36: 36 / 2 · 20 / 9 = 40
    let (_, output) = get_scale((9, 20), (None, Some(36)), (100, 200), (80, 24));
    assert_eq!(output, (40, 36));
}

#[test]
fn get_scale_fits_the_terminal() {
    // full width 80 would need 72 lines; 24 lines allow width 24 · 20 / 9 / 2 = 26
    let (internal, output) = get_scale((9, 20), (None, None), (100, 200), (80, 24));
    assert_eq!(output, (26, 24));
    assert_eq!(internal, (104, 96));
    // a wide picture uses the full width
    let (_, output) = get_scale((9, 20), (None, None), (400, 100), (80, 24));
    assert_eq!(output, (80, 9));
}

#[test]
fn get_scale_zero_sizes_saturate() {
    // a picture of width 0 would be infinitely tall: the width goes to 0
    let (_, output) = get_scale((9, 20), (None, None), (0, 100), (80, 24));
    assert_eq!(output, (0, 24));
}

#[test]
fn is_video_follows_mode_then_frames() {
    assert!(is_video(Some(MediaModes::Video), Some(1)));
    assert!(!is_video(Some(MediaModes::Image), Some(100)));
    assert!(is_video(None, Some(2)));
    assert!(!is_video(None, Some(1)));
    assert!(!is_video(None, None));
}

#[test]
fn rows_after_counts_lines_like_str_lines() {
    assert_eq!(rows_after("a\nb\nc"), 2);
    assert_eq!(rows_after("a\nb\n"), 1);
    assert_eq!(rows_after("x"), 0);
    assert_eq!(rows_after("\n"), 0);
}

#[test]
fn frame_prefix_moves_cursor_up() {
    assert_eq!(frame_prefix(0), "");
    assert_eq!(frame_prefix(12), "\x1b[1G\x1b[12A");
}

#[test]
fn ffmpeg_args_build_the_decoder_command() {
    let args = ffmpeg_args("in.mp4", &Some("25/1".to_string()), &None, (40, 30));
    assert_eq!(
        args,
        vec![
            "-y", "-readrate", "1.0", "-i", "in.mp4", "-vf", "scale=40:30,fps=25/1", "-pix_fmt",
            "rgb24", "-f", "rawvideo", "pipe:1"
        ]
    );
    let args = ffmpeg_args("/dev/video0", &Some("30".to_string()), &Some("v4l2".to_string()), (8, 4));
    assert_eq!(&args[..3], &["-y", "-f", "v4l2"]);
    assert_eq!(args[8], "scale=8:4,fps=30");
}

#[test]
fn ffplay_and_ffprobe_args() {
    assert_eq!(
        ffplay_args("a.mp4", 75),
        vec!["a.mp4", "-nodisp", "-autoexit", "-v", "quiet", "-volume", "75"]
    );
    assert_eq!(
        ffprobe_args("a.mp4"),
        vec!["-v", "quiet", "-show_streams", "-select_streams", "v:0", "a.mp4"]
    );
}

#[test]
fn frame_size_is_three_bytes_per_pixel() {
    assert_eq!(frame_size((40, 30)), 3600);
    assert_eq!(frame_size((0, 30)), 0);
}

#[test]
fn video_options_default_values() {
    let v = VideoOptions::default();
    assert_eq!((v.quality, v.volume, v.format), (1, 0, None));
}
