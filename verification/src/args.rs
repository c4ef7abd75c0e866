use vstd::prelude::*;

verus! {

/// `std::path::PathBuf`, carried through the library unread.
#[verifier::external_type_specification]
#[verifier::external_body]
pub struct ExPathBuf(std::path::PathBuf);

/// All the settings of one run.
pub struct Options {
    pub general: GeneralOptions,
    pub render: RenderOptions,
    pub video: VideoOptions,
}

pub struct GeneralOptions {
    /// Path of image
    pub path: std::path::PathBuf,
    /// choose how to read the file
    pub media_mode: Option<MediaModes>,
    /// choose wether to use gpu or cpu
    pub processing_mode: Option<ProcessingModes>,
}

pub struct RenderOptions {
    /// Output width in characters
    pub width: Option<u32>,
    /// Output height in characters
    pub height: Option<u32>,
    /// Color of text
    pub color: ColorSet,
    /// Characters used for result
    pub set: CharSet,
    /// make dark areas light, and light areas dark
    pub inverted: bool,
    /// From 0 to 1, how clear an edge has to be; held as the bit pattern of
    /// the `f32` that is handed to the GPU.
    pub threshold_bits: u32,
    /// remove the lines characters like /-\|
    pub no_lines: bool,
    /// remove everythin appart from the lines
    pub only_lines: bool,
    /// the width of a character in pixels
    pub char_width: u32,
    /// the height of a character in pixels
    pub char_height: u32,
}

/// The bit pattern of the `f32` 0.5, the default edge threshold.
pub const HALF_F32_BITS: u32 = 0x3f00_0000;

impl Default for RenderOptions {
    fn default() -> (r: Self)
        ensures
            r.width is None,
            r.height is None,
            r.color == ColorSet::NoColor,
            r.set == CharSet::Ascii,
            !r.inverted,
            r.threshold_bits == HALF_F32_BITS,
            !r.no_lines,
            !r.only_lines,
            r.char_width == 9,
            r.char_height == 20,
    {
        RenderOptions {
            width: None,
            height: None,
            color: ColorSet::NoColor,
            set: CharSet::Ascii,
            inverted: false,
            threshold_bits: HALF_F32_BITS,
            no_lines: false,
            only_lines: false,
            char_width: 9,
            char_height: 20,
        }
    }
}

pub struct VideoOptions {
    /// Only affects videos, lower value is high quality, higher value is
    pub quality: u8,
    /// Only affects videos, sets audio volume, clamps to 100
    pub volume: u8,
    /// Only affects videos, sets ffmpeg format if ffmpeg cant auto detect
    pub format: Option<String>,
}

impl Default for VideoOptions {
    fn default() -> (r: Self)
        ensures
            r.quality == 1,
            r.volume == 0,
            r.format is None,
    {
        VideoOptions { quality: 1, volume: 0, format: None }
    }
}

#[derive(Clone, Copy, Debug, PartialEq, Eq, Structural)]
pub enum MediaModes {
    /// just a single frame
    Image,
    /// textify frames as fast as it can, requires ffmpeg
    Video,
}

#[derive(Clone, Copy, Debug, PartialEq, Eq, Structural)]
pub enum ProcessingModes {
    /// runs on gpu, this is the main mode
    Gpu,
    /// runs on cpu but with less features than gpu
    CpuSimple,
}

#[derive(Clone, Copy, Debug, PartialEq, Eq, Structural)]
pub enum ColorSet {
    NoColor,
    RGB,
}

#[derive(Clone, Copy, Debug, PartialEq, Eq, Structural)]
pub enum CharSet {
    Ascii,
    Braile,
    Numbers,
    Discord,
}

} // verus!
