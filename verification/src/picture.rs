use vstd::prelude::*;

use crate::pixels::RgbaImage;

verus! {

/// The RGBA picture (width, height, four bytes per pixel) that the `image`
/// crate decodes from the bytes of a file whose name ends in `extension`,
/// the format being the one the extension names; `None` when the extension
/// names no format or the bytes are not a picture of it.
pub uninterp spec fn decoded_rgba(extension: Seq<char>, encoded: Seq<u8>) -> Option<(u32, u32, Seq<u8>)>;

/// The bytes of the RGBA picture `data` (`width` × `height`) resized to
/// `new_width` × `new_height` by the `image` crate's nearest-neighbour
/// sampling.
pub uninterp spec fn resized_nearest(
    width: u32,
    height: u32,
    data: Seq<u8>,
    new_width: u32,
    new_height: u32,
) -> Seq<u8>;

/// `image::ImageFormat::from_extension`, then
/// `image::load_from_memory_with_format`, `DynamicImage::to_rgba8` and
/// `ImageBuffer::into_raw`: what `ImageReader::open` followed by `decode`
/// does with a file, the format being taken from the name's extension
/// (case-insensitively) and the default allocation limits applying.
/// Trusted: the result is `decoded_rgba` of the extension and the bytes; the
/// buffer holds exactly four bytes per pixel, as `to_rgba8` either converts
/// into a buffer made by `ImageBuffer::new` or copies a decoded RGBA buffer of
/// `total_bytes`. Which files decode, and to what, is not stated.
#[verifier::external_body]
fn decode_rgba(extension: &str, encoded: &[u8]) -> (r: Option<RgbaImage>)
    ensures
        match r {
            Some(img) => decoded_rgba(extension@, encoded@) == Some((img.width, img.height, img.data@))
                && img.wf(),
            None => decoded_rgba(extension@, encoded@) is None,
        },
{
    let format = match image::ImageFormat::from_extension(extension) {
        Some(format) => format,
        None => return None,
    };
    match image::load_from_memory_with_format(encoded, format) {
        Ok(img) => {
            let rgba = img.to_rgba8();
            Some(RgbaImage { width: rgba.width(), height: rgba.height(), data: rgba.into_raw() })
        },
        Err(_) => None,
    }
}

/// `image::imageops::resize` with `FilterType::Nearest` on an RGBA buffer,
/// then `ImageBuffer::into_raw`. Nearest-neighbour sampling copies one
/// source pixel into each target pixel, so resizing before or after the
/// conversion to RGBA gives the same bytes.
/// Trusted: the result is `resized_nearest` of the arguments and holds
/// `new_width · new_height` pixels (every path of `resize` builds its output
/// with `ImageBuffer::new(new_width, new_height)`). The bounds in `requires`
/// keep its two buffers (an `f32` one of `width × new_height` pixels and the
/// output) allocatable; which bytes come out is not stated.
#[verifier::external_body]
fn resize_nearest(width: u32, height: u32, data: Vec<u8>, new_width: u32, new_height: u32) -> (r: Vec<u8>)
    requires
        data@.len() == width * height * 4,
        width * new_height * 16 <= isize::MAX,
        new_width * new_height * 4 <= isize::MAX,
    ensures
        r@ == resized_nearest(width, height, data@, new_width, new_height),
        r@.len() == new_width * new_height * 4,
{
    let source = image::RgbaImage::from_raw(width, height, data).unwrap();
    image::imageops::resize(&source, new_width, new_height, image::imageops::FilterType::Nearest).into_raw()
}

/// Why a picture could not be loaded.
#[derive(Debug, Clone, Copy, PartialEq, Eq, Structural)]
pub enum PictureError {
    /// The file is not a picture in the format its name's extension names.
    NotAPicture,
    /// The resized picture, or the buffer the resizing works in, would not
    /// fit in memory.
    TooLarge,
}

/// Decodes the bytes of a picture file whose name ends in `extension` into
/// RGBA; `None` when they are not a picture in that format.
pub fn decode_picture(extension: &str, encoded: &[u8]) -> (r: Option<RgbaImage>)
    ensures
        match r {
            Some(img) => decoded_rgba(extension@, encoded@) == Some((img.width, img.height, img.data@))
                && img.wf(),
            None => decoded_rgba(extension@, encoded@) is None,
        },
{
    decode_rgba(extension, encoded)
}

/// Resizing a picture `width` pixels wide to `scale` can be carried out:
/// its working buffers fit in memory.
pub open spec fn resizable(width: u32, scale: (u32, u32)) -> bool {
    &&& width * scale.1 * 16 <= isize::MAX
    &&& scale.0 * scale.1 * 4 <= isize::MAX
}

/// Resizes the picture to `scale` (width, height) by nearest-neighbour
/// sampling.
pub fn resize_picture(picture: RgbaImage, scale: (u32, u32)) -> (r: RgbaImage)
    requires
        picture.wf(),
        resizable(picture.width, scale),
    ensures
        r.wf(),
        r.width == scale.0,
        r.height == scale.1,
        r.data@ == resized_nearest(picture.width, picture.height, picture.data@, scale.0, scale.1),
{
    let data = resize_nearest(picture.width, picture.height, picture.data, scale.0, scale.1);
    RgbaImage { width: scale.0, height: scale.1, data }
}

/// Loads a picture for rendering: decodes the bytes of the file (its format
/// named by the extension of its name) and resizes the picture to the
/// internal scale by nearest-neighbour sampling.
pub fn load_picture(extension: &str, encoded: &[u8], scale: (u32, u32)) -> (r: Result<RgbaImage, PictureError>)
    ensures
        match decoded_rgba(extension@, encoded@) {
            None => r == Err::<RgbaImage, PictureError>(PictureError::NotAPicture),
            Some((w, h, d)) => if resizable(w, scale) {
                r matches Ok(img) && img.wf() && img.width == scale.0 && img.height == scale.1
                    && img.data@ == resized_nearest(w, h, d, scale.0, scale.1)
            } else {
                r == Err::<RgbaImage, PictureError>(PictureError::TooLarge)
            },
        },
{
    let picture = match decode_picture(extension, encoded) {
        Some(picture) => picture,
        None => return Err(PictureError::NotAPicture),
    };
    proof {
        let (w, sw, sh) = (picture.width as int, scale.0 as int, scale.1 as int);
        assert(w * sh <= 0xffff_ffff * 0xffff_ffff && sw * sh <= 0xffff_ffff * 0xffff_ffff) by (nonlinear_arith)
            requires
                0 <= w <= 0xffff_ffff,
                0 <= sw <= 0xffff_ffff,
                0 <= sh <= 0xffff_ffff,
        ;
    }
    let work: u128 = (picture.width as u128) * (scale.1 as u128) * 16;
    let output: u128 = (scale.0 as u128) * (scale.1 as u128) * 4;
    if work > isize::MAX as u128 || output > isize::MAX as u128 {
        return Err(PictureError::TooLarge);
    }
    Ok(resize_picture(picture, scale))
}

} // verus!
