use vstd::prelude::*;

use crate::pixels::LumaImage;

verus! {

/// The grey picture (width, height, one byte per pixel) that the `image`
/// crate decodes from the bytes of a PNG file, if they are one.
pub uninterp spec fn decoded_luma(encoded: Seq<u8>) -> Option<(u32, u32, Seq<u8>)>;

/// `image::load_from_memory_with_format` with `ImageFormat::Png`, then
/// `DynamicImage::to_luma8` and `ImageBuffer::into_raw`: decodes the bytes
/// as a PNG file, whatever else they might be, and turns the picture grey.
/// Trusted: the result is `decoded_luma` of the bytes, so the same bytes
/// always give the same picture, and the buffer holds one byte per pixel, as
/// `to_luma8` either converts into a buffer made by `ImageBuffer::new` or
/// copies a decoded grey buffer of `total_bytes`. Which files decode, and to
/// what, is not stated.
#[verifier::external_body]
fn decode_luma(encoded: &[u8]) -> (r: Option<LumaImage>)
    ensures
        match r {
            Some(img) => decoded_luma(encoded@) == Some((img.width, img.height, img.data@))
                && img.data@.len() == img.width * img.height,
            None => decoded_luma(encoded@) is None,
        },
{
    match image::load_from_memory_with_format(encoded, image::ImageFormat::Png) {
        Ok(img) => {
            let luma = img.to_luma8();
            Some(LumaImage { width: luma.width(), height: luma.height(), data: luma.into_raw() })
        },
        Err(_) => None,
    }
}

/// The picture of line pieces the GPU shader draws edges with, decoded from
/// the contents of its PNG file; `None` when they are not a PNG picture.
pub fn get_line_pieces(encoded: &[u8]) -> (r: Option<LumaImage>)
    ensures
        match r {
            Some(img) => decoded_luma(encoded@) == Some((img.width, img.height, img.data@))
                && img.data@.len() == img.width * img.height,
            None => decoded_luma(encoded@) is None,
        },
{
    decode_luma(encoded)
}

} // verus!
