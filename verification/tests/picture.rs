use aar::picture::{decode_picture, load_picture, PictureError};

fn encode(img: &image::RgbaImage, format: image::ImageFormat) -> Vec<u8> {
    let mut bytes: Vec<u8> = Vec::new();
    img.write_to(&mut std::io::Cursor::new(&mut bytes), format).unwrap();
    bytes
}

fn two_pixels() -> image::RgbaImage {
    image::RgbaImage::from_raw(2, 1, vec![10, 20, 30, 255, 200, 100, 50, 255]).unwrap()
}

#[test]
fn picture_decodes_by_extension() {
    let png = encode(&two_pixels(), image::ImageFormat::Png);
    let decoded = decode_picture("png", &png).unwrap();
    assert_eq!((decoded.width, decoded.height), (2, 1));
    assert_eq!(decoded.data, vec![10, 20, 30, 255, 200, 100, 50, 255]);
    // the extension is read without regard to case
    assert!(decode_picture("PNG", &png).is_some());
    // a PNG file named as another format, or with no known extension, is refused
    assert!(decode_picture("bmp", &png).is_none());
    assert!(decode_picture("txt", &png).is_none());
    assert!(decode_picture("", &png).is_none());
}

#[test]
fn grey_picture_becomes_rgba() {
    let grey = image::GrayImage::from_raw(1, 1, vec![77]).unwrap();
    let mut bytes: Vec<u8> = Vec::new();
    grey.write_to(&mut std::io::Cursor::new(&mut bytes), image::ImageFormat::Png).unwrap();
    let decoded = decode_picture("png", &bytes).unwrap();
    assert_eq!(decoded.data, vec![77, 77, 77, 255]);
}

#[test]
fn picture_is_resized_to_the_internal_scale() {
    let bmp = encode(&two_pixels(), image::ImageFormat::Bmp);
    let picture = load_picture("bmp", &bmp, (4, 2)).unwrap();
    assert_eq!((picture.width, picture.height), (4, 2));
    let a = [10u8, 20, 30, 255];
    let b = [200u8, 100, 50, 255];
    let mut expected: Vec<u8> = Vec::new();
    for _ in 0..2 {
        for px in [a, a, b, b] {
            expected.extend_from_slice(&px);
        }
    }
    assert_eq!(picture.data, expected);
    // the same as the image crate's own resizing of the decoded picture
    let direct = image::load_from_memory(&bmp)
        .unwrap()
        .resize_exact(4, 2, image::imageops::FilterType::Nearest)
        .to_rgba8()
        .into_raw();
    assert_eq!(picture.data, direct);
}

#[test]
fn picture_errors() {
    assert_eq!(load_picture("png", b"not a picture", (4, 2)).err(), Some(PictureError::NotAPicture));
    let png = encode(&two_pixels(), image::ImageFormat::Png);
    assert_eq!(
        load_picture("png", &png, (u32::MAX, u32::MAX)).err(),
        Some(PictureError::TooLarge)
    );
    let same = load_picture("png", &png, (2, 1)).unwrap();
    assert_eq!(same.data, vec![10, 20, 30, 255, 200, 100, 50, 255]);
}
