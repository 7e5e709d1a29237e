use std::io::Cursor;
use unm::texture::{decode_texture, texture_upload};

fn png(width: u32, height: u32, pixels: Vec<u8>) -> Vec<u8> {
    let img = image::RgbaImage::from_raw(width, height, pixels).unwrap();
    let mut out = Cursor::new(Vec::new());
    img.write_to(&mut out, image::ImageFormat::Png).unwrap();
    out.into_inner()
}

#[test]
fn decodes_a_png_into_rgba_rows() {
    let pixels = vec![255, 0, 0, 255, 0, 255, 0, 128, 0, 0, 255, 255, 1, 2, 3, 4, 9, 9, 9, 9, 7, 7, 7, 7];
    let (data, upload) = decode_texture(&png(3, 2, pixels.clone())).unwrap();
    assert_eq!(data, pixels);
    assert_eq!(upload.size, (3, 2, 1));
    assert_eq!(upload.bytes_per_row, 12);
    assert_eq!(upload.rows_per_image, 2);
}

#[test]
fn rejects_bytes_that_are_no_image() {
    assert!(decode_texture(b"not an image at all").is_none());
    assert!(decode_texture(&[]).is_none());
}

#[test]
fn upload_layout() {
    let u = texture_upload(256, 128);
    assert_eq!(u.size, (256, 128, 1));
    assert_eq!(u.bytes_per_row, 1024);
    assert_eq!(u.rows_per_image, 128);
}
