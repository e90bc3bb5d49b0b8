use mems_lidar::decode_icon;
use std::io::Cursor;

fn png_of(width: u32, height: u32, pixels: Vec<u8>) -> Vec<u8> {
    let img = image::RgbaImage::from_raw(width, height, pixels).unwrap();
    let mut out = Cursor::new(Vec::new());
    image::DynamicImage::ImageRgba8(img).write_to(&mut out, image::ImageOutputFormat::Png).unwrap();
    out.into_inner()
}

#[test]
fn icon_png_decodes_to_its_pixels() {
    let pixels = vec![255, 0, 0, 255, 0, 255, 0, 128, 0, 0, 255, 0, 10, 20, 30, 40, 1, 2, 3, 4, 9, 9, 9, 9];
    let bytes = png_of(3, 2, pixels.clone());
    let icon = decode_icon(&bytes).unwrap();
    assert_eq!(icon.width, 3);
    assert_eq!(icon.height, 2);
    assert_eq!(icon.pixels, pixels);
}

#[test]
fn garbage_does_not_decode() {
    assert!(decode_icon(&[1, 2, 3, 4, 5]).is_none());
    assert!(decode_icon(&[]).is_none());
}
