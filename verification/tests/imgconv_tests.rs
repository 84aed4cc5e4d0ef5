use ggoled::imgconv::ImageConvertError;
use ggoled::imgconv::bitmap_from_memory;
use ggoled::imgconv::bitmap_from_rgba;

#[test]
fn thresholding_uses_the_channel_mean() {
    // two pixels: white and a mid gray whose mean is 99
    let data = vec![255, 255, 255, 0, 99, 99, 99, 0];
    let bm = bitmap_from_rgba(2, 1, &data, 100);
    assert!(bm.get(0, 0));
    assert!(!bm.get(1, 0));
}

#[test]
fn threshold_boundary_is_inclusive() {
    let data = vec![100, 100, 100, 0];
    let bm = bitmap_from_rgba(1, 1, &data, 100);
    assert!(bm.get(0, 0));
    let bm = bitmap_from_rgba(1, 1, &data, 101);
    assert!(!bm.get(0, 0));
}

#[test]
fn mixed_channels_average() {
    // mean of (255, 0, 0) is 85
    let data = vec![255, 0, 0, 0];
    assert!(bitmap_from_rgba(1, 1, &data, 85).get(0, 0));
    assert!(!bitmap_from_rgba(1, 1, &data, 86).get(0, 0));
}

#[test]
fn alpha_is_ignored() {
    let data = vec![200, 200, 200, 0];
    assert!(bitmap_from_rgba(1, 1, &data, 100).get(0, 0));
}

#[test]
fn rgba_rows_are_row_major() {
    let data = vec![
        255, 255, 255, 0, 0, 0, 0, 0, // row 0: on, off
        0, 0, 0, 0, 255, 255, 255, 0, // row 1: off, on
    ];
    let bm = bitmap_from_rgba(2, 2, &data, 100);
    assert!(bm.get(0, 0));
    assert!(!bm.get(1, 0));
    assert!(!bm.get(0, 1));
    assert!(bm.get(1, 1));
}

#[test]
fn decodes_a_png_from_memory() {
    // a 2x1 image, white then black, encoded as PNG in memory; decoding
    // it back must reproduce the thresholded pixels, so a wrapper that
    // handed its input through unchanged would fail here.
    let mut img = image::RgbaImage::new(2, 1);
    img.put_pixel(0, 0, image::Rgba([255, 255, 255, 255]));
    img.put_pixel(1, 0, image::Rgba([0, 0, 0, 255]));
    let mut png: Vec<u8> = Vec::new();
    image::DynamicImage::ImageRgba8(img)
        .write_to(&mut std::io::Cursor::new(&mut png), image::ImageFormat::Png)
        .unwrap();
    let bm = bitmap_from_memory(&png, 100).unwrap();
    assert_eq!(bm.w, 2);
    assert_eq!(bm.h, 1);
    assert!(bm.get(0, 0));
    assert!(!bm.get(1, 0));
}

#[test]
fn garbage_bytes_are_undecodable() {
    let garbage = vec![1, 2, 3, 4, 5, 6, 7, 8];
    assert!(matches!(
        bitmap_from_memory(&garbage, 100),
        Err(ImageConvertError::Undecodable)
    ));
}
