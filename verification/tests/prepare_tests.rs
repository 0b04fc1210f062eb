use labeld::api::ApiError;
use labeld::canvas::PIN_COUNT;
use labeld::prepare::prepare_image;

/// A real PNG of the given dimensions with a horizontal gradient, so resizing
/// and dithering have tones to work with.
fn png_bytes(width: u32, height: u32) -> Vec<u8> {
    let img = image::GrayImage::from_fn(width, height, |x, _y| {
        image::Luma([((255 * (x + 1)) / width) as u8])
    });
    let mut buf: Vec<u8> = Vec::new();
    img.write_to(
        &mut std::io::Cursor::new(&mut buf),
        image::ImageOutputFormat::Png,
    )
    .unwrap();
    buf
}

#[test]
fn garbage_bytes_are_an_invalid_image() {
    let junk: Vec<u8> = vec![1, 2, 3, 4, 5];
    assert!(matches!(
        prepare_image(&junk, false, false, None),
        Err(ApiError::InvalidImageFile)
    ));
}

#[test]
fn decoded_images_are_scaled_to_the_head_proportionally() {
    // 10 wide, 20 tall: the height doubles 35.2-fold to 704, so the width
    // lands on round(10 * 704 / 20) = 352.
    let bytes = png_bytes(10, 20);
    let c = prepare_image(&bytes, false, false, None).unwrap();
    assert_eq!(c.height, PIN_COUNT);
    assert_eq!(c.width, 352);
    assert_eq!(c.pixels.len(), (352 * PIN_COUNT) as usize);
}

#[test]
fn rotation_happens_before_the_resize() {
    // Rotated a quarter turn, the same image is 20 wide and 10 tall, so the
    // width lands on round(20 * 704 / 10) = 1408.
    let bytes = png_bytes(10, 20);
    let c = prepare_image(&bytes, true, false, None).unwrap();
    assert_eq!(c.height, PIN_COUNT);
    assert_eq!(c.width, 1408);
}

#[test]
fn exact_fit_mode_forces_the_width() {
    let bytes = png_bytes(10, 20);
    let c = prepare_image(&bytes, false, false, Some(500)).unwrap();
    assert_eq!(c.height, PIN_COUNT);
    assert_eq!(c.width, 500);
}

#[test]
fn dithering_binarises_every_pixel() {
    let bytes = png_bytes(16, 16);
    let plain = prepare_image(&bytes, false, false, None).unwrap();
    assert!(plain.pixels.iter().any(|&p| p != 0 && p != 255));
    let dithered = prepare_image(&bytes, false, true, None).unwrap();
    assert_eq!(dithered.height, PIN_COUNT);
    assert!(dithered.pixels.iter().all(|&p| p == 0 || p == 255));
}

#[test]
fn a_zero_exact_fit_is_refused() {
    let bytes = png_bytes(10, 20);
    assert!(matches!(
        prepare_image(&bytes, false, false, Some(0)),
        Err(ApiError::InvalidImageFile)
    ));
}
