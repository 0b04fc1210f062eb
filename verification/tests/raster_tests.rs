use labeld::canvas::{Canvas, PIN_COUNT};
use labeld::raster::{rasterise_image, RasterError, LINE_BYTES};

fn solid(width: u32, height: u32, luma: u8) -> Canvas {
    Canvas::from_raw(width, height, vec![luma; (width * height) as usize]).unwrap()
}

#[test]
fn wrong_height_always_fails() {
    for h in [0u32, 1, 100, 703, 705, 1408] {
        let c = solid(3, h, 0);
        assert!(matches!(rasterise_image(&c), Err(RasterError::WrongHeight)));
    }
}

#[test]
fn exact_height_yields_one_line_per_column_with_zero_margins() {
    let c = solid(5, PIN_COUNT, 0x40);
    let lines = rasterise_image(&c).unwrap();
    assert_eq!(lines.len(), 5);
    for line in &lines {
        assert_eq!(line.len(), LINE_BYTES);
        assert_eq!(line[0], 0);
        assert_eq!(line[LINE_BYTES - 1], 0);
    }
}

#[test]
fn top_half_black_bottom_half_white_fixture() {
    // One column, 704 rows: rows 0..352 black (marks), rows 352..704 white.
    let mut pixels: Vec<u8> = Vec::new();
    for y in 0..PIN_COUNT {
        pixels.push(if y < 352 { 0x00 } else { 0xFF });
    }
    let c = Canvas::from_raw(1, PIN_COUNT, pixels).unwrap();
    let lines = rasterise_image(&c).unwrap();
    assert_eq!(lines.len(), 1);
    let mut expected: Vec<u8> = vec![0u8];
    expected.extend(std::iter::repeat(0xFFu8).take(44));
    expected.extend(std::iter::repeat(0x00u8).take(45));
    assert_eq!(lines[0], expected);
}

#[test]
fn threshold_is_mid_luma() {
    // 127 is at the midpoint and prints; 128 is above it and does not.
    let dark = solid(1, PIN_COUNT, 127);
    let lines = rasterise_image(&dark).unwrap();
    assert!(lines[0][1..=88].iter().all(|&b| b == 0xFF));

    let light = solid(1, PIN_COUNT, 128);
    let lines = rasterise_image(&light).unwrap();
    assert!(lines[0].iter().all(|&b| b == 0x00));
}

#[test]
fn earliest_row_lands_in_highest_bit() {
    // Only the very first row marks: the first data byte must be 0x80.
    let mut pixels: Vec<u8> = vec![0xFF; PIN_COUNT as usize];
    pixels[0] = 0x00;
    let c = Canvas::from_raw(1, PIN_COUNT, pixels).unwrap();
    let lines = rasterise_image(&c).unwrap();
    assert_eq!(lines[0][1], 0x80);
    assert!(lines[0][2..].iter().all(|&b| b == 0));
}

#[test]
fn column_order_is_preserved() {
    // Column 0 all white, column 1 all black.
    let mut pixels: Vec<u8> = Vec::new();
    for _y in 0..PIN_COUNT {
        pixels.push(0xFF);
        pixels.push(0x00);
    }
    let c = Canvas::from_raw(2, PIN_COUNT, pixels).unwrap();
    let lines = rasterise_image(&c).unwrap();
    assert!(lines[0].iter().all(|&b| b == 0));
    assert!(lines[1][1..=88].iter().all(|&b| b == 0xFF));
}

#[test]
fn encoding_twice_is_byte_identical() {
    let mut pixels: Vec<u8> = Vec::new();
    for y in 0..PIN_COUNT {
        pixels.push((y % 251) as u8);
    }
    let c = Canvas::from_raw(1, PIN_COUNT, pixels).unwrap();
    let first = rasterise_image(&c).unwrap();
    let second = rasterise_image(&c).unwrap();
    assert_eq!(first, second);
}
