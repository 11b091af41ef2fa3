use thermoprint::dither::{dither_rgba, floyd_steinberg_rgba, threshold_rgba, DitherMethod};

#[test]
fn solid_black_4x1() {
    let rgba = vec![0u8, 0, 0, 255, 0, 0, 0, 255, 0, 0, 0, 255, 0, 0, 0, 255];
    let result = dither_rgba(&rgba, 4, 1, 384, DitherMethod::Threshold);
    // 8-byte header + 1 byte data (4 pixels padded to 8 bits)
    assert_eq!(result.len(), 9);
    // First 4 bits should be set (0xF0)
    assert_eq!(result[8], 0xF0);
}

#[test]
fn solid_white_4x1() {
    let rgba = vec![
        255u8, 255, 255, 255, 255, 255, 255, 255, 255, 255, 255, 255, 255, 255, 255, 255,
    ];
    let result = dither_rgba(&rgba, 4, 1, 384, DitherMethod::Threshold);
    assert_eq!(result[8], 0x00);
}

#[test]
fn floyd_steinberg_produces_output() {
    // 8x2 mid-gray image
    let rgba: Vec<u8> = (0..8 * 2).flat_map(|_| vec![128u8, 128, 128, 255]).collect();
    let result = dither_rgba(&rgba, 8, 2, 384, DitherMethod::FloydSteinberg);
    assert!(!result.is_empty());
    // Should have header + 2 rows of 1 byte each
    assert_eq!(result.len(), 8 + 2);
}

#[test]
fn transparent_pixels_become_white() {
    // Fully transparent pixel becomes white (not printed)
    let rgba = vec![0u8, 0, 0, 0, 0, 0, 0, 0, 0, 0, 0, 0, 0, 0, 0, 0];
    let result = dither_rgba(&rgba, 4, 1, 384, DitherMethod::Threshold);
    assert_eq!(result[8], 0x00);
}

#[test]
fn resize_wider_than_max() {
    // 16x1 image with max_width=8: scaled down
    let rgba: Vec<u8> = (0..16).flat_map(|_| vec![0u8, 0, 0, 255]).collect();
    let result = dither_rgba(&rgba, 16, 1, 8, DitherMethod::Threshold);
    // Header (8 bytes) + 1 row of 1 byte (8 pixels)
    assert_eq!(result.len(), 9);
    assert_eq!(result[8], 0xFF); // all black
}

#[test]
fn convenience_functions() {
    let rgba = vec![0u8, 0, 0, 255, 255, 255, 255, 255];
    let t = threshold_rgba(&rgba, 2, 1, 384);
    let fs = floyd_steinberg_rgba(&rgba, 2, 1, 384);
    assert!(!t.is_empty());
    assert!(!fs.is_empty());
}

#[test]
fn transparent_blank_both_methods() {
    // the blank-image law at runtime: any size, either method
    let rgba = vec![0u8; 6 * 3 * 4];
    for method in [DitherMethod::Threshold, DitherMethod::FloydSteinberg] {
        let result = dither_rgba(&rgba, 6, 3, 384, method);
        assert!(result[8..].iter().all(|&b| b == 0));
    }
}
