use thermoprint::commands::{barcode_code128, barcode_ean13, qr_code, raster_image, GS};

#[test]
fn code128_includes_value() {
    let cmd = barcode_code128("ORD-001");
    assert_eq!(cmd[2], 73); // CODE128 type
    assert_eq!(cmd[3], 7); // length
    assert_eq!(&cmd[4..], b"ORD-001");
}

#[test]
fn qr_has_all_subcommands() {
    let cmd = qr_code("https://example.com", 3);
    // Should contain store, size, error-correction, print subcommands
    assert!(cmd.len() > 20);
}

#[test]
fn raster_header_correct() {
    let data = vec![0xFFu8; 4]; // 1 line of 32 pixels
    let cmd = raster_image(4, 1, &data);
    assert_eq!(&cmd[..4], &[GS, b'v', b'0', 0]);
    assert_eq!(cmd[4], 4); // xL
    assert_eq!(cmd[5], 0); // xH
    assert_eq!(cmd[6], 1); // yL
    assert_eq!(cmd[7], 0); // yH
}

#[test]
fn code128_prefix_exact() {
    let cmd = barcode_code128("ORD-001");
    assert_eq!(&cmd[..4], &[0x1D, b'k', 73, 7]);
    assert_eq!(&cmd[4..], b"ORD-001");
}

#[test]
fn qr_exactly_four_subframes() {
    let cmd = qr_code("https://example.com", 3);
    let frames = cmd
        .windows(3)
        .filter(|w| w == &[0x1D, b'(', b'k'])
        .count();
    assert_eq!(frames, 4);
    // the four sub-frames are distinct: store, module size, EC level, print
    assert!(cmd.ends_with(&[0x1D, b'(', b'k', 3, 0, 49, 81, 48]));
}

#[test]
fn ean13_null_terminated() {
    let cmd = barcode_ean13("123456789012");
    assert_eq!(&cmd[..3], &[0x1D, b'k', 2]);
    assert_eq!(&cmd[3..15], b"123456789012");
    assert_eq!(cmd[15], 0);
}
