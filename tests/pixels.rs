use truthdb_installer::pixels::PixelBuffer;

fn frame(bpp: u32) -> PixelBuffer {
    let bytes = bpp / 8;
    PixelBuffer { width: 4, height: 2, bits_per_pixel: bpp, line_length: 4 * bytes, buffer: vec![0u8; (8 * bytes) as usize] }
}

#[test]
fn pixel_32bpp_is_bgra() {
    let mut p = frame(32);
    p.put_pixel(1, 1, 10, 20, 30);
    assert_eq!(&p.buffer[20..24], &[30, 20, 10, 255]);
    assert!(p.buffer[..20].iter().all(|b| *b == 0));
    assert!(p.buffer[24..].iter().all(|b| *b == 0));
}

#[test]
fn pixel_24bpp_is_bgr() {
    let mut p = frame(24);
    p.put_pixel(0, 0, 1, 2, 3);
    assert_eq!(&p.buffer[0..3], &[3, 2, 1]);
    // The last pixel's bytes end the buffer, so its fourth byte would be outside: skipped.
    p.put_pixel(3, 1, 9, 9, 9);
    assert!(p.buffer[21..].iter().all(|b| *b == 0));
}

#[test]
fn pixel_16bpp_is_rgb565() {
    let mut p = frame(16);
    p.put_pixel(1, 0, 0xFF, 0xFF, 0xFF);
    assert_eq!(&p.buffer[2..4], &[0xFF, 0xFF]);
    p.put_pixel(2, 0, 0, 0, 64);
    // blue 64 -> 8 in the low five bits.
    assert_eq!(&p.buffer[4..6], &[0x08, 0x00]);
    p.put_pixel(0, 0, 0, 0x04, 0);
    // green 4 -> 1 in bits 5..10.
    assert_eq!(&p.buffer[0..2], &[0x20, 0x00]);
}

#[test]
fn off_screen_and_unknown_depth_change_nothing() {
    let mut p = frame(32);
    p.put_pixel(4, 0, 1, 1, 1);
    p.put_pixel(0, 2, 1, 1, 1);
    assert!(p.buffer.iter().all(|b| *b == 0));
    let mut q = PixelBuffer { width: 4, height: 2, bits_per_pixel: 8, line_length: 4, buffer: vec![0u8; 8] };
    q.put_pixel(0, 0, 1, 1, 1);
    assert!(q.buffer.iter().all(|b| *b == 0));
}
