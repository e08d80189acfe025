use raytrace::ppm::{channel_byte, header, write_color};

#[test]
fn header_text() {
    assert_eq!(header(1920, 1080), b"P3\n1920 1080\n255\n".to_vec());
    assert_eq!(header(0, 7), b"P3\n0 7\n255\n".to_vec());
}

#[test]
fn channels_clamp() {
    assert_eq!(channel_byte(-3), 0);
    assert_eq!(channel_byte(0), 0);
    assert_eq!(channel_byte(128), 128);
    assert_eq!(channel_byte(255), 255);
    assert_eq!(channel_byte(256), 255);
    assert_eq!(channel_byte(i64::MAX), 255);
}

#[test]
fn color_record() {
    let mut out = b"prefix ".to_vec();
    write_color(&mut out, 256, -1, 9);
    assert_eq!(out, b"prefix 255 0 9\n".to_vec());
}

#[test]
fn color_record_quantizes_like_clamped_scale() {
    // A channel of 0.5 scaled by 256 gives 128; one of 0.9995 gives 255.
    let mut out = Vec::new();
    write_color(&mut out, (256.0f32 * 0.5) as i64, (256.0f32 * 0.9995) as i64, (256.0f32 * 0.1) as i64);
    assert_eq!(out, b"128 255 25\n".to_vec());
}
