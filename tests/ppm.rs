use raytracer::ppm::{encode_ppm, write_ppm_color, write_ppm_header, Rgb8};

fn text(bytes: &[u8]) -> String {
    String::from_utf8(bytes.to_vec()).unwrap()
}

/// Gamma-2 correction, clamp to `[0, 0.999]`, scale by 256.
fn quantize(channel: f32, spp: u32) -> u8 {
    let c = (channel / spp as f32).sqrt();
    (256.0 * c.clamp(0.0, 0.999)) as u8
}

#[test]
fn header_small_image() {
    let mut out = Vec::new();
    write_ppm_header(&mut out, 2, 1);
    assert_eq!(text(&out), "P3\n2 1\n255\n");
}

#[test]
fn header_default_image() {
    let mut out = Vec::new();
    write_ppm_header(&mut out, 400, 225);
    assert_eq!(text(&out), "P3\n400 225\n255\n");
}

#[test]
fn header_zero_and_large_sizes() {
    let mut out = Vec::new();
    write_ppm_header(&mut out, 0, 10000);
    assert_eq!(text(&out), "P3\n0 10000\n255\n");
}

#[test]
fn header_appends_to_existing_bytes() {
    let mut out = b"xy".to_vec();
    write_ppm_header(&mut out, 7, 90);
    assert_eq!(text(&out), "xyP3\n7 90\n255\n");
}

#[test]
fn color_line_digits() {
    let mut out = Vec::new();
    write_ppm_color(&mut out, Rgb8 { r: 255, g: 0, b: 17 });
    assert_eq!(text(&out), "255 0 17\n");
}

#[test]
fn color_line_black_and_white() {
    let mut out = Vec::new();
    write_ppm_color(&mut out, Rgb8 { r: 0, g: 0, b: 0 });
    write_ppm_color(&mut out, Rgb8 { r: 255, g: 255, b: 255 });
    assert_eq!(text(&out), "0 0 0\n255 255 255\n");
}

#[test]
fn encode_rejects_wrong_pixel_count() {
    let px = vec![Rgb8 { r: 1, g: 2, b: 3 }; 3];
    assert_eq!(encode_ppm(2, 1, &px), None);
    assert_eq!(encode_ppm(2, 2, &px), None);
    assert_eq!(encode_ppm(usize::MAX, 2, &px), None);
}

#[test]
fn encode_empty_image() {
    let bytes = encode_ppm(0, 5, &Vec::new()).unwrap();
    assert_eq!(text(&bytes), "P3\n0 5\n255\n");
}

#[test]
fn encode_keeps_pixel_order() {
    let px = vec![
        Rgb8 { r: 1, g: 2, b: 3 },
        Rgb8 { r: 40, g: 50, b: 60 },
        Rgb8 { r: 200, g: 100, b: 0 },
        Rgb8 { r: 9, g: 99, b: 255 },
    ];
    let bytes = encode_ppm(2, 2, &px).unwrap();
    assert_eq!(text(&bytes), "P3\n2 2\n255\n1 2 3\n40 50 60\n200 100 0\n9 99 255\n");
}

/// Two pixels of empty sky seen by the pinhole camera at mid height: the
/// view direction is horizontal, so the gradient parameter is one half.
#[test]
fn empty_scene_two_pixel_image() {
    let t = 0.5f32 * (0.0 + 1.0);
    let sky = [
        (1.0 - t) * 1.0 + t * 0.5,
        (1.0 - t) * 1.0 + t * 0.7,
        (1.0 - t) * 1.0 + t * 1.0,
    ];
    let pixel = Rgb8 {
        r: quantize(sky[0], 1),
        g: quantize(sky[1], 1),
        b: quantize(sky[2], 1),
    };
    assert_eq!(pixel, Rgb8 { r: 221, g: 236, b: 255 });
    let bytes = encode_ppm(2, 1, &vec![pixel, pixel]).unwrap();
    assert_eq!(text(&bytes), "P3\n2 1\n255\n221 236 255\n221 236 255\n");
    assert_eq!(text(&bytes).lines().count(), 5);
}
