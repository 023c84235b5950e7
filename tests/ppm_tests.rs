use raytracer::image::{Image, Rgb8};
use raytracer::ppm::{encode, push_decimal, push_header, write_color};

fn text(bytes: &[u8]) -> String {
    String::from_utf8(bytes.to_vec()).unwrap()
}

#[test]
fn decimal_digits() {
    for (n, s) in [(0u32, "0"), (7, "7"), (10, "10"), (255, "255"), (1200, "1200"), (u32::MAX, "4294967295")] {
        let mut out = Vec::new();
        push_decimal(&mut out, n);
        assert_eq!(text(&out), s);
    }
}

#[test]
fn decimal_appends() {
    let mut out = b"x".to_vec();
    push_decimal(&mut out, 42);
    assert_eq!(text(&out), "x42");
}

#[test]
fn header_lines() {
    let mut out = Vec::new();
    push_header(&mut out, 1200, 675);
    assert_eq!(text(&out), "P3\n1200 675\n255\n");
}

#[test]
fn pixel_line() {
    let mut out = Vec::new();
    write_color(&mut out, Rgb8::new(255, 0, 17));
    assert_eq!(text(&out), "255 0 17\n");
}

#[test]
fn encode_row_major() {
    let mut img = Image::new(2, 2);
    img.set(0, 0, Rgb8::new(1, 2, 3));
    img.set(1, 0, Rgb8::new(4, 5, 6));
    img.set(0, 1, Rgb8::new(7, 8, 9));
    img.set(1, 1, Rgb8::new(10, 11, 12));
    assert_eq!(
        text(&encode(&img)),
        "P3\n2 2\n255\n1 2 3\n4 5 6\n7 8 9\n10 11 12\n"
    );
}

#[test]
fn encode_empty_image() {
    let img = Image::new(0, 0);
    assert_eq!(text(&encode(&img)), "P3\n0 0\n255\n");
}

#[test]
fn encode_is_deterministic() {
    let mut a = Image::new(3, 1);
    let mut b = Image::new(3, 1);
    for i in 0..3u32 {
        a.set(i, 0, Rgb8::new(i as u8, 100, 200));
        b.set(i, 0, Rgb8::new(i as u8, 100, 200));
    }
    assert_eq!(encode(&a), encode(&b));
    assert_eq!(encode(&a), encode(&a));
}

#[test]
fn one_line_per_pixel() {
    let img = Image::new(5, 4);
    let bytes = encode(&img);
    assert_eq!(bytes.iter().filter(|b| **b == b'\n').count(), 3 + 20);
}
