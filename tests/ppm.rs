use raytracer::ppm::{encode_image, ppm_header, push_decimal, Rgb};

#[test]
fn pixel_line_of_clamped_color() {
    let p = Rgb { r: 255, g: 181, b: 0 };
    assert_eq!(p.as_bytes(), "255 181 0\n".as_bytes());
}

#[test]
fn pixel_line_single_digits() {
    let p = Rgb { r: 0, g: 9, b: 10 };
    assert_eq!(p.as_bytes(), "0 9 10\n".as_bytes());
}

#[test]
fn decimal_digits() {
    let mut buf: Vec<u8> = b"x".to_vec();
    push_decimal(&mut buf, 0);
    assert_eq!(buf, b"x0".to_vec());
    push_decimal(&mut buf, 4294967295);
    assert_eq!(buf, b"x04294967295".to_vec());
    let mut b2: Vec<u8> = Vec::new();
    push_decimal(&mut b2, 100);
    assert_eq!(b2, b"100".to_vec());
}

#[test]
fn header_text() {
    assert_eq!(ppm_header(400, 225), "P3\n400 225\n255\n".as_bytes());
    assert_eq!(ppm_header(1, 1), "P3\n1 1\n255\n".as_bytes());
}

#[test]
fn image_rows_in_order() {
    let rows = vec![
        vec![Rgb { r: 1, g: 2, b: 3 }, Rgb { r: 4, g: 5, b: 6 }],
        vec![Rgb { r: 7, g: 8, b: 9 }, Rgb { r: 255, g: 0, b: 128 }],
    ];
    let out = encode_image(2, 2, &rows);
    assert_eq!(
        out,
        "P3\n2 2\n255\n1 2 3\n4 5 6\n7 8 9\n255 0 128\n".as_bytes()
    );
}

#[test]
fn image_without_pixels() {
    let rows: Vec<Vec<Rgb>> = Vec::new();
    assert_eq!(encode_image(0, 0, &rows), "P3\n0 0\n255\n".as_bytes());
}
