use raytracer::{pixel_order, PpmImage};

fn text(width: usize, height: usize, pixels: Vec<(u8, u8, u8)>) -> String {
    String::from_utf8(PpmImage::new(width, height, pixels).to_bytes()).unwrap()
}

#[test]
fn ppm_single_pixel() {
    assert_eq!(text(1, 1, vec![(1, 2, 3)]), "P3\n1 1\n255\n1 2 3 \n");
}

#[test]
fn ppm_digits_and_extremes() {
    assert_eq!(
        text(2, 1, vec![(0, 10, 255), (100, 9, 99)]),
        "P3\n2 1\n255\n0 10 255 100 9 99 \n"
    );
}

#[test]
fn ppm_wide_header() {
    let pixels = vec![(7, 7, 7); 1200 * 2];
    let out = text(1200, 2, pixels);
    assert!(out.starts_with("P3\n1200 2\n255\n7 7 7 "));
    assert!(out.ends_with("\n"));
}

#[test]
fn ppm_line_break_after_seven_pixels() {
    let pixels: Vec<(u8, u8, u8)> = (0..9u8).map(|i| (i, i, i)).collect();
    assert_eq!(
        text(9, 1, pixels),
        "P3\n9 1\n255\n0 0 0 1 1 1 2 2 2 3 3 3 4 4 4 5 5 5 6 6 6\n7 7 7 8 8 8 \n"
    );
}

#[test]
fn ppm_empty_image() {
    assert_eq!(text(0, 0, vec![]), "P3\n0 0\n255\n\n");
}

#[test]
fn pixel_order_two_by_two() {
    assert_eq!(pixel_order(2, 2), vec![(0, 1), (1, 1), (0, 0), (1, 0)]);
}

#[test]
fn pixel_order_three_by_two() {
    assert_eq!(
        pixel_order(3, 2),
        vec![(0, 1), (1, 1), (2, 1), (0, 0), (1, 0), (2, 0)]
    );
}

#[test]
fn pixel_order_empty() {
    assert!(pixel_order(0, 5).is_empty());
    assert!(pixel_order(5, 0).is_empty());
}
