use pgs_tonemap::buffer::{
    pixels_from_rgba, pixels_to_rgba, reference_brightness, tonemap_pixels, tonemap_rgba,
};
use pgs_tonemap::config::parse_percentage;
use pgs_tonemap::pixel::{lightness, Rgba};
use pgs_tonemap::tonemap::{transform_pixel, Color, Policy, Ratio};

fn px(r: u8, g: u8, b: u8, a: u8) -> Rgba {
    Rgba { r, g, b, a }
}

fn ratio(p: &str) -> Ratio {
    parse_percentage(p).unwrap()
}

#[test]
fn lightness_is_max_plus_min() {
    assert_eq!(lightness(px(200, 100, 50, 255)), 250);
    assert_eq!(lightness(px(0, 0, 0, 0)), 0);
    assert_eq!(lightness(px(255, 255, 255, 255)), 510);
}

#[test]
fn proportional_example() {
    let policy = Policy::Proportional { ratio: ratio("60") };
    assert_eq!(transform_pixel(px(200, 100, 50, 255), &policy, 0), px(120, 60, 30, 255));
}

#[test]
fn proportional_rounds_half_up() {
    let policy = Policy::Proportional { ratio: ratio("50") };
    assert_eq!(transform_pixel(px(5, 3, 4, 10), &policy, 0), px(3, 2, 2, 10));
}

#[test]
fn proportional_zero_percent_blacks_out() {
    let policy = Policy::Proportional { ratio: ratio("0") };
    assert_eq!(transform_pixel(px(200, 100, 50, 7), &policy, 0), px(0, 0, 0, 7));
}

#[test]
fn transparent_pixels_are_untouched() {
    let prop = Policy::Proportional { ratio: ratio("60") };
    let fixed = Policy::Fixed { ratio: ratio("60"), base: Color { r: 255, g: 255, b: 255 } };
    let p = px(200, 100, 50, 0);
    assert_eq!(transform_pixel(p, &prop, 0), p);
    assert_eq!(transform_pixel(p, &fixed, 510), p);
    let mut image = vec![p, px(30, 40, 50, 0), px(200, 200, 200, 255)];
    tonemap_pixels(&mut image, &fixed);
    assert_eq!(image[0], p);
    assert_eq!(image[1], px(30, 40, 50, 0));
}

#[test]
fn noise_floor_pixels_are_untouched() {
    let policy = Policy::Proportional { ratio: ratio("60") };
    assert_eq!(transform_pixel(px(1, 200, 200, 255), &policy, 0), px(1, 200, 200, 255));
    assert_eq!(transform_pixel(px(200, 0, 200, 255), &policy, 0), px(200, 0, 200, 255));
}

#[test]
fn fixed_brightest_pixel_gets_ratio_of_base() {
    let policy = Policy::Fixed { ratio: ratio("60"), base: Color { r: 255, g: 255, b: 255 } };
    let mut image = vec![px(255, 255, 255, 255), px(128, 128, 128, 255)];
    tonemap_pixels(&mut image, &policy);
    assert_eq!(image[0], px(153, 153, 153, 255));
    // 255 * (256/510) * 0.6 = 76.8
    assert_eq!(image[1], px(77, 77, 77, 255));
}

#[test]
fn fixed_never_exceeds_base() {
    let base = Color { r: 255, g: 136, b: 0 };
    let policy = Policy::Fixed { ratio: ratio("100"), base };
    let mut image = vec![
        px(250, 250, 250, 255),
        px(100, 20, 60, 128),
        px(2, 2, 2, 1),
        px(255, 255, 255, 0),
    ];
    tonemap_pixels(&mut image, &policy);
    for p in &image[..3] {
        assert!(p.r <= base.r && p.g <= base.g && p.b <= base.b);
    }
    // The transparent pixel anchors the reference but stays as it is.
    assert_eq!(image[3], px(255, 255, 255, 0));
    // 255 * 500/510 = 250
    assert_eq!(image[0], px(250, 133, 0, 255));
}

#[test]
fn fixed_reference_uses_transparent_pixels_too() {
    let policy = Policy::Fixed { ratio: ratio("100"), base: Color { r: 255, g: 255, b: 255 } };
    let mut image = vec![px(255, 255, 255, 0), px(100, 100, 100, 255)];
    tonemap_pixels(&mut image, &policy);
    assert_eq!(image[1], px(100, 100, 100, 255));
}

#[test]
fn black_image_has_zero_reference() {
    let image = vec![px(0, 0, 0, 255), px(0, 0, 0, 0), px(0, 0, 0, 17)];
    assert_eq!(reference_brightness(&image), 0);
    let policy = Policy::Fixed { ratio: ratio("60"), base: Color { r: 255, g: 136, b: 0 } };
    let mut out = image.clone();
    tonemap_pixels(&mut out, &policy);
    assert_eq!(out, image);
}

#[test]
fn zero_reference_leaves_pixel_unchanged() {
    let policy = Policy::Fixed { ratio: ratio("60"), base: Color { r: 255, g: 255, b: 255 } };
    assert_eq!(transform_pixel(px(90, 90, 90, 255), &policy, 0), px(90, 90, 90, 255));
}

#[test]
fn reference_is_max_lightness() {
    let image = vec![px(10, 20, 30, 255), px(200, 100, 50, 0), px(60, 60, 60, 255)];
    assert_eq!(reference_brightness(&image), 250);
    assert_eq!(reference_brightness(&Vec::new()), 0);
}

#[test]
fn tonemap_is_not_idempotent() {
    let policy = Policy::Proportional { ratio: ratio("60") };
    let mut once = vec![px(200, 100, 50, 255)];
    tonemap_pixels(&mut once, &policy);
    let mut twice = once.clone();
    tonemap_pixels(&mut twice, &policy);
    assert_eq!(once[0], px(120, 60, 30, 255));
    assert_eq!(twice[0], px(72, 36, 18, 255));
    assert_ne!(once, twice);
}

#[test]
fn rgba_bytes_round_trip() {
    let bytes: Vec<u8> = vec![1, 2, 3, 4, 200, 100, 50, 255];
    let pixels = pixels_from_rgba(&bytes);
    assert_eq!(pixels, vec![px(1, 2, 3, 4), px(200, 100, 50, 255)]);
    assert_eq!(pixels_to_rgba(&pixels), bytes);
}

#[test]
fn tonemap_rgba_bytes() {
    let policy = Policy::Proportional { ratio: ratio("60") };
    let mut bytes: Vec<u8> = vec![200, 100, 50, 255, 200, 100, 50, 0];
    tonemap_rgba(&mut bytes, &policy);
    assert_eq!(bytes, vec![120, 60, 30, 255, 200, 100, 50, 0]);
}
