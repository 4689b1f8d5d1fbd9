use image::{DynamicImage, Rgba, RgbaImage};

use sentinel::screenshot::Frame;
use sentinel::visual::{hash_distance, hash_levels, levels_hash_distance, mean_hash, perceptual_hash_distance, pixel_diff};

fn frame_of(img: DynamicImage) -> Frame {
    let buf = img.to_rgba8();
    Frame::new(buf.width(), buf.height(), buf.into_raw()).unwrap()
}

fn solid_image(width: u32, height: u32, r: u8, g: u8, b: u8) -> Frame {
    let img = RgbaImage::from_fn(width, height, |_x, _y| Rgba([r, g, b, 255]));
    frame_of(DynamicImage::ImageRgba8(img))
}

#[allow(clippy::too_many_arguments)]
fn split_image(width: u32, height: u32, r1: u8, g1: u8, b1: u8, r2: u8, g2: u8, b2: u8) -> Frame {
    let half = width / 2;
    let img = RgbaImage::from_fn(width, height, |x, _y| {
        if x < half {
            Rgba([r1, g1, b1, 255])
        } else {
            Rgba([r2, g2, b2, 255])
        }
    });
    frame_of(DynamicImage::ImageRgba8(img))
}

#[test]
fn mean_hash_is_consistent() {
    let img = solid_image(64, 64, 128, 128, 128);
    let hash1 = mean_hash(&img);
    let hash2 = mean_hash(&img);
    assert_eq!(hash1, hash2);
}

#[test]
fn mean_hash_differs_for_different_images() {
    let dark_gradient = split_image(64, 64, 0, 0, 0, 100, 100, 100);
    let bright_gradient = split_image(64, 64, 150, 150, 150, 255, 255, 255);
    let hash_a = mean_hash(&dark_gradient);
    let hash_b = mean_hash(&bright_gradient);
    assert_ne!(hash_a, [0u8; 32], "dark gradient hash should not be all zero");
    assert_ne!(hash_b, [0u8; 32], "bright gradient hash should not be all zero");
}

#[test]
fn perceptual_hash_distance_zero_for_same() {
    let img = solid_image(64, 64, 50, 100, 150);
    assert_eq!(perceptual_hash_distance(&img, &img), 0);
}

#[test]
fn perceptual_hash_distance_positive_for_different() {
    let a = split_image(64, 64, 0, 0, 0, 200, 200, 200);
    let b = split_image(64, 64, 200, 200, 200, 0, 0, 0);
    assert!(perceptual_hash_distance(&a, &b) > 0);
}

#[test]
fn pixel_diff_zero_for_identical() {
    let img = solid_image(32, 32, 100, 100, 100);
    let (changed, mask) = pixel_diff(&img, &img, 30);
    let mismatch = changed as f64 / mask.len() as f64;
    assert_eq!(mismatch, 0.0);
    assert!(mask.iter().all(|&v| !v));
}

#[test]
fn pixel_diff_detects_threshold() {
    let a = solid_image(32, 32, 100, 100, 100);
    let b = solid_image(32, 32, 110, 100, 100);

    let (changed, mask) = pixel_diff(&a, &b, 30);
    let mismatch = changed as f64 / mask.len() as f64;
    assert_eq!(mismatch, 0.0);

    let (changed2, mask2) = pixel_diff(&a, &b, 5);
    let mismatch2 = changed2 as f64 / mask2.len() as f64;
    assert!(mismatch2 > 0.0);
}

#[test]
fn hash_of_levels_marks_levels_above_mean() {
    let mut levels = vec![10u8; 256];
    levels[0] = 200;
    levels[9] = 200;
    levels[255] = 200;
    let h = hash_levels(&levels);
    let mut expected = [0u8; 32];
    expected[0] = 0b1000_0000;
    expected[1] = 0b0100_0000;
    expected[31] = 0b0000_0001;
    assert_eq!(h, expected);
}

#[test]
fn flat_levels_hash_to_zero() {
    assert_eq!(hash_levels(&vec![77u8; 256]), [0u8; 32]);
}

#[test]
fn hash_distance_counts_differing_bits() {
    let a = [0u8; 32];
    let mut b = [0u8; 32];
    b[0] = 0b1010_0000;
    b[31] = 0xff;
    assert_eq!(hash_distance(&a, &b), 10);
    assert_eq!(hash_distance(&b, &a), 10);
    assert_eq!(hash_distance(&b, &b), 0);
}

#[test]
fn pixel_diff_covers_common_area_and_counts() {
    let small = split_image(4, 2, 0, 0, 0, 255, 255, 255);
    let large = solid_image(8, 3, 0, 0, 0);
    let (changed, mask) = pixel_diff(&small, &large, 30);
    assert_eq!(mask, vec![false, false, true, true, false, false, true, true]);
    assert_eq!(changed, 4);
}

#[test]
fn frame_needs_four_bytes_per_pixel() {
    assert!(Frame::new(2, 2, vec![0u8; 15]).is_none());
    let f = Frame::new(2, 2, vec![7u8; 16]).unwrap();
    assert_eq!((f.width(), f.height(), f.rgba().len()), (2, 2, 16));
}

#[test]
fn hash_distance_of_frames_sees_which_frame() {
    let a = split_image(64, 64, 0, 0, 0, 200, 200, 200);
    let b = split_image(64, 64, 200, 200, 200, 0, 0, 0);
    assert_eq!(perceptual_hash_distance(&a, &a), 0);
    assert!(perceptual_hash_distance(&a, &b) > 128);
}

#[test]
fn levels_hash_distance_counts_levels_on_opposite_sides() {
    let la: Vec<u8> = (0..=255u8).collect();
    let lb: Vec<u8> = (0..=255u8).rev().collect();
    assert_eq!(levels_hash_distance(&la, &la), 0);
    assert_eq!(levels_hash_distance(&la, &lb), 256);
}
