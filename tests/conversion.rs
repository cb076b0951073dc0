use image2ascii::compose::AsciiCharInfo;
use image2ascii::pipeline::{image_to_ascii_art, AsciiArtOutput, ConvertError};
use image2ascii::raster::SourceImage;

const EDGE: &str = " -/|\\";
const GRAY: &str = "@?OPoc:. ";

fn angle_code(sx: i16, sy: i16) -> u8 {
    let angle = (sy as f32).atan2(sx as f32);
    let normalized = (angle / std::f32::consts::PI) * 0.5 + 0.5;
    (normalized * 255.0) as u8
}

fn chars(s: &str) -> Vec<char> {
    s.chars().collect()
}

fn uniform(width: u32, height: u32, rgb: [u8; 3]) -> SourceImage {
    let mut pixels = Vec::new();
    for _ in 0..(width * height) {
        pixels.extend_from_slice(&rgb);
    }
    SourceImage::from_rgb(width, height, pixels).unwrap()
}

fn vertical_boundary(width: u32, height: u32, column: u32) -> SourceImage {
    let mut pixels = Vec::new();
    for _y in 0..height {
        for x in 0..width {
            let v = if x < column { 0 } else { 255 };
            pixels.extend_from_slice(&[v, v, v]);
        }
    }
    SourceImage::from_rgb(width, height, pixels).unwrap()
}

fn convert(img: &SourceImage, rate: u32, threshold: u32, edge: &str, gray: &str) -> Result<AsciiArtOutput, ConvertError> {
    image_to_ascii_art(img, rate, threshold, &chars(edge), &chars(gray), &angle_code)
}

#[test]
fn uniform_gray_unreachable_threshold() {
    let img = uniform(16, 16, [128, 128, 128]);
    let out = convert(&img, 8, 100000, EDGE, GRAY).unwrap();
    assert_eq!((out.width, out.height), (2, 1));
    assert_eq!(out.lines.len(), 1);
    assert_eq!(out.lines[0].len(), 2);
    // luma 128, 9 levels: bucket width 28, 128 -> 112 -> index 4
    let expected = AsciiCharInfo { char: 'o', r: 128, g: 128, b: 128 };
    assert_eq!(out.lines[0][0], expected);
    assert_eq!(out.lines[0][1], expected);
    assert!(!EDGE.contains(out.lines[0][0].char));
}

#[test]
fn vertical_boundary_selects_edges() {
    let img = vertical_boundary(16, 16, 8);
    let out = convert(&img, 8, 1, EDGE, GRAY).unwrap();
    assert_eq!((out.width, out.height), (2, 1));
    // the strongest gradient points along x: angle 0, code 127, 5 levels
    // (bucket width 51) -> 102 -> index 2
    assert_eq!(out.lines[0][0].char, '/');
    assert_eq!(out.lines[0][1].char, '/');
}

#[test]
fn low_contrast_image_uses_gray_palette_only() {
    let img = uniform(32, 32, [10, 200, 90]);
    let out = convert(&img, 4, 1, "#-/|\\", GRAY).unwrap();
    assert_eq!((out.width, out.height), (8, 4));
    for line in &out.lines {
        for cell in line {
            assert!(GRAY.contains(cell.char));
            assert!(!"#-/|\\".contains(cell.char));
        }
    }
}

#[test]
fn zero_rate_is_rejected() {
    let img = uniform(16, 16, [1, 2, 3]);
    assert_eq!(convert(&img, 0, 50, EDGE, GRAY).err(), Some(ConvertError::InvalidDownsampleRate));
}

#[test]
fn empty_gray_palette_is_rejected() {
    let img = uniform(16, 16, [1, 2, 3]);
    assert_eq!(convert(&img, 8, 50, EDGE, "").err(), Some(ConvertError::EmptyPalette));
}

#[test]
fn empty_edge_palette_is_rejected() {
    let img = uniform(16, 16, [1, 2, 3]);
    assert_eq!(convert(&img, 8, 50, "", GRAY).err(), Some(ConvertError::EmptyPalette));
}

#[test]
fn zero_rate_wins_over_empty_palette() {
    let img = uniform(4, 4, [1, 2, 3]);
    assert_eq!(convert(&img, 0, 50, "", "").err(), Some(ConvertError::InvalidDownsampleRate));
}

#[test]
fn small_image_gives_one_cell() {
    let img = uniform(3, 5, [255, 0, 0]);
    let out = convert(&img, 8, 50, EDGE, GRAY).unwrap();
    assert_eq!((out.width, out.height), (1, 1));
    // luma of pure red: 2126 * 255 / 10000 = 54; bucket 28 -> index 1
    assert_eq!(out.lines[0][0], AsciiCharInfo { char: '?', r: 255, g: 0, b: 0 });
}

#[test]
fn color_is_resampled_not_copied() {
    // left half black, right half white: each cell's color lies between
    let img = vertical_boundary(16, 32, 8);
    let out = convert(&img, 16, 100000, EDGE, GRAY).unwrap();
    assert_eq!((out.width, out.height), (1, 1));
    let c = out.lines[0][0];
    assert!(c.r > 0 && c.r < 255);
    assert_eq!(c.r, c.g);
    assert_eq!(c.g, c.b);
}

#[test]
fn wrong_pixel_count_is_refused() {
    assert!(SourceImage::from_rgb(2, 2, vec![0; 11]).is_none());
    assert!(SourceImage::from_rgb(2, 2, vec![0; 12]).is_some());
}

#[test]
fn error_messages() {
    assert_eq!(ConvertError::InvalidDownsampleRate.message(), "downsample_rate must be positive.");
    assert_eq!(ConvertError::EmptyPalette.message(), "ASCII character palettes cannot be empty.");
}
