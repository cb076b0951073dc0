use image2ascii::compose::{combine_and_map_to_ascii, palette_index, select_char, AsciiCharInfo};
use image2ascii::edges::{create_edge_map, dominant_gradients, gradient_magnitude_sq, GradientSample};
use image2ascii::grid::grid_dimensions;
use image2ascii::pipeline::prepare_base_gray_image;
use image2ascii::quantize::{quant_step, quantize_gray_image, quantize_value};
use image2ascii::raster::{GradientBuffer, GrayscaleBuffer};

fn angle_code(sx: i16, sy: i16) -> u8 {
    let angle = (sy as f32).atan2(sx as f32);
    let normalized = (angle / std::f32::consts::PI) * 0.5 + 0.5;
    (normalized * 255.0) as u8
}

#[test]
fn grid_dimensions_formula() {
    assert_eq!(grid_dimensions(16, 16, 8), (2, 1));
    assert_eq!(grid_dimensions(100, 60, 4), (25, 7));
    assert_eq!(grid_dimensions(7, 7, 8), (1, 1));
    assert_eq!(grid_dimensions(0, 0, 1), (1, 1));
    assert_eq!(grid_dimensions(u32::MAX, u32::MAX, 1), (u32::MAX, u32::MAX / 2));
}

#[test]
fn grid_shrinks_as_rate_grows() {
    let mut last = grid_dimensions(640, 480, 1);
    for rate in 2..40 {
        let next = grid_dimensions(640, 480, rate);
        assert!(next.0 <= last.0 && next.1 <= last.1);
        last = next;
    }
}

#[test]
fn quantization_steps() {
    assert_eq!(quant_step(1), 256);
    assert_eq!(quant_step(2), 128);
    assert_eq!(quant_step(5), 51);
    assert_eq!(quant_step(9), 28);
    assert_eq!(quant_step(256), 1);
    assert_eq!(quant_step(1000), 1);
}

#[test]
fn quantize_rounds_down() {
    assert_eq!(quantize_value(128, 9), 112);
    assert_eq!(quantize_value(27, 9), 0);
    assert_eq!(quantize_value(255, 2), 128);
    assert_eq!(quantize_value(255, 1), 0);
    assert_eq!(quantize_value(77, 300), 77);
}

#[test]
fn quantize_is_idempotent() {
    for levels in 1..20usize {
        for v in 0..=255u8 {
            let q = quantize_value(v, levels);
            assert_eq!(quantize_value(q, levels), q);
        }
    }
}

#[test]
fn quantize_gray_image_maps_every_pixel() {
    let img = GrayscaleBuffer { width: 2, height: 2, pixels: vec![0, 100, 200, 255] };
    let q = quantize_gray_image(&img, 4);
    assert_eq!((q.width, q.height), (2, 2));
    assert_eq!(q.pixels, vec![0, 64, 192, 192]);
}

#[test]
fn palette_index_is_clamped() {
    assert_eq!(palette_index(255, 4), 3);
    assert_eq!(palette_index(255, 3), 2);
    assert_eq!(palette_index(255, 1), 0);
    assert_eq!(palette_index(0, 5), 0);
}

#[test]
fn single_level_edge_palette_rescue_boundary() {
    let edge = ['E'];
    let gray = ['a', 'b'];
    // one edge level: bucket width 256, rescue only above 128
    assert_eq!(select_char(128, 0, &edge, &gray), 'a');
    assert_eq!(select_char(129, 0, &edge, &gray), 'E');
    assert_eq!(select_char(129, 200, &edge, &gray), 'E');
    assert_eq!(select_char(0, 200, &edge, &gray), 'b');
}

#[test]
fn edge_character_rule_with_many_levels() {
    let edge = [' ', '-', '/', '|', '\\'];
    let gray = ['@', '.'];
    // bucket width 51, half 25
    assert_eq!(select_char(0, 0, &edge, &gray), '@');
    assert_eq!(select_char(25, 0, &edge, &gray), '@');
    assert_eq!(select_char(26, 0, &edge, &gray), ' ');
    assert_eq!(select_char(51, 255, &edge, &gray), '-');
    assert_eq!(select_char(255, 0, &edge, &gray), '\\');
}

#[test]
fn combine_builds_rows() {
    let edge = [' ', '|'];
    let gray = ['#', '.'];
    let edges = [0u8, 128, 0, 0];
    let grays = [0u8, 0, 200, 0];
    let colors = [1u8, 2, 3, 4, 5, 6, 7, 8, 9, 10, 11, 12];
    let lines = combine_and_map_to_ascii(2, 2, &edges, &grays, &colors, &edge, &gray);
    assert_eq!(lines.len(), 2);
    assert_eq!(lines[0][0], AsciiCharInfo { char: '#', r: 1, g: 2, b: 3 });
    assert_eq!(lines[0][1], AsciiCharInfo { char: '|', r: 4, g: 5, b: 6 });
    assert_eq!(lines[1][0], AsciiCharInfo { char: '.', r: 7, g: 8, b: 9 });
    assert_eq!(lines[1][1], AsciiCharInfo { char: '#', r: 10, g: 11, b: 12 });
}

#[test]
fn magnitude_squared() {
    assert_eq!(gradient_magnitude_sq(GradientSample { sx: 3, sy: -4 }), 25);
    assert_eq!(gradient_magnitude_sq(GradientSample { sx: -32768, sy: -32768 }), 2147483648);
}

#[test]
fn pooling_keeps_first_strongest_sample() {
    // 4 x 4 images, rate 2: windows of 2 columns by 4 rows
    let hs = GradientBuffer { width: 4, height: 4, values: vec![0, 3, 0, 0, 0, 0, 1, 0, 4, 0, 0, 0, 0, 0, 0, -1] };
    let vs = GradientBuffer { width: 4, height: 4, values: vec![0, 4, 0, 0, 0, 0, 0, 0, 3, 0, 0, 0, 0, 0, 0, 0] };
    let cells = dominant_gradients(&hs, &vs, 2, 2, 1);
    assert_eq!(cells, vec![GradientSample { sx: 3, sy: 4 }, GradientSample { sx: 1, sy: 0 }]);
    // a window outside the image pools nothing
    let cells = dominant_gradients(&hs, &vs, 2, 3, 2);
    assert_eq!(cells[2], GradientSample { sx: 0, sy: 0 });
    assert_eq!(cells[5], GradientSample { sx: 0, sy: 0 });
}

#[test]
fn edge_map_of_boundary_and_flat_regions() {
    // 16 x 8 gray image with a step at column 4; rate 4 gives 4 x 1 cells
    let mut pixels = Vec::new();
    for _y in 0..8 {
        for x in 0..16 {
            pixels.push(if x < 4 { 0 } else { 255 });
        }
    }
    let gray = GrayscaleBuffer { width: 16, height: 8, pixels };
    let edges = create_edge_map(&gray, 10, 5, 4, 4, 1, &angle_code);
    assert_eq!(edges, vec![102, 102, 0, 0]);
    let none = create_edge_map(&gray, 2000, 5, 4, 4, 1, &angle_code);
    assert_eq!(none, vec![0, 0, 0, 0]);
}

#[test]
fn zero_threshold_on_flat_image_uses_zero_gradient_angle() {
    let gray = GrayscaleBuffer { width: 4, height: 4, pixels: vec![7; 16] };
    let edges = create_edge_map(&gray, 0, 5, 2, 2, 1, &angle_code);
    assert_eq!(edges, vec![102, 102]);
}

#[test]
fn base_gray_image_is_resampled_then_quantized() {
    let gray = GrayscaleBuffer { width: 2, height: 2, pixels: vec![0, 255, 255, 0] };
    let same = prepare_base_gray_image(&gray, 2, 2, 2);
    assert_eq!(same.pixels, vec![0, 128, 128, 0]);
    let small = prepare_base_gray_image(&gray, 1, 1, 256);
    assert_eq!((small.width, small.height), (1, 1));
    assert!(small.pixels[0] > 0 && small.pixels[0] < 255);
}
