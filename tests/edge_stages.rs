use image2ascii::edges::create_edge_map;
use image2ascii::quantize::quantize_value;
use image2ascii::raster::GrayscaleBuffer;

fn angle_code(sx: i16, sy: i16) -> u8 {
    let angle = (sy as f32).atan2(sx as f32);
    let normalized = (angle / std::f32::consts::PI) * 0.5 + 0.5;
    (normalized * 255.0) as u8
}

/// Levels of every pixel, pooled over blocks by strongest magnitude, then
/// resized with nearest neighbour to the grid.
fn staged_edge_map(gray: &image::GrayImage, threshold: u32, levels: usize, rate: u32, gw: u32, gh: u32) -> Vec<u8> {
    let (w, h) = gray.dimensions();
    let hs = imageproc::gradients::horizontal_sobel(gray);
    let vs = imageproc::gradients::vertical_sobel(gray);
    let mag = |x: u32, y: u32| {
        let sx = hs.get_pixel(x, y)[0] as i64;
        let sy = vs.get_pixel(x, y)[0] as i64;
        sx * sx + sy * sy
    };
    let level = |x: u32, y: u32| {
        if mag(x, y) < (threshold as i64) * (threshold as i64) {
            0
        } else {
            quantize_value(angle_code(hs.get_pixel(x, y)[0], vs.get_pixel(x, y)[0]), levels)
        }
    };
    let (pw, ph) = (w / rate, h / (2 * rate));
    let mut pooled = vec![0u8; (pw * ph) as usize];
    for by in 0..ph {
        for bx in 0..pw {
            let mut best: Option<(u32, u32)> = None;
            for y in by * 2 * rate..(by + 1) * 2 * rate {
                for x in bx * rate..(bx + 1) * rate {
                    best = match best {
                        Some((bx0, by0)) if mag(x, y) <= mag(bx0, by0) => Some((bx0, by0)),
                        _ => Some((x, y)),
                    };
                }
            }
            let (x, y) = best.unwrap();
            pooled[(by * pw + bx) as usize] = level(x, y);
        }
    }
    let mut out = Vec::new();
    for y in 0..gh {
        for x in 0..gw {
            out.push(pooled[((y * ph / gh) * pw + x * pw / gw) as usize]);
        }
    }
    out
}

#[test]
fn single_pass_matches_staged_edge_map() {
    let (w, h) = (24u32, 36u32);
    let mut pixels = Vec::new();
    for y in 0..h {
        for x in 0..w {
            pixels.push(((x * 37 + y * 11 + (x * y) % 23) % 256) as u8);
        }
    }
    let img = image::GrayImage::from_raw(w, h, pixels.clone()).unwrap();
    let gray = GrayscaleBuffer { width: w, height: h, pixels };
    for &(threshold, levels, rate) in &[(0u32, 5usize, 3u32), (50, 5, 3), (200, 4, 6), (400, 1, 2), (30, 9, 1)] {
        let gw = w / rate;
        let gh = (h / rate) / 2;
        let fused = create_edge_map(&gray, threshold, levels, rate, gw, gh, &angle_code);
        assert_eq!(fused, staged_edge_map(&img, threshold, levels, rate, gw, gh));
    }
}
