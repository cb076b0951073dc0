use crate::compose::{
    combine_and_map_to_ascii, composed_grid_spec, palette_index_spec, rows_view, AsciiCharInfo,
};
use crate::edges::{
    all_below, cell_gradient_spec, cell_gradients_spec, create_edge_map, edge_level_ok,
    lemma_pool_window_below, magnitude_sq, window_end, window_start,
};
use crate::quantize::step_spec;
use crate::grid::{grid_dimensions, grid_height_spec, grid_width_spec};
use crate::quantize::{quantize_gray_image, quantized_pixels_spec};
use crate::raster::{
    luma_pixels_spec, resize_gray, resize_rgb, sobel_x_image, sobel_y_image, to_grayscale,
    triangle_resized, GrayscaleBuffer, SourceImage,
};
use vstd::prelude::*;

verus! {

/// Why an image could not be converted.
#[derive(Clone, Copy, PartialEq, Eq, Debug, Structural)]
pub enum ConvertError {
    /// The downsample rate was zero.
    InvalidDownsampleRate,
    /// The gray or the edge palette had no character.
    EmptyPalette,
}

impl ConvertError {
    /// A sentence describing the error.
    pub fn message(&self) -> (r: String)
        ensures
            r@ == (match self {
                ConvertError::InvalidDownsampleRate => "downsample_rate must be positive."@,
                ConvertError::EmptyPalette => "ASCII character palettes cannot be empty."@,
            }),
    {
        match self {
            ConvertError::InvalidDownsampleRate => "downsample_rate must be positive.".to_string(),
            ConvertError::EmptyPalette => "ASCII character palettes cannot be empty.".to_string(),
        }
    }
}

/// The converted image: `height` rows of `width` cells.
pub struct AsciiArtOutput {
    pub lines: Vec<Vec<AsciiCharInfo>>,
    pub width: u32,
    pub height: u32,
}

/// The quantized brightness of each cell: the gray image resampled to the
/// grid, then rounded down to `levels` levels.
pub open spec fn gray_levels_spec(g: Seq<u8>, w: nat, h: nat, gw: nat, gh: nat, levels: nat) -> Seq<
    u8,
> {
    quantized_pixels_spec(triangle_resized(g, 1, w, h, gw, gh), levels)
}

/// `lines` is what the conversion of `img` gives for the angle codes that
/// `angle_code` returns: some edge level of each cell that `edge_level_ok`
/// allows, combined with the cell's quantized brightness and sampled color.
pub open spec fn art_matches<F: Fn(i16, i16) -> u8>(
    img: &SourceImage,
    rate: nat,
    threshold: nat,
    edge_chars: Seq<char>,
    gray_chars: Seq<char>,
    angle_code: F,
    lines: Seq<Seq<AsciiCharInfo>>,
) -> bool {
    let (w, h) = (img.width as nat, img.height as nat);
    let gw = grid_width_spec(w, rate);
    let gh = grid_height_spec(h, rate);
    let luma = luma_pixels_spec(img.pixels@);
    let cells = cell_gradients_spec(
        sobel_x_image(luma, w as int, h as int),
        sobel_y_image(luma, w as int, h as int),
        w,
        h,
        rate,
        gw,
        gh,
    );
    exists|edges: Seq<u8>|
        {
            &&& edges.len() == gw * gh
            &&& forall|i: int|
                0 <= i < edges.len() ==> edge_level_ok(
                    angle_code,
                    cells[i],
                    threshold,
                    edge_chars.len(),
                    #[trigger] edges[i],
                )
            &&& lines == composed_grid_spec(
                gw,
                gh,
                edges,
                gray_levels_spec(luma, w, h, gw, gh, gray_chars.len()),
                triangle_resized(img.pixels@, 3, w, h, gw, gh),
                edge_chars,
                gray_chars,
            )
        }
}

/// The gray image resampled to the grid and quantized to `num_gray_levels`
/// levels.
pub fn prepare_base_gray_image(
    gray: &GrayscaleBuffer,
    output_grid_width: u32,
    output_grid_height: u32,
    num_gray_levels: usize,
) -> (r: GrayscaleBuffer)
    requires
        gray.wf(),
        output_grid_width >= 1,
        output_grid_height >= 1,
        output_grid_width as nat * output_grid_height as nat <= usize::MAX,
        num_gray_levels >= 1,
    ensures
        r.wf(),
        r.width == output_grid_width,
        r.height == output_grid_height,
        r.pixels@ == gray_levels_spec(
            gray.pixels@,
            gray.width as nat,
            gray.height as nat,
            output_grid_width as nat,
            output_grid_height as nat,
            num_gray_levels as nat,
        ),
{
    let resized = resize_gray(gray, output_grid_width, output_grid_height);
    quantize_gray_image(&resized, num_gray_levels)
}

/// Converts `img` into a grid of colored characters.
///
/// The grid is `max(1, W / rate)` cells wide and `max(1, (H / rate) / 2)`
/// high. Each cell shows an edge character, picked by the direction of the
/// strongest gradient in its window, where that gradient reaches
/// `edge_sobel_threshold`; else a gray character picked by its brightness.
/// `angle_code` maps a gradient `(sx, sy)` to its direction on `[0, 255]`.
/// A zero rate gives `InvalidDownsampleRate`; an empty palette gives
/// `EmptyPalette`.
pub fn image_to_ascii_art<F: Fn(i16, i16) -> u8>(
    img: &SourceImage,
    downsample_rate: u32,
    edge_sobel_threshold: u32,
    ascii_chars_edge: &[char],
    ascii_chars_gray: &[char],
    angle_code: &F,
) -> (r: Result<AsciiArtOutput, ConvertError>)
    requires
        img.wf(),
        (img.width as nat + 1) * (img.height as nat + 1) * 3 <= usize::MAX,
        forall|sx: i16, sy: i16| angle_code.requires((sx, sy)),
    ensures
        downsample_rate == 0 ==> r == Err::<AsciiArtOutput, ConvertError>(
            ConvertError::InvalidDownsampleRate,
        ),
        downsample_rate > 0 && (ascii_chars_gray@.len() == 0 || ascii_chars_edge@.len() == 0)
            ==> r == Err::<AsciiArtOutput, ConvertError>(ConvertError::EmptyPalette),
        r is Ok <==> downsample_rate > 0 && ascii_chars_gray@.len() > 0
            && ascii_chars_edge@.len() > 0,
        r matches Ok(out) ==> {
            &&& out.width as nat == grid_width_spec(img.width as nat, downsample_rate as nat)
            &&& out.height as nat == grid_height_spec(img.height as nat, downsample_rate as nat)
            &&& art_matches(
                img,
                downsample_rate as nat,
                edge_sobel_threshold as nat,
                ascii_chars_edge@,
                ascii_chars_gray@,
                *angle_code,
                rows_view(out.lines@),
            )
        },
{
    if downsample_rate == 0 {
        return Err(ConvertError::InvalidDownsampleRate);
    }
    if ascii_chars_gray.len() == 0 || ascii_chars_edge.len() == 0 {
        return Err(ConvertError::EmptyPalette);
    }
    let (grid_width, grid_height) = grid_dimensions(img.width, img.height, downsample_rate);
    proof {
        let (w, h, gw, gh) = (img.width as nat, img.height as nat, grid_width as nat, grid_height as nat);
        assert(gw <= w + 1) by {
            assert(w / downsample_rate as nat <= w) by {
                vstd::arithmetic::div_mod::lemma_div_is_ordered_by_denominator(w as int, 1, downsample_rate as int);
            }
        }
        assert(gh <= h + 1) by {
            assert(h / downsample_rate as nat <= h) by {
                vstd::arithmetic::div_mod::lemma_div_is_ordered_by_denominator(h as int, 1, downsample_rate as int);
            }
        }
        assert(gw * gh * 3 <= (w + 1) * (h + 1) * 3) by (nonlinear_arith)
            requires
                gw <= w + 1,
                gh <= h + 1,
        ;
    }
    let gray = to_grayscale(img);
    let colors = resize_rgb(img, grid_width, grid_height);
    let gray_levels = prepare_base_gray_image(&gray, grid_width, grid_height, ascii_chars_gray.len());
    let edges = create_edge_map(
        &gray,
        edge_sobel_threshold,
        ascii_chars_edge.len(),
        downsample_rate,
        grid_width,
        grid_height,
        angle_code,
    );
    let lines = combine_and_map_to_ascii(
        grid_width,
        grid_height,
        edges.as_slice(),
        gray_levels.pixels.as_slice(),
        colors.as_slice(),
        ascii_chars_edge,
        ascii_chars_gray,
    );
    proof {
        let luma = luma_pixels_spec(img.pixels@);
        let cells = cell_gradients_spec(
            sobel_x_image(luma, img.width as int, img.height as int),
            sobel_y_image(luma, img.width as int, img.height as int),
            img.width as nat,
            img.height as nat,
            downsample_rate as nat,
            grid_width as nat,
            grid_height as nat,
        );
        assert(forall|i: int|
            0 <= i < edges@.len() ==> edge_level_ok(
                *angle_code,
                cells[i],
                edge_sobel_threshold as nat,
                ascii_chars_edge@.len(),
                #[trigger] edges@[i],
            ));
    }
    Ok(AsciiArtOutput { lines, width: grid_width, height: grid_height })
}

/// Where no pixel's gradient magnitude reaches the (positive) threshold,
/// every cell of the converted image shows the gray-palette character that
/// its quantized brightness selects, never an edge character.
pub proof fn lemma_low_contrast_uses_gray<F: Fn(i16, i16) -> u8>(
    img: &SourceImage,
    rate: nat,
    threshold: nat,
    edge_chars: Seq<char>,
    gray_chars: Seq<char>,
    angle_code: F,
    lines: Seq<Seq<AsciiCharInfo>>,
)
    requires
        img.wf(),
        rate > 0,
        edge_chars.len() >= 1,
        gray_chars.len() >= 1,
        threshold > 0,
        all_below(
            sobel_x_image(luma_pixels_spec(img.pixels@), img.width as int, img.height as int),
            sobel_y_image(luma_pixels_spec(img.pixels@), img.width as int, img.height as int),
            img.width as int,
            img.height as int,
            (threshold * threshold) as int,
        ),
        art_matches(img, rate, threshold, edge_chars, gray_chars, angle_code, lines),
    ensures
        ({
            let (w, h) = (img.width as nat, img.height as nat);
            let gw = grid_width_spec(w, rate);
            let gh = grid_height_spec(h, rate);
            let levels = gray_levels_spec(
                luma_pixels_spec(img.pixels@),
                w,
                h,
                gw,
                gh,
                gray_chars.len(),
            );
            &&& lines.len() == gh
            &&& forall|y: int, x: int|
                0 <= y < gh && 0 <= x < gw ==> (#[trigger] lines[y][x]).char == gray_chars[
                palette_index_spec(levels[y * gw + x] as nat, gray_chars.len()) as int]
        }),
{
    let (w, h) = (img.width as nat, img.height as nat);
    let gw = grid_width_spec(w, rate);
    let gh = grid_height_spec(h, rate);
    let luma = luma_pixels_spec(img.pixels@);
    let hs = sobel_x_image(luma, w as int, h as int);
    let vs = sobel_y_image(luma, w as int, h as int);
    let cells = cell_gradients_spec(hs, vs, w, h, rate, gw, gh);
    let edges = choose|edges: Seq<u8>|
        {
            &&& edges.len() == gw * gh
            &&& forall|i: int|
                0 <= i < edges.len() ==> edge_level_ok(
                    angle_code,
                    cells[i],
                    threshold,
                    edge_chars.len(),
                    #[trigger] edges[i],
                )
            &&& lines == composed_grid_spec(
                gw,
                gh,
                edges,
                gray_levels_spec(luma, w, h, gw, gh, gray_chars.len()),
                triangle_resized(img.pixels@, 3, w, h, gw, gh),
                edge_chars,
                gray_chars,
            )
        };
    assert forall|y: int, x: int| 0 <= y < gh && 0 <= x < gw implies (#[trigger] lines[y][x]).char
        == gray_chars[palette_index_spec(
        gray_levels_spec(luma, w, h, gw, gh, gray_chars.len())[y * gw + x] as nat,
        gray_chars.len(),
    ) as int] by {
        let i = y * gw + x;
        assert(0 <= i < gw * gh) by (nonlinear_arith)
            requires
                0 <= y < gh,
                0 <= x < gw,
                i == y * gw + x,
        ;
        vstd::arithmetic::div_mod::lemma_fundamental_div_mod_converse(i, gw as int, y, x);
        let cx = (i % gw as int) as nat;
        let cy = (i / gw as int) as nat;
        assert(threshold * threshold > 0) by (nonlinear_arith)
            requires
                threshold > 0,
        ;
        assert(window_end(cx, rate, w) <= w);
        assert(window_end(cy, 2 * rate, h) <= h);
        lemma_pool_window_below(
            hs,
            vs,
            w as int,
            h as int,
            window_start(cx, rate) as int,
            window_end(cx, rate, w) as int,
            window_start(cy, 2 * rate) as int,
            window_end(cy, 2 * rate, h) as int,
            (threshold * threshold) as int,
        );
        assert(cells[i] == cell_gradient_spec(hs, vs, w, h, rate, cx, cy));
        assert(magnitude_sq(cells[i]) < threshold * threshold);
        assert(edge_level_ok(angle_code, cells[i], threshold, edge_chars.len(), edges[i]));
        assert(edges[i] == 0);
        assert(0nat / step_spec(edge_chars.len()) == 0);
    }
}

} // verus!
