use crate::quantize::{quantize_spec, quantize_value};
use crate::raster::{
    horizontal_sobel, sobel_x_image, sobel_y_image, vertical_sobel, GradientBuffer, GrayscaleBuffer,
};
use vstd::prelude::*;

verus! {

/// The two Sobel components of one pixel.
#[derive(Clone, Copy, PartialEq, Eq, Debug, Structural)]
pub struct GradientSample {
    pub sx: i16,
    pub sy: i16,
}

/// Squared gradient magnitude `sx^2 + sy^2`.
pub open spec fn magnitude_sq(g: GradientSample) -> int {
    g.sx * g.sx + g.sy * g.sy
}

/// The gradient of a flat neighbourhood; pooling starts from it.
pub open spec fn zero_gradient() -> GradientSample {
    GradientSample { sx: 0, sy: 0 }
}

/// First coordinate of the window of cell `c` along an axis where each cell
/// spans `span` source pixels.
pub open spec fn window_start(c: nat, span: nat) -> nat {
    c * span
}

/// One past the last coordinate of that window, clipped to `limit`.
pub open spec fn window_end(c: nat, span: nat, limit: nat) -> nat {
    if c * span + span <= limit {
        c * span + span
    } else {
        limit
    }
}

/// The gradient sample at column `x`, row `y` of `w`-wide gradient images.
pub open spec fn sample_at(hs: Seq<i16>, vs: Seq<i16>, w: int, x: int, y: int) -> GradientSample {
    GradientSample { sx: hs[y * w + x], sy: vs[y * w + x] }
}

/// Max pooling step: a sample replaces the current one only when its
/// magnitude is strictly larger, so the first maximum in raster order wins.
pub open spec fn pool_step(acc: GradientSample, s: GradientSample) -> GradientSample {
    if magnitude_sq(s) > magnitude_sq(acc) {
        s
    } else {
        acc
    }
}

/// Pooling `acc` with the samples of row `y` from column `x0` up to `x`.
pub open spec fn pool_row(
    hs: Seq<i16>,
    vs: Seq<i16>,
    w: int,
    acc: GradientSample,
    y: int,
    x0: int,
    x: int,
) -> GradientSample
    decreases x - x0,
{
    if x <= x0 {
        acc
    } else {
        pool_step(pool_row(hs, vs, w, acc, y, x0, x - 1), sample_at(hs, vs, w, x - 1, y))
    }
}

/// Pooling, from the zero gradient, the rows `y0 .. y` of columns `x0 .. x1`.
pub open spec fn pool_window(
    hs: Seq<i16>,
    vs: Seq<i16>,
    w: int,
    x0: int,
    x1: int,
    y0: int,
    y: int,
) -> GradientSample
    decreases y - y0,
{
    if y <= y0 {
        zero_gradient()
    } else {
        pool_row(hs, vs, w, pool_window(hs, vs, w, x0, x1, y0, y - 1), y - 1, x0, x1)
    }
}

/// The dominant gradient of cell `(cx, cy)`: the sample of largest magnitude
/// in its window (`rate` columns by `2 * rate` rows, clipped to the image),
/// the zero gradient where no sample is larger than zero.
pub open spec fn cell_gradient_spec(
    hs: Seq<i16>,
    vs: Seq<i16>,
    w: nat,
    h: nat,
    rate: nat,
    cx: nat,
    cy: nat,
) -> GradientSample {
    pool_window(
        hs,
        vs,
        w as int,
        window_start(cx, rate) as int,
        window_end(cx, rate, w) as int,
        window_start(cy, 2 * rate) as int,
        window_end(cy, 2 * rate, h) as int,
    )
}

/// The dominant gradients of all cells of a `gw x gh` grid, row by row.
pub open spec fn cell_gradients_spec(
    hs: Seq<i16>,
    vs: Seq<i16>,
    w: nat,
    h: nat,
    rate: nat,
    gw: nat,
    gh: nat,
) -> Seq<GradientSample> {
    Seq::new(
        gw * gh,
        |i: int| cell_gradient_spec(hs, vs, w, h, rate, (i % gw as int) as nat, (i / gw as int) as nat),
    )
}

/// Edge level of a cell whose dominant gradient is `g` and whose angle code
/// (the gradient direction mapped onto `[0, 255]`) is `angle`: zero below
/// the threshold, else the angle code quantized to `levels` levels.
pub open spec fn edge_level_spec(g: GradientSample, angle: nat, threshold: nat, levels: nat) -> nat {
    if magnitude_sq(g) < threshold * threshold {
        0
    } else {
        quantize_spec(angle, levels)
    }
}

/// `v` is the edge level of a cell with dominant gradient `g` for some angle
/// code that `angle_code` may return on `g`.
pub open spec fn edge_level_ok<F: Fn(i16, i16) -> u8>(
    angle_code: F,
    g: GradientSample,
    threshold: nat,
    levels: nat,
    v: u8,
) -> bool {
    if magnitude_sq(g) < threshold * threshold {
        v == 0
    } else {
        exists|a: u8|
            #[trigger] angle_code.ensures((g.sx, g.sy), a) && v as nat == edge_level_spec(
                g,
                a as nat,
                threshold,
                levels,
            )
    }
}

/// Every sample of the `w x h` gradient images has a squared magnitude
/// below `bound`.
pub open spec fn all_below(hs: Seq<i16>, vs: Seq<i16>, w: int, h: int, bound: int) -> bool {
    forall|i: int|
        0 <= i < w * h ==> magnitude_sq(GradientSample { sx: #[trigger] hs[i], sy: vs[i] }) < bound
}

proof fn lemma_pool_row_below(
    hs: Seq<i16>,
    vs: Seq<i16>,
    w: int,
    h: int,
    acc: GradientSample,
    y: int,
    x0: int,
    x: int,
    bound: int,
)
    requires
        all_below(hs, vs, w, h, bound),
        magnitude_sq(acc) < bound,
        0 <= x0,
        x <= w,
        0 <= y < h,
    ensures
        magnitude_sq(pool_row(hs, vs, w, acc, y, x0, x)) < bound,
    decreases x - x0,
{
    if x > x0 {
        lemma_pool_row_below(hs, vs, w, h, acc, y, x0, x - 1, bound);
        lemma_index_in_bounds(x - 1, y, w, h);
        assert(magnitude_sq(GradientSample { sx: hs[y * w + x - 1], sy: vs[y * w + x - 1] }) < bound);
    }
}

/// Where every gradient sample is below `bound` (a positive bound), so is
/// the dominant gradient of any window inside the image.
pub proof fn lemma_pool_window_below(
    hs: Seq<i16>,
    vs: Seq<i16>,
    w: int,
    h: int,
    x0: int,
    x1: int,
    y0: int,
    y: int,
    bound: int,
)
    requires
        all_below(hs, vs, w, h, bound),
        bound > 0,
        0 <= x0,
        x1 <= w,
        0 <= y0,
        y <= h,
    ensures
        magnitude_sq(pool_window(hs, vs, w, x0, x1, y0, y)) < bound,
    decreases y - y0,
{
    if y > y0 {
        lemma_pool_window_below(hs, vs, w, h, x0, x1, y0, y - 1, bound);
        lemma_pool_row_below(
            hs,
            vs,
            w,
            h,
            pool_window(hs, vs, w, x0, x1, y0, y - 1),
            y - 1,
            x0,
            x1,
            bound,
        );
    }
}

proof fn lemma_index_in_bounds(x: int, y: int, w: int, h: int)
    requires
        0 <= x < w,
        0 <= y < h,
    ensures
        0 <= y * w + x < w * h,
        y * w + x == x + y * w,
{
    assert(0 <= y * w + x < w * h) by (nonlinear_arith)
        requires
            0 <= x < w,
            0 <= y < h,
    ;
}

/// `sx^2 + sy^2`, exactly.
pub fn gradient_magnitude_sq(s: GradientSample) -> (r: i64)
    ensures
        r == magnitude_sq(s),
        r >= 0,
{
    let a = s.sx as i64;
    let b = s.sy as i64;
    proof {
        assert(0 <= a * a <= 0x4000_0000) by (nonlinear_arith)
            requires
                -0x8000 <= a <= 0x7fff,
        ;
        assert(0 <= b * b <= 0x4000_0000) by (nonlinear_arith)
            requires
                -0x8000 <= b <= 0x7fff,
        ;
    }
    a * a + b * b
}

/// The dominant gradient of one cell: max pooling of the gradient magnitude
/// over the cell's window, carrying the sample at the maximum.
fn pool_cell(
    hs: &GradientBuffer,
    vs: &GradientBuffer,
    x0: u64,
    x1: u64,
    y0: u64,
    y1: u64,
) -> (r: GradientSample)
    requires
        hs.wf(),
        vs.wf(),
        vs.width == hs.width,
        vs.height == hs.height,
        x1 <= hs.width,
        y1 <= hs.height,
    ensures
        r == pool_window(hs.values@, vs.values@, hs.width as int, x0 as int, x1 as int, y0 as int, y1 as int),
{
    let ghost (hv, vv, w) = (hs.values@, vs.values@, hs.width as int);
    let n: usize = hs.values.len();
    let mut best = GradientSample { sx: 0, sy: 0 };
    let mut best_mag: i64 = 0;
    let mut y = y0;
    while y < y1
        invariant
            hs.wf(),
            vs.wf(),
            vs.width == hs.width,
            vs.height == hs.height,
            x1 <= hs.width,
            y1 <= hs.height,
            hv == hs.values@,
            vv == vs.values@,
            n == hv.len(),
            w == hs.width as int,
            y0 <= y,
            y0 <= y1 ==> y <= y1,
            y0 > y1 ==> y == y0,
            best == pool_window(hv, vv, w, x0 as int, x1 as int, y0 as int, y as int),
            best_mag == magnitude_sq(best),
        decreases y1 - y,
    {
        let ghost row_start = best;
        let mut x = x0;
        while x < x1
            invariant
                hs.wf(),
                vs.wf(),
                vs.width == hs.width,
                vs.height == hs.height,
                x1 <= hs.width,
                y < y1,
                y1 <= hs.height,
                hv == hs.values@,
                vv == vs.values@,
                n == hv.len(),
                w == hs.width as int,
                x0 <= x,
                x0 <= x1 ==> x <= x1,
                x0 > x1 ==> x == x0,
                best == pool_row(hv, vv, w, row_start, y as int, x0 as int, x as int),
                best_mag == magnitude_sq(best),
            decreases x1 - x,
        {
            proof {
                lemma_index_in_bounds(x as int, y as int, hs.width as int, hs.height as int);
            }
            assert(y * hs.width + x < n);
            let idx = y as usize * hs.width as usize + x as usize;
            let s = GradientSample { sx: hs.values[idx], sy: vs.values[idx] };
            let m = gradient_magnitude_sq(s);
            if m > best_mag {
                best = s;
                best_mag = m;
            }
            x = x + 1;
        }
        assert(best == pool_row(hv, vv, w, row_start, y as int, x0 as int, x1 as int));
        y = y + 1;
    }
    best
}

/// The dominant gradient of every cell of a `grid_width x grid_height` grid,
/// row by row; cell `(cx, cy)` covers columns `cx * rate ..` and rows
/// `cy * 2 * rate ..` of the gradient images, `rate` by `2 * rate` pixels
/// clipped to the image.
pub fn dominant_gradients(
    hs: &GradientBuffer,
    vs: &GradientBuffer,
    downsample_rate: u32,
    grid_width: u32,
    grid_height: u32,
) -> (r: Vec<GradientSample>)
    requires
        hs.wf(),
        vs.wf(),
        vs.width == hs.width,
        vs.height == hs.height,
        downsample_rate > 0,
    ensures
        r@ == cell_gradients_spec(
            hs.values@,
            vs.values@,
            hs.width as nat,
            hs.height as nat,
            downsample_rate as nat,
            grid_width as nat,
            grid_height as nat,
        ),
{
    let ghost spec_cells = cell_gradients_spec(
        hs.values@,
        vs.values@,
        hs.width as nat,
        hs.height as nat,
        downsample_rate as nat,
        grid_width as nat,
        grid_height as nat,
    );
    let rate = downsample_rate as u128;
    let span = 2 * rate;
    let w = hs.width as u128;
    let h = hs.height as u128;
    let mut out: Vec<GradientSample> = Vec::new();
    let mut cy: u32 = 0;
    while cy < grid_height
        invariant
            hs.wf(),
            vs.wf(),
            vs.width == hs.width,
            vs.height == hs.height,
            rate == downsample_rate,
            span == 2 * rate,
            w == hs.width,
            h == hs.height,
            cy <= grid_height,
            out@.len() == cy as nat * grid_width as nat,
            spec_cells.len() == grid_width as nat * grid_height as nat,
            spec_cells == cell_gradients_spec(
                hs.values@,
                vs.values@,
                hs.width as nat,
                hs.height as nat,
                downsample_rate as nat,
                grid_width as nat,
                grid_height as nat,
            ),
            forall|i: int|
                0 <= i < out@.len() && i < spec_cells.len() ==> out@[i] == #[trigger] spec_cells[i],
        decreases grid_height - cy,
    {
        let mut cx: u32 = 0;
        while cx < grid_width
            invariant
                hs.wf(),
                vs.wf(),
                vs.width == hs.width,
                vs.height == hs.height,
                rate == downsample_rate,
                span == 2 * rate,
                w == hs.width,
                h == hs.height,
                cy < grid_height,
                cx <= grid_width,
                out@.len() == cy as nat * grid_width as nat + cx as nat,
                spec_cells.len() == grid_width as nat * grid_height as nat,
                spec_cells == cell_gradients_spec(
                    hs.values@,
                    vs.values@,
                    hs.width as nat,
                    hs.height as nat,
                    downsample_rate as nat,
                    grid_width as nat,
                    grid_height as nat,
                ),
            spec_cells == cell_gradients_spec(
                hs.values@,
                vs.values@,
                hs.width as nat,
                hs.height as nat,
                downsample_rate as nat,
                grid_width as nat,
                grid_height as nat,
            ),
                forall|i: int|
                0 <= i < out@.len() && i < spec_cells.len() ==> out@[i] == #[trigger] spec_cells[i],
            decreases grid_width - cx,
        {
            proof {
                let (a, b, c, d) = (cx as nat, cy as nat, rate as nat, grid_width as nat);
                assert((a + 1) * c <= 0xffff_ffff * 0xffff_ffff) by (nonlinear_arith)
                    requires
                        a < 0xffff_ffff,
                        c <= 0xffff_ffff,
                ;
                assert((b + 1) * (2 * c) <= 0xffff_ffff * 0x1_ffff_fffe) by (nonlinear_arith)
                    requires
                        b < 0xffff_ffff,
                        c <= 0xffff_ffff,
                ;
                assert(b * d + a < d * grid_height as nat) by (nonlinear_arith)
                    requires
                        a < d,
                        b < grid_height,
                ;
                assert(a * c + c == (a + 1) * c) by (nonlinear_arith);
                assert(b * (2 * c) + 2 * c == (b + 1) * (2 * c)) by (nonlinear_arith);
            }
            let x0 = cx as u128 * rate;
            let x1 = if x0 + rate <= w {
                x0 + rate
            } else {
                w
            };
            let y0 = cy as u128 * span;
            let y1 = if y0 + span <= h {
                y0 + span
            } else {
                h
            };
            let g = if y0 >= y1 {
                GradientSample { sx: 0, sy: 0 }
            } else {
                pool_cell(hs, vs, x0 as u64, x1 as u64, y0 as u64, y1 as u64)
            };
            proof {
                let i = cy as nat * grid_width as nat + cx as nat;
                vstd::arithmetic::div_mod::lemma_fundamental_div_mod_converse(
                    i as int,
                    grid_width as int,
                    cy as int,
                    cx as int,
                );
                assert(spec_cells[i as int] == cell_gradient_spec(
                    hs.values@,
                    vs.values@,
                    hs.width as nat,
                    hs.height as nat,
                    downsample_rate as nat,
                    cx as nat,
                    cy as nat,
                ));
            }
            out.push(g);
            cx = cx + 1;
        }
        proof {
            assert(cy as nat * grid_width as nat + grid_width as nat == (cy as nat + 1)
                * grid_width as nat) by (nonlinear_arith);
        }
        cy = cy + 1;
    }
    proof {
        assert(grid_height as nat * grid_width as nat == grid_width as nat * grid_height as nat)
            by (nonlinear_arith);
        assert(out@ =~= spec_cells);
    }
    out
}

/// The edge level of every cell, row by row: the dominant gradient of its
/// window (see `dominant_gradients`) on the Sobel responses of `gray`; zero
/// where its magnitude is below `edge_sobel_threshold`, else the angle code
/// that `angle_code` gives for it quantized to `num_edge_levels` levels.
pub fn create_edge_map<F: Fn(i16, i16) -> u8>(
    gray: &GrayscaleBuffer,
    edge_sobel_threshold: u32,
    num_edge_levels: usize,
    downsample_rate: u32,
    output_grid_width: u32,
    output_grid_height: u32,
    angle_code: &F,
) -> (r: Vec<u8>)
    requires
        gray.wf(),
        downsample_rate > 0,
        num_edge_levels >= 1,
        forall|sx: i16, sy: i16| angle_code.requires((sx, sy)),
    ensures
        r@.len() == output_grid_width as nat * output_grid_height as nat,
        forall|i: int|
            0 <= i < r@.len() ==> edge_level_ok(
                *angle_code,
                cell_gradients_spec(
                    sobel_x_image(gray.pixels@, gray.width as int, gray.height as int),
                    sobel_y_image(gray.pixels@, gray.width as int, gray.height as int),
                    gray.width as nat,
                    gray.height as nat,
                    downsample_rate as nat,
                    output_grid_width as nat,
                    output_grid_height as nat,
                )[i],
                edge_sobel_threshold as nat,
                num_edge_levels as nat,
                #[trigger] r@[i],
            ),
{
    let sobel_h = horizontal_sobel(gray);
    let sobel_v = vertical_sobel(gray);
    let cells = dominant_gradients(
        &sobel_h,
        &sobel_v,
        downsample_rate,
        output_grid_width,
        output_grid_height,
    );
    proof {
        let t = edge_sobel_threshold as nat;
        assert(t * t <= 0xffff_ffff * 0xffff_ffff) by (nonlinear_arith)
            requires
                t <= 0xffff_ffff,
        ;
    }
    let threshold_sq = edge_sobel_threshold as u64 * edge_sobel_threshold as u64;
    let mut out: Vec<u8> = Vec::new();
    let mut i: usize = 0;
    while i < cells.len()
        invariant
            num_edge_levels >= 1,
            forall|sx: i16, sy: i16| angle_code.requires((sx, sy)),
            threshold_sq == edge_sobel_threshold as nat * edge_sobel_threshold as nat,
            i <= cells@.len(),
            out@.len() == i,
            forall|j: int|
                0 <= j < i ==> edge_level_ok(
                    *angle_code,
                    cells@[j],
                    edge_sobel_threshold as nat,
                    num_edge_levels as nat,
                    #[trigger] out@[j],
                ),
        decreases cells@.len() - i,
    {
        let g = cells[i];
        let m = gradient_magnitude_sq(g);
        let v = if (m as u64) < threshold_sq {
            0
        } else {
            let a = angle_code(g.sx, g.sy);
            let q = quantize_value(a, num_edge_levels);
            assert(angle_code.ensures((g.sx, g.sy), a));
            q
        };
        out.push(v);
        i = i + 1;
    }
    out
}

} // verus!
