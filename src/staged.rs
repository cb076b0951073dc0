use crate::edges::{
    cell_gradients_spec, edge_level_ok, edge_level_spec, magnitude_sq, pool_row,
    pool_window, sample_at, window_end, window_start, zero_gradient, GradientSample,
};
use vstd::prelude::*;

verus! {

// The edge map in three separate stages (a level for every pixel, pooled
// over blocks, resized to the grid), and the proof that the single pass of
// `create_edge_map` gives the same map.

/// Edge level of every pixel: zero below the threshold, else its angle code
/// quantized to `levels` levels.
pub open spec fn pixel_levels_spec(
    hs: Seq<i16>,
    vs: Seq<i16>,
    angle: spec_fn(i16, i16) -> u8,
    threshold: nat,
    levels: nat,
) -> Seq<u8> {
    Seq::new(
        hs.len(),
        |i: int|
            edge_level_spec(
                GradientSample { sx: hs[i], sy: vs[i] },
                angle(hs[i], vs[i]) as nat,
                threshold,
                levels,
            ) as u8,
    )
}

/// Squared gradient magnitude of the pixel at position `j`.
pub open spec fn mag_at(hs: Seq<i16>, vs: Seq<i16>, j: int) -> int {
    magnitude_sq(GradientSample { sx: hs[j], sy: vs[j] })
}

/// Position of the strongest pixel of row `y` from column `x0` up to `x`,
/// continuing from `best`; the first maximum in raster order wins.
pub open spec fn argmax_row(
    hs: Seq<i16>,
    vs: Seq<i16>,
    w: int,
    best: Option<int>,
    y: int,
    x0: int,
    x: int,
) -> Option<int>
    decreases x - x0,
{
    if x <= x0 {
        best
    } else {
        let b = argmax_row(hs, vs, w, best, y, x0, x - 1);
        let k = y * w + x - 1;
        match b {
            None => Some(k),
            Some(j) => if mag_at(hs, vs, k) > mag_at(hs, vs, j) {
                Some(k)
            } else {
                Some(j)
            },
        }
    }
}

/// Position of the strongest pixel of rows `y0 .. y`, columns `x0 .. x1`.
pub open spec fn argmax_block(
    hs: Seq<i16>,
    vs: Seq<i16>,
    w: int,
    x0: int,
    x1: int,
    y0: int,
    y: int,
) -> Option<int>
    decreases y - y0,
{
    if y <= y0 {
        None
    } else {
        argmax_row(hs, vs, w, argmax_block(hs, vs, w, x0, x1, y0, y - 1), y - 1, x0, x1)
    }
}

/// Max pooling of a per-pixel map over blocks of `rate` columns by
/// `2 * rate` rows: each block keeps the value of its strongest pixel.
pub open spec fn pooled_spec(
    map: Seq<u8>,
    hs: Seq<i16>,
    vs: Seq<i16>,
    w: nat,
    rate: nat,
    pw: nat,
    ph: nat,
) -> Seq<u8> {
    Seq::new(
        pw * ph,
        |i: int|
            {
                let (bx, by) = (i % pw as int, i / pw as int);
                match argmax_block(
                    hs,
                    vs,
                    w as int,
                    bx * rate,
                    bx * rate + rate,
                    by * 2 * rate,
                    by * 2 * rate + 2 * rate,
                ) {
                    Some(j) => map[j],
                    None => 0u8,
                }
            },
    )
}

/// Nearest-neighbour resize of a row-major `sw x sh` map to `dw x dh`.
pub open spec fn nearest_resized(map: Seq<u8>, sw: nat, sh: nat, dw: nat, dh: nat) -> Seq<u8> {
    Seq::new(
        dw * dh,
        |i: int| map[((i / dw as int) * sh as int / dh as int) * sw as int + (i % dw as int) * sw as int / dw as int],
    )
}

/// The edge map in three stages: levels of every pixel, pooled over blocks,
/// resized to the `gw x gh` grid.
pub open spec fn staged_edge_map_spec(
    hs: Seq<i16>,
    vs: Seq<i16>,
    w: nat,
    h: nat,
    rate: nat,
    gw: nat,
    gh: nat,
    angle: spec_fn(i16, i16) -> u8,
    threshold: nat,
    levels: nat,
) -> Seq<u8> {
    let pw = w / rate;
    let ph = h / (2 * rate);
    nearest_resized(
        pooled_spec(pixel_levels_spec(hs, vs, angle, threshold, levels), hs, vs, w, rate, pw, ph),
        pw,
        ph,
        gw,
        gh,
    )
}

/// The edge map in one pass: for each cell, the level of its dominant
/// gradient.
pub open spec fn fused_edge_map_spec(
    hs: Seq<i16>,
    vs: Seq<i16>,
    w: nat,
    h: nat,
    rate: nat,
    gw: nat,
    gh: nat,
    angle: spec_fn(i16, i16) -> u8,
    threshold: nat,
    levels: nat,
) -> Seq<u8> {
    let cells = cell_gradients_spec(hs, vs, w, h, rate, gw, gh);
    Seq::new(
        gw * gh,
        |i: int| edge_level_spec(cells[i], angle(cells[i].sx, cells[i].sy) as nat, threshold, levels) as u8,
    )
}

/// The pooled sample and the pooled position agree: no position yet and the
/// zero gradient, or the sample at that position.
pub open spec fn pool_agrees(hs: Seq<i16>, vs: Seq<i16>, w: int, h: int, acc: GradientSample, best: Option<int>) -> bool {
    match best {
        None => acc == zero_gradient(),
        Some(j) => 0 <= j < w * h && acc == (GradientSample { sx: hs[j], sy: vs[j] }),
    }
}

proof fn lemma_row_agrees(
    hs: Seq<i16>,
    vs: Seq<i16>,
    w: int,
    h: int,
    acc: GradientSample,
    best: Option<int>,
    y: int,
    x0: int,
    x: int,
)
    requires
        pool_agrees(hs, vs, w, h, acc, best),
        0 <= x0,
        x <= w,
        0 <= y < h,
    ensures
        pool_agrees(
            hs,
            vs,
            w,
            h,
            pool_row(hs, vs, w, acc, y, x0, x),
            argmax_row(hs, vs, w, best, y, x0, x),
        ),
        x > x0 ==> argmax_row(hs, vs, w, best, y, x0, x) is Some,
    decreases x - x0,
{
    if x > x0 {
        lemma_row_agrees(hs, vs, w, h, acc, best, y, x0, x - 1);
        let k = y * w + x - 1;
        assert(0 <= k < w * h) by (nonlinear_arith)
            requires
                0 <= x - 1 < w,
                0 <= y < h,
                k == y * w + x - 1,
        ;
        let s = GradientSample { sx: hs[k], sy: vs[k] };
        assert(sample_at(hs, vs, w, x - 1, y) == s);
        if magnitude_sq(s) <= 0 {
            let (a, b) = (s.sx as int, s.sy as int);
            assert(a == 0 && b == 0) by (nonlinear_arith)
                requires
                    a * a + b * b <= 0,
            ;
        }
    }
}

proof fn lemma_block_agrees(
    hs: Seq<i16>,
    vs: Seq<i16>,
    w: int,
    h: int,
    x0: int,
    x1: int,
    y0: int,
    y: int,
)
    requires
        0 <= x0,
        x1 <= w,
        0 <= y0,
        y <= h,
    ensures
        pool_agrees(
            hs,
            vs,
            w,
            h,
            pool_window(hs, vs, w, x0, x1, y0, y),
            argmax_block(hs, vs, w, x0, x1, y0, y),
        ),
        x0 < x1 && y0 < y ==> argmax_block(hs, vs, w, x0, x1, y0, y) is Some,
    decreases y - y0,
{
    if y > y0 {
        lemma_block_agrees(hs, vs, w, h, x0, x1, y0, y - 1);
        lemma_row_agrees(
            hs,
            vs,
            w,
            h,
            pool_window(hs, vs, w, x0, x1, y0, y - 1),
            argmax_block(hs, vs, w, x0, x1, y0, y - 1),
            y - 1,
            x0,
            x1,
        );
    }
}

/// Where the image is a whole number (at least one) of `rate x 2 * rate`
/// blocks in each direction, the single-pass edge map equals the staged one
/// (per-pixel levels, pooled, resized with nearest neighbour), cell for cell.
pub proof fn lemma_fused_matches_staged(
    hs: Seq<i16>,
    vs: Seq<i16>,
    w: nat,
    h: nat,
    rate: nat,
    angle: spec_fn(i16, i16) -> u8,
    threshold: nat,
    levels: nat,
)
    requires
        hs.len() == w * h,
        vs.len() == w * h,
        rate > 0,
        w % rate == 0,
        h % (2 * rate) == 0,
        w >= rate,
        h >= 2 * rate,
    ensures
        ({
            let gw = crate::grid::grid_width_spec(w, rate);
            let gh = crate::grid::grid_height_spec(h, rate);
            fused_edge_map_spec(hs, vs, w, h, rate, gw, gh, angle, threshold, levels)
                == staged_edge_map_spec(hs, vs, w, h, rate, gw, gh, angle, threshold, levels)
        }),
{
    let gw = crate::grid::grid_width_spec(w, rate);
    let gh = crate::grid::grid_height_spec(h, rate);
    let pw = w / rate;
    let ph = h / (2 * rate);
    vstd::arithmetic::div_mod::lemma_div_denominator(h as int, rate as int, 2);
    assert(pw >= 1) by {
        vstd::arithmetic::div_mod::lemma_div_is_ordered(rate as int, w as int, rate as int);
        vstd::arithmetic::div_mod::lemma_div_by_self(rate as int);
    }
    assert(ph >= 1) by {
        vstd::arithmetic::div_mod::lemma_div_is_ordered((2 * rate) as int, h as int, (2 * rate) as int);
        vstd::arithmetic::div_mod::lemma_div_by_self((2 * rate) as int);
    }
    assert(gw == pw);
    assert(gh == ph);
    let fused = fused_edge_map_spec(hs, vs, w, h, rate, gw, gh, angle, threshold, levels);
    let staged = staged_edge_map_spec(hs, vs, w, h, rate, gw, gh, angle, threshold, levels);
    let cells = cell_gradients_spec(hs, vs, w, h, rate, gw, gh);
    let map = pixel_levels_spec(hs, vs, angle, threshold, levels);
    let pooled = pooled_spec(map, hs, vs, w, rate, pw, ph);
    assert forall|i: int| 0 <= i < gw * gh implies fused[i] == staged[i] by {
        let (cx, cy) = (i % gw as int, i / gw as int);
        vstd::arithmetic::div_mod::lemma_fundamental_div_mod(i, gw as int);
        vstd::arithmetic::div_mod::lemma_mod_bound(i, gw as int);
        assert(0 <= cy < gh) by {
            vstd::arithmetic::div_mod::lemma_div_pos_is_pos(i, gw as int);
            vstd::arithmetic::div_mod::lemma_div_by_multiple_is_strongly_ordered(i, (gw * gh) as int, gh as int, gw as int);
            vstd::arithmetic::mul::lemma_mul_is_commutative(gw as int, gh as int);
            if cy >= gh {
                vstd::arithmetic::div_mod::lemma_div_multiples_vanish(gh as int, gw as int);
                vstd::arithmetic::div_mod::lemma_div_is_ordered((gw * gh) as int, i, gw as int);
            }
        }
        // nearest-neighbour resize between equal sizes keeps every index
        assert((cy * ph as int) / gh as int == cy) by {
            vstd::arithmetic::div_mod::lemma_div_multiples_vanish(cy, gh as int);
            vstd::arithmetic::mul::lemma_mul_is_commutative(cy, gh as int);
        }
        assert((cx * pw as int) / gw as int == cx) by {
            vstd::arithmetic::div_mod::lemma_div_multiples_vanish(cx, gw as int);
            vstd::arithmetic::mul::lemma_mul_is_commutative(cx, gw as int);
        }
        assert(staged[i] == pooled[i]);
        // the cell windows are whole blocks
        assert(pw * rate == w) by {
            vstd::arithmetic::div_mod::lemma_fundamental_div_mod(w as int, rate as int);
        }
        assert(ph * (2 * rate) == h) by {
            vstd::arithmetic::div_mod::lemma_fundamental_div_mod(h as int, (2 * rate) as int);
        }
        assert(cx * rate + rate <= w) by (nonlinear_arith)
            requires
                0 <= cx < pw,
                rate > 0,
                pw * rate == w,
        ;
        assert(cy * (2 * rate) + 2 * rate <= h) by (nonlinear_arith)
            requires
                0 <= cy < ph,
                rate > 0,
                ph * (2 * rate) == h,
        ;
        let (x0, x1) = (cx * rate, cx * rate + rate);
        let (y0, y1) = (cy * 2 * rate, cy * 2 * rate + 2 * rate);
        assert(cy * 2 * rate == cy * (2 * rate)) by (nonlinear_arith);
        assert(window_start(cx as nat, rate) == x0);
        assert(window_end(cx as nat, rate, w) == x1);
        assert(window_start(cy as nat, 2 * rate) == y0);
        assert(window_end(cy as nat, 2 * rate, h) == y1);
        assert(0 <= x0) by (nonlinear_arith)
            requires
                cx >= 0,
                rate > 0,
                x0 == cx * rate,
        ;
        assert(0 <= y0) by (nonlinear_arith)
            requires
                cy >= 0,
                rate > 0,
                y0 == cy * 2 * rate,
        ;
        lemma_block_agrees(hs, vs, w as int, h as int, x0, x1, y0, y1);
        assert(cells[i] == pool_window(hs, vs, w as int, x0, x1, y0, y1));
    }
    assert(fused =~= staged);
}

/// With an angle code that is a function (`angle`), the edge levels that
/// `create_edge_map` promises are exactly the single-pass edge map.
pub proof fn lemma_edge_levels_are_fused<F: Fn(i16, i16) -> u8>(
    hs: Seq<i16>,
    vs: Seq<i16>,
    w: nat,
    h: nat,
    rate: nat,
    gw: nat,
    gh: nat,
    angle_code: F,
    angle: spec_fn(i16, i16) -> u8,
    threshold: nat,
    levels: nat,
    edges: Seq<u8>,
)
    requires
        forall|sx: i16, sy: i16, a: u8| angle_code.ensures((sx, sy), a) ==> a == angle(sx, sy),
        edges.len() == gw * gh,
        forall|i: int|
            0 <= i < edges.len() ==> edge_level_ok(
                angle_code,
                cell_gradients_spec(hs, vs, w, h, rate, gw, gh)[i],
                threshold,
                levels,
                #[trigger] edges[i],
            ),
    ensures
        edges == fused_edge_map_spec(hs, vs, w, h, rate, gw, gh, angle, threshold, levels),
{
    let fused = fused_edge_map_spec(hs, vs, w, h, rate, gw, gh, angle, threshold, levels);
    let cells = cell_gradients_spec(hs, vs, w, h, rate, gw, gh);
    assert forall|i: int| 0 <= i < gw * gh implies edges[i] == fused[i] by {
        assert(edge_level_ok(angle_code, cells[i], threshold, levels, edges[i]));
        if magnitude_sq(cells[i]) >= threshold * threshold {
            let a = choose|a: u8|
                #[trigger] angle_code.ensures((cells[i].sx, cells[i].sy), a) && edges[i] as nat
                    == edge_level_spec(cells[i], a as nat, threshold, levels);
            assert(a == angle(cells[i].sx, cells[i].sy));
        }
    }
    assert(edges =~= fused);
}

} // verus!
