use vstd::prelude::*;

verus! {

/// Width of the output grid: one column per `rate` source columns, at least one.
pub open spec fn grid_width_spec(width: nat, rate: nat) -> nat
    recommends
        rate > 0,
{
    let w = width / rate;
    if w >= 1 {
        w
    } else {
        1
    }
}

/// Height of the output grid: one row per `2 * rate` source rows (character
/// cells are about twice as tall as wide), at least one.
pub open spec fn grid_height_spec(height: nat, rate: nat) -> nat
    recommends
        rate > 0,
{
    let h = (height / rate) / 2;
    if h >= 1 {
        h
    } else {
        1
    }
}

/// Output grid size `(width, height)` for a source of `width x height` pixels.
pub fn grid_dimensions(width: u32, height: u32, downsample_rate: u32) -> (r: (u32, u32))
    requires
        downsample_rate > 0,
    ensures
        r.0 as nat == grid_width_spec(width as nat, downsample_rate as nat),
        r.1 as nat == grid_height_spec(height as nat, downsample_rate as nat),
        r.0 >= 1,
        r.1 >= 1,
{
    let w = width / downsample_rate;
    let h = (height / downsample_rate) / 2;
    let gw: u32 = if w >= 1 { w } else { 1 };
    let gh: u32 = if h >= 1 { h } else { 1 };
    (gw, gh)
}

/// The grid is `max(1, W / rate)` wide and `max(1, (H / rate) / 2)` high,
/// with floor division; both sides are at least one cell.
pub proof fn lemma_grid_dimensions_formula(width: nat, height: nat, rate: nat)
    requires
        rate > 0,
    ensures
        grid_width_spec(width, rate) == (if width / rate >= 1 { width / rate } else { 1 }),
        grid_height_spec(height, rate) == (if (height / rate) / 2 >= 1 {
            (height / rate) / 2
        } else {
            1
        }),
        grid_width_spec(width, rate) >= 1,
        grid_height_spec(height, rate) >= 1,
{
}

/// Raising the downsample rate never makes the grid wider or taller.
pub proof fn lemma_grid_monotone_in_rate(width: nat, height: nat, rate1: nat, rate2: nat)
    requires
        0 < rate1 <= rate2,
    ensures
        grid_width_spec(width, rate2) <= grid_width_spec(width, rate1),
        grid_height_spec(height, rate2) <= grid_height_spec(height, rate1),
{
    assert(width / rate2 <= width / rate1) by (nonlinear_arith)
        requires
            0 < rate1 <= rate2,
    {
        vstd::arithmetic::div_mod::lemma_div_is_ordered_by_denominator(
            width as int,
            rate1 as int,
            rate2 as int,
        );
    }
    assert(height / rate2 <= height / rate1) by {
        vstd::arithmetic::div_mod::lemma_div_is_ordered_by_denominator(
            height as int,
            rate1 as int,
            rate2 as int,
        );
    }
}

} // verus!
