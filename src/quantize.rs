use crate::raster::GrayscaleBuffer;
use vstd::prelude::*;

verus! {

/// Width of one quantization bucket over `[0, 255]` for `levels` levels:
/// `max(1, floor(256 / levels))`.
pub open spec fn step_spec(levels: nat) -> nat
    recommends
        levels >= 1,
{
    if 256nat / levels >= 1 {
        256nat / levels
    } else {
        1
    }
}

/// `v` rounded down to the nearest multiple of the bucket width.
pub open spec fn quantize_spec(v: nat, levels: nat) -> nat
    recommends
        levels >= 1,
{
    (v - v % step_spec(levels)) as nat
}

/// Every value of `s` rounded down to its bucket.
pub open spec fn quantized_pixels_spec(s: Seq<u8>, levels: nat) -> Seq<u8> {
    s.map_values(|v: u8| quantize_spec(v as nat, levels) as u8)
}

/// The bucket width for `levels` levels (between 1 and 256).
pub fn quant_step(levels: usize) -> (r: u32)
    requires
        levels >= 1,
    ensures
        r as nat == step_spec(levels as nat),
        1 <= r <= 256,
{
    let s = 256 / levels;
    if s >= 1 {
        s as u32
    } else {
        1
    }
}

/// Rounds `v` down to the start of its bucket.
pub fn quantize_value(v: u8, levels: usize) -> (r: u8)
    requires
        levels >= 1,
    ensures
        r as nat == quantize_spec(v as nat, levels as nat),
        r <= v,
{
    let step = quant_step(levels);
    let v32 = v as u32;
    let m = v32 % step;
    assert(m <= v32) by {
        vstd::arithmetic::div_mod::lemma_mod_bound(v32 as int, step as int);
        vstd::arithmetic::div_mod::lemma_mod_self_0(step as int);
        if v32 < step {
            vstd::arithmetic::div_mod::lemma_small_mod(v32 as nat, step as nat);
        }
    }
    (v32 - m) as u8
}

/// Quantizing an already quantized value with the same level count changes
/// nothing.
pub proof fn lemma_quantize_idempotent(v: nat, levels: nat)
    requires
        levels >= 1,
    ensures
        quantize_spec(quantize_spec(v, levels), levels) == quantize_spec(v, levels),
{
    let s = step_spec(levels);
    let q = quantize_spec(v, levels);
    vstd::arithmetic::div_mod::lemma_fundamental_div_mod(v as int, s as int);
    assert(q == s * (v / s));
    vstd::arithmetic::div_mod::lemma_mod_multiples_basic((v / s) as int, s as int);
    assert((v / s) * s == s * (v / s)) by (nonlinear_arith);
}

/// Every pixel of `image` rounded down to its bucket for `levels` levels.
pub fn quantize_gray_image(image: &GrayscaleBuffer, levels: usize) -> (r: GrayscaleBuffer)
    requires
        levels >= 1,
        image.wf(),
    ensures
        r.wf(),
        r.width == image.width,
        r.height == image.height,
        r.pixels@ == quantized_pixels_spec(image.pixels@, levels as nat),
        forall|i: int|
            0 <= i < r.pixels@.len() ==> r.pixels@[i] as nat == quantize_spec(
                #[trigger] image.pixels@[i] as nat,
                levels as nat,
            ),
{
    let mut out: Vec<u8> = Vec::with_capacity(image.pixels.len());
    let mut i: usize = 0;
    while i < image.pixels.len()
        invariant
            levels >= 1,
            i <= image.pixels@.len(),
            out@.len() == i,
            forall|j: int|
                0 <= j < i ==> out@[j] as nat == quantize_spec(
                    #[trigger] image.pixels@[j] as nat,
                    levels as nat,
                ),
        decreases image.pixels@.len() - i,
    {
        out.push(quantize_value(image.pixels[i], levels));
        i = i + 1;
    }
    proof {
        assert(out@ =~= quantized_pixels_spec(image.pixels@, levels as nat));
    }
    GrayscaleBuffer { width: image.width, height: image.height, pixels: out }
}

} // verus!
