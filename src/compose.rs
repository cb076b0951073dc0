use crate::quantize::{quant_step, step_spec};
use vstd::prelude::*;

verus! {

/// One output cell: a character and the color it is drawn in.
#[derive(Clone, Copy, PartialEq, Eq, Debug, Structural)]
pub struct AsciiCharInfo {
    pub char: char,
    pub r: u8,
    pub g: u8,
    pub b: u8,
}

/// Palette position of a quantized value: `floor(v / step)`, clamped to the
/// last of `levels` entries.
pub open spec fn palette_index_spec(v: nat, levels: nat) -> nat
    recommends
        levels >= 1,
{
    let i = v / step_spec(levels);
    if i < levels {
        i
    } else {
        (levels - 1) as nat
    }
}

/// Whether a cell with edge level `edge_value` shows an edge character: its
/// palette position is not the "no edge" slot, or the level is above half a
/// bucket.
pub open spec fn uses_edge_spec(edge_value: nat, edge_levels: nat) -> bool {
    palette_index_spec(edge_value, edge_levels) != 0 || edge_value > step_spec(edge_levels) / 2
}

/// The character of a cell with edge level `edge_value` and quantized
/// brightness `gray_value`.
pub open spec fn select_char_spec(
    edge_value: u8,
    gray_value: u8,
    edge_chars: Seq<char>,
    gray_chars: Seq<char>,
) -> char {
    if uses_edge_spec(edge_value as nat, edge_chars.len()) {
        edge_chars[palette_index_spec(edge_value as nat, edge_chars.len()) as int]
    } else {
        gray_chars[palette_index_spec(gray_value as nat, gray_chars.len()) as int]
    }
}

/// The grid of cells that `edge_map`, `gray_map` (one byte per cell) and
/// `color_map` (three bytes per cell) give, as rows.
pub open spec fn composed_grid_spec(
    width: nat,
    height: nat,
    edge_map: Seq<u8>,
    gray_map: Seq<u8>,
    color_map: Seq<u8>,
    edge_chars: Seq<char>,
    gray_chars: Seq<char>,
) -> Seq<Seq<AsciiCharInfo>> {
    Seq::new(
        height,
        |y: int|
            Seq::new(
                width,
                |x: int|
                    {
                        let i = y * width + x;
                        AsciiCharInfo {
                            char: select_char_spec(edge_map[i], gray_map[i], edge_chars, gray_chars),
                            r: color_map[3 * i],
                            g: color_map[3 * i + 1],
                            b: color_map[3 * i + 2],
                        }
                    },
            ),
    )
}

/// The rows of a grid of cells, each as a sequence.
pub open spec fn rows_view(lines: Seq<Vec<AsciiCharInfo>>) -> Seq<Seq<AsciiCharInfo>> {
    Seq::new(lines.len(), |y: int| lines[y]@)
}

/// Palette position of the quantized value `v` for a palette of `levels`
/// entries.
pub fn palette_index(v: u8, levels: usize) -> (r: usize)
    requires
        levels >= 1,
    ensures
        r as nat == palette_index_spec(v as nat, levels as nat),
        r < levels,
{
    let step = quant_step(levels);
    let i = (v as u32 / step) as usize;
    if i < levels {
        i
    } else {
        levels - 1
    }
}

/// The character of one cell: the edge palette entry when the edge level
/// calls for it, else the gray palette entry for its brightness.
pub fn select_char(edge_value: u8, gray_value: u8, edge_chars: &[char], gray_chars: &[char]) -> (r:
    char)
    requires
        edge_chars@.len() >= 1,
        gray_chars@.len() >= 1,
    ensures
        r == select_char_spec(edge_value, gray_value, edge_chars@, gray_chars@),
{
    let edge_step = quant_step(edge_chars.len());
    let edge_idx = palette_index(edge_value, edge_chars.len());
    if edge_idx != 0 || edge_value as u32 > edge_step / 2 {
        edge_chars[edge_idx]
    } else {
        gray_chars[palette_index(gray_value, gray_chars.len())]
    }
}

/// Builds the `width x height` grid of cells: the character of each from its
/// edge level and quantized brightness, its color from `color_map`.
pub fn combine_and_map_to_ascii(
    width: u32,
    height: u32,
    edge_map: &[u8],
    gray_map: &[u8],
    color_map: &[u8],
    edge_chars: &[char],
    gray_chars: &[char],
) -> (r: Vec<Vec<AsciiCharInfo>>)
    requires
        edge_map@.len() == width as nat * height as nat,
        gray_map@.len() == width as nat * height as nat,
        color_map@.len() == width as nat * height as nat * 3,
        edge_chars@.len() >= 1,
        gray_chars@.len() >= 1,
    ensures
        rows_view(r@) == composed_grid_spec(
            width as nat,
            height as nat,
            edge_map@,
            gray_map@,
            color_map@,
            edge_chars@,
            gray_chars@,
        ),
{
    let ghost grid = composed_grid_spec(
        width as nat,
        height as nat,
        edge_map@,
        gray_map@,
        color_map@,
        edge_chars@,
        gray_chars@,
    );
    let n: usize = color_map.len();
    let mut lines: Vec<Vec<AsciiCharInfo>> = Vec::new();
    let mut y: u32 = 0;
    while y < height
        invariant
            edge_map@.len() == width as nat * height as nat,
            gray_map@.len() == width as nat * height as nat,
            color_map@.len() == width as nat * height as nat * 3,
            n == color_map@.len(),
            edge_chars@.len() >= 1,
            gray_chars@.len() >= 1,
            grid == composed_grid_spec(
                width as nat,
                height as nat,
                edge_map@,
                gray_map@,
                color_map@,
                edge_chars@,
                gray_chars@,
            ),
            y <= height,
            lines@.len() == y,
            forall|j: int| 0 <= j < y ==> (#[trigger] lines@[j])@ == grid[j],
        decreases height - y,
    {
        let mut line: Vec<AsciiCharInfo> = Vec::new();
        let mut x: u32 = 0;
        while x < width
            invariant
                edge_map@.len() == width as nat * height as nat,
                gray_map@.len() == width as nat * height as nat,
                color_map@.len() == width as nat * height as nat * 3,
                n == color_map@.len(),
            n == color_map@.len(),
                edge_chars@.len() >= 1,
                gray_chars@.len() >= 1,
                grid == composed_grid_spec(
                    width as nat,
                    height as nat,
                    edge_map@,
                    gray_map@,
                    color_map@,
                    edge_chars@,
                    gray_chars@,
                ),
                y < height,
                x <= width,
                line@.len() == x,
                forall|k: int| 0 <= k < x ==> #[trigger] line@[k] == grid[y as int][k],
            decreases width - x,
        {
            proof {
                let (a, b, w, h) = (x as nat, y as nat, width as nat, height as nat);
                assert(b * w + a < w * h) by (nonlinear_arith)
                    requires
                        a < w,
                        b < h,
                ;
                assert(3 * (b * w + a) + 2 < w * h * 3) by (nonlinear_arith)
                    requires
                        b * w + a < w * h,
                ;
            }
            let i = y as usize * width as usize + x as usize;
            let c = select_char(edge_map[i], gray_map[i], edge_chars, gray_chars);
            line.push(
                AsciiCharInfo {
                    char: c,
                    r: color_map[3 * i],
                    g: color_map[3 * i + 1],
                    b: color_map[3 * i + 2],
                },
            );
            x = x + 1;
        }
        proof {
            assert(line@ =~= grid[y as int]);
        }
        lines.push(line);
        y = y + 1;
    }
    proof {
        assert(rows_view(lines@) =~= grid);
    }
    lines
}

} // verus!
