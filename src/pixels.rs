use vstd::arithmetic::div_mod::lemma_fundamental_div_mod_converse;
use vstd::prelude::*;

verus! {

/// The pixel that fills position `k` of the output buffer: column `k % width`, and
/// image row `height - 1 - k / width` counted from the bottom, so that the buffer
/// runs from the top row down.
pub open spec fn pixel_at(width: nat, height: nat, k: nat) -> (usize, usize) {
    ((k % width) as usize, (height - 1 - k / width) as usize)
}

/// The pixels of a `width` by `height` image in output order: rows from the top
/// down, each from left to right. Each entry is `(column, row from the bottom)`.
pub fn pixel_order(width: usize, height: usize) -> (r: Vec<(usize, usize)>)
    requires
        width * height <= usize::MAX,
    ensures
        r@.len() == width * height,
        forall|k: int|
            0 <= k < r@.len() ==> #[trigger] r@[k] == pixel_at(width as nat, height as nat, k as nat),
{
    let mut out: Vec<(usize, usize)> = Vec::new();
    let mut row: usize = 0;
    while row < height
        invariant
            width * height <= usize::MAX,
            row <= height,
            out@.len() == row * width,
            forall|k: int|
                0 <= k < out@.len() ==> #[trigger] out@[k] == pixel_at(
                    width as nat,
                    height as nat,
                    k as nat,
                ),
        decreases height - row,
    {
        let j: usize = height - 1 - row;
        assert(row * width + width <= height * width) by (nonlinear_arith)
            requires
                row < height,
        ;
        let mut i: usize = 0;
        while i < width
            invariant
                width * height <= usize::MAX,
                row < height,
                j == height - 1 - row,
                i <= width,
                row * width + width <= height * width,
                out@.len() == row * width + i,
                forall|k: int|
                    0 <= k < out@.len() ==> #[trigger] out@[k] == pixel_at(
                        width as nat,
                        height as nat,
                        k as nat,
                    ),
            decreases width - i,
        {
            proof {
                lemma_fundamental_div_mod_converse(
                    (row * width + i) as int,
                    width as int,
                    row as int,
                    i as int,
                );
            }
            out.push((i, j));
            i = i + 1;
        }
        assert((row + 1) * width == row * width + width) by (nonlinear_arith);
        row = row + 1;
    }
    assert(row * width == width * height) by (nonlinear_arith)
        requires
            row == height,
    ;
    out
}

} // verus!
