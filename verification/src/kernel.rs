//! Software reference of the threshold kernel that both forms of the filter
//! run on the GPU: per pixel, a step function of the channel value against
//! the threshold. The per-pixel characterization here is the yardstick the
//! compute-dispatch execution is proved against.

use vstd::arithmetic::div_mod::lemma_fundamental_div_mod;
use vstd::arithmetic::div_mod::lemma_fundamental_div_mod_converse;
use vstd::arithmetic::div_mod::lemma_mod_bound;
use vstd::arithmetic::div_mod::lemma_multiply_divide_lt;
use vstd::prelude::*;

verus! {

/// The kernel's step convention: full intensity where the channel value
/// reaches the threshold, zero elsewhere.
pub open spec fn threshold_pixel(value: u8, threshold: u8) -> u8 {
    if value >= threshold {
        255u8
    } else {
        0u8
    }
}

/// The whole-image semantics of the kernel: the step function applied to
/// every pixel, positions unchanged.
pub open spec fn threshold_image(pixels: Seq<u8>, threshold: u8) -> Seq<u8> {
    Seq::new(pixels.len(), |i: int| threshold_pixel(pixels[i], threshold))
}

/// Row-major position of the pixel at coordinates `(x, y)`.
pub open spec fn pixel_index(width: nat, x: int, y: int) -> int {
    y * width + x
}

/// The pixel-shader form of the kernel: one invocation per pixel, in pixel
/// order, exactly the per-pixel semantics.
pub fn apply_threshold(pixels: &Vec<u8>, threshold: u8) -> (out: Vec<u8>)
    ensures
        out@ == threshold_image(pixels@, threshold),
{
    let mut out: Vec<u8> = Vec::new();
    let mut i: usize = 0;
    while i < pixels.len()
        invariant
            0 <= i <= pixels@.len(),
            out@.len() == i,
            forall|k: int| 0 <= k < i ==> out@[k] == threshold_pixel(pixels@[k], threshold),
        decreases pixels@.len() - i,
    {
        let p = pixels[i];
        if p >= threshold {
            out.push(255);
        } else {
            out.push(0);
        }
        i = i + 1;
    }
    proof {
        assert(out@ =~= threshold_image(pixels@, threshold));
    }
    out
}

/// In-bounds pixel coordinates occupy an in-range row-major index.
pub proof fn lemma_pixel_index_in_range(width: nat, height: nat, x: int, y: int)
    requires
        0 <= x < width,
        0 <= y < height,
    ensures
        0 <= pixel_index(width, x, y) < width * height,
{
    assert(y * width + x < width * height && y * width + x >= 0) by (nonlinear_arith)
        requires
            0 <= x < width,
            0 <= y < height,
    ;
}

/// Distinct pixel coordinates of a row-major image occupy distinct indices.
pub proof fn lemma_row_major_injective(width: int, x1: int, y1: int, x2: int, y2: int)
    requires
        width > 0,
        0 <= x1 < width,
        0 <= x2 < width,
        0 <= y1,
        0 <= y2,
        y1 * width + x1 == y2 * width + x2,
    ensures
        x1 == x2,
        y1 == y2,
{
    let i = y1 * width + x1;
    lemma_fundamental_div_mod_converse(i, width, y1, x1);
    lemma_fundamental_div_mod_converse(i, width, y2, x2);
}

/// Every index of a row-major `width` x `height` image is `y * width + x` for
/// exactly one in-bounds coordinate pair, namely `x == i % width` and
/// `y == i / width`.
pub proof fn lemma_row_major_coords(width: int, height: int, i: int)
    requires
        width > 0,
        0 <= i < width * height,
    ensures
        0 <= i % width < width,
        0 <= i / width < height,
        i == (i / width) * width + (i % width),
{
    lemma_mod_bound(i, width);
    lemma_fundamental_div_mod(i, width);
    vstd::arithmetic::mul::lemma_mul_is_commutative(width, i / width);
    lemma_multiply_divide_lt(i, width, height);
}

/// Pixel-semantics equivalence of the two forms of the filter. The graph
/// stage runs the kernel once per pixel; the compute dispatch runs it once
/// per thread, tiled, and is characterized coordinate-wise. Any image that
/// satisfies the per-pixel characterization and any image that satisfies the
/// coordinate-wise characterization of the same input and threshold are
/// bit-identical.
pub proof fn lemma_forms_agree(
    pixels: Seq<u8>,
    threshold: u8,
    width: nat,
    height: nat,
    per_pixel: Seq<u8>,
    tiled: Seq<u8>,
)
    requires
        pixels.len() == width * height,
        per_pixel == threshold_image(pixels, threshold),
        tiled.len() == pixels.len(),
        forall|x: int, y: int|
            0 <= x < width && 0 <= y < height ==> tiled[#[trigger] pixel_index(width, x, y)]
                == threshold_pixel(pixels[pixel_index(width, x, y)], threshold),
    ensures
        per_pixel == tiled,
{
    assert forall|i: int| 0 <= i < tiled.len() implies tiled[i] == per_pixel[i] by {
        lemma_row_major_coords(width as int, height as int, i);
        let x = i % (width as int);
        let y = i / (width as int);
        assert(pixel_index(width, x, y) == i);
        assert(tiled[pixel_index(width, x, y)] == threshold_pixel(
            pixels[pixel_index(width, x, y)],
            threshold,
        ));
    }
    assert(per_pixel =~= tiled);
}

} // verus!
