//! The standalone compute-dispatch form of the threshold filter: thread-group
//! arithmetic, the constant-buffer record and dispatch plan an executor needs
//! for one run, and a software execution of the tiled kernel proved equal to
//! the per-pixel semantics.

use vstd::arithmetic::div_mod::lemma_fundamental_div_mod;
use vstd::arithmetic::div_mod::lemma_fundamental_div_mod_converse;
use vstd::bytes::spec_u32_to_le_bytes;
use vstd::bytes::u32_to_le_bytes;
use vstd::prelude::*;

use crate::kernel::lemma_forms_agree;
use crate::kernel::lemma_pixel_index_in_range;
use crate::kernel::lemma_row_major_injective;
use crate::kernel::pixel_index;
use crate::kernel::threshold_image;
use crate::kernel::threshold_pixel;

verus! {

/// Threads per thread-group dimension, matching the compiled kernel's
/// declared per-group shape. A mismatch with the kernel leaves the dispatch
/// arithmetic meaningless, so every group computation below uses this one
/// constant.
pub const NUM_THREADS_PER_DIMENSION: u32 = 16;

/// Size in bytes of the GPU parameter record: the float threshold's four
/// bytes padded to the device's 16-byte constant-buffer alignment.
pub const PARAMS_BUFFER_SIZE: u32 = 16;

/// Exact integer ceiling division: the number of thread groups needed so that
/// `count * threads` covers `value`.
pub open spec fn ceil_div(value: nat, threads: nat) -> nat
    recommends
        threads > 0,
{
    value / threads + if value % threads == 0 {
        0nat
    } else {
        1nat
    }
}

/// Thread groups needed along one dimension: exact ceiling division of the
/// dimension by the per-group thread count. An undercount here would leave
/// rows or columns of pixels unprocessed at the image edge.
pub fn compute_thread_group_count(value: u32, threads: u32) -> (count: u32)
    requires
        threads > 0,
    ensures
        count == ceil_div(value as nat, threads as nat),
{
    let base = value / threads;
    if value % threads == 0 {
        base
    } else {
        proof {
            lemma_fundamental_div_mod(value as int, threads as int);
        }
        assert(base + 1 <= u32::MAX) by (nonlinear_arith)
            requires
                value == threads * base + (value % threads),
                0 < value % threads < threads,
                value <= u32::MAX,
                base >= 0,
        ;
        base + 1
    }
}

/// Thread groups needed along both axes of a `width` x `height` image.
pub fn compute_xy_thread_group_count(width: u32, height: u32, num_threads_per_dimension: u32) -> (counts: (
    u32,
    u32,
))
    requires
        num_threads_per_dimension > 0,
    ensures
        counts.0 == ceil_div(width as nat, num_threads_per_dimension as nat),
        counts.1 == ceil_div(height as nat, num_threads_per_dimension as nat),
{
    (
        compute_thread_group_count(width, num_threads_per_dimension),
        compute_thread_group_count(height, num_threads_per_dimension),
    )
}

/// Thread-group ceiling law: `ceil_div` is the least group count whose
/// combined threads cover the dimension, so no pixel is missed and no whole
/// group is idle.
pub proof fn lemma_ceil_div_exact(value: nat, threads: nat)
    requires
        threads > 0,
    ensures
        threads * ceil_div(value, threads) >= value,
        ceil_div(value, threads) > 0 ==> threads * (ceil_div(value, threads) - 1) < value,
{
    lemma_fundamental_div_mod(value as int, threads as int);
    let q = value / threads;
    assert(threads * (q + 1) == threads * q + threads) by (nonlinear_arith);
    if ceil_div(value, threads) > 0 {
        if value % threads == 0 {
            assert(threads * (q - 1) == threads * q - threads) by (nonlinear_arith);
        }
    }
}

/// Every coordinate of the dimension falls in some dispatched group: the
/// group index of any in-range coordinate is below the computed group count.
pub proof fn lemma_thread_groups_cover(value: nat, threads: nat, i: nat)
    requires
        threads > 0,
        i < value,
    ensures
        i / threads < ceil_div(value, threads),
{
    lemma_ceil_div_exact(value, threads);
    vstd::arithmetic::div_mod::lemma_multiply_divide_lt(
        i as int,
        threads as int,
        ceil_div(value, threads) as int,
    );
}

/// Everything an executor needs to perform one dispatch once the views and
/// buffers stand: the three thread-group counts and the bytes of the
/// parameter record to upload through the staging buffer.
pub struct DispatchPlan {
    pub group_count_x: u32,
    pub group_count_y: u32,
    pub group_count_z: u32,
    pub constants: Vec<u8>,
}

/// Bytes of the GPU parameter record: the little-endian bit pattern of the
/// float threshold, padded with zeros to the 16-byte record size.
pub open spec fn spec_params_bytes(threshold_bits: u32) -> Seq<u8> {
    spec_u32_to_le_bytes(threshold_bits) + Seq::new(12, |i: int| 0u8)
}

/// The CPU-side half of one dispatch of a `width` x `height` image: thread
/// groups cover the image in tiles of `NUM_THREADS_PER_DIMENSION` on each
/// axis with a single layer in depth, and the parameter record carries the
/// threshold's bit pattern.
pub fn plan_dispatch(width: u32, height: u32, threshold_bits: u32) -> (plan: DispatchPlan)
    ensures
        plan.group_count_x == ceil_div(width as nat, NUM_THREADS_PER_DIMENSION as nat),
        plan.group_count_y == ceil_div(height as nat, NUM_THREADS_PER_DIMENSION as nat),
        plan.group_count_z == 1,
        plan.constants@ == spec_params_bytes(threshold_bits),
{
    let counts = compute_xy_thread_group_count(width, height, NUM_THREADS_PER_DIMENSION);
    let mut constants = u32_to_le_bytes(threshold_bits);
    let mut k: usize = 0;
    while k < 12
        invariant
            0 <= k <= 12,
            constants@.len() == 4 + k,
            constants@.subrange(0, 4) == spec_u32_to_le_bytes(threshold_bits),
            forall|j: int| 4 <= j < constants@.len() ==> constants@[j] == 0u8,
        decreases 12 - k,
    {
        constants.push(0);
        proof {
            assert(constants@.subrange(0, 4) =~= spec_u32_to_le_bytes(threshold_bits));
        }
        k = k + 1;
    }
    proof {
        assert(constants@ =~= spec_params_bytes(threshold_bits));
    }
    DispatchPlan { group_count_x: counts.0, group_count_y: counts.1, group_count_z: 1, constants }
}

/// Whether coordinates `(x, y)` belong to the thread group at `(gx, gy)`.
pub open spec fn in_group(x: int, y: int, gx: int, gy: int) -> bool {
    &&& x / (NUM_THREADS_PER_DIMENSION as int) == gx
    &&& y / (NUM_THREADS_PER_DIMENSION as int) == gy
}

/// Whether the thread at in-group offsets derived from `(x, y)` has already
/// run, when the group's threads are visited row by row and the visit stands
/// at row `ty`, column `tx`.
pub open spec fn thread_done(x: int, y: int, ty: int, tx: int) -> bool {
    ||| y % (NUM_THREADS_PER_DIMENSION as int) < ty
    ||| (y % (NUM_THREADS_PER_DIMENSION as int) == ty && x % (NUM_THREADS_PER_DIMENSION as int)
        < tx)
}

/// Software execution of one thread group: every thread whose coordinates
/// fall inside the image writes the kernel's step value at its pixel; threads
/// past the image edge write nothing.
fn run_group(
    out: &mut Vec<u8>,
    pixels: &Vec<u8>,
    width: u32,
    height: u32,
    threshold: u8,
    gx: u32,
    gy: u32,
)
    requires
        pixels@.len() == width * height,
        old(out)@.len() == pixels@.len(),
    ensures
        final(out)@.len() == pixels@.len(),
        forall|x: int, y: int|
            0 <= x < width && 0 <= y < height ==> final(out)@[#[trigger] pixel_index(
                width as nat,
                x,
                y,
            )] == (if in_group(x, y, gx as int, gy as int) {
                threshold_pixel(pixels@[pixel_index(width as nat, x, y)], threshold)
            } else {
                old(out)@[pixel_index(width as nat, x, y)]
            }),
{
    let mut ty: u32 = 0;
    while ty < NUM_THREADS_PER_DIMENSION
        invariant
            0 <= ty <= NUM_THREADS_PER_DIMENSION,
            pixels@.len() == width * height,
            out@.len() == pixels@.len(),
            forall|x: int, y: int|
                0 <= x < width && 0 <= y < height ==> out@[#[trigger] pixel_index(
                    width as nat,
                    x,
                    y,
                )] == (if in_group(x, y, gx as int, gy as int) && thread_done(x, y, ty as int, 0) {
                    threshold_pixel(pixels@[pixel_index(width as nat, x, y)], threshold)
                } else {
                    old(out)@[pixel_index(width as nat, x, y)]
                }),
        decreases NUM_THREADS_PER_DIMENSION - ty,
    {
        let mut tx: u32 = 0;
        while tx < NUM_THREADS_PER_DIMENSION
            invariant
                0 <= tx <= NUM_THREADS_PER_DIMENSION,
                0 <= ty < NUM_THREADS_PER_DIMENSION,
                pixels@.len() == width * height,
                out@.len() == pixels@.len(),
                forall|x: int, y: int|
                    0 <= x < width && 0 <= y < height ==> out@[#[trigger] pixel_index(
                        width as nat,
                        x,
                        y,
                    )] == (if in_group(x, y, gx as int, gy as int) && thread_done(
                        x,
                        y,
                        ty as int,
                        tx as int,
                    ) {
                        threshold_pixel(pixels@[pixel_index(width as nat, x, y)], threshold)
                    } else {
                        old(out)@[pixel_index(width as nat, x, y)]
                    }),
            decreases NUM_THREADS_PER_DIMENSION - tx,
        {
            let x64: u64 = (gx as u64) * (NUM_THREADS_PER_DIMENSION as u64) + (tx as u64);
            let y64: u64 = (gy as u64) * (NUM_THREADS_PER_DIMENSION as u64) + (ty as u64);
            if x64 < width as u64 && y64 < height as u64 {
                let x: u32 = x64 as u32;
                let y: u32 = y64 as u32;
                proof {
                    lemma_fundamental_div_mod_converse(
                        x as int,
                        NUM_THREADS_PER_DIMENSION as int,
                        gx as int,
                        tx as int,
                    );
                    lemma_fundamental_div_mod_converse(
                        y as int,
                        NUM_THREADS_PER_DIMENSION as int,
                        gy as int,
                        ty as int,
                    );
                }
                assert((y as int) * (width as int) + (x as int) < (width as int) * (height as int))
                    by (nonlinear_arith)
                    requires
                        0 <= x < width,
                        0 <= y < height,
                ;
                let image_len: usize = pixels.len();
                assert((y as int) * (width as int) + (x as int) < image_len);
                let idx: usize = (y as usize) * (width as usize) + (x as usize);
                assert(idx == pixel_index(width as nat, x as int, y as int));
                let p = pixels[idx];
                let v: u8 = if p >= threshold {
                    255
                } else {
                    0
                };
                let ghost prev = out@;
                out.set(idx, v);
                proof {
                    assert forall|px: int, py: int|
                        0 <= px < width && 0 <= py < height implies out@[#[trigger] pixel_index(
                        width as nat,
                        px,
                        py,
                    )] == (if in_group(px, py, gx as int, gy as int) && thread_done(
                        px,
                        py,
                        ty as int,
                        tx + 1,
                    ) {
                        threshold_pixel(pixels@[pixel_index(width as nat, px, py)], threshold)
                    } else {
                        old(out)@[pixel_index(width as nat, px, py)]
                    }) by {
                        lemma_pixel_index_in_range(width as nat, height as nat, px, py);
                        if px == x && py == y {
                            assert(out@[pixel_index(width as nat, px, py)] == v);
                        } else {
                            if pixel_index(width as nat, px, py) == pixel_index(
                                width as nat,
                                x as int,
                                y as int,
                            ) {
                                lemma_row_major_injective(width as int, px, py, x as int, y as int);
                            }
                            assert(out@[pixel_index(width as nat, px, py)] == prev[pixel_index(
                                width as nat,
                                px,
                                py,
                            )]);
                            if in_group(px, py, gx as int, gy as int) && py % (
                            NUM_THREADS_PER_DIMENSION as int) == ty && px % (
                            NUM_THREADS_PER_DIMENSION as int) == tx {
                                lemma_fundamental_div_mod(px, NUM_THREADS_PER_DIMENSION as int);
                                lemma_fundamental_div_mod(py, NUM_THREADS_PER_DIMENSION as int);
                                assert(px == x && py == y);
                            }
                        }
                    }
                }
            } else {
                proof {
                    assert forall|px: int, py: int|
                        0 <= px < width && 0 <= py < height implies out@[#[trigger] pixel_index(
                        width as nat,
                        px,
                        py,
                    )] == (if in_group(px, py, gx as int, gy as int) && thread_done(
                        px,
                        py,
                        ty as int,
                        tx + 1,
                    ) {
                        threshold_pixel(pixels@[pixel_index(width as nat, px, py)], threshold)
                    } else {
                        old(out)@[pixel_index(width as nat, px, py)]
                    }) by {
                        lemma_pixel_index_in_range(width as nat, height as nat, px, py);
                        if in_group(px, py, gx as int, gy as int) && py % (
                        NUM_THREADS_PER_DIMENSION as int) == ty && px % (
                        NUM_THREADS_PER_DIMENSION as int) == tx {
                            lemma_fundamental_div_mod(px, NUM_THREADS_PER_DIMENSION as int);
                            lemma_fundamental_div_mod(py, NUM_THREADS_PER_DIMENSION as int);
                        }
                    }
                }
            }
            tx = tx + 1;
        }
        ty = ty + 1;
    }
}

/// Software execution of the compute-dispatch form: the computed number of
/// thread groups is dispatched over the image, each group running its tile of
/// threads. The result is exactly the per-pixel image semantics: together
/// with the graph stage running the same kernel per pixel, the two forms are
/// interchangeable for validation.
pub fn run_reference(width: u32, height: u32, pixels: &Vec<u8>, threshold: u8) -> (out: Vec<u8>)
    requires
        pixels@.len() == width * height,
    ensures
        out@ == threshold_image(pixels@, threshold),
{
    let counts = compute_xy_thread_group_count(width, height, NUM_THREADS_PER_DIMENSION);
    let groups_x = counts.0;
    let groups_y = counts.1;
    let mut out: Vec<u8> = Vec::new();
    let mut k: usize = 0;
    while k < pixels.len()
        invariant
            out@.len() == k <= pixels@.len(),
        decreases pixels@.len() - k,
    {
        out.push(0);
        k = k + 1;
    }
    let mut gy: u32 = 0;
    while gy < groups_y
        invariant
            0 <= gy <= groups_y,
            groups_x == ceil_div(width as nat, NUM_THREADS_PER_DIMENSION as nat),
            groups_y == ceil_div(height as nat, NUM_THREADS_PER_DIMENSION as nat),
            pixels@.len() == width * height,
            out@.len() == pixels@.len(),
            forall|x: int, y: int|
                0 <= x < width && 0 <= y < height && y / (NUM_THREADS_PER_DIMENSION as int) < gy
                    ==> out@[#[trigger] pixel_index(width as nat, x, y)] == threshold_pixel(
                    pixels@[pixel_index(width as nat, x, y)],
                    threshold,
                ),
        decreases groups_y - gy,
    {
        let mut gx: u32 = 0;
        while gx < groups_x
            invariant
                0 <= gx <= groups_x,
                0 <= gy < groups_y,
                groups_x == ceil_div(width as nat, NUM_THREADS_PER_DIMENSION as nat),
                groups_y == ceil_div(height as nat, NUM_THREADS_PER_DIMENSION as nat),
                pixels@.len() == width * height,
                out@.len() == pixels@.len(),
                forall|x: int, y: int|
                    0 <= x < width && 0 <= y < height && (y / (NUM_THREADS_PER_DIMENSION as int)
                        < gy || (y / (NUM_THREADS_PER_DIMENSION as int) == gy && x / (
                    NUM_THREADS_PER_DIMENSION as int) < gx)) ==> out@[#[trigger] pixel_index(
                        width as nat,
                        x,
                        y,
                    )] == threshold_pixel(pixels@[pixel_index(width as nat, x, y)], threshold),
            decreases groups_x - gx,
        {
            run_group(&mut out, pixels, width, height, threshold, gx, gy);
            gx = gx + 1;
        }
        proof {
            assert forall|x: int, y: int|
                0 <= x < width && 0 <= y < height && y / (NUM_THREADS_PER_DIMENSION as int) < gy
                    + 1 implies out@[#[trigger] pixel_index(width as nat, x, y)]
                == threshold_pixel(pixels@[pixel_index(width as nat, x, y)], threshold) by {
                if y / (NUM_THREADS_PER_DIMENSION as int) == gy {
                    lemma_thread_groups_cover(
                        width as nat,
                        NUM_THREADS_PER_DIMENSION as nat,
                        x as nat,
                    );
                }
            }
        }
        gy = gy + 1;
    }
    proof {
        assert forall|x: int, y: int| 0 <= x < width && 0 <= y < height implies out@[
        #[trigger] pixel_index(width as nat, x, y)] == threshold_pixel(
            pixels@[pixel_index(width as nat, x, y)],
            threshold,
        ) by {
            lemma_thread_groups_cover(height as nat, NUM_THREADS_PER_DIMENSION as nat, y as nat);
        }
        lemma_forms_agree(
            pixels@,
            threshold,
            width as nat,
            height as nat,
            threshold_image(pixels@, threshold),
            out@,
        );
    }
    out
}

} // verus!
