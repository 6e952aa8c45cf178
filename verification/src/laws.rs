//! Properties of the scan that hold for all inputs, proved once and for all:
//! comparing an image against itself finds nothing, detection does not care
//! which image comes first, raising the threshold never finds more, and
//! every output pixel is fully opaque.

use vstd::prelude::*;
use crate::options::DiffOptions;
use crate::color::{delta_num, luma_num, i_num, q_num, max_delta_num, pixel_pos, same_pixel};
use crate::render::gray_bytes;
use crate::engine::{classify, diff_count_upto, out_pixel, output_spec, total_diff_count};

verus! {

/// No prefix of the scan of an image against itself counts a difference.
proof fn lemma_identity_count(a: Seq<u8>, w: int, h: int, opts: DiffOptions, n: int)
    requires
        n >= 0,
    ensures
        diff_count_upto(a, a, w, h, opts, n) == 0,
    decreases n,
{
    if n > 0 {
        lemma_identity_count(a, w, h, opts, n - 1);
    }
}

/// Diffing an image against itself counts no differences and renders every
/// pixel as the grayscale rendering of that image.
pub proof fn lemma_identity(a: Seq<u8>, w: int, h: int, opts: DiffOptions)
    requires
        w >= 0,
        h >= 0,
    ensures
        total_diff_count(a, a, w, h, opts) == 0,
        forall|x: int, y: int|
            0 <= x < w && 0 <= y < h ==> out_pixel(a, a, w, h, opts, x, y) == gray_bytes(
                a,
                pixel_pos(w, x, y),
                opts.alpha as int,
            ),
{
    lemma_identity_count(a, w, h, opts, w * h);
}

/// Byte-identical pixels have color distance zero: the scan's equality
/// fast path, which skips the distance computation, agrees with the full
/// computation on every pixel it skips.
pub proof fn lemma_equal_pixels_zero_delta(a: Seq<u8>, pa: int, b: Seq<u8>, pb: int)
    requires
        same_pixel(a, pa, b, pb),
    ensures
        delta_num(a, pa, b, pb) == 0,
{
    assert(luma_num(a, pa) == luma_num(b, pb));
    assert(i_num(a, pa) == i_num(b, pb));
    assert(q_num(a, pa) == q_num(b, pb));
}

/// The color distance is symmetric: swapping the two pixels negates every
/// component difference, and the squares agree.
proof fn lemma_delta_symmetric(a: Seq<u8>, pa: int, b: Seq<u8>, pb: int)
    ensures
        delta_num(a, pa, b, pb) == delta_num(b, pb, a, pa),
{
    let dy = luma_num(a, pa) - luma_num(b, pb);
    let di = i_num(a, pa) - i_num(b, pb);
    let dq = q_num(a, pa) - q_num(b, pb);
    assert(dy * dy == (-dy) * (-dy) && di * di == (-di) * (-di) && dq * dq == (-dq) * (-dq))
        by (nonlinear_arith);
}

/// With the anti-aliasing classifier off, the classification of a pixel does
/// not depend on which image comes first.
proof fn lemma_classify_symmetric(
    a: Seq<u8>,
    b: Seq<u8>,
    w: int,
    h: int,
    opts: DiffOptions,
    x: int,
    y: int,
)
    requires
        !opts.include_aa,
    ensures
        classify(a, b, w, h, opts, x, y) == classify(b, a, w, h, opts, x, y),
{
    lemma_delta_symmetric(a, pixel_pos(w, x, y), b, pixel_pos(w, x, y));
}

/// Prefix counts of the two scan orders agree, with the anti-aliasing
/// classifier off.
proof fn lemma_symmetry_count(
    a: Seq<u8>,
    b: Seq<u8>,
    w: int,
    h: int,
    opts: DiffOptions,
    n: int,
)
    requires
        !opts.include_aa,
        n >= 0,
    ensures
        diff_count_upto(a, b, w, h, opts, n) == diff_count_upto(b, a, w, h, opts, n),
    decreases n,
{
    if n > 0 {
        lemma_symmetry_count(a, b, w, h, opts, n - 1);
        lemma_classify_symmetric(a, b, w, h, opts, (n - 1) % w, (n - 1) / w);
    }
}

/// Detection is symmetric: with the anti-aliasing classifier off, swapping
/// the two images leaves the difference count unchanged. (The rendering is
/// not symmetric: unchanged pixels are rendered from whichever image comes
/// first. With the classifier on, the count itself can change under a swap,
/// because the extremal neighbors are ranked in the first image.)
pub proof fn lemma_detection_symmetry(a: Seq<u8>, b: Seq<u8>, w: int, h: int, opts: DiffOptions)
    requires
        !opts.include_aa,
        w >= 0,
        h >= 0,
    ensures
        total_diff_count(a, b, w, h, opts) == total_diff_count(b, a, w, h, opts),
{
    lemma_symmetry_count(a, b, w, h, opts, w * h);
}

/// A pixel that counts as different under the looser threshold also counts
/// under the stricter one: the cutoff grows with the threshold and nothing
/// else in the classification moves.
proof fn lemma_classify_monotone(
    a: Seq<u8>,
    b: Seq<u8>,
    w: int,
    h: int,
    strict: DiffOptions,
    loose: DiffOptions,
    x: int,
    y: int,
)
    requires
        strict.threshold <= loose.threshold,
        strict.include_aa == loose.include_aa,
    ensures
        classify(a, b, w, h, loose, x, y) is Different ==> classify(
            a,
            b,
            w,
            h,
            strict,
            x,
            y,
        ) is Different,
{
    let t1 = strict.threshold as int;
    let t2 = loose.threshold as int;
    assert(35215 * (t1 * t1) * 65025 * 1000000000000 <= 35215 * (t2 * t2) * 65025
        * 1000000000000) by (nonlinear_arith)
        requires
            0 <= t1 <= t2,
    ;
    assert(max_delta_num(t1) <= max_delta_num(t2));
}

/// Prefix counts never grow when the threshold grows.
proof fn lemma_monotone_count(
    a: Seq<u8>,
    b: Seq<u8>,
    w: int,
    h: int,
    strict: DiffOptions,
    loose: DiffOptions,
    n: int,
)
    requires
        strict.threshold <= loose.threshold,
        strict.include_aa == loose.include_aa,
        n >= 0,
    ensures
        diff_count_upto(a, b, w, h, loose, n) <= diff_count_upto(a, b, w, h, strict, n),
    decreases n,
{
    if n > 0 {
        lemma_monotone_count(a, b, w, h, strict, loose, n - 1);
        lemma_classify_monotone(a, b, w, h, strict, loose, (n - 1) % w, (n - 1) / w);
    }
}

/// Raising the threshold never raises the difference count, for any two
/// images and any shared anti-aliasing setting.
pub proof fn lemma_threshold_monotone(
    a: Seq<u8>,
    b: Seq<u8>,
    w: int,
    h: int,
    strict: DiffOptions,
    loose: DiffOptions,
)
    requires
        strict.threshold <= loose.threshold,
        strict.include_aa == loose.include_aa,
        w >= 0,
        h >= 0,
    ensures
        total_diff_count(a, b, w, h, loose) <= total_diff_count(a, b, w, h, strict),
{
    lemma_monotone_count(a, b, w, h, strict, loose, w * h);
}

/// The output buffer is complete and fully opaque: it covers every pixel of
/// the input, and the alpha byte of every output pixel is 255, whichever of
/// the three renderings the pixel received.
pub proof fn lemma_output_opaque(a: Seq<u8>, b: Seq<u8>, w: int, h: int, opts: DiffOptions)
    requires
        w >= 0,
        h >= 0,
    ensures
        output_spec(a, b, w, h, opts).len() == w * h * 4,
        forall|j: int|
            0 <= j < w * h * 4 && j % 4 == 3 ==> output_spec(a, b, w, h, opts)[j] == 255,
{
    assert(w * h * 4 >= 0) by (nonlinear_arith)
        requires
            w >= 0,
            h >= 0,
    ;
    assert forall|j: int|
        0 <= j < w * h * 4 && j % 4 == 3 implies output_spec(a, b, w, h, opts)[j] == 255 by {
        let px = out_pixel(a, b, w, h, opts, (j / 4) % w, (j / 4) / w);
        assert(px[3] == 255);
    }
}

} // verus!
