//! The scan driver: walks both images row-major, classifies every pixel as
//! unchanged, anti-aliased or truly different, writes the corresponding
//! rendering into a fresh output buffer, and counts the real differences.
//!
//! `diff_rgba` processes each row in batches of eight pixels with an
//! exact-match fast path per batch; `diff_rgba_scalar` is the one-pixel
//! reference path. Both meet the same contract, so they produce
//! byte-identical output and identical counts.

use vstd::prelude::*;
use vstd::arithmetic::div_mod::lemma_fundamental_div_mod_converse;
use crate::options::{DiffOptions, resolve_options};
use crate::color::{
    color_delta, delta_exceeds, delta_num, lemma_pixel_pos_bound, lemma_pixel_u32_eq,
    load_pixel_u32, max_delta_num, pixel_pos, pixel_u32, px_equal, same_pixel,
};
use crate::render::{draw_gray_pixel, gray_bytes, marker_bytes, updated4, write_color};
use crate::aa::{is_antialiased, is_pixel_antialiased_optimized};

verus! {

/// Result of a diff operation: the number of pixels classified as real
/// differences and the freshly allocated visualization buffer, RGBA8
/// row-major like the inputs.
#[derive(Debug)]
pub struct DiffResult {
    pub diff_count: u32,
    pub output: Vec<u8>,
    pub width: u32,
    pub height: u32,
}

/// How the scan classifies one pixel position.
pub enum PixelClass {
    Unchanged,
    AntiAliased,
    Different,
}

/// The classification of the pixel at (`x`, `y`): byte-equal pixels and
/// pixels within the threshold are unchanged; past the threshold the
/// anti-aliasing classifier decides, when it is enabled.
pub open spec fn classify(
    a: Seq<u8>,
    b: Seq<u8>,
    w: int,
    h: int,
    opts: DiffOptions,
    x: int,
    y: int,
) -> PixelClass {
    let p = pixel_pos(w, x, y);
    if same_pixel(a, p, b, p) {
        PixelClass::Unchanged
    } else if delta_num(a, p, b, p) > max_delta_num(opts.threshold as int) {
        if opts.include_aa && is_antialiased(a, b, x, y, w, h) {
            PixelClass::AntiAliased
        } else {
            PixelClass::Different
        }
    } else {
        PixelClass::Unchanged
    }
}

/// The four output bytes of the pixel at (`x`, `y`): a grayscale rendering
/// of the first image where nothing changed, the anti-alias marker color, or
/// the diff marker color.
pub open spec fn out_pixel(
    a: Seq<u8>,
    b: Seq<u8>,
    w: int,
    h: int,
    opts: DiffOptions,
    x: int,
    y: int,
) -> Seq<u8> {
    match classify(a, b, w, h, opts, x, y) {
        PixelClass::Unchanged => gray_bytes(a, pixel_pos(w, x, y), opts.alpha as int),
        PixelClass::AntiAliased => marker_bytes(opts.aa_color@),
        PixelClass::Different => marker_bytes(opts.diff_color@),
    }
}

/// Byte `j` of the output buffer.
pub open spec fn out_byte(
    a: Seq<u8>,
    b: Seq<u8>,
    w: int,
    h: int,
    opts: DiffOptions,
    j: int,
) -> u8 {
    out_pixel(a, b, w, h, opts, (j / 4) % w, (j / 4) / w)[j % 4]
}

/// The whole output buffer.
pub open spec fn output_spec(a: Seq<u8>, b: Seq<u8>, w: int, h: int, opts: DiffOptions) -> Seq<
    u8,
> {
    Seq::new((w * h * 4) as nat, |j: int| out_byte(a, b, w, h, opts, j))
}

/// Whether the pixel with row-major index `p` is a real difference.
pub open spec fn is_diff_at(a: Seq<u8>, b: Seq<u8>, w: int, h: int, opts: DiffOptions, p: int) -> bool {
    classify(a, b, w, h, opts, p % w, p / w) is Different
}

/// How many of the first `n` pixels, in row-major order, are real
/// differences.
pub open spec fn diff_count_upto(
    a: Seq<u8>,
    b: Seq<u8>,
    w: int,
    h: int,
    opts: DiffOptions,
    n: int,
) -> int
    decreases n,
{
    if n <= 0 {
        0
    } else {
        diff_count_upto(a, b, w, h, opts, n - 1) + if is_diff_at(a, b, w, h, opts, n - 1) {
            1int
        } else {
            0int
        }
    }
}

/// The number of pixels classified as real differences.
pub open spec fn total_diff_count(a: Seq<u8>, b: Seq<u8>, w: int, h: int, opts: DiffOptions) -> int {
    diff_count_upto(a, b, w, h, opts, w * h)
}

/// The difference count over a prefix never exceeds the prefix length.
pub proof fn lemma_diff_count_le(a: Seq<u8>, b: Seq<u8>, w: int, h: int, opts: DiffOptions, n: int)
    requires
        n >= 0,
    ensures
        0 <= diff_count_upto(a, b, w, h, opts, n) <= n,
    decreases n,
{
    if n > 0 {
        lemma_diff_count_le(a, b, w, h, opts, n - 1);
    }
}

/// Row-major index arithmetic: the pixel with index `y * w + x` sits at
/// column `x`, row `y`.
pub proof fn lemma_pixel_index(w: int, x: int, y: int)
    requires
        0 <= x < w,
        0 <= y,
    ensures
        (y * w + x) % w == x,
        (y * w + x) / w == y,
{
    lemma_fundamental_div_mod_converse(y * w + x, w, y, x);
}

/// The four output bytes of the pixel at (`x`, `y`) are the bytes of
/// `out_pixel` at that position.
pub proof fn lemma_out_byte_pixel(
    a: Seq<u8>,
    b: Seq<u8>,
    w: int,
    h: int,
    opts: DiffOptions,
    x: int,
    y: int,
    j: int,
)
    requires
        0 <= x < w,
        0 <= y,
        pixel_pos(w, x, y) <= j < pixel_pos(w, x, y) + 4,
    ensures
        out_byte(a, b, w, h, opts, j) == out_pixel(a, b, w, h, opts, x, y)[j - pixel_pos(w, x, y)],
{
    let p = y * w + x;
    lemma_fundamental_div_mod_converse(j, 4, p, j - 4 * p);
    lemma_pixel_index(w, x, y);
}

/// The pixel with row-major index `y * w + x` is a real difference exactly
/// when its classification says so.
pub proof fn lemma_diff_at_pixel(
    a: Seq<u8>,
    b: Seq<u8>,
    w: int,
    h: int,
    opts: DiffOptions,
    x: int,
    y: int,
)
    requires
        0 <= x < w,
        0 <= y,
    ensures
        is_diff_at(a, b, w, h, opts, y * w + x) == (classify(a, b, w, h, opts, x, y)
            is Different),
{
    lemma_pixel_index(w, x, y);
}

/// Relies on wide::u32x8::cmp_eq: each lane of the result is all ones where
/// the operand lanes are equal and zero where they differ.
#[verifier::external_body]
fn eq_mask8(a: &[u32; 8], b: &[u32; 8]) -> (r: [u32; 8])
    ensures
        forall|i: int|
            0 <= i < 8 ==> r@[i] == (if a@[i] == b@[i] {
                0xffffffffu32
            } else {
                0u32
            }),
{
    wide::u32x8::new(*a).cmp_eq(wide::u32x8::new(*b)).to_array()
}

/// Classify the pixel at (`x`, `y`), write its rendering into the output
/// buffer, and count it when it is a real difference.
fn process_pixel(
    a: &[u8],
    b: &[u8],
    width: u32,
    height: u32,
    opts: DiffOptions,
    x: usize,
    y: usize,
    out: &mut Vec<u8>,
    dc: &mut u32,
)
    requires
        opts.valid(),
        a@.len() == width * height * 4,
        b@.len() == width * height * 4,
        old(out)@.len() == a@.len(),
        x < width,
        y < height,
        opts.include_aa ==> width * height * 4 <= i32::MAX,
        *old(dc) < u32::MAX,
    ensures
        updated4(
            old(out)@,
            final(out)@,
            pixel_pos(width as int, x as int, y as int),
            out_pixel(a@, b@, width as int, height as int, opts, x as int, y as int),
        ),
        *final(dc) == *old(dc) + (if classify(
            a@,
            b@,
            width as int,
            height as int,
            opts,
            x as int,
            y as int,
        ) is Different {
            1int
        } else {
            0int
        }),
{
    proof {
        lemma_pixel_pos_bound(width as int, height as int, x as int, y as int);
    }
    proof {
        assert(a@.len() == a.len());
    }
    let w = width as usize;
    let pos = (y * w + x) * 4;
    if px_equal(a, pos, b, pos) {
        draw_gray_pixel(a, pos, opts.alpha, out);
    } else {
        let delta = color_delta(a, pos, b, pos);
        if delta_exceeds(delta, opts.threshold) {
            proof {
                assert(width <= width * height * 4 && height <= width * height * 4)
                    by (nonlinear_arith)
                    requires
                        1 <= width,
                        1 <= height,
                ;
            }
            let aa = opts.include_aa && is_pixel_antialiased_optimized(
                a,
                b,
                x as i32,
                y as i32,
                width as i32,
                height as i32,
            );
            if aa {
                write_color(out, pos, &opts.aa_color);
            } else {
                write_color(out, pos, &opts.diff_color);
                *dc = *dc + 1;
            }
        } else {
            draw_gray_pixel(a, pos, opts.alpha, out);
        }
    }
}

/// Compare two same-sized RGBA8 buffers one pixel at a time: the reference
/// scan. Returns the visualization buffer and the count of pixels classified
/// as real differences; `diff_rgba` meets the same contract in batches.
pub fn diff_rgba_scalar(
    img1: &[u8],
    img2: &[u8],
    width: u32,
    height: u32,
    opts: Option<DiffOptions>,
) -> (r: DiffResult)
    requires
        img1@.len() == width * height * 4,
        img2@.len() == width * height * 4,
        width * height <= u32::MAX,
        resolve_options(opts).valid(),
        resolve_options(opts).include_aa ==> width * height * 4 <= i32::MAX,
    ensures
        r.width == width,
        r.height == height,
        r.output@.len() == width * height * 4,
        r.output@ == output_spec(
            img1@,
            img2@,
            width as int,
            height as int,
            resolve_options(opts),
        ),
        r.diff_count == total_diff_count(
            img1@,
            img2@,
            width as int,
            height as int,
            resolve_options(opts),
        ),
        r.diff_count <= width * height,
{
    let o = match opts {
        Option::Some(given) => given,
        Option::None => DiffOptions::default(),
    };
    let n = img1.len();
    let w = width as usize;
    let h = height as usize;
    let mut out: Vec<u8> = vec![0u8; n];
    let mut dc: u32 = 0;
    let mut y: usize = 0;
    while y < h
        invariant
            y <= h,
            w == width as usize,
            h == height as usize,
            o == resolve_options(opts),
            o.valid(),
            o.include_aa ==> width * height * 4 <= i32::MAX,
            img1@.len() == width * height * 4,
            img2@.len() == width * height * 4,
            img1@.len() <= usize::MAX,
            width * height <= u32::MAX,
            out@.len() == img1@.len(),
            forall|j: int|
                0 <= j < (y * w) * 4 ==> out@[j] == out_byte(
                    img1@,
                    img2@,
                    width as int,
                    height as int,
                    o,
                    j,
                ),
            dc == diff_count_upto(
                img1@,
                img2@,
                width as int,
                height as int,
                o,
                (y * w) as int,
            ),
        decreases h - y,
    {
        let mut x: usize = 0;
        while x < w
            invariant
                x <= w,
                y < h,
                w == width as usize,
                h == height as usize,
                o == resolve_options(opts),
                o.valid(),
                o.include_aa ==> width * height * 4 <= i32::MAX,
                img1@.len() == width * height * 4,
                img2@.len() == width * height * 4,
                img1@.len() <= usize::MAX,
                width * height <= u32::MAX,
                out@.len() == img1@.len(),
                forall|j: int|
                    0 <= j < (y * w + x) * 4 ==> out@[j] == out_byte(
                        img1@,
                        img2@,
                        width as int,
                        height as int,
                        o,
                        j,
                    ),
                dc == diff_count_upto(
                    img1@,
                    img2@,
                    width as int,
                    height as int,
                    o,
                    (y * w + x) as int,
                ),
            decreases w - x,
        {
            proof {
                lemma_pixel_pos_bound(width as int, height as int, x as int, y as int);
                lemma_diff_count_le(
                    img1@,
                    img2@,
                    width as int,
                    height as int,
                    o,
                    (y * w + x) as int,
                );
            }
            process_pixel(img1, img2, width, height, o, x, y, &mut out, &mut dc);
            proof {
                lemma_diff_at_pixel(
                    img1@,
                    img2@,
                    width as int,
                    height as int,
                    o,
                    x as int,
                    y as int,
                );
                assert forall|j: int|
                    0 <= j < (y * w + x + 1) * 4 implies out@[j] == out_byte(
                    img1@,
                    img2@,
                    width as int,
                    height as int,
                    o,
                    j,
                ) by {
                    if j >= (y * w + x) * 4 {
                        lemma_out_byte_pixel(
                            img1@,
                            img2@,
                            width as int,
                            height as int,
                            o,
                            x as int,
                            y as int,
                            j,
                        );
                    }
                }
            }
            x = x + 1;
        }
        proof {
            assert((y + 1) * w == y * w + w) by (nonlinear_arith);
        }
        y = y + 1;
    }
    proof {
        assert(h * w == w * h) by (nonlinear_arith);
        lemma_diff_count_le(img1@, img2@, width as int, height as int, o, (w * h) as int);
        assert(out@ =~= output_spec(img1@, img2@, width as int, height as int, o));
    }
    DiffResult { diff_count: dc, output: out, width, height }
}

/// Compare two same-sized RGBA8 buffers, processing each row in batches of
/// eight pixels: a batch whose sixteen pixels all match byte for byte is
/// rendered grayscale without any per-pixel distance work, other batches
/// fall back to the per-pixel path, and so does the remainder of a row
/// narrower than the batch. Meets the same contract as `diff_rgba_scalar`,
/// so the two produce byte-identical output and identical counts.
pub fn diff_rgba(
    img1: &[u8],
    img2: &[u8],
    width: u32,
    height: u32,
    opts: Option<DiffOptions>,
) -> (r: DiffResult)
    requires
        img1@.len() == width * height * 4,
        img2@.len() == width * height * 4,
        width * height <= u32::MAX,
        resolve_options(opts).valid(),
        resolve_options(opts).include_aa ==> width * height * 4 <= i32::MAX,
    ensures
        r.width == width,
        r.height == height,
        r.output@.len() == width * height * 4,
        r.output@ == output_spec(
            img1@,
            img2@,
            width as int,
            height as int,
            resolve_options(opts),
        ),
        r.diff_count == total_diff_count(
            img1@,
            img2@,
            width as int,
            height as int,
            resolve_options(opts),
        ),
        r.diff_count <= width * height,
{
    let o = match opts {
        Option::Some(given) => given,
        Option::None => DiffOptions::default(),
    };
    let n = img1.len();
    let w = width as usize;
    let h = height as usize;
    let mut out: Vec<u8> = vec![0u8; n];
    let mut dc: u32 = 0;
    let mut y: usize = 0;
    while y < h
        invariant
            y <= h,
            w == width as usize,
            h == height as usize,
            o == resolve_options(opts),
            o.valid(),
            o.include_aa ==> width * height * 4 <= i32::MAX,
            img1@.len() == width * height * 4,
            img2@.len() == width * height * 4,
            img1@.len() <= usize::MAX,
            width * height <= u32::MAX,
            out@.len() == img1@.len(),
            forall|j: int|
                0 <= j < (y * w) * 4 ==> out@[j] == out_byte(
                    img1@,
                    img2@,
                    width as int,
                    height as int,
                    o,
                    j,
                ),
            dc == diff_count_upto(
                img1@,
                img2@,
                width as int,
                height as int,
                o,
                (y * w) as int,
            ),
        decreases h - y,
    {
        let mut x: usize = 0;
        proof {
            assert(width * 4 <= width * height * 4) by (nonlinear_arith)
                requires
                    1 <= height,
                    0 <= width,
            ;
        }
        while x + 8 <= w
            invariant
                x <= w,
                width * 4 <= img1@.len(),
                y < h,
                w == width as usize,
                h == height as usize,
                o == resolve_options(opts),
                o.valid(),
                o.include_aa ==> width * height * 4 <= i32::MAX,
                img1@.len() == width * height * 4,
                img2@.len() == width * height * 4,
                img1@.len() <= usize::MAX,
                width * height <= u32::MAX,
                out@.len() == img1@.len(),
                forall|j: int|
                    0 <= j < (y * w + x) * 4 ==> out@[j] == out_byte(
                        img1@,
                        img2@,
                        width as int,
                        height as int,
                        o,
                        j,
                    ),
                dc == diff_count_upto(
                    img1@,
                    img2@,
                    width as int,
                    height as int,
                    o,
                    (y * w + x) as int,
                ),
            decreases w - x,
        {
            proof {
                lemma_pixel_pos_bound(width as int, height as int, (x + 7) as int, y as int);
            }
            let base = (y * w + x) * 4;
            let pa = [
                load_pixel_u32(img1, base),
                load_pixel_u32(img1, base + 4),
                load_pixel_u32(img1, base + 8),
                load_pixel_u32(img1, base + 12),
                load_pixel_u32(img1, base + 16),
                load_pixel_u32(img1, base + 20),
                load_pixel_u32(img1, base + 24),
                load_pixel_u32(img1, base + 28),
            ];
            let pb = [
                load_pixel_u32(img2, base),
                load_pixel_u32(img2, base + 4),
                load_pixel_u32(img2, base + 8),
                load_pixel_u32(img2, base + 12),
                load_pixel_u32(img2, base + 16),
                load_pixel_u32(img2, base + 20),
                load_pixel_u32(img2, base + 24),
                load_pixel_u32(img2, base + 28),
            ];
            let mask = eq_mask8(&pa, &pb);
            let all_eq = mask[0] != 0 && mask[1] != 0 && mask[2] != 0 && mask[3] != 0 && mask[4]
                != 0 && mask[5] != 0 && mask[6] != 0 && mask[7] != 0;
            if all_eq {
                let mut i: usize = 0;
                while i < 8
                    invariant
                        i <= 8,
                        x + 8 <= w,
                        y < h,
                        w == width as usize,
                        h == height as usize,
                        o.valid(),
                        o.include_aa ==> width * height * 4 <= i32::MAX,
                        img1@.len() == width * height * 4,
                        img2@.len() == width * height * 4,
                        img1@.len() <= usize::MAX,
                        width * height <= u32::MAX,
                        out@.len() == img1@.len(),
                        base == pixel_pos(width as int, x as int, y as int),
                        base + 32 <= img1@.len(),
                        forall|t: int|
                            0 <= t < 8 ==> #[trigger] pixel_u32(img1@, base + 4 * t)
                                == pixel_u32(img2@, base + 4 * t),
                        forall|j: int|
                            0 <= j < (y * w + x + i) * 4 ==> out@[j] == out_byte(
                                img1@,
                                img2@,
                                width as int,
                                height as int,
                                o,
                                j,
                            ),
                        dc == diff_count_upto(
                            img1@,
                            img2@,
                            width as int,
                            height as int,
                            o,
                            (y * w + x + i) as int,
                        ),
                    decreases 8 - i,
                {
                    let pos = base + i * 4;
                    proof {
                        lemma_pixel_pos_bound(
                            width as int,
                            height as int,
                            (x + i) as int,
                            y as int,
                        );
                        let p = base + 4 * (i as int);
                        assert(pixel_u32(img1@, p) == pixel_u32(img2@, p));
                        lemma_pixel_u32_eq(
                            img1@[p],
                            img1@[p + 1],
                            img1@[p + 2],
                            img1@[p + 3],
                            img2@[p],
                            img2@[p + 1],
                            img2@[p + 2],
                            img2@[p + 3],
                        );
                        assert(same_pixel(img1@, p, img2@, p));
                        lemma_diff_at_pixel(
                            img1@,
                            img2@,
                            width as int,
                            height as int,
                            o,
                            (x + i) as int,
                            y as int,
                        );
                    }
                    draw_gray_pixel(img1, pos, o.alpha, &mut out);
                    proof {
                        assert forall|j: int|
                            0 <= j < (y * w + x + i + 1) * 4 implies out@[j] == out_byte(
                            img1@,
                            img2@,
                            width as int,
                            height as int,
                            o,
                            j,
                        ) by {
                            if j >= (y * w + x + i) * 4 {
                                lemma_out_byte_pixel(
                                    img1@,
                                    img2@,
                                    width as int,
                                    height as int,
                                    o,
                                    (x + i) as int,
                                    y as int,
                                    j,
                                );
                            }
                        }
                    }
                    i = i + 1;
                }
            } else {
                let mut i: usize = 0;
                while i < 8
                    invariant
                        i <= 8,
                        x + 8 <= w,
                        y < h,
                        w == width as usize,
                        h == height as usize,
                        o.valid(),
                        o.include_aa ==> width * height * 4 <= i32::MAX,
                        img1@.len() == width * height * 4,
                        img2@.len() == width * height * 4,
                        img1@.len() <= usize::MAX,
                        width * height <= u32::MAX,
                        out@.len() == img1@.len(),
                        forall|j: int|
                            0 <= j < (y * w + x + i) * 4 ==> out@[j] == out_byte(
                                img1@,
                                img2@,
                                width as int,
                                height as int,
                                o,
                                j,
                            ),
                        dc == diff_count_upto(
                            img1@,
                            img2@,
                            width as int,
                            height as int,
                            o,
                            (y * w + x + i) as int,
                        ),
                    decreases 8 - i,
                {
                    proof {
                        lemma_pixel_pos_bound(
                            width as int,
                            height as int,
                            (x + i) as int,
                            y as int,
                        );
                        lemma_diff_count_le(
                            img1@,
                            img2@,
                            width as int,
                            height as int,
                            o,
                            (y * w + x + i) as int,
                        );
                    }
                    process_pixel(img1, img2, width, height, o, x + i, y, &mut out, &mut dc);
                    proof {
                        lemma_diff_at_pixel(
                            img1@,
                            img2@,
                            width as int,
                            height as int,
                            o,
                            (x + i) as int,
                            y as int,
                        );
                        assert forall|j: int|
                            0 <= j < (y * w + x + i + 1) * 4 implies out@[j] == out_byte(
                            img1@,
                            img2@,
                            width as int,
                            height as int,
                            o,
                            j,
                        ) by {
                            if j >= (y * w + x + i) * 4 {
                                lemma_out_byte_pixel(
                                    img1@,
                                    img2@,
                                    width as int,
                                    height as int,
                                    o,
                                    (x + i) as int,
                                    y as int,
                                    j,
                                );
                            }
                        }
                    }
                    i = i + 1;
                }
            }
            x = x + 8;
        }
        while x < w
            invariant
                x <= w,
                y < h,
                w == width as usize,
                h == height as usize,
                o == resolve_options(opts),
                o.valid(),
                o.include_aa ==> width * height * 4 <= i32::MAX,
                img1@.len() == width * height * 4,
                img2@.len() == width * height * 4,
                img1@.len() <= usize::MAX,
                width * height <= u32::MAX,
                out@.len() == img1@.len(),
                forall|j: int|
                    0 <= j < (y * w + x) * 4 ==> out@[j] == out_byte(
                        img1@,
                        img2@,
                        width as int,
                        height as int,
                        o,
                        j,
                    ),
                dc == diff_count_upto(
                    img1@,
                    img2@,
                    width as int,
                    height as int,
                    o,
                    (y * w + x) as int,
                ),
            decreases w - x,
        {
            proof {
                lemma_pixel_pos_bound(width as int, height as int, x as int, y as int);
                lemma_diff_count_le(
                    img1@,
                    img2@,
                    width as int,
                    height as int,
                    o,
                    (y * w + x) as int,
                );
            }
            process_pixel(img1, img2, width, height, o, x, y, &mut out, &mut dc);
            proof {
                lemma_diff_at_pixel(
                    img1@,
                    img2@,
                    width as int,
                    height as int,
                    o,
                    x as int,
                    y as int,
                );
                assert forall|j: int|
                    0 <= j < (y * w + x + 1) * 4 implies out@[j] == out_byte(
                    img1@,
                    img2@,
                    width as int,
                    height as int,
                    o,
                    j,
                ) by {
                    if j >= (y * w + x) * 4 {
                        lemma_out_byte_pixel(
                            img1@,
                            img2@,
                            width as int,
                            height as int,
                            o,
                            x as int,
                            y as int,
                            j,
                        );
                    }
                }
            }
            x = x + 1;
        }
        proof {
            assert((y + 1) * w == y * w + w) by (nonlinear_arith);
        }
        y = y + 1;
    }
    proof {
        assert(h * w == w * h) by (nonlinear_arith);
        lemma_diff_count_le(img1@, img2@, width as int, height as int, o, (w * h) as int);
        assert(out@ =~= output_spec(img1@, img2@, width as int, height as int, o));
    }
    DiffResult { diff_count: dc, output: out, width, height }
}

} // verus!
