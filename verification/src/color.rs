//! The color model: exact fixed-point YIQ color distance between two RGBA8
//! pixels after alpha compositing over a white background.
//!
//! Every quantity is an integer numerator over a fixed denominator:
//! a composited channel is carried times 255, a Y/I/Q component times
//! 255 * 10^8, and the weighted squared distance times 10^4 * (255 * 10^8)^2.
//! The threshold comparison cross-multiplies, so it is exact.

use vstd::prelude::*;

verus! {

/// YIQ coefficients, in hundred-millionths (so 29889531 stands for
/// 0.29889531).
pub const Y_R: i64 = 29889531;
pub const Y_G: i64 = 58662247;
pub const Y_B: i64 = 11448223;
pub const I_R: i64 = 59597799;
pub const I_G: i64 = 27417610;
pub const I_B: i64 = 32180189;
pub const Q_R: i64 = 21147017;
pub const Q_G: i64 = 52261711;
pub const Q_B: i64 = 31114694;

/// Weights of the squared YIQ components, in ten-thousandths.
pub const W_Y: i64 = 5053;
pub const W_I: i64 = 2990;
pub const W_Q: i64 = 1957;

/// A channel of the pixel whose first byte sits at `pos`: `k` is 0 for red,
/// 1 for green, 2 for blue, 3 for alpha.
pub open spec fn chan(img: Seq<u8>, pos: int, k: int) -> int {
    img[pos + k] as int
}

/// 255 times the channel value after compositing over a white background:
/// the channel `c` with coverage `a / 255` blended toward white is
/// `255 + (c - 255) * a / 255`.
pub open spec fn blend_num(c: int, a: int) -> int {
    65025 + (c - 255) * a
}

/// The Y (luma) component of the composited pixel at `pos`, times
/// 255 * 10^8.
pub open spec fn luma_num(img: Seq<u8>, pos: int) -> int {
    Y_R * blend_num(chan(img, pos, 0), chan(img, pos, 3))
        + Y_G * blend_num(chan(img, pos, 1), chan(img, pos, 3))
        + Y_B * blend_num(chan(img, pos, 2), chan(img, pos, 3))
}

/// The I (orange-blue chroma) component, times 255 * 10^8.
pub open spec fn i_num(img: Seq<u8>, pos: int) -> int {
    I_R * blend_num(chan(img, pos, 0), chan(img, pos, 3))
        - I_G * blend_num(chan(img, pos, 1), chan(img, pos, 3))
        - I_B * blend_num(chan(img, pos, 2), chan(img, pos, 3))
}

/// The Q (purple-green chroma) component, times 255 * 10^8.
pub open spec fn q_num(img: Seq<u8>, pos: int) -> int {
    Q_R * blend_num(chan(img, pos, 0), chan(img, pos, 3))
        - Q_G * blend_num(chan(img, pos, 1), chan(img, pos, 3))
        + Q_B * blend_num(chan(img, pos, 2), chan(img, pos, 3))
}

/// The weighted squared YIQ distance between the pixel of `a` at `pa` and
/// the pixel of `b` at `pb`, times 10^4 * (255 * 10^8)^2.
pub open spec fn delta_num(a: Seq<u8>, pa: int, b: Seq<u8>, pb: int) -> int {
    let dy = luma_num(a, pa) - luma_num(b, pb);
    let di = i_num(a, pa) - i_num(b, pb);
    let dq = q_num(a, pa) - q_num(b, pb);
    W_Y * (dy * dy) + W_I * (di * di) + W_Q * (dq * dq)
}

/// The largest distance still considered unchanged, on the same scale as
/// `delta_num`: the normalized distance is compared against
/// 35215 * (threshold / 10^4)^2, so the numerator comparison is against
/// 35215 * threshold^2 * 65025 * 10^12.
pub open spec fn max_delta_num(threshold: int) -> int {
    35215 * (threshold * threshold) * 65025 * 1000000000000
}

/// The signed luma difference between two pixels, times 255 * 10^8. Used by
/// the anti-aliasing classifier, which ranks a pixel's neighbors by how much
/// darker or brighter they are.
pub open spec fn brightness_delta_num(a: Seq<u8>, pa: int, b: Seq<u8>, pb: int) -> int {
    luma_num(a, pa) - luma_num(b, pb)
}

/// The luma of the raw (non-composited) channels at `pos`, times 10^8. The
/// grayscale rendering of unchanged pixels starts from this value.
pub open spec fn raw_luma_num(img: Seq<u8>, pos: int) -> int {
    Y_R * chan(img, pos, 0) + Y_G * chan(img, pos, 1) + Y_B * chan(img, pos, 2)
}

/// The grayscale byte rendered for an unchanged pixel: the truncated raw
/// luma, blended toward white by `alpha / 10^4` scaled with the source
/// alpha, clamped to a byte. `v` is the blend numerator over 255 * 10^4.
pub open spec fn gray_value(img: Seq<u8>, pos: int, alpha: int) -> int {
    let yq = raw_luma_num(img, pos) / 100000000;
    let v = 650250000 + (yq - 255) * alpha * chan(img, pos, 3);
    if v <= 0 {
        0
    } else if v / 2550000 >= 255 {
        255
    } else {
        v / 2550000
    }
}

/// Largest possible `luma_num` value: (Y_R + Y_G + Y_B) * 65025.
pub const LUMA_NUM_MAX: i64 = 6502500065025;

/// Largest magnitude of `i_num`: I_R * 65025 on both sides.
pub const I_NUM_MAX: i64 = 3875346879975;

/// Largest magnitude of `q_num`: Q_G * 65025 on both sides.
pub const Q_NUM_MAX: i64 = 3398317757775;

/// Squares of bounded values stay bounded; shared by the overflow proofs of
/// the distance computation.
proof fn lemma_square_bound(x: int, b: int)
    by (nonlinear_arith)
    requires
        -b <= x <= b,
    ensures
        0 <= x * x <= b * b,
{
}

/// 255 times the composited value of channel `c` under alpha `a`.
fn blend_chan(c: u8, a: u8) -> (r: i64)
    ensures
        r == blend_num(c as int, a as int),
        0 <= r <= 65025,
{
    proof {
        assert(0 <= (c as int - 255) * (a as int) + 65025 <= 65025) by (nonlinear_arith)
            requires
                0 <= c < 256,
                0 <= a < 256,
        ;
    }
    65025 + (c as i64 - 255) * (a as i64)
}

/// The three composited channel numerators of the pixel at `pos`.
fn blend_pixel(img: &[u8], pos: usize) -> (r: (i64, i64, i64))
    requires
        pos + 4 <= img@.len(),
    ensures
        r.0 == blend_num(chan(img@, pos as int, 0), chan(img@, pos as int, 3)),
        r.1 == blend_num(chan(img@, pos as int, 1), chan(img@, pos as int, 3)),
        r.2 == blend_num(chan(img@, pos as int, 2), chan(img@, pos as int, 3)),
        0 <= r.0 <= 65025,
        0 <= r.1 <= 65025,
        0 <= r.2 <= 65025,
{
    proof {
        assert(img@.len() == img.len());
    }
    let a = img[pos + 3];
    (blend_chan(img[pos], a), blend_chan(img[pos + 1], a), blend_chan(img[pos + 2], a))
}

/// The composited luma numerator of the pixel at `pos`.
pub fn pixel_luma(img: &[u8], pos: usize) -> (r: i64)
    requires
        pos + 4 <= img@.len(),
    ensures
        r == luma_num(img@, pos as int),
        0 <= r <= LUMA_NUM_MAX,
{
    let (rb, gb, bb) = blend_pixel(img, pos);
    Y_R * rb + Y_G * gb + Y_B * bb
}

/// The composited I numerator of the pixel at `pos`.
fn pixel_i(img: &[u8], pos: usize) -> (r: i64)
    requires
        pos + 4 <= img@.len(),
    ensures
        r == i_num(img@, pos as int),
        -I_NUM_MAX <= r <= I_NUM_MAX,
{
    let (rb, gb, bb) = blend_pixel(img, pos);
    I_R * rb - I_G * gb - I_B * bb
}

/// The composited Q numerator of the pixel at `pos`.
fn pixel_q(img: &[u8], pos: usize) -> (r: i64)
    requires
        pos + 4 <= img@.len(),
    ensures
        r == q_num(img@, pos as int),
        -Q_NUM_MAX <= r <= Q_NUM_MAX,
{
    let (rb, gb, bb) = blend_pixel(img, pos);
    Q_R * rb - Q_G * gb + Q_B * bb
}

/// The weighted sum of the three squared component differences. Kept apart
/// so its overflow bounds stay out of the distance proof's context.
fn weighted_sum(dy2: i128, di2: i128, dq2: i128) -> (r: i128)
    requires
        0 <= dy2 <= 0x10000000000000000000000000,
        0 <= di2 <= 0x10000000000000000000000000,
        0 <= dq2 <= 0x10000000000000000000000000,
    ensures
        r == W_Y * dy2 + W_I * di2 + W_Q * dq2,
{
    (W_Y as i128) * dy2 + (W_I as i128) * di2 + (W_Q as i128) * dq2
}

/// The weighted squared YIQ distance between two pixels, as an exact
/// numerator over 10^4 * (255 * 10^8)^2.
#[verifier::rlimit(100)]
pub fn color_delta(a: &[u8], pa: usize, b: &[u8], pb: usize) -> (r: i128)
    requires
        pa + 4 <= a@.len(),
        pb + 4 <= b@.len(),
    ensures
        r == delta_num(a@, pa as int, b@, pb as int),
        r >= 0,
{
    let dy = (pixel_luma(a, pa) - pixel_luma(b, pb)) as i128;
    let di = (pixel_i(a, pa) - pixel_i(b, pb)) as i128;
    let dq = (pixel_q(a, pa) - pixel_q(b, pb)) as i128;
    proof {
        lemma_square_bound(dy as int, 2 * LUMA_NUM_MAX as int);
        lemma_square_bound(di as int, 2 * I_NUM_MAX as int);
        lemma_square_bound(dq as int, 2 * Q_NUM_MAX as int);
    }
    let dy2 = dy * dy;
    let di2 = di * di;
    let dq2 = dq * dq;
    weighted_sum(dy2, di2, dq2)
}

/// Whether a distance numerator exceeds the scaled threshold.
pub fn delta_exceeds(delta: i128, threshold: u32) -> (r: bool)
    requires
        threshold <= 10000,
    ensures
        r == (delta > max_delta_num(threshold as int)),
{
    let t = threshold as i128;
    proof {
        assert(0 <= t * t <= 100000000int) by (nonlinear_arith)
            requires
                0 <= t <= 10000,
        ;
    }
    let t2 = t * t;
    delta > 35215 * t2 * 65025 * 1000000000000
}

/// The signed luma difference between two pixels, as an exact numerator.
pub fn brightness_delta(a: &[u8], pa: usize, b: &[u8], pb: usize) -> (r: i64)
    requires
        pa + 4 <= a@.len(),
        pb + 4 <= b@.len(),
    ensures
        r == brightness_delta_num(a@, pa as int, b@, pb as int),
{
    pixel_luma(a, pa) - pixel_luma(b, pb)
}

/// The grayscale byte rendered for an unchanged pixel.
pub fn gray_byte(img: &[u8], pos: usize, alpha: u32) -> (r: u8)
    requires
        pos + 4 <= img@.len(),
    ensures
        r == gray_value(img@, pos as int, alpha as int),
{
    let yq = (Y_R * img[pos] as i64 + Y_G * img[pos + 1] as i64 + Y_B * img[pos + 2] as i64)
        / 100000000;
    let srca = img[pos + 3] as i64;
    proof {
        assert(-1095216660225int <= (yq - 255) * (alpha as int) <= 0) by (nonlinear_arith)
            requires
                0 <= yq <= 255,
                0 <= alpha <= 0xffffffffu32,
        ;
        assert(
            -279280248357375int <= ((yq - 255) as int * (alpha as int)) * srca <= 0
        ) by (nonlinear_arith)
            requires
                -1095216660225int <= (yq - 255) as int * (alpha as int) <= 0,
                0 <= srca <= 255,
        ;
    }
    let v = 650250000 + (yq - 255) * (alpha as i64) * srca;
    if v <= 0 {
        0
    } else {
        let q = v / 2550000;
        if q >= 255 {
            255
        } else {
            q as u8
        }
    }
}

/// Byte offset of the pixel at column `x`, row `y` of a row-major RGBA8
/// buffer of width `w`.
pub open spec fn pixel_pos(w: int, x: int, y: int) -> int {
    (y * w + x) * 4
}

/// A pixel on the grid starts within the buffer and its four bytes fit.
pub proof fn lemma_pixel_pos_bound(w: int, h: int, x: int, y: int)
    by (nonlinear_arith)
    requires
        0 <= x < w,
        0 <= y < h,
    ensures
        0 <= (y * w + x) * 4,
        (y * w + x) * 4 + 4 <= w * h * 4,
{
}

/// The pixel at `pos` packed into a `u32`, low byte first (red lowest).
pub open spec fn pixel_u32(img: Seq<u8>, pos: int) -> u32 {
    (img[pos] as u32) | ((img[pos + 1] as u32) << 8) | ((img[pos + 2] as u32) << 16) | ((img[pos
        + 3] as u32) << 24)
}

/// Byte-for-byte equality of the pixel of `a` at `pa` and the pixel of `b`
/// at `pb`.
pub open spec fn same_pixel(a: Seq<u8>, pa: int, b: Seq<u8>, pb: int) -> bool {
    &&& a[pa] == b[pb]
    &&& a[pa + 1] == b[pb + 1]
    &&& a[pa + 2] == b[pb + 2]
    &&& a[pa + 3] == b[pb + 3]
}

/// Packing four bytes into a `u32` is injective, so two packed pixels are
/// equal exactly when their bytes are.
pub proof fn lemma_pixel_u32_eq(x0: u8, x1: u8, x2: u8, x3: u8, y0: u8, y1: u8, y2: u8, y3: u8)
    by (bit_vector)
    ensures
        ((x0 as u32 | ((x1 as u32) << 8) | ((x2 as u32) << 16) | ((x3 as u32) << 24)) == (
        y0 as u32 | ((y1 as u32) << 8) | ((y2 as u32) << 16) | ((y3 as u32) << 24))) <==> (x0 == y0
            && x1 == y1 && x2 == y2 && x3 == y3),
{
}

/// Load the pixel whose first byte sits at `pos` as one packed `u32`,
/// low byte first.
pub fn load_pixel_u32(img: &[u8], pos: usize) -> (r: u32)
    requires
        pos + 4 <= img@.len(),
    ensures
        r == pixel_u32(img@, pos as int),
{
    let n = img.len();
    img[pos] as u32 | ((img[pos + 1] as u32) << 8u32) | ((img[pos + 2] as u32) << 16u32) | ((img[pos
        + 3] as u32) << 24u32)
}

/// Whether the pixel of `a` at `pa` equals the pixel of `b` at `pb`
/// byte for byte.
pub fn px_equal(a: &[u8], pa: usize, b: &[u8], pb: usize) -> (r: bool)
    requires
        pa + 4 <= a@.len(),
        pb + 4 <= b@.len(),
    ensures
        r == same_pixel(a@, pa as int, b@, pb as int),
{
    let u = load_pixel_u32(a, pa);
    let v = load_pixel_u32(b, pb);
    proof {
        lemma_pixel_u32_eq(
            a@[pa as int],
            a@[pa as int + 1],
            a@[pa as int + 2],
            a@[pa as int + 3],
            b@[pb as int],
            b@[pb as int + 1],
            b@[pb as int + 2],
            b@[pb as int + 3],
        );
    }
    u == v
}

} // verus!
