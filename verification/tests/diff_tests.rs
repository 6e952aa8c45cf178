use rsdiff::aa::{has_many_siblings_optimized, is_pixel_antialiased_optimized};
use rsdiff::color::{color_delta, load_pixel_u32};
use rsdiff::render::write_color;
use rsdiff::{diff_rgba, diff_rgba_scalar, DiffOptions};

fn opts(threshold: u32, include_aa: bool, alpha: u32) -> DiffOptions {
    DiffOptions {
        threshold,
        include_aa,
        alpha,
        aa_color: [255, 255, 0],
        diff_color: [255, 0, 255],
        diff_color_alt: None,
    }
}

/// A deterministic pseudo-random byte stream for building test images.
fn pseudo_bytes(n: usize, seed: u64) -> Vec<u8> {
    let mut state = seed;
    let mut out = Vec::with_capacity(n);
    for _ in 0..n {
        state = state.wrapping_mul(6364136223846793005).wrapping_add(1442695040888963407);
        out.push((state >> 33) as u8);
    }
    out
}

/// An image of `w * h` copies of one RGBA pixel.
fn solid(w: u32, h: u32, px: [u8; 4]) -> Vec<u8> {
    let mut out = Vec::new();
    for _ in 0..w * h {
        out.extend_from_slice(&px);
    }
    out
}

#[test]
fn default_options_values() {
    let d = DiffOptions::default();
    assert_eq!(d.threshold, 1000);
    assert!(!d.include_aa);
    assert_eq!(d.alpha, 1000);
    assert_eq!(d.aa_color, [255, 255, 0]);
    assert_eq!(d.diff_color, [255, 0, 255]);
    assert!(d.diff_color_alt.is_none());
}

#[test]
fn identity_diff_is_empty() {
    // Four pixels with known grayscale renderings under alpha 0.1.
    let img: Vec<u8> = vec![
        10, 20, 30, 255, // gray 231
        0, 0, 0, 255, // gray 229
        255, 255, 255, 255, // gray 255
        100, 150, 200, 128, // gray 249
    ];
    let r = diff_rgba(&img, &img, 2, 2, None);
    assert_eq!(r.diff_count, 0);
    assert_eq!(r.width, 2);
    assert_eq!(r.height, 2);
    let expected: Vec<u8> = vec![
        231, 231, 231, 255, 229, 229, 229, 255, 255, 255, 255, 255, 249, 249, 249, 255,
    ];
    assert_eq!(r.output, expected);
}

#[test]
fn identity_diff_is_empty_for_any_options() {
    let img = pseudo_bytes(9 * 4, 7);
    for &t in &[0u32, 1000, 10000] {
        for &aa in &[false, true] {
            let r = diff_rgba(&img, &img, 3, 3, Some(opts(t, aa, 1000)));
            assert_eq!(r.diff_count, 0);
        }
    }
}

#[test]
fn black_vs_white_counts_at_zero_threshold() {
    let black = solid(1, 1, [0, 0, 0, 255]);
    let white = solid(1, 1, [255, 255, 255, 255]);
    let r = diff_rgba(&black, &white, 1, 1, Some(opts(0, false, 1000)));
    assert_eq!(r.diff_count, 1);
    assert_eq!(r.output, vec![255, 0, 255, 255]);
}

#[test]
fn black_vs_white_within_full_threshold() {
    let black = solid(1, 1, [0, 0, 0, 255]);
    let white = solid(1, 1, [255, 255, 255, 255]);
    // The black-vs-white distance is below the normalization constant, so a
    // threshold of 1.0 admits it: the pixel renders as unchanged gray.
    let r = diff_rgba(&black, &white, 1, 1, Some(opts(10000, false, 1000)));
    assert_eq!(r.diff_count, 0);
    assert_eq!(r.output, vec![229, 229, 229, 255]);
}

#[test]
fn exact_delta_of_black_vs_white() {
    let black = [0u8, 0, 0, 255];
    let white = [255u8, 255, 255, 255];
    let d = color_delta(&black, 0, &white, 0);
    // 5053 * (100000001 * 65025)^2, the exact fixed-point numerator of the
    // weighted YIQ distance between opaque black and white.
    assert_eq!(d, 213653508354320102990350408125i128);
    // At the default threshold the pair counts as a difference.
    let r = diff_rgba(&black, &white, 1, 1, None);
    assert_eq!(r.diff_count, 1);
}

#[test]
fn antialiased_pixel_suppressed() {
    // A white spot on black against uniform black: ranking the neighbors in
    // the spotted image finds a black extremal neighbor whose surroundings
    // are uniform in both images, so the spot classifies as anti-aliasing.
    let mut spotted = solid(3, 3, [0, 0, 0, 255]);
    spotted[4 * 4..4 * 4 + 4].copy_from_slice(&[255, 255, 255, 255]);
    let uniform = solid(3, 3, [0, 0, 0, 255]);
    let r = diff_rgba(&spotted, &uniform, 3, 3, Some(opts(1000, true, 1000)));
    assert_eq!(r.diff_count, 0);
    assert_eq!(&r.output[4 * 4..4 * 4 + 4], &[255, 255, 0, 255]);

    let r = diff_rgba(&spotted, &uniform, 3, 3, Some(opts(1000, false, 1000)));
    assert_eq!(r.diff_count, 1);
    assert_eq!(&r.output[4 * 4..4 * 4 + 4], &[255, 0, 255, 255]);
}

#[test]
fn antialiased_center_detected_directly() {
    let mut spotted = solid(3, 3, [0, 0, 0, 255]);
    spotted[4 * 4..4 * 4 + 4].copy_from_slice(&[255, 255, 255, 255]);
    let uniform = solid(3, 3, [0, 0, 0, 255]);
    assert!(is_pixel_antialiased_optimized(&spotted, &uniform, 1, 1, 3, 3));
    // Against itself the spotted neighborhood has three equal neighbors
    // around the center, which vetoes the classification.
    assert!(!is_pixel_antialiased_optimized(&uniform, &spotted, 1, 1, 3, 3));
}

#[test]
fn border_pixels_classified() {
    // Every pixel of a 2x2 image is a border and corner pixel; the
    // edge-bias rule must classify deterministically without reading out of
    // bounds.
    let uniform = solid(2, 2, [0, 0, 0, 255]);
    let mut spotted = uniform.clone();
    spotted[0..4].copy_from_slice(&[255, 255, 255, 255]);

    // Scanning with the uniform image first: the differing corner's
    // neighborhood in the first image is all equal, a real edge.
    let r = diff_rgba(&uniform, &spotted, 2, 2, Some(opts(1000, true, 1000)));
    assert_eq!(r.diff_count, 1);
    assert_eq!(&r.output[0..4], &[255, 0, 255, 255]);

    // Scanning with the spotted image first: the extremal neighbor sits in
    // a locally uniform patch of both images, so the corner counts as
    // anti-aliasing. Detection with the classifier on is not symmetric.
    let r = diff_rgba(&spotted, &uniform, 2, 2, Some(opts(1000, true, 1000)));
    assert_eq!(r.diff_count, 0);
    assert_eq!(&r.output[0..4], &[255, 255, 0, 255]);
}

#[test]
fn batched_equals_scalar_narrow() {
    // Width not a multiple of the batch width: the batched driver and the
    // scalar driver must produce byte-identical output.
    let a = pseudo_bytes(10 * 3 * 4, 1);
    let mut b = pseudo_bytes(10 * 3 * 4, 2);
    // Leave a stretch equal so both the matching and differing paths run.
    b[40..80].copy_from_slice(&a[40..80]);
    for &aa in &[false, true] {
        let o = Some(opts(1000, aa, 1000));
        let batched = diff_rgba(&a, &b, 10, 3, o);
        let scalar = diff_rgba_scalar(&a, &b, 10, 3, o);
        assert_eq!(batched.diff_count, scalar.diff_count);
        assert_eq!(batched.output, scalar.output);
    }
}

#[test]
fn batched_equals_scalar_tiny() {
    let a = pseudo_bytes(3 * 3 * 4, 3);
    let b = pseudo_bytes(3 * 3 * 4, 4);
    let batched = diff_rgba(&a, &b, 3, 3, None);
    let scalar = diff_rgba_scalar(&a, &b, 3, 3, None);
    assert_eq!(batched.diff_count, scalar.diff_count);
    assert_eq!(batched.output, scalar.output);
}

#[test]
fn batch_row_with_single_difference() {
    // One full batch of eight pixels with exactly one differing lane.
    let a = solid(8, 1, [0, 0, 0, 255]);
    let mut b = a.clone();
    b[5 * 4..5 * 4 + 4].copy_from_slice(&[255, 255, 255, 255]);
    let r = diff_rgba(&a, &b, 8, 1, Some(opts(1000, false, 1000)));
    assert_eq!(r.diff_count, 1);
    for x in 0..8 {
        let px = &r.output[x * 4..x * 4 + 4];
        if x == 5 {
            assert_eq!(px, &[255, 0, 255, 255]);
        } else {
            assert_eq!(px, &[229, 229, 229, 255]);
        }
    }
    let s = diff_rgba_scalar(&a, &b, 8, 1, Some(opts(1000, false, 1000)));
    assert_eq!(r.output, s.output);
}

#[test]
fn batch_all_equal_fast_path() {
    let a = pseudo_bytes(16 * 2 * 4, 9);
    let r = diff_rgba(&a, &a, 16, 2, None);
    assert_eq!(r.diff_count, 0);
    let s = diff_rgba_scalar(&a, &a, 16, 2, None);
    assert_eq!(r.output, s.output);
}

#[test]
fn threshold_monotonicity_scenario() {
    // Two pixels: black vs mid-gray crosses the cutoff near 0.5, black vs
    // white near 1.0, so the count steps down as the threshold rises.
    let a = solid(2, 1, [0, 0, 0, 255]);
    let mut b = solid(2, 1, [128, 128, 128, 255]);
    b[4..8].copy_from_slice(&[255, 255, 255, 255]);
    let mut previous = u32::MAX;
    let mut counts = Vec::new();
    for &t in &[0u32, 1000, 5000, 10000] {
        let r = diff_rgba(&a, &b, 2, 1, Some(opts(t, false, 1000)));
        assert!(r.diff_count <= previous);
        previous = r.diff_count;
        counts.push(r.diff_count);
    }
    assert_eq!(counts, vec![2, 2, 1, 0]);
}

#[test]
fn swap_images_same_count() {
    let a = pseudo_bytes(4 * 4 * 4, 11);
    let b = pseudo_bytes(4 * 4 * 4, 12);
    for &t in &[0u32, 1000, 8000] {
        let rab = diff_rgba(&a, &b, 4, 4, Some(opts(t, false, 1000)));
        let rba = diff_rgba(&b, &a, 4, 4, Some(opts(t, false, 1000)));
        assert_eq!(rab.diff_count, rba.diff_count);
    }
}

#[test]
fn output_alpha_always_opaque() {
    let a = pseudo_bytes(5 * 4 * 4, 21);
    let b = pseudo_bytes(5 * 4 * 4, 22);
    for &aa in &[false, true] {
        let r = diff_rgba(&a, &b, 5, 4, Some(opts(500, aa, 1000)));
        assert_eq!(r.output.len(), 5 * 4 * 4);
        for p in 0..20 {
            assert_eq!(r.output[p * 4 + 3], 255);
        }
    }
}

#[test]
fn gray_rendering_clamps() {
    let black = solid(1, 1, [0, 0, 0, 255]);
    // A blend strength of 2.0 pushes black below zero: clamped to 0.
    let r = diff_rgba(&black, &black, 1, 1, Some(opts(1000, false, 20000)));
    assert_eq!(r.output, vec![0, 0, 0, 255]);
    // A blend strength of 0 leaves every unchanged pixel white.
    let r = diff_rgba(&black, &black, 1, 1, Some(opts(1000, false, 0)));
    assert_eq!(r.output, vec![255, 255, 255, 255]);
}

#[test]
fn load_pixel_u32_little_endian() {
    let bytes = [1u8, 2, 3, 4, 0xaa, 0xbb, 0xcc, 0xdd];
    assert_eq!(load_pixel_u32(&bytes, 0), 0x04030201);
    assert_eq!(load_pixel_u32(&bytes, 4), 0xddccbbaa);
}

#[test]
fn write_color_writes_rgb_and_opaque_alpha() {
    let mut out = vec![9u8; 8];
    write_color(&mut out, 4, &[1, 2, 3]);
    assert_eq!(out, vec![9, 9, 9, 9, 1, 2, 3, 255]);
}

#[test]
fn has_many_siblings_counts_neighbors() {
    let uniform = solid(3, 3, [5, 6, 7, 255]);
    assert!(has_many_siblings_optimized(&uniform, 1, 1, 3, 3));
    assert!(has_many_siblings_optimized(&uniform, 0, 0, 3, 3));
    // Positions past the image have no siblings.
    assert!(!has_many_siblings_optimized(&uniform, 5, 1, 3, 3));
    // A center with every neighbor different has none.
    let varied = pseudo_bytes(3 * 3 * 4, 31);
    let _ = has_many_siblings_optimized(&varied, 1, 1, 3, 3);
}

#[test]
fn transparent_siblings_share_luma() {
    // Fully transparent pixels all composite to white, so they share one
    // luma whatever their color bytes say: the sibling test counts them.
    let img: Vec<u8> = vec![
        10, 20, 30, 0, //
        40, 50, 60, 0, //
        70, 80, 90, 0, //
        1, 2, 3, 0,
    ];
    assert!(has_many_siblings_optimized(&img, 0, 0, 2, 2));
}

#[test]
fn transparent_corner_is_a_real_edge() {
    // Around the corner of a fully transparent 2x2 image every neighbor has
    // zero luma delta from the center, so the early exit fires: not
    // anti-aliased, whatever the colors' bytes.
    let img: Vec<u8> = vec![
        10, 20, 30, 0, //
        40, 50, 60, 0, //
        70, 80, 90, 0, //
        1, 2, 3, 0,
    ];
    assert!(!is_pixel_antialiased_optimized(&img, &img, 0, 0, 2, 2));
}

#[test]
fn dirty_transparent_neighbors_classify_as_aa() {
    // The differing center is opaque; its eight neighbors are transparent
    // with pairwise distinct color bytes, but one shared luma. The extremal
    // neighbor's surroundings are luma-uniform in both images, so the
    // center classifies as anti-aliasing.
    let mut a = Vec::new();
    for p in 0..9u8 {
        a.extend_from_slice(&[10 * p, 10 * p + 1, 10 * p + 2, 0]);
    }
    let mut b = a.clone();
    a[4 * 4..4 * 4 + 4].copy_from_slice(&[0, 0, 0, 255]);
    b[4 * 4..4 * 4 + 4].copy_from_slice(&[255, 255, 255, 255]);

    let r = diff_rgba(&a, &b, 3, 3, Some(opts(1000, true, 1000)));
    assert_eq!(r.diff_count, 0);
    assert_eq!(&r.output[4 * 4..4 * 4 + 4], &[255, 255, 0, 255]);

    let r = diff_rgba(&a, &b, 3, 3, Some(opts(1000, false, 1000)));
    assert_eq!(r.diff_count, 1);
    assert_eq!(&r.output[4 * 4..4 * 4 + 4], &[255, 0, 255, 255]);
}

#[test]
fn empty_image_diffs_to_empty_output() {
    let empty: Vec<u8> = Vec::new();
    let r = diff_rgba(&empty, &empty, 0, 0, None);
    assert_eq!(r.diff_count, 0);
    assert!(r.output.is_empty());
}
