//! The anti-aliasing classifier: given a pixel already known to differ
//! beyond the threshold, its 3x3 neighborhood in both images decides whether
//! the difference is an anti-aliasing artifact rather than a content change.
//!
//! The neighborhood walk visits the nine cells of the 3x3 grid in row-major
//! order, skipping the center and the cells that fall off the image, and
//! compares neighbors to the center by their exact luma. Border and corner
//! pixels start with an implicit sibling count of one, biasing the
//! classification toward anti-aliasing near edges.

use vstd::prelude::*;
use crate::color::{brightness_delta, brightness_delta_num, lemma_pixel_pos_bound, pixel_pos};

verus! {

/// The implicit starting sibling count: one for border and corner pixels,
/// zero elsewhere.
pub open spec fn edge_bias(x: int, y: int, w: int, h: int) -> int {
    if x == 0 || x == w - 1 || y == 0 || y == h - 1 {
        1
    } else {
        0
    }
}

/// Column offset of cell `k` of the 3x3 grid, in row-major order.
pub open spec fn cell_dx(k: int) -> int {
    k % 3 - 1
}

/// Row offset of cell `k` of the 3x3 grid, in row-major order.
pub open spec fn cell_dy(k: int) -> int {
    k / 3 - 1
}

/// Whether cell `k` of the 3x3 grid around (`x`, `y`) is a neighbor that
/// takes part in the walk: on the image and not the center itself.
pub open spec fn cell_on(x: int, y: int, w: int, h: int, k: int) -> bool {
    let cx = x + cell_dx(k);
    let cy = y + cell_dy(k);
    &&& 0 <= cx < w
    &&& 0 <= cy < h
    &&& !(cx == x && cy == y)
}

/// How many of the first `k` cells are neighbors whose luma exactly equals
/// the center's: their luma delta against the center is zero.
pub open spec fn zero_delta_neighbors_upto(
    img: Seq<u8>,
    x: int,
    y: int,
    w: int,
    h: int,
    k: int,
) -> int
    decreases k,
{
    if k <= 0 {
        0
    } else {
        zero_delta_neighbors_upto(img, x, y, w, h, k - 1) + if cell_on(x, y, w, h, k - 1)
            && brightness_delta_num(
            img,
            pixel_pos(w, x, y),
            img,
            pixel_pos(w, x + cell_dx(k - 1), y + cell_dy(k - 1)),
        ) == 0 {
            1int
        } else {
            0int
        }
    }
}

/// The sibling count of (`x`, `y`): the edge bias plus the number of
/// neighbors with the center's exact luma.
pub open spec fn sibling_count(img: Seq<u8>, x: int, y: int, w: int, h: int) -> int {
    edge_bias(x, y, w, h) + zero_delta_neighbors_upto(img, x, y, w, h, 9)
}

/// Whether (`x`, `y`) sits in a locally uniform patch: its sibling count
/// reaches three. Positions past the right or bottom edge have no siblings.
pub open spec fn has_many_siblings(img: Seq<u8>, x: int, y: int, w: int, h: int) -> bool {
    if x > w - 1 || y > h - 1 {
        false
    } else {
        sibling_count(img, x, y, w, h) >= 3
    }
}

/// The neighbor with the smallest luma delta against the center among the
/// first `k` cells, as (delta, column, row); ties keep the earliest cell.
/// Neighbors with zero luma delta do not take part in the ranking.
pub open spec fn min_state(img: Seq<u8>, x: int, y: int, w: int, h: int, k: int) -> Option<
    (int, int, int),
>
    decreases k,
{
    if k <= 0 {
        None
    } else {
        let prev = min_state(img, x, y, w, h, k - 1);
        let cx = x + cell_dx(k - 1);
        let cy = y + cell_dy(k - 1);
        if cell_on(x, y, w, h, k - 1) && brightness_delta_num(
            img,
            pixel_pos(w, x, y),
            img,
            pixel_pos(w, cx, cy),
        ) != 0 {
            let d = brightness_delta_num(img, pixel_pos(w, x, y), img, pixel_pos(w, cx, cy));
            match prev {
                None => Some((d, cx, cy)),
                Some(p) => if d < p.0 {
                    Some((d, cx, cy))
                } else {
                    prev
                },
            }
        } else {
            prev
        }
    }
}

/// The neighbor with the largest luma delta against the center among the
/// first `k` cells; ties keep the earliest cell.
pub open spec fn max_state(img: Seq<u8>, x: int, y: int, w: int, h: int, k: int) -> Option<
    (int, int, int),
>
    decreases k,
{
    if k <= 0 {
        None
    } else {
        let prev = max_state(img, x, y, w, h, k - 1);
        let cx = x + cell_dx(k - 1);
        let cy = y + cell_dy(k - 1);
        if cell_on(x, y, w, h, k - 1) && brightness_delta_num(
            img,
            pixel_pos(w, x, y),
            img,
            pixel_pos(w, cx, cy),
        ) != 0 {
            let d = brightness_delta_num(img, pixel_pos(w, x, y), img, pixel_pos(w, cx, cy));
            match prev {
                None => Some((d, cx, cy)),
                Some(p) => if d > p.0 {
                    Some((d, cx, cy))
                } else {
                    prev
                },
            }
        } else {
            prev
        }
    }
}

/// Whether the differing pixel at (`x`, `y`) is an anti-aliasing artifact:
/// the neighborhood of the first image must not contain three neighbors
/// with the center's exact luma (a flat region against a hard edge is a
/// real edge), some darkest or brightest neighbor must exist, and around
/// one of those two extremal positions each image independently must be
/// locally uniform.
pub open spec fn is_antialiased(a: Seq<u8>, b: Seq<u8>, x: int, y: int, w: int, h: int) -> bool {
    let zs = edge_bias(x, y, w, h) + zero_delta_neighbors_upto(a, x, y, w, h, 9);
    if zs >= 3 {
        false
    } else {
        match (min_state(a, x, y, w, h, 9), max_state(a, x, y, w, h, 9)) {
            (Some(mn), Some(mx)) => (has_many_siblings(a, mn.1, mn.2, w, h)
                || has_many_siblings(a, mx.1, mx.2, w, h)) && (has_many_siblings(b, mn.1, mn.2, w, h)
                || has_many_siblings(b, mx.1, mx.2, w, h)),
            _ => false,
        }
    }
}

/// An execution-side extremal candidate mirrors its specification-side one.
pub open spec fn st_matches(st: Option<(i64, i32, i32)>, sp: Option<(int, int, int)>) -> bool {
    match (st, sp) {
        (Option::None, Option::None) => true,
        (Option::Some(t), Option::Some(s)) => t.0 == s.0 && t.1 == s.1 && t.2 == s.2,
        _ => false,
    }
}

/// Whether the pixel at (`x`, `y`) sits in a locally uniform patch of
/// `img`: at least three of its 3x3 neighbors (with the edge bias) share
/// its luma exactly.
pub fn has_many_siblings_optimized(img: &[u8], x: i32, y: i32, width: i32, height: i32) -> (r:
    bool)
    requires
        0 <= x,
        0 <= y,
        1 <= width,
        1 <= height,
        img@.len() == width * height * 4,
    ensures
        r == has_many_siblings(img@, x as int, y as int, width as int, height as int),
{
    if x > width - 1 || y > height - 1 {
        return false;
    }
    proof {
        lemma_pixel_pos_bound(width as int, height as int, x as int, y as int);
    }
    proof {
        assert(img@.len() == img.len());
    }
    let w = width as usize;
    let base = ((y as usize) * w + (x as usize)) * 4;
    let is_edge = x == 0 || x == width - 1 || y == 0 || y == height - 1;
    let mut zeroes: u32 = if is_edge {
        1
    } else {
        0
    };
    let mut k: usize = 0;
    while k < 9
        invariant
            k <= 9,
            0 <= x < width,
            0 <= y < height,
            1 <= width,
            1 <= height,
            w == width as usize,
            img@.len() == width * height * 4,
            img@.len() <= usize::MAX,
            base == pixel_pos(width as int, x as int, y as int),
            base + 4 <= img@.len(),
            zeroes == edge_bias(x as int, y as int, width as int, height as int)
                + zero_delta_neighbors_upto(
                img@,
                x as int,
                y as int,
                width as int,
                height as int,
                k as int,
            ),
            zeroes <= 1 + k,
        decreases 9 - k,
    {
        let dx = (k % 3) as i32 - 1;
        let dy = (k / 3) as i32 - 1;
        let cx = x + dx;
        let cy = y + dy;
        if cx >= 0 && cx < width && cy >= 0 && cy < height && !(cx == x && cy == y) {
            proof {
                lemma_pixel_pos_bound(width as int, height as int, cx as int, cy as int);
            }
            let cpos = ((cy as usize) * w + (cx as usize)) * 4;
            if brightness_delta(img, base, img, cpos) == 0 {
                zeroes = zeroes + 1;
            }
        }
        k = k + 1;
    }
    zeroes >= 3
}

/// Whether the differing pixel at (`x`, `y`) of `base_img` (against
/// `comp_img`) is an anti-aliasing artifact. The neighborhood deltas are
/// ranked in `base_img`; the local-uniformity test then runs independently
/// in both images.
pub fn is_pixel_antialiased_optimized(
    base_img: &[u8],
    comp_img: &[u8],
    x: i32,
    y: i32,
    width: i32,
    height: i32,
) -> (r: bool)
    requires
        0 <= x < width,
        0 <= y < height,
        base_img@.len() == width * height * 4,
        comp_img@.len() == width * height * 4,
    ensures
        r == is_antialiased(
            base_img@,
            comp_img@,
            x as int,
            y as int,
            width as int,
            height as int,
        ),
{
    proof {
        lemma_pixel_pos_bound(width as int, height as int, x as int, y as int);
    }
    proof {
        assert(base_img@.len() == base_img.len());
    }
    let w = width as usize;
    let base = ((y as usize) * w + (x as usize)) * 4;
    let is_edge = x == 0 || x == width - 1 || y == 0 || y == height - 1;
    let mut zeroes: u32 = if is_edge {
        1
    } else {
        0
    };
    let mut min_st: Option<(i64, i32, i32)> = None;
    let mut max_st: Option<(i64, i32, i32)> = None;
    let mut k: usize = 0;
    while k < 9
        invariant
            k <= 9,
            0 <= x < width,
            0 <= y < height,
            base_img@.len() == width * height * 4,
            base_img@.len() <= usize::MAX,
            w == width as usize,
            base == pixel_pos(width as int, x as int, y as int),
            base + 4 <= base_img@.len(),
            zeroes == edge_bias(x as int, y as int, width as int, height as int)
                + zero_delta_neighbors_upto(
                base_img@,
                x as int,
                y as int,
                width as int,
                height as int,
                k as int,
            ),
            zeroes <= 1 + k,
            st_matches(
                min_st,
                min_state(base_img@, x as int, y as int, width as int, height as int, k as int),
            ),
            st_matches(
                max_st,
                max_state(base_img@, x as int, y as int, width as int, height as int, k as int),
            ),
            (match min_st {
                Some(t) => 0 <= t.1 < width && 0 <= t.2 < height,
                None => true,
            }),
            (match max_st {
                Some(t) => 0 <= t.1 < width && 0 <= t.2 < height,
                None => true,
            }),
        decreases 9 - k,
    {
        let dx = (k % 3) as i32 - 1;
        let dy = (k / 3) as i32 - 1;
        let cx = x + dx;
        let cy = y + dy;
        if cx >= 0 && cx < width && cy >= 0 && cy < height && !(cx == x && cy == y) {
            proof {
                lemma_pixel_pos_bound(width as int, height as int, cx as int, cy as int);
            }
            let cpos = ((cy as usize) * w + (cx as usize)) * 4;
            let d = brightness_delta(base_img, base, base_img, cpos);
            if d == 0 {
                zeroes = zeroes + 1;
            } else {
                min_st = match min_st {
                    None => Some((d, cx, cy)),
                    Some(t) => if d < t.0 {
                        Some((d, cx, cy))
                    } else {
                        Some(t)
                    },
                };
                max_st = match max_st {
                    None => Some((d, cx, cy)),
                    Some(t) => if d > t.0 {
                        Some((d, cx, cy))
                    } else {
                        Some(t)
                    },
                };
            }
        }
        k = k + 1;
    }
    if zeroes >= 3 {
        return false;
    }
    match (min_st, max_st) {
        (Some(mn), Some(mx)) => {
            let in_base = has_many_siblings_optimized(base_img, mn.1, mn.2, width, height)
                || has_many_siblings_optimized(base_img, mx.1, mx.2, width, height);
            if !in_base {
                return false;
            }
            has_many_siblings_optimized(comp_img, mn.1, mn.2, width, height)
                || has_many_siblings_optimized(comp_img, mx.1, mx.2, width, height)
        },
        _ => false,
    }
}

} // verus!
