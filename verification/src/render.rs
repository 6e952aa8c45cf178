//! Writing single pixels of the output image: the grayscale rendering of an
//! unchanged pixel and the flat marker colors.

use vstd::prelude::*;
use crate::color::gray_value;

verus! {

/// The four output bytes of a marker pixel: the marker color with the alpha
/// byte forced to 255.
pub open spec fn marker_bytes(color: Seq<u8>) -> Seq<u8> {
    seq![color[0], color[1], color[2], 255u8]
}

/// The four output bytes of an unchanged pixel: the grayscale value three
/// times, with the alpha byte forced to 255.
pub open spec fn gray_bytes(img: Seq<u8>, pos: int, alpha: int) -> Seq<u8> {
    let g = gray_value(img, pos, alpha) as u8;
    seq![g, g, g, 255u8]
}

/// `cur` is `prev` with the four bytes starting at `pos` replaced by `four`.
pub open spec fn updated4(prev: Seq<u8>, cur: Seq<u8>, pos: int, four: Seq<u8>) -> bool {
    &&& cur.len() == prev.len()
    &&& forall|j: int|
        0 <= j < cur.len() ==> cur[j] == (if pos <= j < pos + 4 {
            four[j - pos]
        } else {
            prev[j]
        })
}

/// Write a marker color into the four output bytes at `pos`, forcing the
/// alpha byte to 255.
pub fn write_color(out: &mut Vec<u8>, pos: usize, color: &[u8; 3])
    requires
        pos + 4 <= old(out)@.len(),
    ensures
        updated4(old(out)@, final(out)@, pos as int, marker_bytes(color@)),
{
    proof {
        assert(out@.len() == out.len());
    }
    out.set(pos, color[0]);
    out.set(pos + 1, color[1]);
    out.set(pos + 2, color[2]);
    out.set(pos + 3, 255);
}

/// Render the source pixel at `pos` as a grayscale pixel into the same
/// position of the output.
pub fn draw_gray_pixel(img: &[u8], pos: usize, alpha: u32, out: &mut Vec<u8>)
    requires
        pos + 4 <= img@.len(),
        pos + 4 <= old(out)@.len(),
    ensures
        updated4(old(out)@, final(out)@, pos as int, gray_bytes(img@, pos as int, alpha as int)),
{
    proof {
        assert(out@.len() == out.len());
    }
    let g = crate::color::gray_byte(img, pos, alpha);
    out.set(pos, g);
    out.set(pos + 1, g);
    out.set(pos + 2, g);
    out.set(pos + 3, 255);
}

} // verus!
