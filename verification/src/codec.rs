//! Diffing encoded images: decode two byte buffers to RGBA8, check that
//! they agree in size, and run the scan.

use vstd::prelude::*;
use crate::options::{DiffOptions, resolve_options};
use crate::engine::{diff_rgba, output_spec, total_diff_count, DiffResult};

verus! {

/// Why a byte-level diff failed before the scan could run.
#[derive(Debug)]
pub enum DiffError {
    /// One of the two buffers did not decode as an image; the message is
    /// the decoder's description of the failure.
    Decode(String),
    /// The two buffers decode to images of different sizes.
    DimensionMismatch { width1: u32, height1: u32, width2: u32, height2: u32 },
    /// The decoded images hold more pixels than the scan can count or
    /// index.
    TooLarge { width: u32, height: u32 },
}

/// What an encoded image buffer decodes to: its size and its RGBA8 pixels,
/// or nothing where the buffer is not a decodable image. Decoding is a
/// function of the bytes alone.
pub uninterp spec fn decoded_rgba(bytes: Seq<u8>) -> Option<(u32, u32, Seq<u8>)>;

/// Relies on image::load_from_memory and image::DynamicImage::to_rgba8: the
/// format is guessed from the bytes alone, the decoded image is converted
/// to a row-major RGBA8 buffer of exactly width * height * 4 bytes, and
/// decoding the same bytes again gives the same image.
#[verifier::external_body]
fn decode_rgba(bytes: &[u8]) -> (r: Result<(u32, u32, Vec<u8>), String>)
    ensures
        match r {
            Ok(t) => decoded_rgba(bytes@) == Some((t.0, t.1, t.2@)) && t.2@.len() == t.0 * t.1
                * 4,
            Err(_) => decoded_rgba(bytes@) is None,
        },
{
    match image::load_from_memory(bytes) {
        Ok(img) => {
            let px = img.to_rgba8();
            let (w, h) = (px.width(), px.height());
            Ok((w, h, px.into_raw()))
        },
        Err(e) => Err(e.to_string()),
    }
}

/// Decode two encoded images and diff them. Fails when either buffer does
/// not decode, when the images disagree in size, or when they hold more
/// pixels than the scan can count; otherwise the scan runs and its result
/// is exactly that of `diff_rgba` on the decoded buffers.
pub fn diff_bytes(
    img1_bytes: &[u8],
    img2_bytes: &[u8],
    opts: Option<DiffOptions>,
) -> (r: Result<DiffResult, DiffError>)
    requires
        resolve_options(opts).valid(),
    ensures
        (match r {
            Ok(res) => {
                &&& decoded_rgba(img1_bytes@) matches Some(d1) && decoded_rgba(img2_bytes@)
                    matches Some(d2) && {
                    &&& d1.0 == d2.0
                    &&& d1.1 == d2.1
                    &&& d1.0 * d1.1 <= u32::MAX
                    &&& (resolve_options(opts).include_aa ==> d1.0 * d1.1 * 4 <= i32::MAX)
                    &&& res.width == d1.0
                    &&& res.height == d1.1
                    &&& res.output@ == output_spec(
                        d1.2,
                        d2.2,
                        d1.0 as int,
                        d1.1 as int,
                        resolve_options(opts),
                    )
                    &&& res.diff_count == total_diff_count(
                        d1.2,
                        d2.2,
                        d1.0 as int,
                        d1.1 as int,
                        resolve_options(opts),
                    )
                    &&& res.diff_count <= d1.0 * d1.1
                }
            },
            Err(e) => match e {
                DiffError::Decode(_) => decoded_rgba(img1_bytes@) is None || decoded_rgba(
                    img2_bytes@,
                ) is None,
                DiffError::DimensionMismatch { width1, height1, width2, height2 } => {
                    &&& decoded_rgba(img1_bytes@) matches Some(d1) && decoded_rgba(img2_bytes@)
                        matches Some(d2) && {
                        &&& width1 == d1.0
                        &&& height1 == d1.1
                        &&& width2 == d2.0
                        &&& height2 == d2.1
                        &&& !(d1.0 == d2.0 && d1.1 == d2.1)
                    }
                },
                DiffError::TooLarge { width, height } => {
                    &&& decoded_rgba(img1_bytes@) matches Some(d1) && decoded_rgba(img2_bytes@)
                        matches Some(d2) && {
                        &&& d1.0 == d2.0
                        &&& d1.1 == d2.1
                        &&& width == d1.0
                        &&& height == d1.1
                        &&& (d1.0 * d1.1 > u32::MAX || (resolve_options(opts).include_aa && d1.0
                            * d1.1 * 4 > i32::MAX))
                    }
                },
            },
        }),
{
    let first = match decode_rgba(img1_bytes) {
        Ok(t) => t,
        Err(m) => {
            return Err(DiffError::Decode(m));
        },
    };
    let second = match decode_rgba(img2_bytes) {
        Ok(t) => t,
        Err(m) => {
            return Err(DiffError::Decode(m));
        },
    };
    let (w1, h1, p1) = first;
    let (w2, h2, p2) = second;
    if w1 != w2 || h1 != h2 {
        return Err(
            DiffError::DimensionMismatch { width1: w1, height1: h1, width2: w2, height2: h2 },
        );
    }
    let o = match opts {
        Option::Some(given) => given,
        Option::None => DiffOptions::default(),
    };
    proof {
        assert((w1 as int) * (h1 as int) < 0x10000000000000000int) by (nonlinear_arith)
            requires
                0 <= w1 <= 0xffffffffu32,
                0 <= h1 <= 0xffffffffu32,
        ;
    }
    let total = (w1 as u64) * (h1 as u64);
    if total > 0xffffffffu64 {
        return Err(DiffError::TooLarge { width: w1, height: h1 });
    }
    if o.include_aa && total * 4 > 0x7fffffffu64 {
        return Err(DiffError::TooLarge { width: w1, height: h1 });
    }
    let res = diff_rgba(p1.as_slice(), p2.as_slice(), w1, h1, Some(o));
    Ok(res)
}

} // verus!
