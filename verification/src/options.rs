//! Configuration for a diff run.

use vstd::prelude::*;

verus! {

/// Fixed-point scale of `threshold` and `alpha`: a stored value of
/// `OPTION_SCALE` stands for 1.0, so both fields are in ten-thousandths.
pub const OPTION_SCALE: u32 = 10000;

/// Options for the diff algorithm.
///
/// `threshold` is the perceptual sensitivity in ten-thousandths of the
/// normalized color distance (lower is stricter, `OPTION_SCALE` is 1.0);
/// `alpha` is the blend strength, in ten-thousandths, of the grayscale
/// rendering used for unchanged pixels; `aa_color` and `diff_color` mark
/// anti-aliased and truly different pixels. `diff_color_alt` is part of the
/// configuration shape but is not consulted by the scan; it is reserved.
#[derive(Debug, Clone, Copy)]
pub struct DiffOptions {
    pub threshold: u32,
    pub include_aa: bool,
    pub alpha: u32,
    pub aa_color: [u8; 3],
    pub diff_color: [u8; 3],
    pub diff_color_alt: Option<[u8; 3]>,
}

impl DiffOptions {
    /// The threshold is a normalized sensitivity in [0, 1], stored scaled.
    pub open spec fn valid(self) -> bool {
        self.threshold <= OPTION_SCALE
    }
}

/// The default options: threshold 0.1, no anti-alias classification,
/// grayscale blend strength 0.1, yellow anti-alias marker, magenta diff
/// marker.
pub open spec fn spec_default_options() -> DiffOptions {
    DiffOptions {
        threshold: 1000u32,
        include_aa: false,
        alpha: 1000u32,
        aa_color: [255u8, 255u8, 0u8],
        diff_color: [255u8, 0u8, 255u8],
        diff_color_alt: None,
    }
}

impl Default for DiffOptions {
    fn default() -> (r: Self)
        ensures
            r == spec_default_options(),
    {
        DiffOptions {
            threshold: 1000,
            include_aa: false,
            alpha: 1000,
            aa_color: [255, 255, 0],
            diff_color: [255, 0, 255],
            diff_color_alt: None,
        }
    }
}

/// The options actually used by a scan: the given ones, or the defaults.
pub open spec fn resolve_options(opts: Option<DiffOptions>) -> DiffOptions {
    match opts {
        Some(o) => o,
        None => spec_default_options(),
    }
}

} // verus!
