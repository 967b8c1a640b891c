//! RGB colors and the two color metrics the engine uses: the luma-weighted
//! squared distance that drives assignment, and the plain squared Euclidean
//! displacement that drives the convergence check.

use vstd::prelude::*;

verus! {

/// A color with three 8-bit channels.
#[derive(Clone, Copy, PartialEq, Eq, Structural, Debug)]
pub struct Rgb {
    pub r: u8,
    pub g: u8,
    pub b: u8,
}

/// The squared difference of two channel values.
pub open spec fn channel_diff_sq(a: u8, b: u8) -> int {
    (a - b) * (a - b)
}

/// The luma-weighted squared distance between a centroid color and a pixel
/// color: `30*dr^2 + 59*dg^2 + 11*db^2`. The weights approximate perceptual
/// brightness and must match exactly for output fidelity.
pub open spec fn spec_distance(center: Rgb, color: Rgb) -> int {
    30 * channel_diff_sq(color.r, center.r) + 59 * channel_diff_sq(color.g, center.g) + 11
        * channel_diff_sq(color.b, center.b)
}

/// The plain (unweighted) squared Euclidean distance between two colors,
/// used to measure how far a centroid moved between iterations.
pub open spec fn spec_shift_sq(a: Rgb, b: Rgb) -> int {
    channel_diff_sq(a.r, b.r) + channel_diff_sq(a.g, b.g) + channel_diff_sq(a.b, b.b)
}

/// A squared channel difference lies in `[0, 255^2]`.
pub proof fn lemma_channel_diff_sq_bounds(a: u8, b: u8)
    ensures
        0 <= channel_diff_sq(a, b) <= 65025,
{
    let d = a - b;
    assert(-255 <= d <= 255);
    assert(d * d >= 0 && d * d <= 65025) by (nonlinear_arith)
        requires
            -255 <= d <= 255,
    ;
}

/// The squared centroid displacement lies in `[0, 3 * 255^2]`.
pub proof fn lemma_shift_sq_bounds(a: Rgb, b: Rgb)
    ensures
        0 <= spec_shift_sq(a, b) <= 195075,
{
    lemma_channel_diff_sq_bounds(a.r, b.r);
    lemma_channel_diff_sq_bounds(a.g, b.g);
    lemma_channel_diff_sq_bounds(a.b, b.b);
}

/// The squared Euclidean displacement between two colors.
pub fn shift_sq(a: Rgb, b: Rgb) -> (d: u32)
    ensures
        d == spec_shift_sq(a, b),
{
    proof {
        lemma_channel_diff_sq_bounds(a.r, b.r);
        lemma_channel_diff_sq_bounds(a.g, b.g);
        lemma_channel_diff_sq_bounds(a.b, b.b);
    }
    let dr: i32 = a.r as i32 - b.r as i32;
    let dg: i32 = a.g as i32 - b.g as i32;
    let db: i32 = a.b as i32 - b.b as i32;
    (dr * dr + dg * dg + db * db) as u32
}

} // verus!
