//! Recentering: each cluster stores its current centroid as the previous
//! one and moves the centroid to the component-wise mean color of its
//! assigned pixels, truncated per channel when narrowing to 8 bits.
//!
//! Degenerate-cluster policy: a cluster that received no pixels has no
//! mean; it keeps its current centroid unchanged (so its displacement for
//! the convergence check is zero).

use vstd::prelude::*;

use crate::cluster::Cluster;
use crate::cluster::cluster_at_mut;
use crate::color::Rgb;
use crate::grid::Pixel;

verus! {

/// The sum of the red channels of a pixel sequence.
pub open spec fn sum_r(ps: Seq<Pixel>) -> int
    decreases ps.len(),
{
    if ps.len() == 0 {
        0
    } else {
        sum_r(ps.drop_last()) + ps.last().color.r
    }
}

/// The sum of the green channels of a pixel sequence.
pub open spec fn sum_g(ps: Seq<Pixel>) -> int
    decreases ps.len(),
{
    if ps.len() == 0 {
        0
    } else {
        sum_g(ps.drop_last()) + ps.last().color.g
    }
}

/// The sum of the blue channels of a pixel sequence.
pub open spec fn sum_b(ps: Seq<Pixel>) -> int
    decreases ps.len(),
{
    if ps.len() == 0 {
        0
    } else {
        sum_b(ps.drop_last()) + ps.last().color.b
    }
}

/// Each channel sum lies in `[0, 255 * len]`.
pub proof fn lemma_channel_sums_bounds(ps: Seq<Pixel>)
    ensures
        0 <= sum_r(ps) <= 255 * ps.len(),
        0 <= sum_g(ps) <= 255 * ps.len(),
        0 <= sum_b(ps) <= 255 * ps.len(),
    decreases ps.len(),
{
    if ps.len() > 0 {
        lemma_channel_sums_bounds(ps.drop_last());
    }
}

/// The component-wise mean color of a non-empty pixel sequence, each
/// channel truncated (integer division) into the 8-bit range.
pub open spec fn mean_color(ps: Seq<Pixel>) -> Rgb
    recommends
        ps.len() > 0,
{
    Rgb {
        r: (sum_r(ps) / ps.len() as int) as u8,
        g: (sum_g(ps) / ps.len() as int) as u8,
        b: (sum_b(ps) / ps.len() as int) as u8,
    }
}

/// Where a cluster's centroid moves when it is recentered: to the mean
/// color of its points, or nowhere if it has none.
pub open spec fn recentered(c: Cluster) -> Rgb {
    if c.points@.len() == 0 {
        c.center
    } else {
        mean_color(c.points@)
    }
}

/// A nonnegative sum bounded by `255 * len` divides by `len` into the
/// 8-bit range.
proof fn lemma_mean_channel_in_range(sum: int, len: int)
    requires
        len > 0,
        0 <= sum <= 255 * len,
    ensures
        0 <= sum / len <= 255,
{
    vstd::arithmetic::div_mod::lemma_div_is_ordered(0, sum, len);
    vstd::arithmetic::div_mod::lemma_div_is_ordered(sum, 255 * len, len);
    vstd::arithmetic::div_mod::lemma_div_multiples_vanish(255, len);
}

/// The component-wise mean of the pixels' colors, truncated per channel,
/// or nothing for an empty pixel list (the mean of zero points is
/// undefined).
pub fn average_color(points: &Vec<Pixel>) -> (avg: Option<Rgb>)
    ensures
        points@.len() == 0 <==> avg is None,
        points@.len() > 0 ==> avg == Some(mean_color(points@)),
{
    let len = points.len();
    if len == 0 {
        return None;
    }
    let mut rs: u128 = 0;
    let mut gs: u128 = 0;
    let mut bs: u128 = 0;
    let mut i: usize = 0;
    while i < len
        invariant
            i <= len,
            len == points@.len(),
            rs == sum_r(points@.take(i as int)),
            gs == sum_g(points@.take(i as int)),
            bs == sum_b(points@.take(i as int)),
            rs <= 255 * i,
            gs <= 255 * i,
            bs <= 255 * i,
        decreases len - i,
    {
        let p = points[i];
        proof {
            assert(points@.take(i as int + 1).drop_last() =~= points@.take(i as int));
            assert(points@.take(i as int + 1).last() == points@[i as int]);
        }
        rs = rs + p.color.r as u128;
        gs = gs + p.color.g as u128;
        bs = bs + p.color.b as u128;
        i += 1;
    }
    proof {
        assert(points@.take(len as int) =~= points@);
        lemma_channel_sums_bounds(points@);
        lemma_mean_channel_in_range(sum_r(points@), len as int);
        lemma_mean_channel_in_range(sum_g(points@), len as int);
        lemma_mean_channel_in_range(sum_b(points@), len as int);
    }
    let n = len as u128;
    Some(Rgb { r: (rs / n) as u8, g: (gs / n) as u8, b: (bs / n) as u8 })
}

/// One recentering pass: every cluster's current centroid becomes its
/// previous centroid, and the current centroid moves to the truncated mean
/// color of its assigned pixels — or stays put for a cluster that received
/// none. Point lists are untouched.
pub fn recalc_centers(clusters: &mut Vec<Cluster>)
    ensures
        final(clusters)@.len() == old(clusters)@.len(),
        forall|j: int|
            0 <= j < old(clusters)@.len() ==> {
                &&& (#[trigger] final(clusters)@[j]).points@ == old(clusters)@[j].points@
                &&& final(clusters)@[j].prev_center == old(clusters)@[j].center
                &&& final(clusters)@[j].center == recentered(old(clusters)@[j])
            },
{
    let ghost orig = clusters@;
    let mut j: usize = 0;
    while j < clusters.len()
        invariant
            j <= orig.len(),
            clusters@.len() == orig.len(),
            forall|i: int| j <= i < orig.len() ==> clusters@[i] == orig[i],
            forall|i: int|
                0 <= i < j ==> {
                    &&& (#[trigger] clusters@[i]).points@ == orig[i].points@
                    &&& clusters@[i].prev_center == orig[i].center
                    &&& clusters@[i].center == recentered(orig[i])
                },
        decreases orig.len() - j,
    {
        let avg = average_color(&clusters[j].points);
        let cl = cluster_at_mut(clusters, j);
        cl.prev_center = cl.center;
        if let Some(c) = avg {
            cl.center = c;
        }
        j += 1;
    }
}

} // verus!
