//! Clusters: a current centroid, the previous centroid kept for the
//! convergence check, and the pixels assigned in the current iteration.
//! Also the initializer, which seeds centroids (randomly, or from given
//! colors), and the choice of the nearest cluster for one pixel color.

use vstd::prelude::*;

use crate::color::Rgb;
use crate::color::lemma_channel_diff_sq_bounds;
use crate::color::spec_distance;
use crate::grid::Pixel;

verus! {

/// One cluster of the engine. `points` is cleared and rebuilt every
/// iteration; `center` and `prev_center` persist and move each iteration.
#[derive(Clone, Debug)]
pub struct Cluster {
    pub center: Rgb,
    pub prev_center: Rgb,
    pub points: Vec<Pixel>,
}

/// Every cluster's point list holds only in-bounds coordinates.
pub open spec fn clusters_in_bounds(cs: Seq<Cluster>, width: int, height: int) -> bool {
    forall|j: int|
        0 <= j < cs.len() ==> crate::grid::pts_in_bounds((#[trigger] cs[j]).points@, width, height)
}

/// The current centroids of a cluster list, in cluster order.
pub open spec fn centers_of(cs: Seq<Cluster>) -> Seq<Rgb> {
    cs.map_values(|c: Cluster| c.center)
}

/// The previous centroids of a cluster list, in cluster order.
pub open spec fn prev_centers_of(cs: Seq<Cluster>) -> Seq<Rgb> {
    cs.map_values(|c: Cluster| c.prev_center)
}

impl Cluster {
    /// The luma-weighted squared distance from this cluster's centroid to a
    /// pixel color. The result is pinned to [`spec_distance`], a pure
    /// mathematical function, so repeated calls on the same centroid and
    /// color always return the same value.
    pub fn get_distance(&self, color: Rgb) -> (d: i32)
        ensures
            d == spec_distance(self.center, color),
    {
        proof {
            lemma_channel_diff_sq_bounds(color.r, self.center.r);
            lemma_channel_diff_sq_bounds(color.g, self.center.g);
            lemma_channel_diff_sq_bounds(color.b, self.center.b);
        }
        let dr: i32 = color.r as i32 - self.center.r as i32;
        let dg: i32 = color.g as i32 - self.center.g as i32;
        let db: i32 = color.b as i32 - self.center.b as i32;
        30 * (dr * dr) + 59 * (dg * dg) + 11 * (db * db)
    }
}

/// A mutable borrow of one cluster of the list.
pub(crate) fn cluster_at_mut(clusters: &mut Vec<Cluster>, i: usize) -> (cl: &mut Cluster)
    requires
        i < old(clusters).len(),
    ensures
        *cl == old(clusters)@[i as int],
        final(clusters)@ == old(clusters)@.update(i as int, *final(cl)),
{
    &mut clusters[i]
}

/// Relies on rand::random: draws one byte from the thread-local generator,
/// uniformly over the 8-bit range. Nothing is promised of the value; every
/// caller must be correct for every byte that may come back.
#[verifier::external_body]
fn random_channel() -> u8 {
    rand::random()
}

/// The index of the cluster whose centroid is nearest to `color` under the
/// luma-weighted distance, scanning the centroids in order and keeping the
/// first one that attains the minimum (the tie-break rule).
pub open spec fn chosen_cluster(centers: Seq<Rgb>, color: Rgb) -> int
    decreases centers.len(),
{
    if centers.len() <= 1 {
        0
    } else {
        let j = chosen_cluster(centers.drop_last(), color);
        if spec_distance(centers.last(), color) < spec_distance(centers[j], color) {
            centers.len() - 1
        } else {
            j
        }
    }
}

/// The chosen cluster is in range, attains the minimal distance, and every
/// cluster before it is strictly farther (the tie-break rule).
pub proof fn lemma_chosen_cluster_is_first_min(centers: Seq<Rgb>, color: Rgb)
    requires
        centers.len() >= 1,
    ensures
        0 <= chosen_cluster(centers, color) < centers.len(),
        forall|i: int|
            0 <= i < centers.len() ==> spec_distance(centers[chosen_cluster(centers, color)], color)
                <= #[trigger] spec_distance(centers[i], color),
        forall|i: int|
            0 <= i < chosen_cluster(centers, color) ==> #[trigger] spec_distance(centers[i], color)
                > spec_distance(centers[chosen_cluster(centers, color)], color),
    decreases centers.len(),
{
    if centers.len() > 1 {
        lemma_chosen_cluster_is_first_min(centers.drop_last(), color);
        assert(forall|i: int|
            0 <= i < centers.len() - 1 ==> centers.drop_last()[i] == centers[i]);
    }
}

/// Builds one cluster per seed color: centroid at the seed, previous
/// centroid at pure black, no points assigned yet.
pub fn init_clusters_from(seeds: &Vec<Rgb>) -> (clusters: Vec<Cluster>)
    ensures
        clusters@.len() == seeds@.len(),
        forall|j: int|
            0 <= j < clusters@.len() ==> {
                &&& (#[trigger] clusters@[j]).center == seeds@[j]
                &&& clusters@[j].prev_center == (Rgb { r: 0, g: 0, b: 0 })
                &&& clusters@[j].points@.len() == 0
            },
{
    let mut clusters: Vec<Cluster> = Vec::new();
    let mut j: usize = 0;
    while j < seeds.len()
        invariant
            j <= seeds@.len(),
            clusters@.len() == j,
            forall|i: int|
                0 <= i < j ==> {
                    &&& (#[trigger] clusters@[i]).center == seeds@[i]
                    &&& clusters@[i].prev_center == (Rgb { r: 0, g: 0, b: 0 })
                    &&& clusters@[i].points@.len() == 0
                },
        decreases seeds@.len() - j,
    {
        clusters.push(
            Cluster {
                center: seeds[j],
                prev_center: Rgb { r: 0, g: 0, b: 0 },
                points: Vec::new(),
            },
        );
        j += 1;
    }
    clusters
}

/// Seeds `k` clusters with independently drawn random centroid colors,
/// previous centroids at pure black, and empty point lists. Whatever bytes
/// the generator returns, the result is `k` well-formed fresh clusters.
pub fn init_clusters(k: usize) -> (clusters: Vec<Cluster>)
    ensures
        clusters@.len() == k,
        forall|j: int|
            0 <= j < clusters@.len() ==> {
                &&& (#[trigger] clusters@[j]).prev_center == (Rgb { r: 0, g: 0, b: 0 })
                &&& clusters@[j].points@.len() == 0
            },
{
    let mut seeds: Vec<Rgb> = Vec::new();
    let mut j: usize = 0;
    while j < k
        invariant
            j <= k,
            seeds@.len() == j,
        decreases k - j,
    {
        seeds.push(Rgb { r: random_channel(), g: random_channel(), b: random_channel() });
        j += 1;
    }
    init_clusters_from(&seeds)
}

/// The index of the cluster nearest to `color`, ties going to the lowest
/// index.
pub fn nearest_cluster(clusters: &Vec<Cluster>, color: Rgb) -> (best: usize)
    requires
        clusters@.len() >= 1,
    ensures
        best == chosen_cluster(centers_of(clusters@), color),
{
    let ghost centers = centers_of(clusters@);
    let mut best: usize = 0;
    let mut best_dist: i32 = clusters[0].get_distance(color);
    let mut i: usize = 1;
    while i < clusters.len()
        invariant
            1 <= i <= clusters@.len(),
            centers == centers_of(clusters@),
            centers.len() == clusters@.len(),
            forall|m: int| 0 <= m < centers.len() ==> centers[m] == clusters@[m].center,
            best == chosen_cluster(centers.take(i as int), color),
            0 <= best < i,
            best_dist == spec_distance(centers[best as int], color),
        decreases clusters@.len() - i,
    {
        let d = clusters[i].get_distance(color);
        proof {
            assert(centers.take(i as int + 1).drop_last() =~= centers.take(i as int));
            assert(centers.take(i as int + 1).last() == centers[i as int]);
            lemma_chosen_cluster_is_first_min(centers.take(i as int), color);
        }
        if d < best_dist {
            best = i;
            best_dist = d;
        }
        i += 1;
    }
    proof {
        assert(centers.take(clusters@.len() as int) =~= centers);
    }
    best
}

} // verus!
