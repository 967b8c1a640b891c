//! The clustering engine's main loop: clear point lists, assign every
//! pixel to its nearest cluster, recenter the centroids, and stop once the
//! largest centroid displacement falls strictly below the cluster count —
//! or once a caller-supplied iteration cap is reached, so the loop is
//! bounded even for inputs whose centroids never settle.

use vstd::prelude::*;

use crate::assign::calc_dist;
use crate::assign::lemma_points_for_in_bounds;
use crate::assign::points_for;
use crate::cluster::Cluster;
use crate::cluster::centers_of;
use crate::cluster::cluster_at_mut;
use crate::cluster::clusters_in_bounds;
use crate::cluster::init_clusters;
use crate::cluster::init_clusters_from;
use crate::cluster::prev_centers_of;
use crate::color::Rgb;
use crate::converge::check_convergence;
use crate::converge::is_converged;
use crate::grid::Grid;
use crate::recenter::mean_color;
use crate::recenter::recalc_centers;
use crate::recenter::recentered;
use crate::render::build_image;
use crate::render::render_pixels;

verus! {

/// How a clustering run ended.
#[derive(Clone, Copy, PartialEq, Eq, Structural, Debug)]
pub enum RunOutcome {
    /// The centroids settled after this many assign/recenter passes.
    Converged(usize),
    /// The iteration cap was hit before the centroids settled; the cluster
    /// state is still a complete pass and may be rendered.
    IterationCapReached,
}

/// A configuration the engine rejects before doing any work.
#[derive(Clone, Copy, PartialEq, Eq, Structural, Debug)]
pub enum QuantizeError {
    /// A cluster count of zero could never assign any pixel.
    ZeroClusters,
    /// An iteration cap of zero would not allow a single pass.
    ZeroIterations,
}

/// The cluster state at the end of a full pass: every cluster holds
/// exactly the pixels that its previous centroid won during assignment,
/// and its current centroid is the truncated mean color of those pixels —
/// or, for a cluster that received none, its previous centroid unchanged.
pub open spec fn pass_complete(image: Grid, cs: Seq<Cluster>) -> bool {
    forall|j: int|
        0 <= j < cs.len() ==> {
            &&& (#[trigger] cs[j]).points@ == points_for(
                image,
                prev_centers_of(cs),
                j,
                image.width * image.height,
            )
            &&& cs[j].center == (if cs[j].points@.len() == 0 {
                cs[j].prev_center
            } else {
                mean_color(cs[j].points@)
            })
        }
}

/// Empties every cluster's point list; centroids are untouched.
pub fn clear_points(clusters: &mut Vec<Cluster>)
    ensures
        final(clusters)@.len() == old(clusters)@.len(),
        forall|j: int|
            0 <= j < old(clusters)@.len() ==> {
                &&& (#[trigger] final(clusters)@[j]).center == old(clusters)@[j].center
                &&& final(clusters)@[j].prev_center == old(clusters)@[j].prev_center
                &&& final(clusters)@[j].points@.len() == 0
            },
{
    let ghost orig = clusters@;
    let mut j: usize = 0;
    while j < clusters.len()
        invariant
            j <= orig.len(),
            clusters@.len() == orig.len(),
            forall|i: int| j <= i < orig.len() ==> clusters@[i] == orig[i],
            forall|i: int|
                0 <= i < j ==> {
                    &&& (#[trigger] clusters@[i]).center == orig[i].center
                    &&& clusters@[i].prev_center == orig[i].prev_center
                    &&& clusters@[i].points@.len() == 0
                },
        decreases orig.len() - j,
    {
        let cl = cluster_at_mut(clusters, j);
        cl.points = Vec::new();
        j += 1;
    }
}

/// Runs the fixed-point iteration: assign, recenter, check, until the
/// largest centroid displacement is strictly below the cluster count or
/// `max_iters` passes have run. Leaves the clusters at the end of a full
/// pass, every assigned pixel inside the grid.
#[verifier::loop_isolation(false)]
pub fn run_clustering(clusters: &mut Vec<Cluster>, image: &Grid, max_iters: usize) -> (outcome:
    RunOutcome)
    requires
        old(clusters)@.len() >= 1,
        image.wf(),
        max_iters >= 1,
    ensures
        final(clusters)@.len() == old(clusters)@.len(),
        pass_complete(*image, final(clusters)@),
        clusters_in_bounds(final(clusters)@, image.width as int, image.height as int),
        match outcome {
            RunOutcome::Converged(n) => 1 <= n <= max_iters && is_converged(final(clusters)@),
            RunOutcome::IterationCapReached => !is_converged(final(clusters)@),
        },
{
    let mut iter: usize = 0;
    loop
        invariant
            clusters@.len() == old(clusters)@.len(),
            iter < max_iters,
        decreases max_iters - iter,
    {
        clear_points(clusters);
        let ghost s0 = clusters@;
        calc_dist(clusters, image);
        let ghost s1 = clusters@;
        recalc_centers(clusters);
        let ghost s2 = clusters@;
        iter = iter + 1;
        proof {
            let n = image.width * image.height;
            assert(prev_centers_of(s2) =~= centers_of(s0));
            assert forall|j: int| 0 <= j < s2.len() implies {
                &&& (#[trigger] s2[j]).points@ == points_for(*image, prev_centers_of(s2), j, n)
                &&& s2[j].center == (if s2[j].points@.len() == 0 {
                    s2[j].prev_center
                } else {
                    mean_color(s2[j].points@)
                })
            } by {
                assert(s1[j].points@ == s0[j].points@ + points_for(*image, centers_of(s0), j, n));
                assert(s0[j].points@ + points_for(*image, centers_of(s0), j, n) =~= points_for(
                    *image,
                    centers_of(s0),
                    j,
                    n,
                ));
                assert(s2[j].points@ == s1[j].points@);
                assert(s2[j].center == recentered(s1[j]));
                if s1[j].points@.len() == 0 {
                    assert(s2[j].center == s1[j].center);
                    assert(s2[j].prev_center == s1[j].center);
                }
            }
            assert forall|j: int| 0 <= j < s2.len() implies crate::grid::pts_in_bounds(
                (#[trigger] s2[j]).points@,
                image.width as int,
                image.height as int,
            ) by {
                lemma_points_for_in_bounds(*image, prev_centers_of(s2), j, n);
            }
        }
        if check_convergence(clusters) {
            return RunOutcome::Converged(iter);
        }
        if iter == max_iters {
            return RunOutcome::IterationCapReached;
        }
    }
}

/// Quantizes the image with the given seed centroids: one cluster per
/// seed, then the full clustering loop, then the renderer. Rejects an
/// empty seed list and a zero iteration cap; otherwise returns the output
/// grid, the final cluster state, and how the loop ended.
pub fn quantize_with_seeds(image: &Grid, seeds: &Vec<Rgb>, max_iters: usize) -> (r: Result<
    (Grid, Vec<Cluster>, RunOutcome),
    QuantizeError,
>)
    requires
        image.wf(),
    ensures
        match r {
            Ok((out, cs, outcome)) => {
                &&& seeds@.len() >= 1
                &&& max_iters >= 1
                &&& cs@.len() == seeds@.len()
                &&& pass_complete(*image, cs@)
                &&& (match outcome {
                    RunOutcome::Converged(n) => 1 <= n <= max_iters && is_converged(cs@),
                    RunOutcome::IterationCapReached => !is_converged(cs@),
                })
                &&& out.wf()
                &&& out.width == image.width
                &&& out.height == image.height
                &&& out.pixels@ == render_pixels(image.pixels@, image.width as int, cs@)
            },
            Err(QuantizeError::ZeroClusters) => seeds@.len() == 0,
            Err(QuantizeError::ZeroIterations) => seeds@.len() >= 1 && max_iters == 0,
        },
{
    if seeds.len() == 0 {
        return Err(QuantizeError::ZeroClusters);
    }
    if max_iters == 0 {
        return Err(QuantizeError::ZeroIterations);
    }
    let mut clusters = init_clusters_from(seeds);
    let outcome = run_clustering(&mut clusters, image, max_iters);
    let out = build_image(image, &clusters);
    Ok((out, clusters, outcome))
}

/// Quantizes the image to `k` colors from randomly seeded centroids.
/// Whatever the seeds, the result is a complete, rendered clustering of
/// the whole grid. Rejects a cluster count of zero and a zero iteration
/// cap.
pub fn quantize(image: &Grid, k: usize, max_iters: usize) -> (r: Result<
    (Grid, Vec<Cluster>, RunOutcome),
    QuantizeError,
>)
    requires
        image.wf(),
    ensures
        match r {
            Ok((out, cs, outcome)) => {
                &&& k >= 1
                &&& max_iters >= 1
                &&& cs@.len() == k
                &&& pass_complete(*image, cs@)
                &&& (match outcome {
                    RunOutcome::Converged(n) => 1 <= n <= max_iters && is_converged(cs@),
                    RunOutcome::IterationCapReached => !is_converged(cs@),
                })
                &&& out.wf()
                &&& out.width == image.width
                &&& out.height == image.height
                &&& out.pixels@ == render_pixels(image.pixels@, image.width as int, cs@)
            },
            Err(QuantizeError::ZeroClusters) => k == 0,
            Err(QuantizeError::ZeroIterations) => k >= 1 && max_iters == 0,
        },
{
    if k == 0 {
        return Err(QuantizeError::ZeroClusters);
    }
    if max_iters == 0 {
        return Err(QuantizeError::ZeroIterations);
    }
    let mut clusters = init_clusters(k);
    let outcome = run_clustering(&mut clusters, image, max_iters);
    let out = build_image(image, &clusters);
    Ok((out, clusters, outcome))
}

} // verus!
