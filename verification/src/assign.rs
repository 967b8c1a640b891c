//! The assigner: one pass over the grid that hands every pixel to the
//! cluster whose centroid is nearest under the luma-weighted distance,
//! ties going to the lowest cluster index.

use vstd::prelude::*;

use crate::cluster::Cluster;
use crate::cluster::centers_of;
use crate::cluster::chosen_cluster;
use crate::cluster::cluster_at_mut;
use crate::cluster::nearest_cluster;
use crate::color::Rgb;
use crate::grid::Grid;
use crate::grid::Pixel;
use crate::grid::lemma_scan_coords;
use crate::grid::scan_pixel;

verus! {

/// The pixels among the first `n` scan positions of `g` that the assigner
/// hands to cluster `j`, in scan order.
pub open spec fn points_for(g: Grid, centers: Seq<Rgb>, j: int, n: int) -> Seq<Pixel>
    decreases n,
{
    if n <= 0 {
        Seq::empty()
    } else {
        let prev = points_for(g, centers, j, n - 1);
        let p = scan_pixel(g, n - 1);
        if chosen_cluster(centers, p.color) == j {
            prev.push(p)
        } else {
            prev
        }
    }
}

/// Every pixel the assigner hands out lies inside the grid.
pub proof fn lemma_points_for_in_bounds(g: Grid, centers: Seq<Rgb>, j: int, n: int)
    requires
        n <= g.width * g.height,
    ensures
        crate::grid::pts_in_bounds(points_for(g, centers, j, n), g.width as int, g.height as int),
    decreases n,
{
    if n > 0 {
        lemma_points_for_in_bounds(g, centers, j, n - 1);
        crate::grid::lemma_scan_pixel_in_bounds(g, n - 1);
        let prev = points_for(g, centers, j, n - 1);
        let p = scan_pixel(g, n - 1);
        if chosen_cluster(centers, p.color) == j {
            assert(forall|k: int| 0 <= k < prev.len() ==> prev.push(p)[k] == prev[k]);
            assert(prev.push(p)[prev.len() as int] == p);
        }
    }
}

/// One assigner pass: appends every pixel of the grid to the point list of
/// its nearest cluster, visiting the grid column by column. Centroids are
/// untouched; each cluster's point list grows by exactly the pixels the
/// current centroids win, in scan order.
pub fn calc_dist(clusters: &mut Vec<Cluster>, image: &Grid)
    requires
        old(clusters)@.len() >= 1,
        image.wf(),
    ensures
        final(clusters)@.len() == old(clusters)@.len(),
        forall|j: int|
            0 <= j < old(clusters)@.len() ==> {
                &&& (#[trigger] final(clusters)@[j]).center == old(clusters)@[j].center
                &&& final(clusters)@[j].prev_center == old(clusters)@[j].prev_center
                &&& final(clusters)@[j].points@ == old(clusters)@[j].points@ + points_for(
                    *image,
                    centers_of(old(clusters)@),
                    j,
                    image.width * image.height,
                )
            },
{
    let ghost orig = clusters@;
    let ghost centers = centers_of(orig);
    let width = image.width;
    let height = image.height;
    let mut x: usize = 0;
    while x < width
        invariant
            x <= width,
            image.wf(),
            image.width == width,
            image.height == height,
            clusters@.len() == orig.len(),
            orig.len() >= 1,
            centers == centers_of(orig),
            centers_of(clusters@) == centers,
            forall|j: int|
                0 <= j < orig.len() ==> {
                    &&& (#[trigger] clusters@[j]).center == orig[j].center
                    &&& clusters@[j].prev_center == orig[j].prev_center
                    &&& clusters@[j].points@ == orig[j].points@ + points_for(
                        *image,
                        centers,
                        j,
                        x * height,
                    )
                },
        decreases width - x,
    {
        let mut y: usize = 0;
        while y < height
            invariant
                x < width,
                y <= height,
                image.wf(),
                image.width == width,
                image.height == height,
                clusters@.len() == orig.len(),
                orig.len() >= 1,
                centers == centers_of(orig),
                centers_of(clusters@) == centers,
                forall|j: int|
                    0 <= j < orig.len() ==> {
                        &&& (#[trigger] clusters@[j]).center == orig[j].center
                        &&& clusters@[j].prev_center == orig[j].prev_center
                        &&& clusters@[j].points@ == orig[j].points@ + points_for(
                            *image,
                            centers,
                            j,
                            x * height + y,
                        )
                    },
            decreases height - y,
        {
            let ghost n = x as int * height as int + y as int;
            let ghost before = clusters@;
            let color = image.get_pixel(x, y);
            let index = nearest_cluster(clusters, color);
            let p = Pixel { x, y, color };
            proof {
                lemma_scan_coords(*image, x as int, y as int);
                assert(scan_pixel(*image, n) == p);
                crate::cluster::lemma_chosen_cluster_is_first_min(centers, color);
            }
            let cl = cluster_at_mut(clusters, index);
            cl.points.push(p);
            proof {
                assert forall|j: int| 0 <= j < orig.len() implies (#[trigger] clusters@[j]).points@
                    == orig[j].points@ + points_for(*image, centers, j, n + 1) by {
                    if j == index {
                        assert(points_for(*image, centers, j, n + 1) == points_for(
                            *image,
                            centers,
                            j,
                            n,
                        ).push(p));
                        assert(clusters@[j].points@ == (orig[j].points@ + points_for(
                            *image,
                            centers,
                            j,
                            n,
                        )).push(p));
                        assert(orig[j].points@ + points_for(*image, centers, j, n).push(p)
                            =~= (orig[j].points@ + points_for(*image, centers, j, n)).push(p));
                    } else {
                        assert(points_for(*image, centers, j, n + 1) == points_for(
                            *image,
                            centers,
                            j,
                            n,
                        ));
                        assert(clusters@[j] == before[j]);
                    }
                }
                assert(centers_of(clusters@) =~= centers);
            }
            y += 1;
        }
        proof {
            assert(x as int * height as int + height as int == (x + 1) as int * height as int)
                by (nonlinear_arith);
        }
        x += 1;
    }
}

} // verus!
