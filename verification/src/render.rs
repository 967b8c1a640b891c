//! The renderer: paints every pixel of the output grid with the final
//! centroid color of the cluster that owns it, walking the clusters in
//! order and their point lists in order. It reads the cluster state and
//! the input grid; it mutates neither.

use vstd::prelude::*;

use crate::cluster::Cluster;
use crate::cluster::clusters_in_bounds;
use crate::color::Rgb;
use crate::grid::Grid;
use crate::grid::Pixel;
use crate::grid::lemma_row_major_index_in_range;
use crate::grid::pts_in_bounds;

verus! {

/// The pixel sequence after one cluster's points are painted with color
/// `c`, in point-list order.
pub open spec fn apply_points(px: Seq<Rgb>, width: int, pts: Seq<Pixel>, c: Rgb) -> Seq<Rgb>
    decreases pts.len(),
{
    if pts.len() == 0 {
        px
    } else {
        let prev = apply_points(px, width, pts.drop_last(), c);
        let p = pts.last();
        prev.update(p.y * width + p.x, c)
    }
}

/// The pixel sequence after every cluster, in order, has painted its
/// points with its centroid color.
pub open spec fn render_pixels(px: Seq<Rgb>, width: int, cs: Seq<Cluster>) -> Seq<Rgb>
    decreases cs.len(),
{
    if cs.len() == 0 {
        px
    } else {
        apply_points(
            render_pixels(px, width, cs.drop_last()),
            width,
            cs.last().points@,
            cs.last().center,
        )
    }
}

/// Whether some point of `pts` lies at row-major cell `i`.
pub open spec fn covers(pts: Seq<Pixel>, width: int, i: int) -> bool {
    exists|k: int| 0 <= k < pts.len() && (#[trigger] pts[k]).y * width + pts[k].x == i
}

/// The color cell `i` ends with: the centroid of the last cluster that
/// covers it, or its original color if no cluster does.
pub open spec fn rendered_cell(px: Seq<Rgb>, width: int, cs: Seq<Cluster>, i: int) -> Rgb
    decreases cs.len(),
{
    if cs.len() == 0 {
        px[i]
    } else if covers(cs.last().points@, width, i) {
        cs.last().center
    } else {
        rendered_cell(px, width, cs.drop_last(), i)
    }
}

/// Painting one cluster's points changes exactly the cells its points
/// cover, all to the cluster's color.
pub proof fn lemma_apply_points_pointwise(
    px: Seq<Rgb>,
    width: int,
    height: int,
    pts: Seq<Pixel>,
    c: Rgb,
)
    requires
        px.len() == width * height,
        pts_in_bounds(pts, width, height),
    ensures
        apply_points(px, width, pts, c).len() == px.len(),
        forall|i: int|
            0 <= i < px.len() ==> apply_points(px, width, pts, c)[i] == (if covers(pts, width, i) {
                c
            } else {
                px[i]
            }),
    decreases pts.len(),
{
    if pts.len() > 0 {
        let init = pts.drop_last();
        let p = pts.last();
        assert(pts_in_bounds(init, width, height)) by {
            assert(forall|k: int| 0 <= k < init.len() ==> init[k] == pts[k]);
        }
        lemma_apply_points_pointwise(px, width, height, init, c);
        lemma_row_major_index_in_range(width, height, p.x as int, p.y as int);
        let ilast = p.y * width + p.x;
        assert forall|i: int| 0 <= i < px.len() implies apply_points(px, width, pts, c)[i] == (
        if covers(pts, width, i) {
            c
        } else {
            px[i]
        }) by {
            if i == ilast {
                assert(covers(pts, width, i));
            } else {
                if covers(init, width, i) {
                    let k = choose|k: int|
                        0 <= k < init.len() && (#[trigger] init[k]).y * width + init[k].x == i;
                    assert(pts[k] == init[k]);
                    assert(covers(pts, width, i));
                } else if covers(pts, width, i) {
                    let k = choose|k: int|
                        0 <= k < pts.len() && (#[trigger] pts[k]).y * width + pts[k].x == i;
                    if k < pts.len() - 1 {
                        assert(init[k] == pts[k]);
                        assert(init[k].y * width + init[k].x == i);
                        assert(covers(init, width, i));
                    } else {
                        assert(i == ilast);
                    }
                }
            }
        }
    }
}

/// Rendering leaves the grid's length alone and gives every cell the color
/// [`rendered_cell`] names.
pub proof fn lemma_render_pointwise(px: Seq<Rgb>, width: int, height: int, cs: Seq<Cluster>)
    requires
        px.len() == width * height,
        clusters_in_bounds(cs, width, height),
    ensures
        render_pixels(px, width, cs).len() == px.len(),
        forall|i: int|
            0 <= i < px.len() ==> render_pixels(px, width, cs)[i] == rendered_cell(
                px,
                width,
                cs,
                i,
            ),
    decreases cs.len(),
{
    if cs.len() > 0 {
        let init = cs.drop_last();
        let last = cs.last();
        assert(clusters_in_bounds(init, width, height)) by {
            assert(forall|j: int| 0 <= j < init.len() ==> init[j] == cs[j]);
        }
        lemma_render_pointwise(px, width, height, init);
        lemma_apply_points_pointwise(
            render_pixels(px, width, init),
            width,
            height,
            last.points@,
            last.center,
        );
        assert(render_pixels(px, width, cs) == apply_points(
            render_pixels(px, width, init),
            width,
            last.points@,
            last.center,
        ));
        assert forall|i: int| 0 <= i < px.len() implies render_pixels(px, width, cs)[i]
            == rendered_cell(px, width, cs, i) by {
            if covers(last.points@, width, i) {
                assert(rendered_cell(px, width, cs, i) == last.center);
            } else {
                assert(rendered_cell(px, width, cs, i) == rendered_cell(px, width, init, i));
            }
        }
    }
}

/// Builds the output image: a grid of the input's dimensions where each
/// cluster's points carry the cluster's final centroid color and every
/// cell no cluster owns keeps its input color. The input grid and the
/// clusters are left untouched.
pub fn build_image(image: &Grid, clusters: &Vec<Cluster>) -> (out: Grid)
    requires
        image.wf(),
        clusters_in_bounds(clusters@, image.width as int, image.height as int),
    ensures
        out.wf(),
        out.width == image.width,
        out.height == image.height,
        out.pixels@ == render_pixels(image.pixels@, image.width as int, clusters@),
{
    let ghost orig = image.pixels@;
    let ghost w = image.width as int;
    let mut pixels: Vec<Rgb> = Vec::new();
    let mut i: usize = 0;
    while i < image.pixels.len()
        invariant
            i <= orig.len(),
            orig == image.pixels@,
            pixels@ == orig.take(i as int),
        decreases orig.len() - i,
    {
        pixels.push(image.pixels[i]);
        proof {
            assert(pixels@ =~= orig.take(i as int + 1));
        }
        i += 1;
    }
    proof {
        assert(orig.take(orig.len() as int) =~= orig);
    }
    let mut out = Grid { width: image.width, height: image.height, pixels };
    let mut j: usize = 0;
    while j < clusters.len()
        invariant
            j <= clusters@.len(),
            out.wf(),
            out.width == image.width,
            out.height == image.height,
            image.wf(),
            orig == image.pixels@,
            w == image.width as int,
            clusters_in_bounds(clusters@, w, image.height as int),
            out.pixels@ == render_pixels(orig, w, clusters@.take(j as int)),
        decreases clusters@.len() - j,
    {
        let ghost base = out.pixels@;
        let npoints = clusters[j].points.len();
        let mut t: usize = 0;
        while t < npoints
            invariant
                t <= npoints,
                j < clusters@.len(),
                npoints == clusters@[j as int].points@.len(),
                out.wf(),
                out.width == image.width,
                out.height == image.height,
                image.wf(),
                w == image.width as int,
                clusters_in_bounds(clusters@, w, image.height as int),
                out.pixels@ == apply_points(
                    base,
                    w,
                    clusters@[j as int].points@.take(t as int),
                    clusters@[j as int].center,
                ),
                base.len() == image.width * image.height,
            decreases npoints - t,
        {
            let p = clusters[j].points[t];
            let c = clusters[j].center;
            let ghost pts = clusters@[j as int].points@;
            proof {
                assert(pts[t as int].x < w && pts[t as int].y < image.height);
                assert(pts.take(t as int + 1).drop_last() =~= pts.take(t as int));
                assert(pts.take(t as int + 1).last() == pts[t as int]);
            }
            out.set_pixel(p.x, p.y, c);
            t += 1;
        }
        proof {
            let pts = clusters@[j as int].points@;
            assert(pts.take(pts.len() as int) =~= pts);
            assert(clusters@.take(j as int + 1).drop_last() =~= clusters@.take(j as int));
            assert(clusters@.take(j as int + 1).last() == clusters@[j as int]);
        }
        j += 1;
    }
    proof {
        assert(clusters@.take(clusters@.len() as int) =~= clusters@);
    }
    out
}

} // verus!
