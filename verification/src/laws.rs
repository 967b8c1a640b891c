//! Laws of the engine that relate several functions: total coverage of an
//! assigner pass, the renderer painting every pixel with its owning
//! cluster's centroid, and idempotence of the renderer.

use vstd::prelude::*;

use crate::assign::points_for;
use crate::cluster::Cluster;
use crate::cluster::chosen_cluster;
use crate::cluster::clusters_in_bounds;
use crate::cluster::lemma_chosen_cluster_is_first_min;
use crate::color::Rgb;
use crate::grid::Grid;
use crate::grid::Pixel;
use crate::grid::scan_pixel;
use crate::render::lemma_render_pointwise;
use crate::render::render_pixels;
use crate::render::rendered_cell;
use crate::render::covers;

verus! {

/// A point handed to cluster `j` is a scan pixel whose color `j` wins.
pub proof fn lemma_points_for_membership(g: Grid, centers: Seq<Rgb>, j: int, n: int, p: Pixel)
    requires
        points_for(g, centers, j, n).contains(p),
    ensures
        chosen_cluster(centers, p.color) == j,
        exists|m: int| 0 <= m < n && scan_pixel(g, m) == p,
    decreases n,
{
    assert(n > 0);
    let prev = points_for(g, centers, j, n - 1);
    let q = scan_pixel(g, n - 1);
    if chosen_cluster(centers, q.color) == j {
        if p == q {
            assert(0 <= n - 1 < n && scan_pixel(g, n - 1) == p);
        } else {
            let t = choose|t: int| 0 <= t < prev.push(q).len() && prev.push(q)[t] == p;
            assert(t < prev.len());
            assert(prev[t] == p);
            assert(prev.contains(p));
            lemma_points_for_membership(g, centers, j, n - 1, p);
            let m = choose|m: int| 0 <= m < n - 1 && scan_pixel(g, m) == p;
            assert(0 <= m < n && scan_pixel(g, m) == p);
        }
    } else {
        lemma_points_for_membership(g, centers, j, n - 1, p);
        let m = choose|m: int| 0 <= m < n - 1 && scan_pixel(g, m) == p;
        assert(0 <= m < n && scan_pixel(g, m) == p);
    }
}

/// Every scan pixel lands in the point list of the cluster its color
/// chooses.
pub proof fn lemma_points_for_covers_scan(g: Grid, centers: Seq<Rgb>, n: int, m: int)
    requires
        0 <= m < n,
    ensures
        points_for(g, centers, chosen_cluster(centers, scan_pixel(g, m).color), n).contains(
            scan_pixel(g, m),
        ),
    decreases n,
{
    let p = scan_pixel(g, m);
    let j = chosen_cluster(centers, p.color);
    let cur = points_for(g, centers, j, n);
    let prev = points_for(g, centers, j, n - 1);
    if m == n - 1 {
        assert(cur == prev.push(p));
        assert(cur[cur.len() - 1] == p);
    } else {
        lemma_points_for_covers_scan(g, centers, n - 1, m);
        let t = choose|t: int| 0 <= t < prev.len() && prev[t] == p;
        if chosen_cluster(centers, scan_pixel(g, n - 1).color) == j {
            assert(cur == prev.push(scan_pixel(g, n - 1)));
        }
        assert(cur[t] == p);
    }
}

/// Total coverage: after an assigner pass of the whole grid against the
/// centroids `centers`, every pixel of the grid lies in the point list of
/// exactly one cluster — the one its color chooses — and every assigned
/// point is a pixel of the grid.
pub proof fn lemma_total_coverage(g: Grid, cs: Seq<Cluster>, centers: Seq<Rgb>)
    requires
        g.wf(),
        cs.len() >= 1,
        centers.len() == cs.len(),
        forall|j: int|
            0 <= j < cs.len() ==> (#[trigger] cs[j]).points@ == points_for(
                g,
                centers,
                j,
                g.width * g.height,
            ),
    ensures
        forall|m: int|
            #![trigger scan_pixel(g, m)]
            0 <= m < g.width * g.height ==> {
                &&& 0 <= chosen_cluster(centers, scan_pixel(g, m).color) < cs.len()
                &&& cs[chosen_cluster(centers, scan_pixel(g, m).color)].points@.contains(
                    scan_pixel(g, m),
                )
                &&& forall|j: int|
                    0 <= j < cs.len() && j != chosen_cluster(centers, scan_pixel(g, m).color)
                        ==> !(#[trigger] cs[j]).points@.contains(scan_pixel(g, m))
            },
        forall|j: int, p: Pixel|
            0 <= j < cs.len() && #[trigger] cs[j].points@.contains(p) ==> {
                &&& chosen_cluster(centers, p.color) == j
                &&& exists|m: int| 0 <= m < g.width * g.height && scan_pixel(g, m) == p
            },
{
    let n = g.width * g.height;
    assert forall|m: int| 0 <= m < n implies {
        &&& 0 <= chosen_cluster(centers, scan_pixel(g, m).color) < cs.len()
        &&& cs[chosen_cluster(centers, scan_pixel(g, m).color)].points@.contains(scan_pixel(g, m))
        &&& forall|j: int|
            0 <= j < cs.len() && j != chosen_cluster(centers, scan_pixel(g, m).color) ==> !(
            #[trigger] cs[j]).points@.contains(scan_pixel(g, m))
    } by {
        let p = scan_pixel(g, m);
        let cj = chosen_cluster(centers, p.color);
        lemma_chosen_cluster_is_first_min(centers, p.color);
        lemma_points_for_covers_scan(g, centers, n, m);
        assert(cs[cj].points@.contains(p));
        assert forall|j: int| 0 <= j < cs.len() && j != cj implies !(
        #[trigger] cs[j]).points@.contains(p) by {
            if cs[j].points@.contains(p) {
                lemma_points_for_membership(g, centers, j, n, p);
            }
        }
    }
    assert forall|j: int, p: Pixel|
        0 <= j < cs.len() && #[trigger] cs[j].points@.contains(p) implies {
        &&& chosen_cluster(centers, p.color) == j
        &&& exists|m: int| 0 <= m < n && scan_pixel(g, m) == p
    } by {
        lemma_points_for_membership(g, centers, j, n, p);
    }
}

/// A cell that exactly one cluster covers renders to that cluster's
/// centroid color.
proof fn lemma_rendered_cell_unique_cover(
    px: Seq<Rgb>,
    width: int,
    cs: Seq<Cluster>,
    i: int,
    j: int,
)
    requires
        0 <= j < cs.len(),
        covers(cs[j].points@, width, i),
        forall|j2: int|
            0 <= j2 < cs.len() && j2 != j ==> !covers((#[trigger] cs[j2]).points@, width, i),
    ensures
        rendered_cell(px, width, cs, i) == cs[j].center,
    decreases cs.len(),
{
    if j == cs.len() - 1 {
        assert(rendered_cell(px, width, cs, i) == cs.last().center);
    } else {
        assert(!covers(cs.last().points@, width, i));
        let init = cs.drop_last();
        assert(forall|j2: int| 0 <= j2 < init.len() ==> init[j2] == cs[j2]);
        lemma_rendered_cell_unique_cover(px, width, init, i, j);
    }
}

/// After a complete pass of the engine, the renderer paints every pixel of
/// the grid with the final centroid color of the cluster that owns it.
pub proof fn lemma_output_is_owning_centroid(g: Grid, cs: Seq<Cluster>)
    requires
        g.wf(),
        cs.len() >= 1,
        crate::engine::pass_complete(g, cs),
        clusters_in_bounds(cs, g.width as int, g.height as int),
    ensures
        forall|m: int|
            #![trigger scan_pixel(g, m)]
            0 <= m < g.width * g.height ==> render_pixels(g.pixels@, g.width as int, cs)[
                scan_pixel(g, m).y * g.width + scan_pixel(g, m).x
            ] == cs[chosen_cluster(crate::cluster::prev_centers_of(cs), scan_pixel(g, m).color)].center,
{
    let centers = crate::cluster::prev_centers_of(cs);
    let w = g.width as int;
    let h = g.height as int;
    let n = g.width * g.height;
    lemma_total_coverage(g, cs, centers);
    lemma_render_pointwise(g.pixels@, w, h, cs);
    assert forall|m: int| 0 <= m < n implies render_pixels(g.pixels@, w, cs)[
        scan_pixel(g, m).y * g.width + scan_pixel(g, m).x
    ] == cs[chosen_cluster(centers, scan_pixel(g, m).color)].center by {
        let p = scan_pixel(g, m);
        let j = chosen_cluster(centers, p.color);
        crate::grid::lemma_scan_pixel_in_bounds(g, m);
        crate::grid::lemma_row_major_index_in_range(w, h, p.x as int, p.y as int);
        let i = p.y * w + p.x;
        assert(cs[j].points@.contains(p));
        let t = choose|t: int| 0 <= t < cs[j].points@.len() && cs[j].points@[t] == p;
        assert(covers(cs[j].points@, w, i));
        assert forall|j2: int| 0 <= j2 < cs.len() && j2 != j implies !covers(
            (#[trigger] cs[j2]).points@,
            w,
            i,
        ) by {
            if covers(cs[j2].points@, w, i) {
                let t2 = choose|t2: int|
                    0 <= t2 < cs[j2].points@.len() && (#[trigger] cs[j2].points@[t2]).y * w
                        + cs[j2].points@[t2].x == i;
                let q = cs[j2].points@[t2];
                assert(cs[j2].points@.contains(q));
                let m2 = choose|m2: int| 0 <= m2 < n && scan_pixel(g, m2) == q;
                crate::grid::lemma_scan_pixel_in_bounds(g, m2);
                crate::grid::lemma_row_major_index_injective(
                    w,
                    q.x as int,
                    q.y as int,
                    p.x as int,
                    p.y as int,
                );
                vstd::arithmetic::div_mod::lemma_fundamental_div_mod(m2, h);
                vstd::arithmetic::div_mod::lemma_fundamental_div_mod(m, h);
                assert(q == p);
            }
        }
        lemma_rendered_cell_unique_cover(g.pixels@, w, cs, i, j);
    }
}

/// A cell whose base color already agrees with the rendering renders to
/// the same color again.
proof fn lemma_rendered_cell_stable(px: Seq<Rgb>, base: Seq<Rgb>, width: int, cs: Seq<Cluster>, i: int)
    requires
        base[i] == rendered_cell(px, width, cs, i),
    ensures
        rendered_cell(base, width, cs, i) == rendered_cell(px, width, cs, i),
    decreases cs.len(),
{
    if cs.len() > 0 {
        if !covers(cs.last().points@, width, i) {
            lemma_rendered_cell_stable(px, base, width, cs.drop_last(), i);
        }
    }
}

/// Idempotence of the renderer: painting the same converged cluster state
/// onto its own rendering changes nothing — the renderer applied twice
/// equals the renderer applied once.
pub proof fn lemma_renderer_idempotent(px: Seq<Rgb>, width: int, height: int, cs: Seq<Cluster>)
    requires
        px.len() == width * height,
        clusters_in_bounds(cs, width, height),
    ensures
        render_pixels(render_pixels(px, width, cs), width, cs) == render_pixels(px, width, cs),
{
    let r1 = render_pixels(px, width, cs);
    lemma_render_pointwise(px, width, height, cs);
    lemma_render_pointwise(r1, width, height, cs);
    assert forall|i: int| 0 <= i < px.len() implies render_pixels(r1, width, cs)[i] == r1[i] by {
        lemma_rendered_cell_stable(px, r1, width, cs, i);
    }
    assert(render_pixels(r1, width, cs) =~= r1);
}

} // verus!

