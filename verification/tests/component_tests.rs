use kmeans_quantize::Cluster;
use kmeans_quantize::Grid;
use kmeans_quantize::Pixel;
use kmeans_quantize::Rgb;
use kmeans_quantize::assign::calc_dist;
use kmeans_quantize::cluster::init_clusters_from;
use kmeans_quantize::color::shift_sq;
use kmeans_quantize::converge::check_convergence;
use kmeans_quantize::converge::max_center_shift_sq;
use kmeans_quantize::engine::clear_points;
use kmeans_quantize::grid::OutOfBounds;
use kmeans_quantize::recenter::average_color;
use kmeans_quantize::recenter::recalc_centers;
use kmeans_quantize::render::build_image;

fn rgb(r: u8, g: u8, b: u8) -> Rgb {
    Rgb { r, g, b }
}

fn pixel(x: usize, y: usize, color: Rgb) -> Pixel {
    Pixel { x, y, color }
}

fn cluster(center: Rgb, prev_center: Rgb, points: Vec<Pixel>) -> Cluster {
    Cluster { center, prev_center, points }
}

#[test]
fn distance_uses_the_luma_weights() {
    // 30*1^2 + 59*2^2 + 11*3^2 = 30 + 236 + 99.
    let cl = cluster(rgb(0, 0, 0), rgb(0, 0, 0), Vec::new());
    assert_eq!(cl.get_distance(rgb(1, 2, 3)), 365);
    // The difference is signed but squared: same distance from both sides.
    let cl = cluster(rgb(10, 10, 10), rgb(0, 0, 0), Vec::new());
    assert_eq!(cl.get_distance(rgb(0, 20, 10)), 30 * 100 + 59 * 100);
    // Extremes: 100 * 255^2.
    let cl = cluster(rgb(255, 255, 255), rgb(0, 0, 0), Vec::new());
    assert_eq!(cl.get_distance(rgb(0, 0, 0)), 6_502_500);
}

#[test]
fn distance_is_deterministic() {
    let cl = cluster(rgb(12, 200, 7), rgb(0, 0, 0), Vec::new());
    let color = rgb(250, 3, 99);
    assert_eq!(cl.get_distance(color), cl.get_distance(color));
}

#[test]
fn assigner_covers_every_pixel_exactly_once() {
    let image = Grid::from_pixels(
        2,
        2,
        vec![rgb(0, 0, 0), rgb(80, 80, 80), rgb(170, 170, 170), rgb(255, 255, 255)],
    )
    .unwrap();
    let mut clusters = init_clusters_from(&vec![rgb(0, 0, 0), rgb(255, 255, 255)]);
    calc_dist(&mut clusters, &image);
    let total: usize = clusters.iter().map(|c| c.points.len()).sum();
    assert_eq!(total, 4);
    // Each pixel appears in exactly one cluster.
    for x in 0..2usize {
        for y in 0..2usize {
            let color = image.get_pixel(x, y);
            let owners = clusters
                .iter()
                .filter(|c| c.points.iter().any(|p| p.x == x && p.y == y && p.color == color))
                .count();
            assert_eq!(owners, 1);
        }
    }
    // Dark pixels to cluster 0, bright ones to cluster 1.
    assert_eq!(clusters[0].points.len(), 2);
    assert_eq!(clusters[1].points.len(), 2);
}

#[test]
fn assigner_scans_columns_top_to_bottom() {
    let image = Grid::from_pixels(
        2,
        2,
        vec![rgb(1, 1, 1), rgb(2, 2, 2), rgb(3, 3, 3), rgb(4, 4, 4)],
    )
    .unwrap();
    let mut clusters = init_clusters_from(&vec![rgb(0, 0, 0)]);
    calc_dist(&mut clusters, &image);
    // Column-major order: (0,0), (0,1), (1,0), (1,1).
    let coords: Vec<(usize, usize)> = clusters[0].points.iter().map(|p| (p.x, p.y)).collect();
    assert_eq!(coords, vec![(0, 0), (0, 1), (1, 0), (1, 1)]);
    assert_eq!(clusters[0].points[1].color, rgb(3, 3, 3));
}

#[test]
fn average_color_truncates_per_channel() {
    // Means 127.5, 1.5, 0.5 truncate to 127, 1, 0.
    let points = vec![pixel(0, 0, rgb(0, 0, 0)), pixel(1, 0, rgb(255, 3, 1))];
    assert_eq!(average_color(&points), Some(rgb(127, 1, 0)));
    let empty: Vec<Pixel> = Vec::new();
    assert_eq!(average_color(&empty), None);
}

#[test]
fn recentering_stores_the_previous_centroid() {
    let mut clusters = vec![cluster(
        rgb(10, 20, 30),
        rgb(0, 0, 0),
        vec![pixel(0, 0, rgb(100, 100, 100)), pixel(1, 0, rgb(101, 103, 105))],
    )];
    recalc_centers(&mut clusters);
    assert_eq!(clusters[0].prev_center, rgb(10, 20, 30));
    assert_eq!(clusters[0].center, rgb(100, 101, 102));
    assert_eq!(clusters[0].points.len(), 2);
}

#[test]
fn empty_cluster_keeps_its_centroid() {
    // The documented degenerate-cluster policy: no points, no movement.
    let mut clusters = vec![cluster(rgb(40, 50, 60), rgb(1, 2, 3), Vec::new())];
    recalc_centers(&mut clusters);
    assert_eq!(clusters[0].center, rgb(40, 50, 60));
    assert_eq!(clusters[0].prev_center, rgb(40, 50, 60));
}

#[test]
fn displacement_is_the_squared_euclidean_length() {
    assert_eq!(shift_sq(rgb(3, 4, 0), rgb(0, 0, 0)), 25);
    assert_eq!(shift_sq(rgb(0, 0, 0), rgb(255, 255, 255)), 3 * 65025);
    assert_eq!(shift_sq(rgb(7, 7, 7), rgb(7, 7, 7)), 0);
}

#[test]
fn convergence_compares_against_the_cluster_count() {
    // Two clusters: the threshold is displacement < 2, i.e. squared < 4.
    let moved_far = cluster(rgb(2, 0, 0), rgb(0, 0, 0), Vec::new());
    let moved_near = cluster(rgb(1, 1, 1), rgb(0, 0, 0), Vec::new());
    let still = || cluster(rgb(5, 5, 5), rgb(5, 5, 5), Vec::new());

    let far = vec![moved_far, still()];
    assert_eq!(max_center_shift_sq(&far), 4);
    assert!(!check_convergence(&far));

    let near = vec![moved_near, still()];
    assert_eq!(max_center_shift_sq(&near), 3);
    assert!(check_convergence(&near));
}

#[test]
fn renderer_paints_points_and_keeps_the_rest() {
    let image = Grid::from_pixels(
        2,
        2,
        vec![rgb(1, 1, 1), rgb(2, 2, 2), rgb(3, 3, 3), rgb(4, 4, 4)],
    )
    .unwrap();
    let clusters = vec![cluster(
        rgb(200, 0, 0),
        rgb(0, 0, 0),
        vec![pixel(0, 0, rgb(1, 1, 1)), pixel(1, 1, rgb(4, 4, 4))],
    )];
    let out = build_image(&image, &clusters);
    assert_eq!(
        out.pixels,
        vec![rgb(200, 0, 0), rgb(2, 2, 2), rgb(3, 3, 3), rgb(200, 0, 0)]
    );
}

#[test]
fn renderer_is_idempotent_on_a_clustered_image() {
    let image = Grid::from_pixels(
        2,
        1,
        vec![rgb(10, 10, 10), rgb(240, 240, 240)],
    )
    .unwrap();
    let clusters = vec![
        cluster(rgb(0, 0, 0), rgb(0, 0, 0), vec![pixel(0, 0, rgb(10, 10, 10))]),
        cluster(rgb(255, 255, 255), rgb(255, 255, 255), vec![pixel(1, 0, rgb(240, 240, 240))]),
    ];
    let once = build_image(&image, &clusters);
    let twice = build_image(&once, &clusters);
    assert_eq!(once.pixels, twice.pixels);
    assert_eq!(once.width, twice.width);
    assert_eq!(once.height, twice.height);
}

#[test]
fn clearing_resets_points_and_keeps_centroids() {
    let mut clusters = vec![cluster(
        rgb(9, 8, 7),
        rgb(6, 5, 4),
        vec![pixel(0, 0, rgb(1, 1, 1))],
    )];
    clear_points(&mut clusters);
    assert_eq!(clusters[0].points.len(), 0);
    assert_eq!(clusters[0].center, rgb(9, 8, 7));
    assert_eq!(clusters[0].prev_center, rgb(6, 5, 4));
}

#[test]
fn grid_rejects_mismatched_dimensions() {
    assert!(Grid::from_pixels(2, 2, vec![rgb(0, 0, 0); 3]).is_err());
    assert!(Grid::from_pixels(2, 2, vec![rgb(0, 0, 0); 4]).is_ok());
}

#[test]
fn out_of_bounds_access_fails_fast() {
    let mut grid = Grid::from_pixels(2, 1, vec![rgb(1, 1, 1), rgb(2, 2, 2)]).unwrap();
    assert_eq!(grid.try_get_pixel(1, 0), Ok(rgb(2, 2, 2)));
    assert_eq!(grid.try_get_pixel(2, 0), Err(OutOfBounds));
    assert_eq!(grid.try_get_pixel(0, 1), Err(OutOfBounds));
    assert_eq!(grid.try_set_pixel(0, 0, rgb(9, 9, 9)), Ok(()));
    assert_eq!(grid.try_set_pixel(2, 0, rgb(9, 9, 9)), Err(OutOfBounds));
    assert_eq!(grid.pixels, vec![rgb(9, 9, 9), rgb(2, 2, 2)]);
}
