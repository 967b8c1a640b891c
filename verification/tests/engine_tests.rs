use kmeans_quantize::Grid;
use kmeans_quantize::Rgb;
use kmeans_quantize::cluster::init_clusters;
use kmeans_quantize::cluster::init_clusters_from;
use kmeans_quantize::cluster::nearest_cluster;
use kmeans_quantize::engine::QuantizeError;
use kmeans_quantize::engine::RunOutcome;
use kmeans_quantize::engine::quantize;
use kmeans_quantize::engine::quantize_with_seeds;

fn rgb(r: u8, g: u8, b: u8) -> Rgb {
    Rgb { r, g, b }
}

fn grid_of(width: usize, height: usize, colors: Vec<Rgb>) -> Grid {
    Grid::from_pixels(width, height, colors).unwrap()
}

#[test]
fn single_cluster_converges_to_the_mean() {
    // A 2x1 image, one black and one white pixel, one cluster: the first
    // pass moves the centroid to the truncated mean (127,127,127); the
    // second pass reproduces it, displacement 0 < 1, so the loop stops.
    let image = grid_of(2, 1, vec![rgb(0, 0, 0), rgb(255, 255, 255)]);
    let seeds = vec![rgb(10, 10, 10)];
    let (out, clusters, outcome) = quantize_with_seeds(&image, &seeds, 100).unwrap();
    assert_eq!(outcome, RunOutcome::Converged(2));
    assert_eq!(clusters.len(), 1);
    assert_eq!(clusters[0].center, rgb(127, 127, 127));
    assert_eq!(clusters[0].points.len(), 2);
    assert_eq!(out.width, 2);
    assert_eq!(out.height, 1);
    assert_eq!(out.pixels, vec![rgb(127, 127, 127), rgb(127, 127, 127)]);
}

#[test]
fn single_cluster_seeded_at_the_mean_converges_at_once() {
    // When the seed already sits within distance 1 of the mean, the loop
    // exits after the very first pass.
    let image = grid_of(2, 1, vec![rgb(0, 0, 0), rgb(255, 255, 255)]);
    let seeds = vec![rgb(127, 127, 127)];
    let (_, clusters, outcome) = quantize_with_seeds(&image, &seeds, 100).unwrap();
    assert_eq!(outcome, RunOutcome::Converged(1));
    assert_eq!(clusters[0].center, rgb(127, 127, 127));
}

#[test]
fn two_extreme_pixels_keep_their_colors() {
    // Black and white pixels, seeds at black and white: each pixel stays
    // in its own cluster, the centroids do not move, and the output equals
    // the input.
    let image = grid_of(2, 1, vec![rgb(0, 0, 0), rgb(255, 255, 255)]);
    let seeds = vec![rgb(0, 0, 0), rgb(255, 255, 255)];
    let (out, clusters, outcome) = quantize_with_seeds(&image, &seeds, 100).unwrap();
    assert_eq!(outcome, RunOutcome::Converged(1));
    assert_eq!(clusters[0].center, rgb(0, 0, 0));
    assert_eq!(clusters[1].center, rgb(255, 255, 255));
    assert_eq!(clusters[0].points.len(), 1);
    assert_eq!(clusters[1].points.len(), 1);
    assert_eq!(out.pixels, image.pixels);
}

#[test]
fn uniform_image_converges_to_its_color() {
    // Every pixel is (5,6,7); the cluster that wins all the points moves
    // to exactly that color; the empty cluster keeps its centroid (the
    // documented degenerate-cluster policy) and shows zero displacement.
    let image = grid_of(3, 2, vec![rgb(5, 6, 7); 6]);
    let seeds = vec![rgb(0, 0, 0), rgb(255, 255, 255)];
    let (out, clusters, outcome) = quantize_with_seeds(&image, &seeds, 100).unwrap();
    assert!(matches!(outcome, RunOutcome::Converged(_)));
    assert_eq!(clusters[0].center, rgb(5, 6, 7));
    assert_eq!(clusters[0].points.len(), 6);
    assert_eq!(clusters[1].center, rgb(255, 255, 255));
    assert_eq!(clusters[1].prev_center, rgb(255, 255, 255));
    assert_eq!(clusters[1].points.len(), 0);
    assert_eq!(out.pixels, vec![rgb(5, 6, 7); 6]);
}

#[test]
fn equidistant_pixel_goes_to_the_lowest_index() {
    // The pixel (128,128,128) is exactly distance 30 from both centroids;
    // the tie must go to cluster 0.
    let image = grid_of(1, 1, vec![rgb(128, 128, 128)]);
    let seeds = vec![rgb(127, 128, 128), rgb(129, 128, 128)];
    let clusters = init_clusters_from(&seeds);
    let idx = nearest_cluster(&clusters, rgb(128, 128, 128));
    assert_eq!(idx, 0);
    let (_, clusters, _) = quantize_with_seeds(&image, &seeds, 1).unwrap();
    assert_eq!(clusters[0].points.len(), 1);
    assert_eq!(clusters[1].points.len(), 0);
}

#[test]
fn random_seeds_still_quantize_a_uniform_image() {
    // Whatever the random seeds, a single cluster on a uniform image ends
    // at the image's color.
    let image = grid_of(4, 3, vec![rgb(9, 9, 9); 12]);
    let (out, clusters, outcome) = quantize(&image, 1, 100).unwrap();
    assert!(matches!(outcome, RunOutcome::Converged(_)));
    assert_eq!(clusters.len(), 1);
    assert_eq!(clusters[0].center, rgb(9, 9, 9));
    assert_eq!(out.pixels, vec![rgb(9, 9, 9); 12]);
}

#[test]
fn iteration_cap_is_reported_when_not_converged() {
    // The first pass moves the lone centroid far beyond the threshold of
    // 1, so a cap of one pass ends the loop without convergence — but the
    // state is still a complete pass, fully assigned and rendered.
    let image = grid_of(2, 1, vec![rgb(0, 0, 0), rgb(255, 255, 255)]);
    let seeds = vec![rgb(10, 10, 10)];
    let (out, clusters, outcome) = quantize_with_seeds(&image, &seeds, 1).unwrap();
    assert_eq!(outcome, RunOutcome::IterationCapReached);
    assert_eq!(clusters[0].points.len(), 2);
    assert_eq!(clusters[0].center, rgb(127, 127, 127));
    assert_eq!(out.pixels, vec![rgb(127, 127, 127); 2]);
}

#[test]
fn zero_clusters_is_rejected() {
    let image = grid_of(1, 1, vec![rgb(1, 2, 3)]);
    assert_eq!(quantize(&image, 0, 10).unwrap_err(), QuantizeError::ZeroClusters);
    let no_seeds: Vec<Rgb> = Vec::new();
    assert_eq!(
        quantize_with_seeds(&image, &no_seeds, 10).unwrap_err(),
        QuantizeError::ZeroClusters
    );
}

#[test]
fn zero_iteration_cap_is_rejected() {
    let image = grid_of(1, 1, vec![rgb(1, 2, 3)]);
    assert_eq!(quantize(&image, 2, 0).unwrap_err(), QuantizeError::ZeroIterations);
    let seeds = vec![rgb(0, 0, 0)];
    assert_eq!(
        quantize_with_seeds(&image, &seeds, 0).unwrap_err(),
        QuantizeError::ZeroIterations
    );
}

#[test]
fn random_initializer_seeds_fresh_clusters() {
    let clusters = init_clusters(3);
    assert_eq!(clusters.len(), 3);
    for cl in &clusters {
        assert_eq!(cl.prev_center, Rgb { r: 0, g: 0, b: 0 });
        assert_eq!(cl.points.len(), 0);
    }
}
