//! K-means color quantization of a raster image.
//!
//! The engine receives a width x height grid of RGB pixels and a cluster
//! count, seeds cluster centroids, and iterates assignment, recentering and
//! a convergence check until the centroids settle (or an iteration cap is
//! hit), then paints every pixel with its cluster's final centroid color.

pub mod assign;
pub mod cluster;
pub mod color;
pub mod converge;
pub mod engine;
pub mod grid;
pub mod laws;
pub mod recenter;
pub mod render;

pub use cluster::Cluster;
pub use color::Rgb;
pub use grid::Grid;
pub use grid::Pixel;
