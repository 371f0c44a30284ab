//! Three-dimensional vectors and Monte Carlo estimates of random-walk displacement.
pub mod vector;
pub mod walk;
