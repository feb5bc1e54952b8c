//! An escape-time fractal renderer built around one idea: distributing
//! disjoint writes into a single flat pixel buffer across workers, under
//! several interchangeable scheduling disciplines, with the disjointness of
//! the partition proved rather than assumed.

pub mod customerror;
pub mod fixed;
pub mod geometry;
pub mod mandel;
pub mod partition;
pub mod strategies;
pub mod time;
pub mod measure;
