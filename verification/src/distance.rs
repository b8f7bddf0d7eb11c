//! The distance measures between vectors.

use vstd::prelude::*;

verus! {

/// How the distance between two vectors is measured.
#[derive(Debug, Clone, Copy, PartialEq, Eq, Structural)]
pub enum DistanceMetric {
    Euclidean,
    Cosine,
    DotProduct,
    Manhattan,
}

} // verus!
