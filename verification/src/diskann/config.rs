//! The product-quantization settings.

use vstd::prelude::*;

verus! {

/// How vectors are split and quantized: into `n_subvectors` pieces, each
/// coded on `n_bits` bits as one of `n_centroids` centroids.
#[derive(Debug, Clone, PartialEq, Eq, Structural)]
pub struct DiskAnnConfig {
    pub n_subvectors: usize,
    pub n_bits: usize,
    pub n_centroids: usize,
}

impl Default for DiskAnnConfig {
    /// 8 subvectors of 8-bit codes over 256 centroids.
    fn default() -> (r: Self)
        ensures
            r == (DiskAnnConfig { n_subvectors: 8, n_bits: 8, n_centroids: 256 }),
    {
        DiskAnnConfig { n_subvectors: 8, n_bits: 8, n_centroids: 256 }
    }
}

impl DiskAnnConfig {
    /// The default settings.
    pub fn new() -> (r: Self)
        ensures
            r == (DiskAnnConfig { n_subvectors: 8, n_bits: 8, n_centroids: 256 }),
    {
        Self::default()
    }
}

} // verus!
