//! The factory of DiskANN tables for one vector dimension.

use crate::diskann::config::DiskAnnConfig;
use vstd::prelude::*;

verus! {

/// Creates DiskANN tables for vectors of one dimension.
pub struct DiskAnnTableFactory {
    config: DiskAnnConfig,
    dimension: usize,
}

impl DiskAnnTableFactory {
    pub fn new(config: DiskAnnConfig, dimension: usize) -> (r: Self)
        ensures
            r.config() == config,
            r.dimension() == dimension,
    {
        DiskAnnTableFactory { config, dimension }
    }

    pub closed spec fn config(&self) -> DiskAnnConfig {
        self.config
    }

    pub closed spec fn dimension(&self) -> usize {
        self.dimension
    }

    /// The settings the tables are made with.
    pub fn config_ref(&self) -> (r: &DiskAnnConfig)
        ensures
            *r == self.config(),
    {
        &self.config
    }

    /// The dimension of the vectors.
    pub fn vector_dimension(&self) -> (r: usize)
        ensures
            r == self.dimension(),
    {
        self.dimension
    }
}

} // verus!
