//! Settings for DiskANN-style product-quantized storage.

pub mod config;
pub mod table_factory;

pub use config::DiskAnnConfig;
pub use table_factory::DiskAnnTableFactory;
