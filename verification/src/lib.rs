//! ClawDB: the verified core of a RocksDB-backed vector database.
//!
//! The modules hold the parts of the database whose behaviour is stated and
//! proved: key encodings, column-family naming, storage plugins, the vector
//! cache, the I/O rate limiter and the SIFT file parsers.

pub mod async_io;
pub mod cache;
pub mod clock;
pub mod codec;
pub mod collection;
pub mod diskann;
pub mod distance;
pub mod graph_entry;
pub mod io_limiter;
pub mod ivf;
pub mod loader;
pub mod plugins;
pub mod storage;

pub use async_io::IoUringEnv;
pub use cache::{CacheConfig, CacheEntry, MultiLevelCache, VectorCache};
pub use collection::{CollectionId, VectorKey, VectorMetadata};
pub use diskann::{DiskAnnConfig, DiskAnnTableFactory};
pub use distance::DistanceMetric;
pub use graph_entry::GraphEntry;
pub use io_limiter::{IoPriority, IoRateLimiter};
pub use loader::{LoadError, SiftDataLoader};
pub use storage::ColumnFamily;
