//! RocksDB plugins for the vector store: dropping deleted values during
//! compaction, grouping keys by collection, and merging partial updates.

pub mod compaction_filter;
pub mod merge_operator;
pub mod slice_transform;

pub use compaction_filter::{create_vector_compaction_filter, is_tombstone, tombstone};
pub use merge_operator::merge_vector_values;
pub use slice_transform::{extract_collection_prefix, is_in_collection_domain};
