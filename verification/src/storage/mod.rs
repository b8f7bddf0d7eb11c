//! Storage: the column families and what the store keeps in them.

pub mod cf;

pub use cf::ColumnFamily;
