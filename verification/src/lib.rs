//! A key-value store interface for ledger state, with an in-memory backing store.
//!
//! [`MapReader`] and [`MapWriter`] are the contract that every backing store
//! meets; [`MemoryMap`] is the store that keeps its entries in a hash table.
pub mod error;
pub mod interface;
pub mod laws;
pub mod memory_map;
pub mod model;

pub use error::MapError;
pub use interface::{MapReader, MapWriter};
pub use memory_map::MemoryMap;
