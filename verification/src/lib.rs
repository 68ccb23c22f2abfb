//! The engine layer of a key-value store: cursors over the entries of a snapshot, the
//! statistics of what reading takes, and the traits of engines and snapshots.
pub mod cursor;
pub mod engine;
pub mod error;
pub mod iterator;
pub mod key;
pub mod laws;
pub mod memory;
pub mod scan;
pub mod statistics;
