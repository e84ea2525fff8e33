//! An in-memory blockchain state store.
//!
//! The store keeps a node's ledger view — block headers, unspent and spent
//! transaction outputs, transaction kernels and orphaned blocks — consistent
//! with three append-only hash accumulators that commit to the output set,
//! the kernel set and the output range proofs.  Write batches are applied in
//! order under an exclusive lock; readers share the lock.

pub mod hashing;
pub mod mmr;
pub mod table;
pub mod blocks;
pub mod db_transaction;
pub mod backend;
pub mod memory_db;
pub mod mock_backend;
pub mod laws;
pub mod output_manager;
pub mod ffi_error;
pub mod dedup;
pub mod tcp;
pub mod logging;
