//! A non-functional stand-in backend for callers that never exercise
//! storage.

use vstd::prelude::*;
use crate::backend::{BlockchainBackend, MutableMmrState};
use crate::blocks::{Block, BlockHeader};
use crate::db_transaction::{ChainStorageError, DbKey, DbTransaction, DbValue, MmrTree};
use crate::mmr::{MerkleCheckPoint, MerkleProof, MutableMmrLeafNodes};

verus! {

/// A backend with no storage at all.  It exists so that components wanting
/// a [`BlockchainBackend`] can be built without one; it is never `usable`,
/// so verified code can make none of its calls, and an unverified caller
/// that reaches one anyway stops the process, as a panicking stub does.
pub struct MockBackend;

impl BlockchainBackend for MockBackend {
    open spec fn usable(&self) -> bool {
        false
    }

    fn write(&self, _tx: DbTransaction) -> (r: Result<(), ChainStorageError>) {
        unreached()
    }

    fn fetch(&self, _key: &DbKey) -> (r: Result<Option<DbValue>, ChainStorageError>) {
        unreached()
    }

    fn contains(&self, _key: &DbKey) -> (r: Result<bool, ChainStorageError>) {
        unreached()
    }

    fn fetch_mmr_root(&self, _tree: MmrTree) -> (r: Result<Vec<u8>, ChainStorageError>) {
        unreached()
    }

    fn fetch_mmr_only_root(&self, _tree: MmrTree) -> (r: Result<Vec<u8>, ChainStorageError>) {
        unreached()
    }

    fn calculate_mmr_root(
        &self,
        _tree: MmrTree,
        _additions: Vec<Vec<u8>>,
        _deletions: Vec<Vec<u8>>,
    ) -> (r: Result<Vec<u8>, ChainStorageError>) {
        unreached()
    }

    fn fetch_mmr_proof(&self, _tree: MmrTree, _leaf_pos: usize) -> (r: Result<
        MerkleProof,
        ChainStorageError,
    >) {
        unreached()
    }

    fn fetch_mmr_checkpoint(&self, _tree: MmrTree, _height: u64) -> (r: Result<
        MerkleCheckPoint,
        ChainStorageError,
    >) {
        unreached()
    }

    fn fetch_mmr_node(&self, _tree: MmrTree, _pos: u32) -> (r: Result<
        (Vec<u8>, bool),
        ChainStorageError,
    >) {
        unreached()
    }

    fn fetch_mmr_base_leaf_nodes(&self, _tree: MmrTree, _index: usize, _count: usize) -> (r:
        Result<MutableMmrState, ChainStorageError>) {
        unreached()
    }

    fn fetch_mmr_base_leaf_node_count(&self, _tree: MmrTree) -> (r: Result<
        usize,
        ChainStorageError,
    >) {
        unreached()
    }

    fn assign_mmr(&self, _tree: MmrTree, _base_state: MutableMmrLeafNodes) -> (r: Result<
        (),
        ChainStorageError,
    >) {
        unreached()
    }

    fn for_each_orphan<F: Fn(Result<(Vec<u8>, Block), ChainStorageError>)>(&self, _f: F) -> (r:
        Result<(), ChainStorageError>) {
        unreached()
    }

    fn fetch_horizon_block_height(&self) -> (r: Result<u64, ChainStorageError>) {
        unreached()
    }

    fn fetch_last_header(&self) -> (r: Result<Option<BlockHeader>, ChainStorageError>) {
        unreached()
    }
}

} // verus!
