//! The storage-backend interface a higher orchestration layer consumes:
//! one write surface and the read surface, addressed by tree selector and
//! key variant.

use vstd::prelude::*;
use crate::blocks::{Block, BlockHeader};
use crate::db_transaction::{ChainStorageError, DbKey, DbTransaction, DbValue, MmrTree};
use crate::mmr::{MerkleCheckPoint, MerkleProof, MutableMmrLeafNodes};

verus! {

/// A page of an accumulator's base state: the total base leaf count and the
/// requested slice of leaves with their tombstone positions.
#[derive(Debug)]
pub struct MutableMmrState {
    pub total_leaf_count: usize,
    pub leaf_nodes: MutableMmrLeafNodes,
}

/// The capability set a blockchain storage backend offers.  A backend that
/// is not `usable` refuses every call statically: it exists only to satisfy
/// callers that never exercise storage.
pub trait BlockchainBackend: Sized {
    /// Whether this backend may be called at all.
    spec fn usable(&self) -> bool;

    /// Applies an ordered write batch; on failure the batch is aborted and
    /// operations already applied are not rolled back.
    fn write(&self, tx: DbTransaction) -> (r: Result<(), ChainStorageError>)
        requires
            self.usable(),
    ;

    /// Point lookup by key.
    fn fetch(&self, key: &DbKey) -> (r: Result<Option<DbValue>, ChainStorageError>)
        requires
            self.usable(),
    ;

    /// Existence check by key.
    fn contains(&self, key: &DbKey) -> (r: Result<bool, ChainStorageError>)
        requires
            self.usable(),
    ;

    /// Root of the selected accumulator over leaves and tombstones.
    fn fetch_mmr_root(&self, tree: MmrTree) -> (r: Result<Vec<u8>, ChainStorageError>)
        requires
            self.usable(),
    ;

    /// Root of the selected accumulator over the leaf hashes alone.
    fn fetch_mmr_only_root(&self, tree: MmrTree) -> (r: Result<Vec<u8>, ChainStorageError>)
        requires
            self.usable(),
    ;

    /// The root the given additions and deletions would produce, without
    /// changing any shared state.
    fn calculate_mmr_root(
        &self,
        tree: MmrTree,
        additions: Vec<Vec<u8>>,
        deletions: Vec<Vec<u8>>,
    ) -> (r: Result<Vec<u8>, ChainStorageError>)
        requires
            self.usable(),
    ;

    /// Inclusion proof for an absolute leaf position, built against the
    /// full unpruned leaf history.
    fn fetch_mmr_proof(&self, tree: MmrTree, leaf_pos: usize) -> (r: Result<
        MerkleProof,
        ChainStorageError,
    >)
        requires
            self.usable(),
    ;

    /// The checkpoint recorded for the given height.
    fn fetch_mmr_checkpoint(&self, tree: MmrTree, height: u64) -> (r: Result<
        MerkleCheckPoint,
        ChainStorageError,
    >)
        requires
            self.usable(),
    ;

    /// Leaf hash and tombstone flag at an absolute position.
    fn fetch_mmr_node(&self, tree: MmrTree, pos: u32) -> (r: Result<
        (Vec<u8>, bool),
        ChainStorageError,
    >)
        requires
            self.usable(),
    ;

    /// A page of the base (oldest retained) accumulator state.
    fn fetch_mmr_base_leaf_nodes(&self, tree: MmrTree, index: usize, count: usize) -> (r: Result<
        MutableMmrState,
        ChainStorageError,
    >)
        requires
            self.usable(),
    ;

    /// Total number of base leaves.
    fn fetch_mmr_base_leaf_node_count(&self, tree: MmrTree) -> (r: Result<
        usize,
        ChainStorageError,
    >)
        requires
            self.usable(),
    ;

    /// Bulk-replaces the selected accumulator's base state.
    fn assign_mmr(&self, tree: MmrTree, base_state: MutableMmrLeafNodes) -> (r: Result<
        (),
        ChainStorageError,
    >)
        requires
            self.usable(),
    ;

    /// Calls the visitor once per stored orphan block, in unspecified
    /// order.
    fn for_each_orphan<F: Fn(Result<(Vec<u8>, Block), ChainStorageError>)>(&self, f: F) -> (r:
        Result<(), ChainStorageError>)
        requires
            self.usable(),
            forall|arg: Result<(Vec<u8>, Block), ChainStorageError>| #[trigger] f.requires((arg,)),
    ;

    /// The earliest height with full reconstruction data retained.
    fn fetch_horizon_block_height(&self) -> (r: Result<u64, ChainStorageError>)
        requires
            self.usable(),
    ;

    /// The header at the greatest dense height, if any.
    fn fetch_last_header(&self) -> (r: Result<Option<BlockHeader>, ChainStorageError>)
        requires
            self.usable(),
    ;
}

} // verus!
