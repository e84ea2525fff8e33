//! End-to-end tests of the in-memory store through its backend surface.

use chain_store::backend::BlockchainBackend;
use chain_store::blocks::{Block, BlockHeader, TransactionKernel, TransactionOutput};
use chain_store::db_transaction::{
    ChainStorageError, DbKey, DbKeyValuePair, DbTransaction, DbValue, MetadataKey, MmrTree,
    WriteOperation,
};
use chain_store::memory_db::MemoryDatabase;
use chain_store::mmr::{MerkleChangeTrackerConfig, MutableMmr, MutableMmrLeafNodes};

fn small_config() -> MerkleChangeTrackerConfig {
    MerkleChangeTrackerConfig { min_history_len: 2, max_history_len: 3 }
}

fn one_op(op: WriteOperation) -> DbTransaction {
    let mut tx = DbTransaction::new();
    tx.add_operation(op);
    tx
}

fn insert_utxo_op(key: u8, proof: u8, update_mmr: bool) -> WriteOperation {
    WriteOperation::Insert(DbKeyValuePair::UnspentOutput(
        vec![key; 32],
        Box::new(TransactionOutput::new(vec![key; 33], vec![proof; 32])),
        update_mmr,
    ))
}

fn insert_kernel_op(key: u8, update_mmr: bool) -> WriteOperation {
    WriteOperation::Insert(DbKeyValuePair::TransactionKernel(
        vec![key; 32],
        Box::new(TransactionKernel::new(vec![key; 33])),
        update_mmr,
    ))
}

fn insert_header_op(height: u64, tag: u8) -> WriteOperation {
    WriteOperation::Insert(DbKeyValuePair::BlockHeader(
        height,
        Box::new(BlockHeader::new(vec![tag; 32])),
    ))
}

/// Inserting a fresh unspent output with leaf registration stores the
/// record and grows the output and range-proof accumulators by one leaf.
#[test]
fn insert_utxo_registers_leaves() {
    let db = MemoryDatabase::new(small_config());
    assert!(db.fetch_mmr_node(MmrTree::Utxo, 0).is_err());
    db.write(one_op(insert_utxo_op(1, 101, true))).unwrap();
    assert!(db.contains(&DbKey::UnspentOutput(vec![1; 32])).unwrap());
    let (leaf, deleted) = db.fetch_mmr_node(MmrTree::Utxo, 0).unwrap();
    assert_eq!(leaf, vec![1u8; 32]);
    assert!(!deleted);
    let (proof_leaf, _) = db.fetch_mmr_node(MmrTree::RangeProof, 0).unwrap();
    assert_eq!(proof_leaf, vec![101u8; 32]);
    assert!(db.fetch_mmr_node(MmrTree::Utxo, 1).is_err());
    assert!(db.fetch_mmr_node(MmrTree::RangeProof, 1).is_err());
}

/// The insert asymmetry: without leaf registration, an output whose
/// range-proof hash resolves to no leaf is quietly not stored, while a
/// kernel insert always stores the record.
#[test]
fn insert_utxo_without_registration_is_skipped() {
    let db = MemoryDatabase::new(small_config());
    db.write(one_op(insert_utxo_op(1, 101, false))).unwrap();
    assert!(!db.contains(&DbKey::UnspentOutput(vec![1; 32])).unwrap());
    db.write(one_op(insert_kernel_op(2, false))).unwrap();
    assert!(db.contains(&DbKey::TransactionKernel(vec![2; 32])).unwrap());
}

/// Spend then unspend restores the record unchanged.
#[test]
fn spend_unspend_round_trip() {
    let db = MemoryDatabase::new(small_config());
    db.write(one_op(insert_utxo_op(7, 107, true))).unwrap();
    db.write(one_op(WriteOperation::Spend(DbKey::UnspentOutput(vec![7; 32])))).unwrap();
    assert!(!db.contains(&DbKey::UnspentOutput(vec![7; 32])).unwrap());
    assert!(db.contains(&DbKey::SpentOutput(vec![7; 32])).unwrap());
    let (_, tombstoned) = db.fetch_mmr_node(MmrTree::Utxo, 0).unwrap();
    assert!(tombstoned);
    db.write(one_op(WriteOperation::UnSpend(DbKey::SpentOutput(vec![7; 32])))).unwrap();
    assert!(db.contains(&DbKey::UnspentOutput(vec![7; 32])).unwrap());
    assert!(!db.contains(&DbKey::SpentOutput(vec![7; 32])).unwrap());
    match db.fetch(&DbKey::UnspentOutput(vec![7; 32])).unwrap() {
        Some(DbValue::UnspentOutput(out)) => {
            assert_eq!(out.commitment, vec![7u8; 33]);
            assert_eq!(out.proof_hash, vec![107u8; 32]);
        },
        other => panic!("wrong value shape: {:?}", other.is_some()),
    }
}

/// Spending an unknown hash fails with the unspendable-input error and
/// leaves both output tables unchanged.
#[test]
fn spend_unknown_hash_fails() {
    let db = MemoryDatabase::new(small_config());
    db.write(one_op(insert_utxo_op(9, 109, true))).unwrap();
    let err = db
        .write(one_op(WriteOperation::Spend(DbKey::UnspentOutput(vec![8; 32]))))
        .unwrap_err();
    assert!(matches!(err, ChainStorageError::UnspendableInput));
    assert!(db.contains(&DbKey::UnspentOutput(vec![9; 32])).unwrap());
    assert!(!db.contains(&DbKey::SpentOutput(vec![9; 32])).unwrap());
    assert!(!db.contains(&DbKey::SpentOutput(vec![8; 32])).unwrap());
}

/// Unspending an unknown hash fails with the unspend error; spend and
/// unspend refuse other key variants outright.
#[test]
fn unspend_unknown_and_wrong_variants_fail() {
    let db = MemoryDatabase::new(small_config());
    let err = db
        .write(one_op(WriteOperation::UnSpend(DbKey::SpentOutput(vec![3; 32]))))
        .unwrap_err();
    assert!(matches!(err, ChainStorageError::UnspendError));
    let err = db
        .write(one_op(WriteOperation::Spend(DbKey::OrphanBlock(vec![3; 32]))))
        .unwrap_err();
    assert!(matches!(err, ChainStorageError::InvalidOperation(_)));
    let err = db
        .write(one_op(WriteOperation::UnSpend(DbKey::UnspentOutput(vec![3; 32]))))
        .unwrap_err();
    assert!(matches!(err, ChainStorageError::InvalidOperation(_)));
}

/// Inserting into an occupied key fails with the duplicate-key error, and
/// the batch is aborted there while earlier operations stay applied.
#[test]
fn duplicate_key_aborts_batch_without_rollback() {
    let db = MemoryDatabase::new(small_config());
    db.write(one_op(insert_header_op(0, 10))).unwrap();
    let mut tx = DbTransaction::new();
    tx.add_operation(insert_kernel_op(1, false));
    tx.add_operation(insert_header_op(0, 11));
    tx.add_operation(insert_kernel_op(2, false));
    let err = db.write(tx).unwrap_err();
    assert!(matches!(err, ChainStorageError::DuplicateKey));
    // The kernel before the failing insert was applied; the one after was not.
    assert!(db.contains(&DbKey::TransactionKernel(vec![1; 32])).unwrap());
    assert!(!db.contains(&DbKey::TransactionKernel(vec![2; 32])).unwrap());
}

/// After a commit, a tombstone and a second commit, rewinding one step
/// restores the leaf-only root captured after the first commit.
#[test]
fn rewind_restores_earlier_leaf_root() {
    let db = MemoryDatabase::new(small_config());
    let mut tx = DbTransaction::new();
    for i in 0..4u8 {
        tx.add_operation(insert_utxo_op(i + 1, i + 101, true));
    }
    tx.add_operation(WriteOperation::CreateMmrCheckpoint(MmrTree::Utxo));
    db.write(tx).unwrap();
    let root_after_first_commit = db.fetch_mmr_only_root(MmrTree::Utxo).unwrap();
    let mut tx = DbTransaction::new();
    tx.add_operation(WriteOperation::Spend(DbKey::UnspentOutput(vec![2; 32])));
    tx.add_operation(WriteOperation::CreateMmrCheckpoint(MmrTree::Utxo));
    db.write(tx).unwrap();
    db.write(one_op(WriteOperation::RewindMmr(MmrTree::Utxo, 1))).unwrap();
    let root_after_rewind = db.fetch_mmr_only_root(MmrTree::Utxo).unwrap();
    assert_eq!(root_after_rewind, root_after_first_commit);
}

/// A rewind of zero steps discards pending changes only.
#[test]
fn rewind_zero_resets_pending_changes() {
    let db = MemoryDatabase::new(small_config());
    db.write(one_op(insert_kernel_op(1, true))).unwrap();
    db.write(one_op(WriteOperation::CreateMmrCheckpoint(MmrTree::Kernel))).unwrap();
    let committed_root = db.fetch_mmr_root(MmrTree::Kernel).unwrap();
    db.write(one_op(insert_kernel_op(2, true))).unwrap();
    assert_ne!(db.fetch_mmr_root(MmrTree::Kernel).unwrap(), committed_root);
    db.write(one_op(WriteOperation::RewindMmr(MmrTree::Kernel, 0))).unwrap();
    assert_eq!(db.fetch_mmr_root(MmrTree::Kernel).unwrap(), committed_root);
}

/// Rewinding past the retained history fails with an access error.
#[test]
fn rewind_beyond_history_fails() {
    let db = MemoryDatabase::new(small_config());
    let err = db
        .write(one_op(WriteOperation::RewindMmr(MmrTree::Kernel, 5)))
        .unwrap_err();
    assert!(matches!(err, ChainStorageError::AccessError(_)));
}

/// The hypothetical root is side-effect-free and reports the root a real
/// append-and-spend sequence then produces.
#[test]
fn calculate_mmr_root_is_hypothetical() {
    let db = MemoryDatabase::new(small_config());
    db.write(one_op(insert_utxo_op(1, 101, true))).unwrap();
    db.write(one_op(insert_utxo_op(2, 102, true))).unwrap();
    let root_before = db.fetch_mmr_root(MmrTree::Utxo).unwrap();
    let calculated = db
        .calculate_mmr_root(MmrTree::Utxo, vec![vec![3; 32]], vec![vec![1; 32]])
        .unwrap();
    // No shared state changed.
    assert_eq!(db.fetch_mmr_root(MmrTree::Utxo).unwrap(), root_before);
    // A real insert of the same leaf and a real spend produce that root.
    // The insert also pushes a range-proof leaf, which the output tree
    // does not see.
    db.write(one_op(insert_utxo_op(3, 103, true))).unwrap();
    db.write(one_op(WriteOperation::Spend(DbKey::UnspentOutput(vec![1; 32])))).unwrap();
    assert_eq!(db.fetch_mmr_root(MmrTree::Utxo).unwrap(), calculated);
}

/// The horizon equals header count less retained checkpoint count, with
/// the documented retention bounds; checkpoint requests below the horizon
/// fail as beyond the pruning horizon.
#[test]
fn horizon_follows_retained_checkpoints() {
    let db = MemoryDatabase::new(small_config());
    for height in 0..5u64 {
        db.write(one_op(insert_header_op(height, height as u8))).unwrap();
    }
    for i in 0..5u8 {
        let mut tx = DbTransaction::new();
        tx.add_operation(insert_kernel_op(i + 1, true));
        tx.add_operation(WriteOperation::CreateMmrCheckpoint(MmrTree::Kernel));
        db.write(tx).unwrap();
    }
    // Five commits under bounds (2, 3) retain three checkpoints, not five.
    assert_eq!(db.fetch_horizon_block_height().unwrap(), 2);
    let err = db.fetch_mmr_checkpoint(MmrTree::Kernel, 1).unwrap_err();
    assert!(matches!(err, ChainStorageError::BeyondPruningHorizon));
    assert!(db.fetch_mmr_checkpoint(MmrTree::Kernel, 2).is_ok());
    assert!(db.fetch_mmr_checkpoint(MmrTree::Kernel, 4).is_ok());
    let err = db.fetch_mmr_checkpoint(MmrTree::Kernel, 5).unwrap_err();
    assert!(matches!(err, ChainStorageError::AccessError(_)));
}

/// More retained checkpoints than headers signal internal inconsistency.
#[test]
fn horizon_with_missing_headers_is_unexpected() {
    let db = MemoryDatabase::new(small_config());
    let mut tx = DbTransaction::new();
    tx.add_operation(insert_kernel_op(1, true));
    tx.add_operation(WriteOperation::CreateMmrCheckpoint(MmrTree::Kernel));
    db.write(tx).unwrap();
    let err = db.fetch_horizon_block_height().unwrap_err();
    assert!(matches!(err, ChainStorageError::UnexpectedResult(_)));
}

/// Assigning a bulk state produces the same root as building the same
/// state directly.
#[test]
fn assign_mmr() {
    let mct = MerkleChangeTrackerConfig { min_history_len: 2, max_history_len: 3 };
    let db = MemoryDatabase::new(mct);
    // Five kernel leaf hashes built from the amounts 100_000..500_000 at
    // fee 100 each.
    let amounts: [u64; 5] = [100_000, 200_000, 300_000, 400_000, 500_000];
    let fee: u64 = 100;
    let mut hashes: Vec<Vec<u8>> = Vec::new();
    for amount in amounts.iter() {
        let mut h = amount.to_le_bytes().to_vec();
        h.extend_from_slice(&fee.to_le_bytes());
        hashes.push(h);
    }
    // Kernels are never deleted, but this demonstrates that the tombstone
    // positions are assigned too.
    let deleted = vec![3usize];
    let state = MutableMmrLeafNodes::new(hashes, deleted);
    // Build a local accumulator from the same state and compare roots.
    let mut mmr = MutableMmr::new(Vec::new());
    mmr.assign(state.clone());
    let root = mmr.get_merkle_root();
    db.assign_mmr(MmrTree::Kernel, state).unwrap();
    assert_eq!(db.fetch_mmr_root(MmrTree::Kernel).unwrap(), root);
}

/// An inclusion proof recomputes the leaf-only root from its parts.
#[test]
fn proof_recomputes_root() {
    let db = MemoryDatabase::new(small_config());
    for i in 0..3u8 {
        db.write(one_op(insert_kernel_op(i + 1, true))).unwrap();
    }
    let proof = db.fetch_mmr_proof(MmrTree::Kernel, 1).unwrap();
    assert_eq!(proof.leaf_index, 1);
    assert_eq!(proof.leaf, vec![2u8; 32]);
    assert_eq!(proof.compute_root(), db.fetch_mmr_only_root(MmrTree::Kernel).unwrap());
    let err = db.fetch_mmr_proof(MmrTree::Kernel, 3).unwrap_err();
    assert!(matches!(err, ChainStorageError::UnexpectedResult(_)));
}

/// The root is a real digest: 64 bytes and not the leaf handed in.
#[test]
fn root_is_a_digest_not_the_leaf() {
    let db = MemoryDatabase::new(small_config());
    db.write(one_op(insert_kernel_op(1, true))).unwrap();
    let root = db.fetch_mmr_only_root(MmrTree::Kernel).unwrap();
    assert_eq!(root.len(), 64);
    assert_ne!(root, vec![1u8; 32]);
    let full = db.fetch_mmr_root(MmrTree::Kernel).unwrap();
    assert_ne!(full, root);
    db.write(one_op(insert_kernel_op(2, true))).unwrap();
    assert_ne!(db.fetch_mmr_only_root(MmrTree::Kernel).unwrap(), root);
}

/// Base-state export pages the oldest retained state.
#[test]
fn base_leaf_nodes_export() {
    let db = MemoryDatabase::new(MerkleChangeTrackerConfig {
        min_history_len: 1,
        max_history_len: 1,
    });
    // Two commits under bounds (1, 1): the first checkpoint is merged
    // into the base.
    for i in 0..2u8 {
        let mut tx = DbTransaction::new();
        tx.add_operation(insert_kernel_op(i + 1, true));
        tx.add_operation(WriteOperation::CreateMmrCheckpoint(MmrTree::Kernel));
        db.write(tx).unwrap();
    }
    assert_eq!(db.fetch_mmr_base_leaf_node_count(MmrTree::Kernel).unwrap(), 1);
    let page = db.fetch_mmr_base_leaf_nodes(MmrTree::Kernel, 0, 1).unwrap();
    assert_eq!(page.total_leaf_count, 1);
    assert_eq!(page.leaf_nodes.leaf_hashes, vec![vec![1u8; 32]]);
    assert!(page.leaf_nodes.deleted.is_empty());
    let err = db.fetch_mmr_base_leaf_nodes(MmrTree::Kernel, 0, 2).unwrap_err();
    assert!(matches!(err, ChainStorageError::AccessError(_)));
}

/// Metadata: always reported present, fetch follows inserts, delete is a
/// no-op.
#[test]
fn metadata_semantics() {
    let db = MemoryDatabase::new(small_config());
    assert!(db.contains(&DbKey::Metadata(MetadataKey::ChainHeight)).unwrap());
    assert!(db.fetch(&DbKey::Metadata(MetadataKey::ChainHeight)).unwrap().is_none());
    db.write(one_op(WriteOperation::Insert(DbKeyValuePair::Metadata(
        MetadataKey::ChainHeight,
        vec![42],
    ))))
    .unwrap();
    match db.fetch(&DbKey::Metadata(MetadataKey::ChainHeight)).unwrap() {
        Some(DbValue::Metadata(v)) => assert_eq!(v, vec![42u8]),
        _ => panic!("metadata not found"),
    }
    let err = db
        .write(one_op(WriteOperation::Insert(DbKeyValuePair::Metadata(
            MetadataKey::ChainHeight,
            vec![43],
        ))))
        .unwrap_err();
    assert!(matches!(err, ChainStorageError::DuplicateKey));
    db.write(one_op(WriteOperation::Delete(DbKey::Metadata(MetadataKey::ChainHeight))))
        .unwrap();
    match db.fetch(&DbKey::Metadata(MetadataKey::ChainHeight)).unwrap() {
        Some(DbValue::Metadata(v)) => assert_eq!(v, vec![42u8]),
        _ => panic!("metadata delete must be a no-op"),
    }
}

/// The header-hash index follows header inserts and deletes in both
/// directions.
#[test]
fn header_hash_index_tracks_headers() {
    let db = MemoryDatabase::new(small_config());
    db.write(one_op(insert_header_op(0, 50))).unwrap();
    db.write(one_op(insert_header_op(1, 51))).unwrap();
    match db.fetch(&DbKey::BlockHash(vec![50; 32])).unwrap() {
        Some(DbValue::BlockHash(h)) => assert_eq!(h.hash, vec![50u8; 32]),
        _ => panic!("header not found by hash"),
    }
    db.write(one_op(WriteOperation::Delete(DbKey::BlockHeader(0)))).unwrap();
    assert!(!db.contains(&DbKey::BlockHash(vec![50; 32])).unwrap());
    db.write(one_op(WriteOperation::Delete(DbKey::BlockHash(vec![51; 32])))).unwrap();
    assert!(!db.contains(&DbKey::BlockHeader(1)).unwrap());
    assert!(!db.contains(&DbKey::BlockHash(vec![51; 32])).unwrap());
}

/// The last header sits at height `count - 1` under dense heights.
#[test]
fn last_header_under_dense_heights() {
    let db = MemoryDatabase::new(small_config());
    assert!(db.fetch_last_header().unwrap().is_none());
    db.write(one_op(insert_header_op(0, 60))).unwrap();
    db.write(one_op(insert_header_op(1, 61))).unwrap();
    let last = db.fetch_last_header().unwrap().unwrap();
    assert_eq!(last.hash, vec![61u8; 32]);
}

/// Orphan blocks are stored, visited and deleted independently of the
/// accumulators.
#[test]
fn orphans_are_independent_records() {
    let db = MemoryDatabase::new(small_config());
    for i in 0..3u8 {
        db.write(one_op(WriteOperation::Insert(DbKeyValuePair::OrphanBlock(
            vec![i + 70; 32],
            Box::new(Block::new(BlockHeader::new(vec![i + 70; 32]))),
        ))))
        .unwrap();
    }
    let seen = std::cell::Cell::new(0u32);
    db.for_each_orphan(|entry| {
        let (key, block) = entry.unwrap();
        assert_eq!(key.len(), 32);
        assert_eq!(block.header.hash, key);
        seen.set(seen.get() + 1);
    })
    .unwrap();
    assert_eq!(seen.get(), 3);
    db.write(one_op(WriteOperation::Delete(DbKey::OrphanBlock(vec![70; 32])))).unwrap();
    assert!(!db.contains(&DbKey::OrphanBlock(vec![70; 32])).unwrap());
    assert!(db.fetch_mmr_node(MmrTree::Utxo, 0).is_err());
}

/// Two handles to a shared store see each other's writes.
#[test]
fn shared_handles_see_one_store() {
    let db = MemoryDatabase::new(small_config());
    let other = db.clone();
    other.write(one_op(insert_kernel_op(1, false))).unwrap();
    assert!(db.contains(&DbKey::TransactionKernel(vec![1; 32])).unwrap());
}
