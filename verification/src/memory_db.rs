//! The in-memory store: five exact-key tables kept consistent with three
//! change-tracked accumulators, a transition function for ordered write
//! batches, and the read surface.
//!
//! [`InnerDatabase`] is the guarded aggregate; every mutation and query is
//! specified against its mathematical state, [`StoreView`].
//! [`MemoryDatabase`] wraps it in a reader/writer lock (the concurrency
//! guard): writers take exclusive access for a whole batch, readers share.

use vstd::prelude::*;
use crate::blocks::{Block, BlockHeader, MerkleNode, TransactionKernel, TransactionOutput};
use crate::db_transaction::{
    ChainStorageError, DbKey, DbKeyValuePair, DbTransaction, DbValue, ErrorKind, MmrTree,
    WriteOperation, metadata_code,
};
use crate::hashing::copy_bytes;
use crate::mmr::{
    CpView, MerkleChangeTracker, MerkleChangeTrackerConfig, MmrView, MutableMmr,
    MutableMmrLeafNodes, TrackerView, chained_root, first_index_of, full_root, tracker_assign,
    tracker_commit, tracker_delete, tracker_push, tracker_reset, tracker_rewind,
};
use crate::table::{ByteMap, U64Map};
use crate::backend::MutableMmrState;
use crate::mmr::{MerkleCheckPoint, MerkleProof, holds_position};
use std::sync::Arc;
use vstd::rwlock::{RwLock, RwLockPredicate};

verus! {

/// Mathematical state of the whole store: one map per table, the reverse
/// header index, and the three accumulators.
#[verifier::ext_equal]
pub struct StoreView {
    pub metadata: Map<u64, Vec<u8>>,
    pub headers: Map<u64, BlockHeader>,
    pub block_hashes: Map<Seq<u8>, u64>,
    pub utxos: Map<Seq<u8>, MerkleNode<TransactionOutput>>,
    pub stxos: Map<Seq<u8>, MerkleNode<TransactionOutput>>,
    pub kernels: Map<Seq<u8>, TransactionKernel>,
    pub orphans: Map<Seq<u8>, Block>,
    pub utxo_mmr: TrackerView,
    pub kernel_mmr: TrackerView,
    pub range_proof_mmr: TrackerView,
}

impl StoreView {
    /// Every reverse-index entry points to a stored header whose hash is
    /// that key: `block_hashes` is a partial inverse of `headers`.  (The
    /// other direction does not hold — a header delete by height removes
    /// the index entry for its hash even when that entry points to a
    /// different height, and two headers may share a hash — but this
    /// direction is what hash-keyed lookups rest on, and every operation
    /// preserves it.)
    pub open spec fn index_coherent(self) -> bool {
        forall|h: Seq<u8>|
            #[trigger] self.block_hashes.contains_key(h) ==> self.headers.contains_key(
                self.block_hashes[h],
            ) && self.headers[self.block_hashes[h]]@ == h
    }

    pub open spec fn wf(self) -> bool {
        &&& self.utxo_mmr.wf()
        &&& self.kernel_mmr.wf()
        &&& self.range_proof_mmr.wf()
        &&& self.index_coherent()
    }

    /// Number of stored headers.
    pub open spec fn header_count(self) -> nat {
        self.headers.dom().len()
    }
}

/// The accumulator a selector addresses.
pub open spec fn tracker_of(s: StoreView, tree: MmrTree) -> TrackerView {
    match tree {
        MmrTree::Utxo => s.utxo_mmr,
        MmrTree::Kernel => s.kernel_mmr,
        MmrTree::RangeProof => s.range_proof_mmr,
    }
}

/// The store with the selected accumulator replaced.
pub open spec fn with_tracker(s: StoreView, tree: MmrTree, t: TrackerView) -> StoreView {
    match tree {
        MmrTree::Utxo => StoreView { utxo_mmr: t, ..s },
        MmrTree::Kernel => StoreView { kernel_mmr: t, ..s },
        MmrTree::RangeProof => StoreView { range_proof_mmr: t, ..s },
    }
}

/// The state after an insert, or the error refusing it.  An insert into an
/// occupied key is refused.  An output or kernel insert with the register
/// flag set first appends the relevant leaves; the output's leaf position is
/// then resolved by reverse lookup of its range-proof hash, and when that
/// lookup finds nothing the record itself is quietly not stored.
pub open spec fn apply_insert(s: StoreView, pair: DbKeyValuePair) -> Result<StoreView, ErrorKind> {
    match pair {
        DbKeyValuePair::Metadata(k, v) => {
            if s.metadata.contains_key(metadata_code(k)) {
                Err(ErrorKind::DuplicateKey)
            } else {
                Ok(StoreView { metadata: s.metadata.insert(metadata_code(k), v), ..s })
            }
        },
        DbKeyValuePair::BlockHeader(k, v) => {
            if s.headers.contains_key(k) {
                Err(ErrorKind::DuplicateKey)
            } else {
                Ok(
                    StoreView {
                        headers: s.headers.insert(k, *v),
                        block_hashes: s.block_hashes.insert(v@, k),
                        ..s
                    },
                )
            }
        },
        DbKeyValuePair::UnspentOutput(k, v, update_mmr) => {
            if s.utxos.contains_key(k@) {
                Err(ErrorKind::DuplicateKey)
            } else {
                let s1 = if update_mmr {
                    StoreView {
                        utxo_mmr: tracker_push(s.utxo_mmr, k@),
                        range_proof_mmr: tracker_push(s.range_proof_mmr, v@.proof_hash),
                        ..s
                    }
                } else {
                    s
                };
                match first_index_of(s1.range_proof_mmr.current.leaves, v@.proof_hash) {
                    Some(i) => Ok(
                        StoreView {
                            utxos: s1.utxos.insert(
                                k@,
                                MerkleNode { index: i as usize, value: *v },
                            ),
                            ..s1
                        },
                    ),
                    None => Ok(s1),
                }
            }
        },
        DbKeyValuePair::TransactionKernel(k, v, update_mmr) => {
            if s.kernels.contains_key(k@) {
                Err(ErrorKind::DuplicateKey)
            } else {
                let s1 = if update_mmr {
                    StoreView { kernel_mmr: tracker_push(s.kernel_mmr, k@), ..s }
                } else {
                    s
                };
                Ok(StoreView { kernels: s1.kernels.insert(k@, *v), ..s1 })
            }
        },
        DbKeyValuePair::OrphanBlock(k, v) => {
            if s.orphans.contains_key(k@) {
                Err(ErrorKind::DuplicateKey)
            } else {
                Ok(StoreView { orphans: s.orphans.insert(k@, *v), ..s })
            }
        },
    }
}

/// The state after a delete.  A metadata delete changes nothing; a header
/// delete, by height or by hash, also removes the paired reverse-index
/// entry; no delete touches an accumulator.
pub open spec fn apply_delete(s: StoreView, key: DbKey) -> StoreView {
    match key {
        DbKey::Metadata(_) => s,
        DbKey::BlockHeader(k) => {
            if s.headers.contains_key(k) {
                StoreView {
                    headers: s.headers.remove(k),
                    block_hashes: s.block_hashes.remove(s.headers[k]@),
                    ..s
                }
            } else {
                s
            }
        },
        DbKey::BlockHash(hash) => {
            if s.block_hashes.contains_key(hash@) {
                StoreView {
                    block_hashes: s.block_hashes.remove(hash@),
                    headers: s.headers.remove(s.block_hashes[hash@]),
                    ..s
                }
            } else {
                s
            }
        },
        DbKey::UnspentOutput(k) => StoreView { utxos: s.utxos.remove(k@), ..s },
        DbKey::SpentOutput(k) => StoreView { stxos: s.stxos.remove(k@), ..s },
        DbKey::TransactionKernel(k) => StoreView { kernels: s.kernels.remove(k@), ..s },
        DbKey::OrphanBlock(k) => StoreView { orphans: s.orphans.remove(k@), ..s },
    }
}

/// The state after spending a known unspent output: the record moves to the
/// spent table keeping its leaf position, and its leaf is tombstoned.
pub open spec fn spend_state(s: StoreView, h: Seq<u8>) -> StoreView {
    StoreView {
        utxos: s.utxos.remove(h),
        stxos: s.stxos.insert(h, s.utxos[h]),
        utxo_mmr: tracker_delete(s.utxo_mmr, s.utxos[h].index),
        ..s
    }
}

/// The state after a spend, or the error refusing it.
pub open spec fn apply_spend(s: StoreView, key: DbKey) -> Result<StoreView, ErrorKind> {
    match key {
        DbKey::UnspentOutput(hash) => {
            if s.utxos.contains_key(hash@) {
                Ok(spend_state(s, hash@))
            } else {
                Err(ErrorKind::UnspendableInput)
            }
        },
        _ => Err(ErrorKind::InvalidOperation),
    }
}

/// The state after unspending a known spent output: the record moves back
/// unchanged; the accumulator is left to the paired rewind.
pub open spec fn unspend_state(s: StoreView, h: Seq<u8>) -> StoreView {
    StoreView { stxos: s.stxos.remove(h), utxos: s.utxos.insert(h, s.stxos[h]), ..s }
}

/// The state after an unspend, or the error refusing it.
pub open spec fn apply_unspend(s: StoreView, key: DbKey) -> Result<StoreView, ErrorKind> {
    match key {
        DbKey::SpentOutput(hash) => {
            if s.stxos.contains_key(hash@) {
                Ok(unspend_state(s, hash@))
            } else {
                Err(ErrorKind::UnspendError)
            }
        },
        _ => Err(ErrorKind::InvalidOperation),
    }
}

/// The state after a rewind request: zero steps discard pending changes
/// only; a positive count discards that many newest checkpoints; more steps
/// than retained checkpoints are refused.
pub open spec fn apply_rewind(s: StoreView, tree: MmrTree, steps: usize) -> Result<
    StoreView,
    ErrorKind,
> {
    let t = tracker_of(s, tree);
    if steps == 0 {
        Ok(with_tracker(s, tree, tracker_reset(t)))
    } else if steps <= t.checkpoints.len() {
        Ok(with_tracker(s, tree, tracker_rewind(t, steps as int)))
    } else {
        Err(ErrorKind::AccessError)
    }
}

/// The state after one write operation, or the error aborting the batch.
pub open spec fn apply_op(s: StoreView, op: WriteOperation) -> Result<StoreView, ErrorKind> {
    match op {
        WriteOperation::Insert(pair) => apply_insert(s, pair),
        WriteOperation::Delete(key) => Ok(apply_delete(s, key)),
        WriteOperation::Spend(key) => apply_spend(s, key),
        WriteOperation::UnSpend(key) => apply_unspend(s, key),
        WriteOperation::CreateMmrCheckpoint(tree) => Ok(
            with_tracker(s, tree, tracker_commit(tracker_of(s, tree))),
        ),
        WriteOperation::RewindMmr(tree, steps) => apply_rewind(s, tree, steps),
    }
}

/// The state after an ordered batch, with the error that aborted it, if
/// any.  Operations are applied strictly in order; the first failure stops
/// the batch, and operations already applied are not rolled back.
pub open spec fn apply_ops(s: StoreView, ops: Seq<WriteOperation>) -> (StoreView, Option<
    ErrorKind,
>)
    decreases ops.len(),
{
    if ops.len() == 0 {
        (s, None)
    } else {
        match apply_op(s, ops.first()) {
            Ok(s2) => apply_ops(s2, ops.drop_first()),
            Err(k) => (s, Some(k)),
        }
    }
}

/// Applying one well-formed operation keeps the store well formed.
pub proof fn lemma_apply_op_wf(s: StoreView, op: WriteOperation)
    requires
        s.wf(),
    ensures
        apply_op(s, op) matches Ok(s2) ==> s2.wf(),
{
    match op {
        WriteOperation::Insert(pair) => {
            match pair {
                DbKeyValuePair::UnspentOutput(k, v, update_mmr) => {
                    if update_mmr {
                        crate::mmr::lemma_tracker_push_wf(s.utxo_mmr, k@);
                        crate::mmr::lemma_tracker_push_wf(s.range_proof_mmr, v@.proof_hash);
                    }
                },
                DbKeyValuePair::TransactionKernel(k, _, update_mmr) => {
                    if update_mmr {
                        crate::mmr::lemma_tracker_push_wf(s.kernel_mmr, k@);
                    }
                },
                DbKeyValuePair::BlockHeader(k, v) => {
                    if !s.headers.contains_key(k) {
                        let s2 = apply_insert(s, pair)->Ok_0;
                        assert forall|h: Seq<u8>| #[trigger] s2.block_hashes.contains_key(
                            h,
                        ) implies s2.headers.contains_key(s2.block_hashes[h])
                            && s2.headers[s2.block_hashes[h]]@ == h by {
                            if h != v@ {
                                // An old entry: it points to a stored
                                // header, which cannot sit at the fresh
                                // height `k`.
                                assert(s.block_hashes.contains_key(h));
                                assert(s.block_hashes[h] != k);
                            }
                        }
                    }
                },
                _ => {},
            }
        },
        WriteOperation::Delete(key) => {
            match key {
                DbKey::BlockHeader(k) => {
                    if s.headers.contains_key(k) {
                        let s2 = apply_delete(s, key);
                        assert forall|h: Seq<u8>| #[trigger] s2.block_hashes.contains_key(
                            h,
                        ) implies s2.headers.contains_key(s2.block_hashes[h])
                            && s2.headers[s2.block_hashes[h]]@ == h by {
                            assert(s.block_hashes.contains_key(h));
                            // A surviving entry cannot point at the removed
                            // height: an entry at `k` would have to carry
                            // that header's hash, the one key removed.
                            assert(s.block_hashes[h] != k);
                        }
                    }
                },
                DbKey::BlockHash(hash) => {
                    if s.block_hashes.contains_key(hash@) {
                        let removed_height = s.block_hashes[hash@];
                        let s2 = apply_delete(s, key);
                        assert forall|h: Seq<u8>| #[trigger] s2.block_hashes.contains_key(
                            h,
                        ) implies s2.headers.contains_key(s2.block_hashes[h])
                            && s2.headers[s2.block_hashes[h]]@ == h by {
                            assert(s.block_hashes.contains_key(h));
                            // A surviving entry cannot point at the removed
                            // height: both entries would then carry that
                            // header's hash and be the same key.
                            if s.block_hashes[h] == removed_height {
                                assert(s.headers[removed_height]@ == h);
                                assert(s.headers[removed_height]@ == hash@);
                            }
                        }
                    }
                },
                _ => {},
            }
        },
        WriteOperation::Spend(key) => {
            match key {
                DbKey::UnspentOutput(hash) => {
                    if s.utxos.contains_key(hash@) {
                        crate::mmr::lemma_tracker_delete_wf(s.utxo_mmr, s.utxos[hash@].index);
                    }
                },
                _ => {},
            }
        },
        WriteOperation::CreateMmrCheckpoint(tree) => {
            crate::mmr::lemma_tracker_commit_wf(tracker_of(s, tree));
        },
        WriteOperation::RewindMmr(tree, steps) => {
            let t = tracker_of(s, tree);
            if steps == 0 {
                crate::mmr::lemma_tracker_reset_wf(t);
            } else if steps <= t.checkpoints.len() {
                crate::mmr::lemma_tracker_rewind_wf(t, steps as int);
            }
        },
        _ => {},
    }
}

/// The guarded aggregate: all tables and accumulators, owned as one unit.
pub struct InnerDatabase {
    metadata: U64Map<Vec<u8>>,
    headers: U64Map<BlockHeader>,
    block_hashes: ByteMap<u64>,
    utxos: ByteMap<MerkleNode<TransactionOutput>>,
    stxos: ByteMap<MerkleNode<TransactionOutput>>,
    kernels: ByteMap<TransactionKernel>,
    orphans: ByteMap<Block>,
    utxo_mmr: MerkleChangeTracker,
    kernel_mmr: MerkleChangeTracker,
    range_proof_mmr: MerkleChangeTracker,
}

impl View for InnerDatabase {
    type V = StoreView;

    closed spec fn view(&self) -> StoreView {
        StoreView {
            metadata: self.metadata@,
            headers: self.headers@,
            block_hashes: self.block_hashes@,
            utxos: self.utxos@,
            stxos: self.stxos@,
            kernels: self.kernels@,
            orphans: self.orphans@,
            utxo_mmr: self.utxo_mmr@,
            kernel_mmr: self.kernel_mmr@,
            range_proof_mmr: self.range_proof_mmr@,
        }
    }
}

impl InnerDatabase {
    /// Every table has unique keys and every accumulator is well formed.
    pub closed spec fn wf(&self) -> bool {
        &&& self.metadata.wf()
        &&& self.headers.wf()
        &&& self.block_hashes.wf()
        &&& self.utxos.wf()
        &&& self.stxos.wf()
        &&& self.kernels.wf()
        &&& self.orphans.wf()
        &&& self@.wf()
    }

    /// An empty store whose accumulators retain history within the given
    /// bounds.
    pub fn new(mct_config: MerkleChangeTrackerConfig) -> (db: Self)
        requires
            mct_config.min_history_len <= mct_config.max_history_len,
        ensures
            db.wf(),
            db@.metadata == Map::<u64, Vec<u8>>::empty(),
            db@.headers == Map::<u64, BlockHeader>::empty(),
            db@.block_hashes == Map::<Seq<u8>, u64>::empty(),
            db@.utxos == Map::<Seq<u8>, MerkleNode<TransactionOutput>>::empty(),
            db@.stxos == Map::<Seq<u8>, MerkleNode<TransactionOutput>>::empty(),
            db@.kernels == Map::<Seq<u8>, TransactionKernel>::empty(),
            db@.orphans == Map::<Seq<u8>, Block>::empty(),
            db@.utxo_mmr == empty_tracker(mct_config),
            db@.kernel_mmr == empty_tracker(mct_config),
            db@.range_proof_mmr == empty_tracker(mct_config),
    {
        let utxo_mmr = MerkleChangeTracker::new(MutableMmr::new(Vec::new()), Vec::new(), mct_config);
        let kernel_mmr = MerkleChangeTracker::new(
            MutableMmr::new(Vec::new()),
            Vec::new(),
            mct_config,
        );
        let range_proof_mmr = MerkleChangeTracker::new(
            MutableMmr::new(Vec::new()),
            Vec::new(),
            mct_config,
        );
        let db = InnerDatabase {
            metadata: U64Map::new(),
            headers: U64Map::new(),
            block_hashes: ByteMap::new(),
            utxos: ByteMap::new(),
            stxos: ByteMap::new(),
            kernels: ByteMap::new(),
            orphans: ByteMap::new(),
            utxo_mmr,
            kernel_mmr,
            range_proof_mmr,
        };
        proof {
            assert(db@.utxo_mmr =~~= empty_tracker(mct_config));
            assert(db@.kernel_mmr =~~= empty_tracker(mct_config));
            assert(db@.range_proof_mmr =~~= empty_tracker(mct_config));
        }
        db
    }

    /// Applies one insert; on a duplicate key nothing changes.
    fn apply_insert_exec(&mut self, pair: DbKeyValuePair) -> (r: Result<(), ChainStorageError>)
        requires
            old(self).wf(),
        ensures
            final(self).wf(),
            match (r, apply_insert(old(self)@, pair)) {
                (Ok(()), Ok(s2)) => final(self)@ == s2,
                (Err(e), Err(k)) => e.kind() == k && final(self)@ == old(self)@,
                _ => false,
            },
    {
        proof {
            lemma_apply_op_wf(old(self)@, WriteOperation::Insert(pair));
        }
        match pair {
            DbKeyValuePair::Metadata(k, v) => {
                let code = k.code();
                if self.metadata.contains_key(code) {
                    return Err(ChainStorageError::DuplicateKey);
                }
                self.metadata.insert(code, v);
                proof {
                    assert(final(self)@ =~~= apply_insert(
                        old(self)@,
                        DbKeyValuePair::Metadata(k, v),
                    )->Ok_0);
                }
                Ok(())
            },
            DbKeyValuePair::BlockHeader(k, v) => {
                if self.headers.contains_key(k) {
                    return Err(ChainStorageError::DuplicateKey);
                }
                self.block_hashes.insert(v.hash(), k);
                self.headers.insert(k, *v);
                proof {
                    assert(final(self)@ =~~= apply_insert(
                        old(self)@,
                        DbKeyValuePair::BlockHeader(k, v),
                    )->Ok_0);
                }
                Ok(())
            },
            DbKeyValuePair::UnspentOutput(k, v, update_mmr) => {
                if self.utxos.contains_key(&k) {
                    return Err(ChainStorageError::DuplicateKey);
                }
                let proof_hash = v.proof_hash();
                if update_mmr {
                    self.utxo_mmr.push(&k);
                    self.range_proof_mmr.push(&proof_hash);
                }
                match self.range_proof_mmr.find_leaf_index(&proof_hash) {
                    Some(index) => {
                        let node = MerkleNode { index, value: *v };
                        self.utxos.insert(k, node);
                    },
                    None => {},
                }
                proof {
                    assert(final(self)@ =~~= apply_insert(
                        old(self)@,
                        DbKeyValuePair::UnspentOutput(k, v, update_mmr),
                    )->Ok_0);
                }
                Ok(())
            },
            DbKeyValuePair::TransactionKernel(k, v, update_mmr) => {
                if self.kernels.contains_key(&k) {
                    return Err(ChainStorageError::DuplicateKey);
                }
                if update_mmr {
                    self.kernel_mmr.push(&k);
                }
                self.kernels.insert(k, *v);
                proof {
                    assert(final(self)@ =~~= apply_insert(
                        old(self)@,
                        DbKeyValuePair::TransactionKernel(k, v, update_mmr),
                    )->Ok_0);
                }
                Ok(())
            },
            DbKeyValuePair::OrphanBlock(k, v) => {
                if self.orphans.contains_key(&k) {
                    return Err(ChainStorageError::DuplicateKey);
                }
                self.orphans.insert(k, *v);
                proof {
                    assert(final(self)@ =~~= apply_insert(
                        old(self)@,
                        DbKeyValuePair::OrphanBlock(k, v),
                    )->Ok_0);
                }
                Ok(())
            },
        }
    }

    /// Applies one delete; deleting an absent key changes nothing, and no
    /// delete ever fails.
    fn apply_delete_exec(&mut self, key: DbKey)
        requires
            old(self).wf(),
        ensures
            final(self).wf(),
            final(self)@ == apply_delete(old(self)@, key),
    {
        proof {
            lemma_apply_op_wf(old(self)@, WriteOperation::Delete(key));
        }
        match key {
            DbKey::Metadata(_) => {},
            DbKey::BlockHeader(k) => {
                match self.headers.remove(k) {
                    Some(v) => {
                        let gone = self.block_hashes.remove(&v.hash).is_none();
                        proof {
                            if gone {
                                let s0 = old(self)@;
                                assert(s0.block_hashes.remove(v@) =~= s0.block_hashes);
                            }
                        }
                    },
                    None => {},
                }
                proof {
                    assert(final(self)@ =~~= apply_delete(old(self)@, key));
                }
            },
            DbKey::BlockHash(hash) => {
                match self.block_hashes.remove(&hash) {
                    Some(k) => {
                        self.headers.remove(k);
                    },
                    None => {},
                }
                proof {
                    assert(final(self)@ =~~= apply_delete(old(self)@, DbKey::BlockHash(hash)));
                }
            },
            DbKey::UnspentOutput(k) => {
                let absent = self.utxos.remove(&k).is_none();
                proof {
                    if absent {
                        assert(old(self)@.utxos.remove(k@) =~= old(self)@.utxos);
                    }
                    assert(final(self)@ =~~= apply_delete(old(self)@, DbKey::UnspentOutput(k)));
                }
            },
            DbKey::SpentOutput(k) => {
                let absent = self.stxos.remove(&k).is_none();
                proof {
                    if absent {
                        assert(old(self)@.stxos.remove(k@) =~= old(self)@.stxos);
                    }
                    assert(final(self)@ =~~= apply_delete(old(self)@, DbKey::SpentOutput(k)));
                }
            },
            DbKey::TransactionKernel(k) => {
                let absent = self.kernels.remove(&k).is_none();
                proof {
                    if absent {
                        assert(old(self)@.kernels.remove(k@) =~= old(self)@.kernels);
                    }
                    assert(final(self)@ =~~= apply_delete(
                        old(self)@,
                        DbKey::TransactionKernel(k),
                    ));
                }
            },
            DbKey::OrphanBlock(k) => {
                let absent = self.orphans.remove(&k).is_none();
                proof {
                    if absent {
                        assert(old(self)@.orphans.remove(k@) =~= old(self)@.orphans);
                    }
                    assert(final(self)@ =~~= apply_delete(old(self)@, DbKey::OrphanBlock(k)));
                }
            },
        }
    }
}

impl Default for InnerDatabase {
    /// An empty store retaining between 900 and 1000 checkpoints per
    /// accumulator.
    fn default() -> (db: Self)
        ensures
            db.wf(),
            db@.metadata == Map::<u64, Vec<u8>>::empty(),
            db@.headers == Map::<u64, BlockHeader>::empty(),
            db@.block_hashes == Map::<Seq<u8>, u64>::empty(),
            db@.utxos == Map::<Seq<u8>, MerkleNode<TransactionOutput>>::empty(),
            db@.stxos == Map::<Seq<u8>, MerkleNode<TransactionOutput>>::empty(),
            db@.kernels == Map::<Seq<u8>, TransactionKernel>::empty(),
            db@.orphans == Map::<Seq<u8>, Block>::empty(),
            db@.utxo_mmr == empty_tracker(
                MerkleChangeTrackerConfig { min_history_len: 900, max_history_len: 1000 },
            ),
            db@.kernel_mmr == db@.utxo_mmr,
            db@.range_proof_mmr == db@.utxo_mmr,
    {
        InnerDatabase::new(
            MerkleChangeTrackerConfig { min_history_len: 900, max_history_len: 1000 },
        )
    }
}

/// The state of a freshly built accumulator: empty, with no history.
pub open spec fn empty_tracker(config: MerkleChangeTrackerConfig) -> TrackerView {
    TrackerView {
        base: MmrView { leaves: Seq::empty(), deleted: Seq::empty() },
        checkpoints: Seq::empty(),
        current: MmrView { leaves: Seq::empty(), deleted: Seq::empty() },
        pending: CpView::empty(),
        config,
    }
}

impl InnerDatabase {
    /// Applies one write operation; on failure nothing changes.
    fn apply_operation(&mut self, op: WriteOperation) -> (r: Result<(), ChainStorageError>)
        requires
            old(self).wf(),
        ensures
            final(self).wf(),
            match (r, apply_op(old(self)@, op)) {
                (Ok(()), Ok(s2)) => final(self)@ == s2,
                (Err(e), Err(k)) => e.kind() == k && final(self)@ == old(self)@,
                _ => false,
            },
    {
        proof {
            lemma_apply_op_wf(old(self)@, op);
        }
        match op {
            WriteOperation::Insert(pair) => self.apply_insert_exec(pair),
            WriteOperation::Delete(key) => {
                self.apply_delete_exec(key);
                Ok(())
            },
            WriteOperation::Spend(key) => match key {
                DbKey::UnspentOutput(hash) => {
                    let moved = spend_utxo(self, hash);
                    if !moved {
                        return Err(ChainStorageError::UnspendableInput);
                    }
                    Ok(())
                },
                _ => Err(
                    ChainStorageError::InvalidOperation(
                        String::from_str("Only UTXOs can be spent"),
                    ),
                ),
            },
            WriteOperation::UnSpend(key) => match key {
                DbKey::SpentOutput(hash) => {
                    let moved = unspend_stxo(self, hash);
                    if !moved {
                        return Err(ChainStorageError::UnspendError);
                    }
                    Ok(())
                },
                _ => Err(
                    ChainStorageError::InvalidOperation(
                        String::from_str("Only STXOs can be unspent"),
                    ),
                ),
            },
            WriteOperation::CreateMmrCheckpoint(tree) => {
                match tree {
                    MmrTree::Utxo => self.utxo_mmr.commit(),
                    MmrTree::Kernel => self.kernel_mmr.commit(),
                    MmrTree::RangeProof => self.range_proof_mmr.commit(),
                }
                proof {
                    assert(final(self)@ =~~= apply_op(
                        old(self)@,
                        WriteOperation::CreateMmrCheckpoint(tree),
                    )->Ok_0);
                }
                Ok(())
            },
            WriteOperation::RewindMmr(tree, steps_back) => {
                let outcome: Result<(), crate::mmr::MmrError> = if steps_back == 0 {
                    match tree {
                        MmrTree::Utxo => self.utxo_mmr.reset(),
                        MmrTree::Kernel => self.kernel_mmr.reset(),
                        MmrTree::RangeProof => self.range_proof_mmr.reset(),
                    }
                    Ok(())
                } else {
                    match tree {
                        MmrTree::Utxo => self.utxo_mmr.rewind(steps_back),
                        MmrTree::Kernel => self.kernel_mmr.rewind(steps_back),
                        MmrTree::RangeProof => self.range_proof_mmr.rewind(steps_back),
                    }
                };
                match outcome {
                    Ok(()) => {
                        proof {
                            assert(final(self)@ =~~= apply_rewind(
                                old(self)@,
                                tree,
                                steps_back,
                            )->Ok_0);
                        }
                        Ok(())
                    },
                    Err(_) => {
                        proof {
                            assert(final(self)@ =~~= old(self)@);
                        }
                        Err(
                            ChainStorageError::AccessError(
                                String::from_str("rewind exceeds retained checkpoint history"),
                            ),
                        )
                    },
                }
            },
        }
    }

    /// Applies an ordered batch strictly in order; the first failing
    /// operation aborts the call, and operations already applied are not
    /// rolled back.
    pub fn write(&mut self, tx: DbTransaction) -> (r: Result<(), ChainStorageError>)
        requires
            old(self).wf(),
        ensures
            final(self).wf(),
            ({
                let (s2, e) = apply_ops(old(self)@, tx.operations@);
                &&& final(self)@ == s2
                &&& match r {
                    Ok(()) => e is None,
                    Err(err) => e == Some(err.kind()),
                }
            }),
    {
        let ghost ops0 = tx.operations@;
        let mut ops = tx.operations;
        while ops.len() > 0
            invariant
                self.wf(),
                ops0 == tx.operations@,
                apply_ops(old(self)@, ops0) == apply_ops(self@, ops@),
            decreases ops@.len(),
        {
            let ghost pre_ops = ops@;
            let ghost pre_s = self@;
            let op = ops.remove(0);
            proof {
                assert(pre_ops.first() == op);
                assert(pre_ops.drop_first() =~= ops@);
            }
            let step = self.apply_operation(op);
            match step {
                Ok(()) => {},
                Err(err) => {
                    proof {
                        assert(apply_ops(pre_s, pre_ops) == (pre_s, Some(err.kind())));
                        assert(apply_ops(old(self)@, ops0) == (pre_s, Some(err.kind())));
                        assert(self@ == pre_s);
                        assert(apply_ops(old(self)@, tx.operations@).0 == pre_s);
                    }
                    return Err(err);
                },
            }
        }
        proof {
            assert(ops@.len() == 0);
        }
        Ok(())
    }
}

/// Whether a key is present.  Metadata is conceptually always present, with
/// a default absence value.
pub open spec fn key_present(s: StoreView, key: DbKey) -> bool {
    match key {
        DbKey::Metadata(_) => true,
        DbKey::BlockHeader(k) => s.headers.contains_key(k),
        DbKey::BlockHash(h) => s.block_hashes.contains_key(h@),
        DbKey::UnspentOutput(k) => s.utxos.contains_key(k@),
        DbKey::SpentOutput(k) => s.stxos.contains_key(k@),
        DbKey::TransactionKernel(k) => s.kernels.contains_key(k@),
        DbKey::OrphanBlock(k) => s.orphans.contains_key(k@),
    }
}

/// Whether a fetch result reports exactly what the store holds under the
/// key: the matching value variant with the stored content, or nothing.
pub open spec fn fetch_result_matches(s: StoreView, key: DbKey, r: Option<DbValue>) -> bool {
    match key {
        DbKey::Metadata(k) => match r {
            Some(DbValue::Metadata(v)) => s.metadata.contains_key(metadata_code(k)) && v@
                == s.metadata[metadata_code(k)]@,
            None => !s.metadata.contains_key(metadata_code(k)),
            _ => false,
        },
        DbKey::BlockHeader(k) => match r {
            Some(DbValue::BlockHeader(v)) => s.headers.contains_key(k) && v@ == s.headers[k]@,
            None => !s.headers.contains_key(k),
            _ => false,
        },
        DbKey::BlockHash(h) => match r {
            Some(DbValue::BlockHash(v)) => s.block_hashes.contains_key(h@)
                && s.headers.contains_key(s.block_hashes[h@]) && v@ == s.headers[s.block_hashes[h@]]@,
            None => !s.block_hashes.contains_key(h@) || !s.headers.contains_key(
                s.block_hashes[h@],
            ),
            _ => false,
        },
        DbKey::UnspentOutput(k) => match r {
            Some(DbValue::UnspentOutput(v)) => s.utxos.contains_key(k@) && v@ == s.utxos[k@].value@,
            None => !s.utxos.contains_key(k@),
            _ => false,
        },
        DbKey::SpentOutput(k) => match r {
            Some(DbValue::SpentOutput(v)) => s.stxos.contains_key(k@) && v@ == s.stxos[k@].value@,
            None => !s.stxos.contains_key(k@),
            _ => false,
        },
        DbKey::TransactionKernel(k) => match r {
            Some(DbValue::TransactionKernel(v)) => s.kernels.contains_key(k@) && v@
                == s.kernels[k@]@,
            None => !s.kernels.contains_key(k@),
            _ => false,
        },
        DbKey::OrphanBlock(k) => match r {
            Some(DbValue::OrphanBlock(v)) => s.orphans.contains_key(k@) && v@ == s.orphans[k@]@,
            None => !s.orphans.contains_key(k@),
            _ => false,
        },
    }
}

/// A tombstone request against a scratch state: marks a live in-range
/// position, otherwise changes nothing.
pub open spec fn mmr_mark(m: MmrView, pos: int) -> MmrView {
    if 0 <= pos < m.len() && !m.deleted[pos] {
        MmrView { leaves: m.leaves, deleted: m.deleted.update(pos, true) }
    } else {
        m
    }
}

/// Hypothetical deletions applied to a scratch state: each hash that names
/// a known unspent output tombstones that record's leaf position; unknown
/// hashes are ignored.
pub open spec fn hypo_deletions(s: StoreView, m: MmrView, dels: Seq<Seq<u8>>) -> MmrView
    decreases dels.len(),
{
    if dels.len() == 0 {
        m
    } else {
        let m1 = if s.utxos.contains_key(dels.first()) {
            mmr_mark(m, s.utxos[dels.first()].index as int)
        } else {
            m
        };
        hypo_deletions(s, m1, dels.drop_first())
    }
}

pub proof fn lemma_hypo_deletions_push(s: StoreView, m: MmrView, dels: Seq<Seq<u8>>, d: Seq<u8>)
    ensures
        hypo_deletions(s, m, dels.push(d)) == (if s.utxos.contains_key(d) {
            mmr_mark(hypo_deletions(s, m, dels), s.utxos[d].index as int)
        } else {
            hypo_deletions(s, m, dels)
        }),
    decreases dels.len(),
{
    let x = dels.push(d);
    if dels.len() == 0 {
        assert(x.first() == d);
        assert(x.drop_first() =~= Seq::<Seq<u8>>::empty());
        let md = if s.utxos.contains_key(d) {
            mmr_mark(m, s.utxos[d].index as int)
        } else {
            m
        };
        assert(hypo_deletions(s, m, x) == hypo_deletions(s, md, x.drop_first()));
        assert(hypo_deletions(s, md, x.drop_first()) == md);
        assert(hypo_deletions(s, m, dels) == m);
    } else {
        assert(x.first() == dels.first());
        assert(x.drop_first() =~= dels.drop_first().push(d));
        let m1 = if s.utxos.contains_key(dels.first()) {
            mmr_mark(m, s.utxos[dels.first()].index as int)
        } else {
            m
        };
        lemma_hypo_deletions_push(s, m1, dels.drop_first(), d);
        assert(hypo_deletions(s, m, x) == hypo_deletions(s, m1, x.drop_first()));
        assert(hypo_deletions(s, m, dels) == hypo_deletions(s, m1, dels.drop_first()));
    }
}

/// The scratch state whose root a hypothetical-root request reports: the
/// selected accumulator's current state with the additions appended and,
/// for the unspent-output accumulator only, the deletions applied.
pub open spec fn hypothetical_state(
    s: StoreView,
    tree: MmrTree,
    adds: Seq<Seq<u8>>,
    dels: Seq<Seq<u8>>,
) -> MmrView {
    let m0 = tracker_of(s, tree).current;
    let m1 = MmrView {
        leaves: m0.leaves + adds,
        deleted: m0.deleted + Seq::new(adds.len(), |i: int| false),
    };
    match tree {
        MmrTree::Utxo => hypo_deletions(s, m1, dels),
        _ => m1,
    }
}

/// The earliest height for which full reconstruction data is guaranteed
/// retained: stored header count less the kernel accumulator's retained
/// checkpoint count.
pub open spec fn horizon_height(s: StoreView) -> int {
    s.header_count() - s.kernel_mmr.checkpoints.len()
}

impl InnerDatabase {
    /// Point lookup; the matching value is returned as an owned copy.
    pub fn fetch(&self, key: &DbKey) -> (r: Option<DbValue>)
        requires
            self.wf(),
        ensures
            fetch_result_matches(self@, *key, r),
    {
        match key {
            DbKey::Metadata(k) => match self.metadata.get(k.code()) {
                Some(v) => Some(DbValue::Metadata(copy_bytes(v))),
                None => None,
            },
            DbKey::BlockHeader(k) => match self.headers.get(*k) {
                Some(v) => Some(DbValue::BlockHeader(Box::new(v.duplicate()))),
                None => None,
            },
            DbKey::BlockHash(h) => match self.block_hashes.get(h) {
                Some(height) => match self.headers.get(*height) {
                    Some(v) => Some(DbValue::BlockHash(Box::new(v.duplicate()))),
                    None => None,
                },
                None => None,
            },
            DbKey::UnspentOutput(k) => match self.utxos.get(k) {
                Some(node) => Some(DbValue::UnspentOutput(Box::new(node.value.duplicate()))),
                None => None,
            },
            DbKey::SpentOutput(k) => match self.stxos.get(k) {
                Some(node) => Some(DbValue::SpentOutput(Box::new(node.value.duplicate()))),
                None => None,
            },
            DbKey::TransactionKernel(k) => match self.kernels.get(k) {
                Some(v) => Some(DbValue::TransactionKernel(Box::new(v.duplicate()))),
                None => None,
            },
            DbKey::OrphanBlock(k) => match self.orphans.get(k) {
                Some(v) => Some(DbValue::OrphanBlock(Box::new(v.duplicate()))),
                None => None,
            },
        }
    }

    /// Existence check; metadata always reports present.
    pub fn contains(&self, key: &DbKey) -> (r: bool)
        requires
            self.wf(),
        ensures
            r == key_present(self@, *key),
    {
        match key {
            DbKey::Metadata(_) => true,
            DbKey::BlockHeader(k) => self.headers.contains_key(*k),
            DbKey::BlockHash(h) => self.block_hashes.contains_key(h),
            DbKey::UnspentOutput(k) => self.utxos.contains_key(k),
            DbKey::SpentOutput(k) => self.stxos.contains_key(k),
            DbKey::TransactionKernel(k) => self.kernels.contains_key(k),
            DbKey::OrphanBlock(k) => self.orphans.contains_key(k),
        }
    }

    /// The selected accumulator, shared.
    fn tracker(&self, tree: MmrTree) -> (r: &MerkleChangeTracker)
        ensures
            r@ == tracker_of(self@, tree),
    {
        match tree {
            MmrTree::Utxo => &self.utxo_mmr,
            MmrTree::Kernel => &self.kernel_mmr,
            MmrTree::RangeProof => &self.range_proof_mmr,
        }
    }

    /// Root of the selected accumulator over leaves and tombstones.
    pub fn fetch_mmr_root(&self, tree: MmrTree) -> (r: Vec<u8>)
        requires
            self.wf(),
        ensures
            r@ == full_root(tracker_of(self@, tree).current),
            r@.len() == 64,
    {
        self.tracker(tree).get_merkle_root()
    }

    /// Root of the selected accumulator over the leaf hashes alone.
    pub fn fetch_mmr_only_root(&self, tree: MmrTree) -> (r: Vec<u8>)
        requires
            self.wf(),
        ensures
            r@ == chained_root(tracker_of(self@, tree).current.leaves),
            r@.len() == 64,
    {
        self.tracker(tree).get_mmr_only_root()
    }

    /// The root that the given additions and deletions would produce,
    /// computed on a private scratch copy: no shared state changes.
    /// Deletions are resolved through the unspent-output table and are
    /// meaningful for the unspent-output accumulator only.
    pub fn calculate_mmr_root(&self, tree: MmrTree, additions: Vec<Vec<u8>>, deletions: Vec<
        Vec<u8>,
    >) -> (r: Vec<u8>)
        requires
            self.wf(),
        ensures
            r@ == full_root(
                hypothetical_state(
                    self@,
                    tree,
                    additions@.map_values(|v: Vec<u8>| v@),
                    deletions@.map_values(|v: Vec<u8>| v@),
                ),
            ),
            r@.len() == 64,
    {
        let ghost addsv = additions@.map_values(|v: Vec<u8>| v@);
        let ghost delsv = deletions@.map_values(|v: Vec<u8>| v@);
        let ghost m0 = tracker_of(self@, tree).current;
        let mut scratch = self.tracker(tree).mmr().duplicate();
        let mut i: usize = 0;
        while i < additions.len()
            invariant
                i <= additions@.len(),
                addsv == additions@.map_values(|v: Vec<u8>| v@),
                scratch@.wf(),
                scratch@.leaves == m0.leaves + addsv.take(i as int),
                scratch@.deleted == m0.deleted + Seq::new(i as nat, |j: int| false),
            decreases additions@.len() - i,
        {
            scratch.push(&additions[i]);
            proof {
                assert(m0.leaves + addsv.take(i + 1 as int) =~= (m0.leaves + addsv.take(
                    i as int,
                )).push(addsv[i as int]));
                assert(m0.deleted + Seq::new((i + 1) as nat, |j: int| false) =~= (m0.deleted
                    + Seq::new(i as nat, |j: int| false)).push(false));
            }
            i = i + 1;
        }
        let ghost m1 = hypothetical_state(self@, tree, addsv, Seq::empty());
        proof {
            assert(addsv.take(additions@.len() as int) =~= addsv);
            match tree {
                MmrTree::Utxo => {
                    assert(hypo_deletions(self@, scratch@, Seq::<Seq<u8>>::empty()) == scratch@);
                },
                _ => {},
            }
            assert(scratch@ =~~= MmrView {
                leaves: m0.leaves + addsv,
                deleted: m0.deleted + Seq::new(addsv.len(), |j: int| false),
            });
        }
        let ghost mbase = scratch@;
        match tree {
            MmrTree::Utxo => {
                let mut j: usize = 0;
                while j < deletions.len()
                    invariant
                        j <= deletions@.len(),
                        delsv == deletions@.map_values(|v: Vec<u8>| v@),
                        self.wf(),
                        scratch@.wf(),
                        mbase.wf(),
                        scratch@ == hypo_deletions(self@, mbase, delsv.take(j as int)),
                    decreases deletions@.len() - j,
                {
                    let ghost pre = scratch@;
                    match self.utxos.get(&deletions[j]) {
                        Some(node) => {
                            scratch.delete(node.index);
                        },
                        None => {},
                    }
                    proof {
                        assert(delsv.take(j + 1 as int) =~= delsv.take(j as int).push(
                            delsv[j as int],
                        ));
                        lemma_hypo_deletions_push(self@, mbase, delsv.take(j as int), delsv[j as int]);
                        assert(scratch@ =~~= hypo_deletions(self@, mbase, delsv.take(j + 1 as int)));
                    }
                    j = j + 1;
                }
                proof {
                    assert(delsv.take(deletions@.len() as int) =~= delsv);
                    assert(scratch@ =~~= hypothetical_state(self@, tree, addsv, delsv));
                }
            },
            _ => {
                proof {
                    assert(scratch@ =~~= hypothetical_state(self@, tree, addsv, delsv));
                }
            },
        }
        scratch.get_merkle_root()
    }
}

impl InnerDatabase {
    /// Inclusion proof for an absolute leaf position against the full,
    /// unpruned leaf history of the selected accumulator.
    pub fn fetch_mmr_proof(&self, tree: MmrTree, leaf_pos: usize) -> (r: Result<
        MerkleProof,
        ChainStorageError,
    >)
        requires
            self.wf(),
        ensures
            match r {
                Ok(p) => leaf_pos < tracker_of(self@, tree).current.len() && p.leaf_index
                    == leaf_pos && p.describes(tracker_of(self@, tree).current.leaves),
                Err(e) => e.kind() == ErrorKind::UnexpectedResult && leaf_pos >= tracker_of(
                    self@,
                    tree,
                ).current.len(),
            },
    {
        match self.tracker(tree).mmr().build_proof(leaf_pos) {
            Some(p) => Ok(p),
            None => Err(
                ChainStorageError::UnexpectedResult(
                    String::from_str("no leaf at the requested position"),
                ),
            ),
        }
    }

    /// Stored header count less the kernel accumulator's retained
    /// checkpoint count; a header count below the checkpoint count signals
    /// internal inconsistency.
    pub fn fetch_horizon_block_height(&self) -> (r: Result<u64, ChainStorageError>)
        requires
            self.wf(),
        ensures
            match r {
                Ok(h) => self@.header_count() >= self@.kernel_mmr.checkpoints.len() && h
                    == horizon_height(self@),
                Err(e) => e.kind() == ErrorKind::UnexpectedResult && self@.header_count()
                    < self@.kernel_mmr.checkpoints.len(),
            },
    {
        proof {
            self.headers.lemma_len();
        }
        let tip_height = self.headers.len();
        let checkpoint_count = self.kernel_mmr.checkpoint_count();
        if tip_height < checkpoint_count {
            return Err(
                ChainStorageError::UnexpectedResult(
                    String::from_str("fewer headers than kernel checkpoints"),
                ),
            );
        }
        Ok((tip_height - checkpoint_count) as u64)
    }

    /// The checkpoint recorded for `height`: heights below the horizon are
    /// refused as beyond the pruning horizon, and heights past the newest
    /// retained checkpoint cannot be served.
    pub fn fetch_mmr_checkpoint(&self, tree: MmrTree, height: u64) -> (r: Result<
        MerkleCheckPoint,
        ChainStorageError,
    >)
        requires
            self.wf(),
        ensures
            match r {
                Ok(cp) => {
                    &&& self@.header_count() >= self@.kernel_mmr.checkpoints.len()
                    &&& height >= horizon_height(self@)
                    &&& height - horizon_height(self@) < tracker_of(self@, tree).checkpoints.len()
                    &&& cp@ == tracker_of(self@, tree).checkpoints[height - horizon_height(self@)]
                },
                Err(e) => match e.kind() {
                    ErrorKind::UnexpectedResult => self@.header_count()
                        < self@.kernel_mmr.checkpoints.len(),
                    ErrorKind::BeyondPruningHorizon => self@.header_count()
                        >= self@.kernel_mmr.checkpoints.len() && height < horizon_height(self@),
                    ErrorKind::AccessError => {
                        &&& self@.header_count() >= self@.kernel_mmr.checkpoints.len()
                        &&& height >= horizon_height(self@)
                        &&& height - horizon_height(self@) >= tracker_of(
                            self@,
                            tree,
                        ).checkpoints.len()
                    },
                    _ => false,
                },
            },
    {
        let horizon_block = match self.fetch_horizon_block_height() {
            Ok(h) => h,
            Err(e) => {
                return Err(e);
            },
        };
        if height < horizon_block {
            return Err(ChainStorageError::BeyondPruningHorizon);
        }
        let index = height - horizon_block;
        let cnt = self.tracker(tree).checkpoint_count();
        if index >= cnt as u64 {
            return Err(
                ChainStorageError::AccessError(
                    String::from_str("MMR Checkpoint error: checkpoint not retained"),
                ),
            );
        }
        match self.tracker(tree).get_checkpoint(index as usize) {
            Ok(cp) => Ok(cp),
            Err(_) => {
                proof {
                    assert(false);
                }
                unreached()
            },
        }
    }

    /// Leaf hash and tombstone flag at an absolute position of the
    /// selected accumulator; a position that was never a leaf is refused.
    pub fn fetch_mmr_node(&self, tree: MmrTree, pos: u32) -> (r: Result<
        (Vec<u8>, bool),
        ChainStorageError,
    >)
        requires
            self.wf(),
        ensures
            match r {
                Ok((h, deleted)) => pos < tracker_of(self@, tree).current.len() && h@ == tracker_of(
                    self@,
                    tree,
                ).current.leaves[pos as int] && deleted == tracker_of(
                    self@,
                    tree,
                ).current.deleted[pos as int],
                Err(e) => e.kind() == ErrorKind::UnexpectedResult && pos >= tracker_of(
                    self@,
                    tree,
                ).current.len(),
            },
    {
        let (hash, deleted) = self.tracker(tree).get_leaf_status(pos as usize);
        match hash {
            Some(h) => Ok((h, deleted)),
            None => {
                let msg = match tree {
                    MmrTree::Utxo => String::from_str(
                        "a leaf node hash in the Utxo MMR tree was not found",
                    ),
                    MmrTree::Kernel => String::from_str(
                        "a leaf node hash in the Kernel MMR tree was not found",
                    ),
                    MmrTree::RangeProof => String::from_str(
                        "a leaf node hash in the RangeProof MMR tree was not found",
                    ),
                };
                Err(ChainStorageError::UnexpectedResult(msg))
            },
        }
    }

    /// A page of the selected accumulator's base state, with the total
    /// base leaf count; a range past the base state is refused.
    pub fn fetch_mmr_base_leaf_nodes(&self, tree: MmrTree, index: usize, count: usize) -> (r:
        Result<MutableMmrState, ChainStorageError>)
        requires
            self.wf(),
        ensures
            match r {
                Ok(st) => {
                    &&& index + count <= tracker_of(self@, tree).base.len()
                    &&& st.total_leaf_count == tracker_of(self@, tree).base.len()
                    &&& st.leaf_nodes.leaf_hashes@.map_values(|v: Vec<u8>| v@) == tracker_of(
                        self@,
                        tree,
                    ).base.leaves.subrange(index as int, index + count)
                    &&& forall|i: int|
                        holds_position(st.leaf_nodes.deleted@, i) == (index <= i < index + count
                            && tracker_of(self@, tree).base.deleted[i])
                },
                Err(e) => e.kind() == ErrorKind::AccessError && index + count > tracker_of(
                    self@,
                    tree,
                ).base.len(),
            },
    {
        let tracker = self.tracker(tree);
        let total_leaf_count = tracker.get_base_leaf_count();
        match tracker.to_base_leaf_nodes(index, count) {
            Ok(leaf_nodes) => Ok(MutableMmrState { total_leaf_count, leaf_nodes }),
            Err(_) => Err(
                ChainStorageError::AccessError(
                    String::from_str("requested base leaf range is not available"),
                ),
            ),
        }
    }

    /// Total number of base leaves of the selected accumulator.
    pub fn fetch_mmr_base_leaf_node_count(&self, tree: MmrTree) -> (n: usize)
        requires
            self.wf(),
        ensures
            n == tracker_of(self@, tree).base.len(),
    {
        self.tracker(tree).get_base_leaf_count()
    }

    /// Bulk-replaces the selected accumulator's base state; its history and
    /// pending changes are discarded.
    pub fn assign_mmr(&mut self, tree: MmrTree, base_state: MutableMmrLeafNodes)
        requires
            old(self).wf(),
        ensures
            final(self).wf(),
            final(self)@ == with_tracker(
                old(self)@,
                tree,
                tracker_assign(
                    tracker_of(old(self)@, tree),
                    base_state.leaf_hashes@.map_values(|v: Vec<u8>| v@),
                    base_state.deleted@,
                ),
            ),
    {
        match tree {
            MmrTree::Utxo => self.utxo_mmr.assign(base_state),
            MmrTree::Kernel => self.kernel_mmr.assign(base_state),
            MmrTree::RangeProof => self.range_proof_mmr.assign(base_state),
        }
        proof {
            assert(final(self)@ =~~= with_tracker(
                old(self)@,
                tree,
                tracker_assign(
                    tracker_of(old(self)@, tree),
                    base_state.leaf_hashes@.map_values(|v: Vec<u8>| v@),
                    base_state.deleted@,
                ),
            ));
        }
    }

    /// Calls the visitor once per stored orphan block, handing it an owned
    /// copy of the hash and the block; the order is unspecified.
    pub fn for_each_orphan<F: Fn(Result<(Vec<u8>, Block), ChainStorageError>)>(&self, f: &F)
        requires
            self.wf(),
            forall|arg: Result<(Vec<u8>, Block), ChainStorageError>| #[trigger] f.requires((arg,)),
    {
        let n = self.orphans.len();
        let mut i: usize = 0;
        while i < n
            invariant
                self.wf(),
                n == self.orphans.spec_len(),
                i <= n,
                forall|arg: Result<(Vec<u8>, Block), ChainStorageError>| #[trigger] f.requires(
                    (arg,),
                ),
            decreases n - i,
        {
            let (key, block) = self.orphans.entry_at(i);
            let key_copy = copy_bytes(key);
            let block_copy = block.duplicate();
            f(Ok((key_copy, block_copy)));
            i = i + 1;
        }
    }

    /// The header stored at height `header count - 1`, or nothing when the
    /// store is empty; meaningful under dense, zero-based header heights.
    pub fn fetch_last_header(&self) -> (r: Option<BlockHeader>)
        requires
            self.wf(),
        ensures
            match r {
                Some(h) => self@.header_count() >= 1 && self@.headers.contains_key(
                    (self@.header_count() - 1) as u64,
                ) && h@ == self@.headers[(self@.header_count() - 1) as u64]@,
                None => self@.header_count() == 0 || !self@.headers.contains_key(
                    (self@.header_count() - 1) as u64,
                ),
            },
    {
        proof {
            self.headers.lemma_len();
        }
        let header_count = self.headers.len();
        if header_count >= 1 {
            let k = (header_count - 1) as u64;
            match self.headers.get(k) {
                Some(h) => Some(h.duplicate()),
                None => None,
            }
        } else {
            None
        }
    }
}

/// Moves an unspent output to the spent table and tombstones its leaf;
/// reports whether the hash named a known unspent output.
fn spend_utxo(db: &mut InnerDatabase, hash: Vec<u8>) -> (r: bool)
    requires
        old(db).wf(),
    ensures
        final(db).wf(),
        r == old(db)@.utxos.contains_key(hash@),
        r ==> final(db)@ == spend_state(old(db)@, hash@),
        !r ==> final(db)@ == old(db)@,
{
    proof {
        lemma_apply_op_wf(old(db)@, WriteOperation::Spend(DbKey::UnspentOutput(hash)));
    }
    match db.utxos.remove(&hash) {
        None => false,
        Some(node) => {
            db.utxo_mmr.delete(node.index);
            db.stxos.insert(hash, node);
            proof {
                assert(final(db)@ =~~= spend_state(old(db)@, hash@));
            }
            true
        },
    }
}

/// Moves a spent output back to the unspent table without touching any
/// accumulator (a paired rewind restores the leaf state); reports whether
/// the hash named a known spent output.
fn unspend_stxo(db: &mut InnerDatabase, hash: Vec<u8>) -> (r: bool)
    requires
        old(db).wf(),
    ensures
        final(db).wf(),
        r == old(db)@.stxos.contains_key(hash@),
        r ==> final(db)@ == unspend_state(old(db)@, hash@),
        !r ==> final(db)@ == old(db)@,
{
    match db.stxos.remove(&hash) {
        None => false,
        Some(node) => {
            db.utxos.insert(hash, node);
            proof {
                assert(final(db)@ =~~= unspend_state(old(db)@, hash@));
            }
            true
        },
    }
}

/// The invariant the lock maintains: the guarded aggregate is well formed.
pub struct DbInvariant {}

impl RwLockPredicate<InnerDatabase> for DbInvariant {
    open spec fn inv(self, db: InnerDatabase) -> bool {
        db.wf()
    }
}

/// Relies on `Arc::clone`: the returned handle is the same shared
/// allocation, so both handles guard one store.
#[verifier::external_body]
fn share_db(db: &Arc<RwLock<InnerDatabase, DbInvariant>>) -> (r: Arc<
    RwLock<InnerDatabase, DbInvariant>,
>)
    ensures
        r == *db,
{
    Arc::clone(db)
}

/// A memory-backed blockchain store behind one reader/writer lock: writers
/// hold exclusive access for a whole batch, readers share access.  The
/// data lives in RAM only, so everything is lost when the process ends;
/// this backend is meant for testing, not production.
///
/// The lock hides the guarded state from callers, so the exact contracts
/// of every operation are stated on [`InnerDatabase`], which this type
/// drives under the lock; the lock invariant keeps the aggregate well
/// formed between calls.
pub struct MemoryDatabase {
    db: Arc<RwLock<InnerDatabase, DbInvariant>>,
}

impl MemoryDatabase {
    /// An empty store whose accumulators retain history within the given
    /// bounds.
    pub fn new(mct_config: MerkleChangeTrackerConfig) -> (db: Self)
        requires
            mct_config.min_history_len <= mct_config.max_history_len,
    {
        let inner = InnerDatabase::new(mct_config);
        MemoryDatabase { db: Arc::new(RwLock::new(inner, Ghost(DbInvariant {}))) }
    }

    /// True when both handles guard one shared store: they hold the same
    /// lock, so a write through either handle is observable through the
    /// other.
    pub closed spec fn shares_store_with(self, other: MemoryDatabase) -> bool {
        self.db == other.db
    }

    /// Another handle to the same shared store, not a copy of its
    /// contents.
    pub fn clone(&self) -> (r: Self)
        ensures
            r.shares_store_with(*self),
    {
        MemoryDatabase { db: share_db(&self.db) }
    }
}

impl Default for MemoryDatabase {
    /// An empty store retaining between 900 and 1000 checkpoints.
    fn default() -> Self {
        MemoryDatabase::new(
            MerkleChangeTrackerConfig { min_history_len: 900, max_history_len: 1000 },
        )
    }
}

impl crate::backend::BlockchainBackend for MemoryDatabase {
    open spec fn usable(&self) -> bool {
        true
    }

    fn write(&self, tx: DbTransaction) -> (r: Result<(), ChainStorageError>) {
        let (mut inner, handle) = self.db.acquire_write();
        let r = inner.write(tx);
        handle.release_write(inner);
        r
    }

    fn fetch(&self, key: &DbKey) -> (r: Result<Option<DbValue>, ChainStorageError>)
        ensures
            r is Ok,
    {
        let handle = self.db.acquire_read();
        let r = handle.borrow().fetch(key);
        handle.release_read();
        Ok(r)
    }

    fn contains(&self, key: &DbKey) -> (r: Result<bool, ChainStorageError>)
        ensures
            r is Ok,
    {
        let handle = self.db.acquire_read();
        let r = handle.borrow().contains(key);
        handle.release_read();
        Ok(r)
    }

    fn fetch_mmr_root(&self, tree: MmrTree) -> (r: Result<Vec<u8>, ChainStorageError>)
        ensures
            r matches Ok(root) ==> root@.len() == 64,
    {
        let handle = self.db.acquire_read();
        let r = handle.borrow().fetch_mmr_root(tree);
        handle.release_read();
        Ok(r)
    }

    fn fetch_mmr_only_root(&self, tree: MmrTree) -> (r: Result<Vec<u8>, ChainStorageError>)
        ensures
            r matches Ok(root) ==> root@.len() == 64,
    {
        let handle = self.db.acquire_read();
        let r = handle.borrow().fetch_mmr_only_root(tree);
        handle.release_read();
        Ok(r)
    }

    fn calculate_mmr_root(
        &self,
        tree: MmrTree,
        additions: Vec<Vec<u8>>,
        deletions: Vec<Vec<u8>>,
    ) -> (r: Result<Vec<u8>, ChainStorageError>)
        ensures
            r matches Ok(root) ==> root@.len() == 64,
    {
        let handle = self.db.acquire_read();
        let r = handle.borrow().calculate_mmr_root(tree, additions, deletions);
        handle.release_read();
        Ok(r)
    }

    fn fetch_mmr_proof(&self, tree: MmrTree, leaf_pos: usize) -> (r: Result<
        MerkleProof,
        ChainStorageError,
    >)
        ensures
            r matches Ok(p) ==> p.leaf_index == leaf_pos,
    {
        let handle = self.db.acquire_read();
        let r = handle.borrow().fetch_mmr_proof(tree, leaf_pos);
        handle.release_read();
        r
    }

    fn fetch_mmr_checkpoint(&self, tree: MmrTree, height: u64) -> (r: Result<
        MerkleCheckPoint,
        ChainStorageError,
    >) {
        let handle = self.db.acquire_read();
        let r = handle.borrow().fetch_mmr_checkpoint(tree, height);
        handle.release_read();
        r
    }

    fn fetch_mmr_node(&self, tree: MmrTree, pos: u32) -> (r: Result<
        (Vec<u8>, bool),
        ChainStorageError,
    >) {
        let handle = self.db.acquire_read();
        let r = handle.borrow().fetch_mmr_node(tree, pos);
        handle.release_read();
        r
    }

    fn fetch_mmr_base_leaf_nodes(&self, tree: MmrTree, index: usize, count: usize) -> (r: Result<
        MutableMmrState,
        ChainStorageError,
    >) {
        let handle = self.db.acquire_read();
        let r = handle.borrow().fetch_mmr_base_leaf_nodes(tree, index, count);
        handle.release_read();
        r
    }

    fn fetch_mmr_base_leaf_node_count(&self, tree: MmrTree) -> (r: Result<
        usize,
        ChainStorageError,
    >)
        ensures
            r is Ok,
    {
        let handle = self.db.acquire_read();
        let r = handle.borrow().fetch_mmr_base_leaf_node_count(tree);
        handle.release_read();
        Ok(r)
    }

    fn assign_mmr(&self, tree: MmrTree, base_state: MutableMmrLeafNodes) -> (r: Result<
        (),
        ChainStorageError,
    >)
        ensures
            r is Ok,
    {
        let (mut inner, handle) = self.db.acquire_write();
        inner.assign_mmr(tree, base_state);
        handle.release_write(inner);
        Ok(())
    }

    fn for_each_orphan<F: Fn(Result<(Vec<u8>, Block), ChainStorageError>)>(&self, f: F) -> (r:
        Result<(), ChainStorageError>)
        ensures
            r is Ok,
    {
        let handle = self.db.acquire_read();
        handle.borrow().for_each_orphan(&f);
        handle.release_read();
        Ok(())
    }

    fn fetch_horizon_block_height(&self) -> (r: Result<u64, ChainStorageError>) {
        let handle = self.db.acquire_read();
        let r = handle.borrow().fetch_horizon_block_height();
        handle.release_read();
        r
    }

    fn fetch_last_header(&self) -> (r: Result<Option<BlockHeader>, ChainStorageError>)
        ensures
            r is Ok,
    {
        let handle = self.db.acquire_read();
        let r = handle.borrow().fetch_last_header();
        handle.release_read();
        Ok(r)
    }
}

} // verus!
