//! Cross-cutting guarantees of the store, stated and proved over the
//! mathematical transition functions that the executable operations are
//! specified against.

use vstd::prelude::*;
use crate::blocks::TransactionOutput;
use crate::db_transaction::{DbKey, DbKeyValuePair, DbValue, ErrorKind, WriteOperation};
use crate::memory_db::{
    StoreView, apply_insert, apply_ops, apply_spend, hypo_deletions, hypothetical_state, mmr_mark,
    spend_state, tracker_of, unspend_state,
};
use crate::mmr::{
    MmrView, TrackerView, chained_root, first_index_of, full_root, lemma_apply_cp_empty,
    lemma_first_index_of, lemma_replay_wf, lemma_tracker_commit_wf, lemma_tracker_delete_wf,
    lemma_tracker_push_wf, replay, tracker_commit, tracker_delete, tracker_push, tracker_rewind,
};

verus! {

/// The state after appending each leaf in turn, all pending.
pub open spec fn tracker_pushes(t: TrackerView, hs: Seq<Seq<u8>>) -> TrackerView
    decreases hs.len(),
{
    if hs.len() == 0 {
        t
    } else {
        tracker_pushes(tracker_push(t, hs.first()), hs.drop_first())
    }
}

/// The state after spending each listed hash in turn: a hash that names a
/// known unspent output of `s` tombstones that record's leaf position;
/// other hashes change nothing.
pub open spec fn tracker_spends(s: StoreView, t: TrackerView, dels: Seq<Seq<u8>>) -> TrackerView
    decreases dels.len(),
{
    if dels.len() == 0 {
        t
    } else {
        let t1 = if s.utxos.contains_key(dels.first()) {
            tracker_delete(t, s.utxos[dels.first()].index)
        } else {
            t
        };
        tracker_spends(s, t1, dels.drop_first())
    }
}

/// Appending leaves only appends: the base, history and retention bounds
/// stay, the current leaves grow by exactly the appended hashes, none of
/// them tombstoned, and well-formedness is kept.
pub proof fn lemma_tracker_pushes(t: TrackerView, hs: Seq<Seq<u8>>)
    requires
        t.wf(),
    ensures
        tracker_pushes(t, hs).wf(),
        tracker_pushes(t, hs).base == t.base,
        tracker_pushes(t, hs).checkpoints == t.checkpoints,
        tracker_pushes(t, hs).config == t.config,
        tracker_pushes(t, hs).current.leaves == t.current.leaves + hs,
        tracker_pushes(t, hs).current.deleted == t.current.deleted + Seq::new(
            hs.len(),
            |i: int| false,
        ),
    decreases hs.len(),
{
    if hs.len() == 0 {
        assert(t.current.leaves + hs =~= t.current.leaves);
        assert(t.current.deleted + Seq::new(hs.len(), |i: int| false) =~= t.current.deleted);
    } else {
        let t1 = tracker_push(t, hs.first());
        lemma_tracker_push_wf(t, hs.first());
        lemma_tracker_pushes(t1, hs.drop_first());
        assert(t1.current.leaves + hs.drop_first() =~= t.current.leaves + hs);
        assert(t1.current.deleted + Seq::new(hs.drop_first().len(), |i: int| false)
            =~= t.current.deleted + Seq::new(hs.len(), |i: int| false));
    }
}

/// Spending through the tracker marks the current state exactly as the
/// hypothetical deletions mark a flat scratch state.
pub proof fn lemma_tracker_spends(s: StoreView, t: TrackerView, dels: Seq<Seq<u8>>)
    requires
        t.wf(),
    ensures
        tracker_spends(s, t, dels).wf(),
        tracker_spends(s, t, dels).current == hypo_deletions(s, t.current, dels),
    decreases dels.len(),
{
    if dels.len() > 0 {
        let d = dels.first();
        let t1 = if s.utxos.contains_key(d) {
            tracker_delete(t, s.utxos[d].index)
        } else {
            t
        };
        if s.utxos.contains_key(d) {
            lemma_tracker_delete_wf(t, s.utxos[d].index);
            assert(t1.current == mmr_mark(t.current, s.utxos[d].index as int));
        }
        lemma_tracker_spends(s, t1, dels.drop_first());
    }
}

/// Inserting an unspent output under a fresh hash with leaf registration
/// succeeds, stores the record, and grows the output and range-proof
/// accumulators by exactly one leaf each.
pub proof fn lemma_insert_utxo_registers(s: StoreView, k: Vec<u8>, v: Box<TransactionOutput>)
    requires
        s.wf(),
        !s.utxos.contains_key(k@),
    ensures
        ({
            let r = apply_insert(s, DbKeyValuePair::UnspentOutput(k, v, true));
            &&& r is Ok
            &&& r->Ok_0.utxos.contains_key(k@)
            &&& r->Ok_0.utxos[k@].value == *v
            &&& r->Ok_0.utxo_mmr.current.len() == s.utxo_mmr.current.len() + 1
            &&& r->Ok_0.range_proof_mmr.current.len() == s.range_proof_mmr.current.len() + 1
        }),
{
    let pushed = tracker_push(s.range_proof_mmr, v@.proof_hash);
    lemma_first_index_of(pushed.current.leaves, v@.proof_hash);
    if first_index_of(pushed.current.leaves, v@.proof_hash) is None {
        assert(pushed.current.leaves.last() == v@.proof_hash);
        assert(false);
    }
}

/// Spending a present unspent output and unspending the same hash restores
/// the unspent table exactly — the record keeps its value and leaf
/// position — and leaves the hash absent from the spent table.
pub proof fn lemma_spend_unspend_roundtrip(s: StoreView, h: Seq<u8>)
    requires
        s.utxos.contains_key(h),
    ensures
        ({
            let spent = spend_state(s, h);
            let restored = unspend_state(spent, h);
            &&& !spent.utxos.contains_key(h)
            &&& spent.stxos.contains_key(h)
            &&& restored.utxos.contains_key(h)
            &&& !restored.stxos.contains_key(h)
            &&& restored.utxos[h] == s.utxos[h]
            &&& restored.utxos == s.utxos
        }),
{
    let spent = spend_state(s, h);
    let restored = unspend_state(spent, h);
    assert(restored.utxos =~= s.utxos);
}

/// Spending a hash that is not a known unspent output aborts the batch at
/// once with the unspendable-input error, and the whole store — both
/// output tables included — is left unchanged.
pub proof fn lemma_spend_unknown_fails(s: StoreView, k: Vec<u8>, rest: Seq<WriteOperation>)
    requires
        !s.utxos.contains_key(k@),
    ensures
        apply_ops(s, seq![WriteOperation::Spend(DbKey::UnspentOutput(k))] + rest) == (
            s,
            Some(ErrorKind::UnspendableInput),
        ),
{
    let ops = seq![WriteOperation::Spend(DbKey::UnspentOutput(k))] + rest;
    assert(ops.first() == WriteOperation::Spend(DbKey::UnspentOutput(k)));
    assert(apply_spend(s, DbKey::UnspentOutput(k)) == Err::<StoreView, ErrorKind>(
        ErrorKind::UnspendableInput,
    ));
}

/// After appends sealed by one commit and a tombstone sealed by a second
/// commit, rewinding one step restores the leaf-only root captured right
/// after the first commit.  Neither commit may cross the retention bound,
/// so no history is merged away between the two.
pub proof fn lemma_rewind_restores_leaf_root(t0: TrackerView, hs: Seq<Seq<u8>>, pos: usize)
    requires
        t0.wf(),
        t0.checkpoints.len() + 2 <= t0.config.max_history_len,
    ensures
        ({
            let t1 = tracker_commit(tracker_pushes(t0, hs));
            let t2 = tracker_commit(tracker_delete(t1, pos));
            let t3 = tracker_rewind(t2, 1);
            chained_root(t3.current.leaves) == chained_root(t1.current.leaves)
        }),
{
    let tp = tracker_pushes(t0, hs);
    lemma_tracker_pushes(t0, hs);
    let t1 = tracker_commit(tp);
    lemma_tracker_commit_wf(tp);
    let cps1 = tp.checkpoints.push(tp.pending);
    assert(cps1.take(0) =~= Seq::<crate::mmr::CpView>::empty());
    assert(cps1.skip(0) =~= cps1);
    assert(t1.base == tp.base);
    assert(t1.checkpoints == cps1);
    let td = tracker_delete(t1, pos);
    lemma_tracker_delete_wf(t1, pos);
    assert(td.base == t1.base && td.checkpoints == t1.checkpoints && td.current.leaves
        == t1.current.leaves && td.config == t1.config);
    let t2 = tracker_commit(td);
    lemma_tracker_commit_wf(td);
    let cps2 = td.checkpoints.push(td.pending);
    assert(cps2.take(0) =~= Seq::<crate::mmr::CpView>::empty());
    assert(cps2.skip(0) =~= cps2);
    assert(t2.base == t1.base);
    assert(t2.checkpoints == cps2);
    let t3 = tracker_rewind(t2, 1);
    assert(cps2.take(cps2.len() - 1) =~= cps1);
    assert(t3.current == replay(t1.base, cps1));
    lemma_replay_wf(t1.base, cps1);
    lemma_apply_cp_empty(replay(t1.base, cps1));
    assert(t1.current == replay(t1.base, cps1));
}

/// A hypothetical root reports exactly what really appending the additions
/// and spending the deletions through the tracker would make the
/// accumulator's root; the store itself is not part of the outcome, so
/// nothing shared changes.
pub proof fn lemma_hypothetical_root_matches(
    s: StoreView,
    tree: crate::db_transaction::MmrTree,
    adds: Seq<Seq<u8>>,
    dels: Seq<Seq<u8>>,
)
    requires
        s.wf(),
    ensures
        ({
            let applied = match tree {
                crate::db_transaction::MmrTree::Utxo => tracker_spends(
                    s,
                    tracker_pushes(tracker_of(s, tree), adds),
                    dels,
                ),
                _ => tracker_pushes(tracker_of(s, tree), adds),
            };
            full_root(hypothetical_state(s, tree, adds, dels)) == full_root(applied.current)
        }),
{
    let t = tracker_of(s, tree);
    lemma_tracker_pushes(t, adds);
    let tp = tracker_pushes(t, adds);
    let m1 = MmrView {
        leaves: t.current.leaves + adds,
        deleted: t.current.deleted + Seq::new(adds.len(), |i: int| false),
    };
    assert(tp.current =~= m1);
    match tree {
        crate::db_transaction::MmrTree::Utxo => {
            lemma_tracker_spends(s, tp, dels);
        },
        _ => {},
    }
}

/// For every key other than a metadata key, the presence check answers
/// true exactly when a fetch finds a value: in a well-formed store the
/// reverse header index points only at stored headers, so hash-keyed
/// header lookups agree too.  Metadata is the stated exception — it is
/// always reported present, while a fetch may find nothing.
pub proof fn lemma_fetch_follows_contains(s: StoreView, key: DbKey, r: Option<DbValue>)
    requires
        s.wf(),
        crate::memory_db::fetch_result_matches(s, key, r),
        !(key matches DbKey::Metadata(_)),
    ensures
        (r is Some) == crate::memory_db::key_present(s, key),
{
}

/// Assigning a bulk state to a tracked accumulator commits to exactly the
/// state built directly from the same leaves and tombstone positions, so
/// the two construction paths produce identical roots.
pub proof fn lemma_assign_matches_direct_build(
    t: TrackerView,
    leaves: Seq<Seq<u8>>,
    positions: Seq<usize>,
)
    ensures
        full_root(crate::mmr::tracker_assign(t, leaves, positions).current) == full_root(
            MmrView {
                leaves,
                deleted: Seq::new(leaves.len(), |i: int| crate::mmr::holds_position(positions, i)),
            },
        ),
{
}

} // verus!
