//! The hash accumulator: an ordered leaf-hash sequence with tombstone-based
//! deletion, root computation, checkpoint history and rewind.
//!
//! [`MutableMmr`] is the flat state — leaves plus tombstones.
//! [`MerkleChangeTracker`] adds a checkpoint history on top of a base state,
//! so that committed changes can be rewound and old history pruned.

use vstd::prelude::*;
use vstd::pervasive::VecAdditionalExecFns;
use crate::hashing::{hash_bytes, hash_data, copy_bytes, concat_bytes, bytes_eq};

verus! {

/// Mathematical state of a flat accumulator: the leaf hashes in insertion
/// order, and one tombstone flag per leaf.
#[verifier::ext_equal]
pub struct MmrView {
    pub leaves: Seq<Seq<u8>>,
    pub deleted: Seq<bool>,
}

impl MmrView {
    /// One tombstone flag per leaf.
    pub open spec fn wf(self) -> bool {
        self.deleted.len() == self.leaves.len()
    }

    pub open spec fn len(self) -> nat {
        self.leaves.len()
    }
}

/// Root over the leaf hashes alone, ignoring tombstones: the digest chain
/// `h_0 = H([])`, `h_{k+1} = H(h_k ++ leaf_k)`.
pub open spec fn chained_root(leaves: Seq<Seq<u8>>) -> Seq<u8>
    decreases leaves.len(),
{
    if leaves.len() == 0 {
        hash_bytes(Seq::<u8>::empty())
    } else {
        hash_bytes(chained_root(leaves.drop_last()) + leaves.last())
    }
}

/// One byte per leaf: 1 where the leaf is tombstoned, 0 where it is live.
pub open spec fn bitmap_bytes(deleted: Seq<bool>) -> Seq<u8> {
    Seq::new(deleted.len(), |i: int| if deleted[i] { 1u8 } else { 0u8 })
}

/// Root over leaves and tombstones together.
pub open spec fn full_root(m: MmrView) -> Seq<u8> {
    hash_bytes(chained_root(m.leaves) + bitmap_bytes(m.deleted))
}

/// Position of the first leaf equal to `h`, if any.
pub open spec fn first_index_of(leaves: Seq<Seq<u8>>, h: Seq<u8>) -> Option<int>
    decreases leaves.len(),
{
    if leaves.len() == 0 {
        None
    } else if leaves.first() == h {
        Some(0int)
    } else {
        match first_index_of(leaves.drop_first(), h) {
            None => None,
            Some(i) => Some(i + 1),
        }
    }
}

/// `first_index_of` returns the least position holding `h`, or `None` when no
/// position holds it.
pub proof fn lemma_first_index_of(leaves: Seq<Seq<u8>>, h: Seq<u8>)
    ensures
        match first_index_of(leaves, h) {
            Some(i) => 0 <= i < leaves.len() && leaves[i] == h && (forall|j: int|
                0 <= j < i ==> leaves[j] != h),
            None => forall|j: int| 0 <= j < leaves.len() ==> leaves[j] != h,
        },
    decreases leaves.len(),
{
    if leaves.len() > 0 && leaves.first() != h {
        lemma_first_index_of(leaves.drop_first(), h);
        assert forall|j: int| 0 <= j < leaves.len() implies leaves.drop_first()[j - 1] == leaves[j]
            || j == 0 by {}
    }
}

/// True when some entry of `positions` equals `i`.
pub open spec fn holds_position(positions: Seq<usize>, i: int) -> bool {
    exists|j: int| 0 <= j < positions.len() && positions[j] == i
}

/// Bulk-transfer form of an accumulator state: leaf hashes plus the positions
/// of the tombstoned leaves.
#[derive(Clone, Debug)]
pub struct MutableMmrLeafNodes {
    pub leaf_hashes: Vec<Vec<u8>>,
    pub deleted: Vec<usize>,
}

impl MutableMmrLeafNodes {
    pub fn new(leaf_hashes: Vec<Vec<u8>>, deleted: Vec<usize>) -> (s: Self)
        ensures
            s.leaf_hashes == leaf_hashes,
            s.deleted == deleted,
    {
        MutableMmrLeafNodes { leaf_hashes, deleted }
    }
}

/// A flat accumulator: leaf hashes in insertion order, with tombstones.
pub struct MutableMmr {
    leaves: Vec<Vec<u8>>,
    deleted: Vec<bool>,
}

impl View for MutableMmr {
    type V = MmrView;

    closed spec fn view(&self) -> MmrView {
        MmrView {
            leaves: self.leaves@.map_values(|v: Vec<u8>| v@),
            deleted: self.deleted@,
        }
    }
}

/// The flags with `r[p] = true` for every `p` in `positions` that is in
/// range; positions beyond the end are ignored.
fn marked_flags(old_flags: &Vec<bool>, positions: &Vec<usize>) -> (r: Vec<bool>)
    ensures
        r@.len() == old_flags@.len(),
        forall|i: int|
            0 <= i < old_flags@.len() ==> r@[i] == (old_flags@[i] || holds_position(
                positions@,
                i,
            )),
{
    let mut flags = old_flags.clone();
    proof {
        assert(flags@ =~= old_flags@);
    }
    let mut j: usize = 0;
    while j < positions.len()
        invariant
            j <= positions.len(),
            flags@.len() == old_flags@.len(),
            forall|i: int|
                0 <= i < old_flags@.len() ==> flags@[i] == (old_flags@[i] || holds_position(
                    positions@.take(j as int),
                    i,
                )),
        decreases positions.len() - j,
    {
        let p = positions[j];
        if p < flags.len() {
            flags.set(p, true);
        }
        proof {
            assert(positions@.take(j + 1 as int).last() == positions@[j as int]);
            assert forall|i: int| 0 <= i < old_flags@.len() implies flags@[i] == (old_flags@[i]
                || holds_position(positions@.take(j + 1 as int), i)) by {
                if holds_position(positions@.take(j + 1 as int), i) {
                    let w = choose|w: int|
                        0 <= w < j + 1 && #[trigger] positions@.take(j + 1 as int)[w] == i;
                    if w < j {
                        assert(positions@.take(j as int)[w] == i);
                    }
                }
                if holds_position(positions@.take(j as int), i) {
                    let w = choose|w: int|
                        0 <= w < j && #[trigger] positions@.take(j as int)[w] == i;
                    assert(positions@.take(j + 1 as int)[w] == i);
                }
            }
        }
        j = j + 1;
    }
    proof {
        assert(positions@.take(positions@.len() as int) =~= positions@);
    }
    flags
}

/// The per-leaf tombstone bytes of `flags`, 1 for tombstoned and 0 for live.
fn bitmap_vec(flags: &Vec<bool>) -> (r: Vec<u8>)
    ensures
        r@ == bitmap_bytes(flags@),
{
    let mut r: Vec<u8> = Vec::new();
    let mut i: usize = 0;
    while i < flags.len()
        invariant
            i <= flags.len(),
            r@.len() == i,
            forall|j: int| 0 <= j < i ==> r@[j] == (if flags@[j] {
                1u8
            } else {
                0u8
            }),
        decreases flags.len() - i,
    {
        if flags[i] {
            r.push(1u8);
        } else {
            r.push(0u8);
        }
        i = i + 1;
    }
    proof {
        assert(r@ =~= bitmap_bytes(flags@));
    }
    r
}

/// The chained root of `leaves`.
fn compute_chained_root(leaves: &Vec<Vec<u8>>) -> (r: Vec<u8>)
    ensures
        r@ == chained_root(leaves@.map_values(|v: Vec<u8>| v@)),
        r@.len() == 64,
{
    let ghost lv = leaves@.map_values(|v: Vec<u8>| v@);
    let empty: Vec<u8> = Vec::new();
    let mut acc = hash_data(&empty);
    proof {
        assert(lv.take(0) =~= Seq::<Seq<u8>>::empty());
    }
    let mut i: usize = 0;
    while i < leaves.len()
        invariant
            i <= leaves.len(),
            lv == leaves@.map_values(|v: Vec<u8>| v@),
            acc@ == chained_root(lv.take(i as int)),
            acc@.len() == 64,
        decreases leaves.len() - i,
    {
        let joined = concat_bytes(&acc, &leaves[i]);
        acc = hash_data(&joined);
        proof {
            assert(lv.take(i + 1 as int).drop_last() =~= lv.take(i as int));
            assert(lv.take(i + 1 as int).last() == lv[i as int]);
        }
        i = i + 1;
    }
    proof {
        assert(lv.take(leaves@.len() as int) =~= lv);
    }
    acc
}

impl MutableMmr {
    /// An accumulator holding the given leaves, none tombstoned.
    pub fn new(leaf_hashes: Vec<Vec<u8>>) -> (m: Self)
        ensures
            m@.wf(),
            m@.leaves == leaf_hashes@.map_values(|v: Vec<u8>| v@),
            forall|i: int| 0 <= i < m@.len() ==> !m@.deleted[i],
    {
        let mut deleted: Vec<bool> = Vec::new();
        let mut i: usize = 0;
        while i < leaf_hashes.len()
            invariant
                i <= leaf_hashes.len(),
                deleted@.len() == i,
                forall|j: int| 0 <= j < i ==> !deleted@[j],
            decreases leaf_hashes.len() - i,
        {
            deleted.push(false);
            i = i + 1;
        }
        MutableMmr { leaves: leaf_hashes, deleted }
    }

    /// Number of leaves, tombstoned ones included.
    pub fn len(&self) -> (n: usize)
        ensures
            n == self@.len(),
    {
        self.leaves.len()
    }

    /// Appends a new live leaf.
    pub fn push(&mut self, hash: &Vec<u8>)
        requires
            old(self)@.wf(),
        ensures
            final(self)@.wf(),
            final(self)@.leaves == old(self)@.leaves.push(hash@),
            final(self)@.deleted == old(self)@.deleted.push(false),
    {
        self.leaves.push(copy_bytes(hash));
        self.deleted.push(false);
        proof {
            assert(self.leaves@.map_values(|v: Vec<u8>| v@) =~= old(self)@.leaves.push(hash@));
        }
    }

    /// Tombstones the leaf at `pos` without resizing the sequence.  Returns
    /// `false`, changing nothing, when `pos` is out of range or the leaf is
    /// already tombstoned.
    pub fn delete(&mut self, pos: usize) -> (r: bool)
        requires
            old(self)@.wf(),
        ensures
            final(self)@.wf(),
            r == (pos < old(self)@.len() && !old(self)@.deleted[pos as int]),
            final(self)@.leaves == old(self)@.leaves,
            final(self)@.deleted == (if r {
                old(self)@.deleted.update(pos as int, true)
            } else {
                old(self)@.deleted
            }),
    {
        if pos < self.deleted.len() && !self.deleted[pos] {
            self.deleted.set(pos, true);
            true
        } else {
            false
        }
    }

    /// Position of the first leaf whose hash equals `hash`, if any.
    pub fn find_leaf_index(&self, hash: &Vec<u8>) -> (r: Option<usize>)
        requires
            self@.wf(),
        ensures
            match r {
                Some(i) => first_index_of(self@.leaves, hash@) == Some(i as int),
                None => first_index_of(self@.leaves, hash@) is None,
            },
    {
        proof {
            lemma_first_index_of(self@.leaves, hash@);
        }
        let mut i: usize = 0;
        while i < self.leaves.len()
            invariant
                i <= self.leaves.len(),
                forall|j: int| 0 <= j < i ==> self@.leaves[j] != hash@,
            decreases self.leaves.len() - i,
        {
            if bytes_eq(&self.leaves[i], hash) {
                proof {
                    assert(self@.leaves[i as int] == self.leaves@[i as int]@);
                    lemma_first_index_of(self@.leaves, hash@);
                    let found = first_index_of(self@.leaves, hash@);
                    if found is Some {
                        let k = found->Some_0;
                        if k < i {
                            assert(self@.leaves[k] != hash@);
                        }
                        if k > i {
                            assert(self@.leaves[i as int] != hash@);
                        }
                    }
                }
                return Some(i);
            }
            i = i + 1;
        }
        proof {
            lemma_first_index_of(self@.leaves, hash@);
        }
        None
    }

    /// The hash and tombstone flag of the leaf at `pos`; `(None, false)` when
    /// no such leaf exists.
    pub fn get_leaf_status(&self, pos: usize) -> (r: (Option<Vec<u8>>, bool))
        requires
            self@.wf(),
        ensures
            pos < self@.len() ==> (r.0 matches Some(h) && h@ == self@.leaves[pos as int] && r.1
                == self@.deleted[pos as int]),
            pos >= self@.len() ==> r.0 is None && r.1 == false,
    {
        if pos < self.leaves.len() {
            (Some(copy_bytes(&self.leaves[pos])), self.deleted[pos])
        } else {
            (None, false)
        }
    }

    /// Root over leaves and tombstones.
    pub fn get_merkle_root(&self) -> (r: Vec<u8>)
        requires
            self@.wf(),
        ensures
            r@ == full_root(self@),
            r@.len() == 64,
    {
        let chain = compute_chained_root(&self.leaves);
        let bitmap = bitmap_vec(&self.deleted);
        let joined = concat_bytes(&chain, &bitmap);
        hash_data(&joined)
    }

    /// Root over the leaf hashes alone.
    pub fn get_mmr_only_root(&self) -> (r: Vec<u8>)
        requires
            self@.wf(),
        ensures
            r@ == chained_root(self@.leaves),
            r@.len() == 64,
    {
        compute_chained_root(&self.leaves)
    }

    /// Replaces the whole state: the given leaves, with the listed positions
    /// tombstoned.  Out-of-range positions are ignored.
    pub fn assign(&mut self, state: MutableMmrLeafNodes)
        ensures
            final(self)@.wf(),
            final(self)@.leaves == state.leaf_hashes@.map_values(|v: Vec<u8>| v@),
            forall|i: int|
                0 <= i < final(self)@.len() ==> final(self)@.deleted[i] == holds_position(
                    state.deleted@,
                    i,
                ),
    {
        let MutableMmrLeafNodes { leaf_hashes, deleted } = state;
        let n = leaf_hashes.len();
        let mut flags: Vec<bool> = Vec::new();
        let mut i: usize = 0;
        while i < n
            invariant
                i <= n,
                flags@.len() == i,
                forall|j: int| 0 <= j < i ==> !flags@[j],
            decreases n - i,
        {
            flags.push(false);
            i = i + 1;
        }
        let flags = marked_flags(&flags, &deleted);
        self.leaves = leaf_hashes;
        self.deleted = flags;
    }

    /// An independent copy of the whole state.
    pub fn duplicate(&self) -> (r: Self)
        ensures
            r@ == self@,
    {
        let mut leaves: Vec<Vec<u8>> = Vec::new();
        let mut i: usize = 0;
        while i < self.leaves.len()
            invariant
                i <= self.leaves.len(),
                leaves@.len() == i,
                forall|j: int| 0 <= j < i ==> leaves@[j]@ == self.leaves@[j]@,
            decreases self.leaves.len() - i,
        {
            leaves.push(copy_bytes(&self.leaves[i]));
            i = i + 1;
        }
        let deleted = self.deleted.clone();
        let r = MutableMmr { leaves, deleted };
        proof {
            assert(r@.leaves =~= self@.leaves);
            assert(r@.deleted =~= self@.deleted);
        }
        r
    }
}

/// The digest chain continued from `acc` over further leaves.
pub open spec fn chain_from(acc: Seq<u8>, leaves: Seq<Seq<u8>>) -> Seq<u8>
    decreases leaves.len(),
{
    if leaves.len() == 0 {
        acc
    } else {
        hash_bytes(chain_from(acc, leaves.drop_last()) + leaves.last())
    }
}

/// The chained root of a concatenation continues the chain of its prefix.
pub proof fn lemma_chain_from(a: Seq<Seq<u8>>, b: Seq<Seq<u8>>)
    ensures
        chained_root(a + b) == chain_from(chained_root(a), b),
    decreases b.len(),
{
    if b.len() == 0 {
        assert(a + b =~= a);
    } else {
        assert((a + b).drop_last() =~= a + b.drop_last());
        assert((a + b).last() == b.last());
        lemma_chain_from(a, b.drop_last());
    }
}

/// An inclusion proof for one leaf position, against the full unpruned leaf
/// sequence: the chained root of everything before the leaf, the leaf hash
/// itself, and every leaf after it.  Recomputing the chain over these parts
/// yields the accumulator's leaf-only root.
#[derive(Debug)]
pub struct MerkleProof {
    pub leaf_index: usize,
    pub prefix_root: Vec<u8>,
    pub leaf: Vec<u8>,
    pub suffix: Vec<Vec<u8>>,
}

impl MerkleProof {
    /// The parts describe position `leaf_index` of `leaves`.
    pub open spec fn describes(self, leaves: Seq<Seq<u8>>) -> bool {
        &&& self.leaf_index < leaves.len()
        &&& self.prefix_root@ == chained_root(leaves.take(self.leaf_index as int))
        &&& self.leaf@ == leaves[self.leaf_index as int]
        &&& self.suffix@.map_values(|v: Vec<u8>| v@) == leaves.skip(self.leaf_index + 1)
    }

    /// Recomputes the leaf-only root from the proof's parts alone: the
    /// result is the chained root of any leaf sequence the proof describes.
    pub fn compute_root(&self) -> (r: Vec<u8>)
        ensures
            r@ == chain_from(self.prefix_root@, seq![self.leaf@] + self.suffix@.map_values(|v: Vec<u8>| v@)),
    {
        let ghost rest = seq![self.leaf@] + self.suffix@.map_values(|v: Vec<u8>| v@);
        let joined = concat_bytes(&self.prefix_root, &self.leaf);
        let mut acc = hash_data(&joined);
        proof {
            assert(rest.take(1).drop_last() =~= Seq::<Seq<u8>>::empty());
            assert(rest.take(1).last() == self.leaf@);
            assert(chain_from(self.prefix_root@, Seq::<Seq<u8>>::empty()) == self.prefix_root@);
            assert(chain_from(self.prefix_root@, rest.take(1)) == acc@);
        }
        let mut i: usize = 0;
        while i < self.suffix.len()
            invariant
                i <= self.suffix@.len(),
                rest == seq![self.leaf@] + self.suffix@.map_values(|v: Vec<u8>| v@),
                rest.len() == 1 + self.suffix@.len(),
                acc@ == chain_from(self.prefix_root@, rest.take(i + 1)),
            decreases self.suffix@.len() - i,
        {
            let joined = concat_bytes(&acc, &self.suffix[i]);
            acc = hash_data(&joined);
            proof {
                assert(rest.take(i + 2).drop_last() =~= rest.take(i + 1));
                assert(rest.take(i + 2).last() == rest[i + 1]);
                assert(rest[i + 1] == self.suffix@.map_values(|v: Vec<u8>| v@)[i as int]);
            }
            i = i + 1;
        }
        proof {
            assert(rest.take(rest.len() as int) =~= rest);
        }
        acc
    }

    /// A proof's recomputed root is the root of the leaves it describes.
    pub proof fn lemma_root_matches(self, leaves: Seq<Seq<u8>>)
        requires
            self.describes(leaves),
        ensures
            chain_from(
                self.prefix_root@,
                seq![self.leaf@] + self.suffix@.map_values(|v: Vec<u8>| v@),
            ) == chained_root(leaves),
    {
        let p = self.leaf_index as int;
        let rest = seq![self.leaf@] + self.suffix@.map_values(|v: Vec<u8>| v@);
        assert(leaves.take(p) + rest =~= leaves);
        lemma_chain_from(leaves.take(p), rest);
    }
}

impl MutableMmr {
    /// The chained root of the first `count` leaves.
    pub fn prefix_root(&self, count: usize) -> (r: Vec<u8>)
        requires
            count <= self@.len(),
        ensures
            r@ == chained_root(self@.leaves.take(count as int)),
    {
        let ghost lv = self@.leaves;
        let empty: Vec<u8> = Vec::new();
        let mut acc = hash_data(&empty);
        proof {
            assert(lv.take(0) =~= Seq::<Seq<u8>>::empty());
        }
        let mut i: usize = 0;
        while i < count
            invariant
                i <= count,
                count <= self@.len(),
                lv == self@.leaves,
                acc@ == chained_root(lv.take(i as int)),
            decreases count - i,
        {
            let joined = concat_bytes(&acc, &self.leaves[i]);
            acc = hash_data(&joined);
            proof {
                assert(lv.take(i + 1 as int).drop_last() =~= lv.take(i as int));
                assert(lv.take(i + 1 as int).last() == lv[i as int]);
            }
            i = i + 1;
        }
        acc
    }

    /// An inclusion proof for the leaf at `pos` against the full, unpruned
    /// leaf sequence; `None` when no such leaf exists.
    pub fn build_proof(&self, pos: usize) -> (r: Option<MerkleProof>)
        requires
            self@.wf(),
        ensures
            match r {
                Some(p) => pos < self@.len() && p.leaf_index == pos && p.describes(self@.leaves),
                None => pos >= self@.len(),
            },
    {
        if pos >= self.leaves.len() {
            return None;
        }
        let prefix_root = self.prefix_root(pos);
        let leaf = copy_bytes(&self.leaves[pos]);
        let mut suffix: Vec<Vec<u8>> = Vec::new();
        let mut i: usize = pos + 1;
        while i < self.leaves.len()
            invariant
                pos + 1 <= i <= self.leaves@.len(),
                self@.leaves == self.leaves@.map_values(|v: Vec<u8>| v@),
                suffix@.len() == i - pos - 1,
                forall|j: int|
                    0 <= j < suffix@.len() ==> suffix@[j]@ == self@.leaves[pos + 1 + j],
            decreases self.leaves@.len() - i,
        {
            suffix.push(copy_bytes(&self.leaves[i]));
            i = i + 1;
        }
        proof {
            assert(suffix@.map_values(|v: Vec<u8>| v@) =~= self@.leaves.skip(pos + 1));
        }
        Some(MerkleProof { leaf_index: pos, prefix_root, leaf, suffix })
    }
}

/// Retention bounds for committed checkpoints: when more than
/// `max_history_len` are held, the oldest are merged into the base state
/// until `min_history_len` remain.
#[derive(Clone, Copy, PartialEq, Eq, Structural, Debug)]
pub struct MerkleChangeTrackerConfig {
    pub min_history_len: usize,
    pub max_history_len: usize,
}

/// One committed change set: the leaves appended and the positions
/// tombstoned since the previous checkpoint.
#[derive(Debug)]
pub struct MerkleCheckPoint {
    pub nodes_added: Vec<Vec<u8>>,
    pub nodes_deleted: Vec<usize>,
}

/// Mathematical state of one checkpoint.
#[verifier::ext_equal]
pub struct CpView {
    pub added: Seq<Seq<u8>>,
    pub deleted: Seq<usize>,
}

impl CpView {
    pub open spec fn empty() -> CpView {
        CpView { added: Seq::empty(), deleted: Seq::empty() }
    }
}

impl View for MerkleCheckPoint {
    type V = CpView;

    closed spec fn view(&self) -> CpView {
        CpView {
            added: self.nodes_added@.map_values(|v: Vec<u8>| v@),
            deleted: self.nodes_deleted@,
        }
    }
}

impl MerkleCheckPoint {
    /// A checkpoint recording no changes.
    pub fn new_empty() -> (c: Self)
        ensures
            c@ == CpView::empty(),
    {
        let c = MerkleCheckPoint { nodes_added: Vec::new(), nodes_deleted: Vec::new() };
        proof {
            assert(c@ =~= CpView::empty());
        }
        c
    }

    /// An independent copy.
    pub fn duplicate(&self) -> (r: Self)
        ensures
            r@ == self@,
    {
        let mut nodes_added: Vec<Vec<u8>> = Vec::new();
        let mut i: usize = 0;
        while i < self.nodes_added.len()
            invariant
                i <= self.nodes_added.len(),
                nodes_added@.len() == i,
                forall|j: int| 0 <= j < i ==> nodes_added@[j]@ == self.nodes_added@[j]@,
            decreases self.nodes_added.len() - i,
        {
            nodes_added.push(copy_bytes(&self.nodes_added[i]));
            i = i + 1;
        }
        let nodes_deleted = self.nodes_deleted.clone();
        let r = MerkleCheckPoint { nodes_added, nodes_deleted };
        proof {
            assert(r@.added =~= self@.added);
            assert(r@.deleted =~= self@.deleted);
            assert(r@ =~= self@);
        }
        r
    }
}

/// The state reached by appending a checkpoint's leaves and then marking its
/// tombstone positions; positions beyond the grown length are ignored.
pub open spec fn apply_cp(m: MmrView, cp: CpView) -> MmrView {
    let leaves = m.leaves + cp.added;
    let grown = m.deleted + Seq::new(cp.added.len(), |i: int| false);
    MmrView {
        leaves,
        deleted: Seq::new(leaves.len(), |i: int| grown[i] || holds_position(cp.deleted, i)),
    }
}

/// The state reached by applying a sequence of checkpoints in order.
pub open spec fn replay(m: MmrView, cps: Seq<CpView>) -> MmrView
    decreases cps.len(),
{
    if cps.len() == 0 {
        m
    } else {
        replay(apply_cp(m, cps.first()), cps.drop_first())
    }
}

pub proof fn lemma_replay_wf(m: MmrView, cps: Seq<CpView>)
    requires
        m.wf(),
    ensures
        replay(m, cps).wf(),
    decreases cps.len(),
{
    if cps.len() > 0 {
        lemma_replay_wf(apply_cp(m, cps.first()), cps.drop_first());
    }
}

/// Applying an empty checkpoint changes nothing.
pub proof fn lemma_apply_cp_empty(m: MmrView)
    requires
        m.wf(),
    ensures
        apply_cp(m, CpView::empty()) == m,
{
    assert(m.leaves + Seq::<Seq<u8>>::empty() =~= m.leaves);
    assert(apply_cp(m, CpView::empty()).deleted =~= m.deleted);
    assert(apply_cp(m, CpView::empty()) =~= m);
}

/// Replaying one checkpoint more applies it to the replayed state.
pub proof fn lemma_replay_push(m: MmrView, cps: Seq<CpView>, c: CpView)
    ensures
        replay(m, cps.push(c)) == apply_cp(replay(m, cps), c),
    decreases cps.len(),
{
    let x = cps.push(c);
    if cps.len() == 0 {
        assert(x.first() == c);
        assert(x.drop_first() =~= Seq::<CpView>::empty());
        assert(replay(m, x) == replay(apply_cp(m, x.first()), x.drop_first()));
        assert(replay(apply_cp(m, c), x.drop_first()) == apply_cp(m, c));
        assert(replay(m, cps) == m);
    } else {
        assert(x.first() == cps.first());
        assert(x.drop_first() =~= cps.drop_first().push(c));
        lemma_replay_push(apply_cp(m, cps.first()), cps.drop_first(), c);
        assert(replay(m, x) == replay(apply_cp(m, x.first()), x.drop_first()));
        assert(replay(apply_cp(m, cps.first()), cps.drop_first().push(c)) == apply_cp(
            replay(apply_cp(m, cps.first()), cps.drop_first()),
            c,
        ));
        assert(replay(m, cps) == replay(apply_cp(m, cps.first()), cps.drop_first()));
    }
}

/// Replaying a concatenation replays the parts in turn.
pub proof fn lemma_replay_append(m: MmrView, a: Seq<CpView>, b: Seq<CpView>)
    ensures
        replay(m, a + b) == replay(replay(m, a), b),
    decreases a.len(),
{
    if a.len() == 0 {
        assert(a + b =~= b);
    } else {
        assert((a + b).first() == a.first());
        assert((a + b).drop_first() =~= a.drop_first() + b);
        lemma_replay_append(apply_cp(m, a.first()), a.drop_first(), b);
    }
}

/// Mathematical state of a change-tracked accumulator.
#[verifier::ext_equal]
pub struct TrackerView {
    pub base: MmrView,
    pub checkpoints: Seq<CpView>,
    pub current: MmrView,
    pub pending: CpView,
    pub config: MerkleChangeTrackerConfig,
}

impl TrackerView {
    /// The current state is exactly the base state with all committed
    /// checkpoints and the pending change set applied, pending tombstone
    /// positions are in range, and the retention bounds are ordered.
    pub open spec fn wf(self) -> bool {
        &&& self.base.wf()
        &&& self.current.wf()
        &&& self.current == apply_cp(replay(self.base, self.checkpoints), self.pending)
        &&& forall|j: int|
            0 <= j < self.pending.deleted.len() ==> self.pending.deleted[j] < self.current.len()
        &&& self.config.min_history_len <= self.config.max_history_len
    }
}

/// Appending a leaf: it joins the current state and the pending change set.
pub open spec fn tracker_push(t: TrackerView, h: Seq<u8>) -> TrackerView {
    TrackerView {
        current: MmrView { leaves: t.current.leaves.push(h), deleted: t.current.deleted.push(false) },
        pending: CpView { added: t.pending.added.push(h), deleted: t.pending.deleted },
        ..t
    }
}

/// Tombstoning a live leaf: recorded in the pending change set; a request
/// for an out-of-range or already tombstoned position changes nothing.
pub open spec fn tracker_delete(t: TrackerView, pos: usize) -> TrackerView {
    if pos < t.current.len() && !t.current.deleted[pos as int] {
        TrackerView {
            current: MmrView {
                leaves: t.current.leaves,
                deleted: t.current.deleted.update(pos as int, true),
            },
            pending: CpView { added: t.pending.added, deleted: t.pending.deleted.push(pos) },
            ..t
        }
    } else {
        t
    }
}

/// How many of the oldest checkpoints a commit merges into the base: none,
/// until the history would exceed `max_history_len`; then all but
/// `min_history_len` of them.
pub open spec fn commit_prune_count(t: TrackerView) -> int {
    if t.checkpoints.len() + 1 > t.config.max_history_len {
        t.checkpoints.len() + 1 - t.config.min_history_len
    } else {
        0
    }
}

/// Committing: the pending change set becomes the newest checkpoint, and the
/// oldest checkpoints beyond the retention bound are merged into the base.
pub open spec fn tracker_commit(t: TrackerView) -> TrackerView {
    let cps = t.checkpoints.push(t.pending);
    let k = commit_prune_count(t);
    TrackerView {
        base: replay(t.base, cps.take(k)),
        checkpoints: cps.skip(k),
        current: t.current,
        pending: CpView::empty(),
        config: t.config,
    }
}

/// Resetting: uncommitted pending changes are discarded.
pub open spec fn tracker_reset(t: TrackerView) -> TrackerView {
    TrackerView { current: replay(t.base, t.checkpoints), pending: CpView::empty(), ..t }
}

/// Rewinding: the newest `steps` checkpoints and all pending changes are
/// discarded.
pub open spec fn tracker_rewind(t: TrackerView, steps: int) -> TrackerView {
    let cps = t.checkpoints.take(t.checkpoints.len() - steps);
    TrackerView { checkpoints: cps, current: replay(t.base, cps), pending: CpView::empty(), ..t }
}

/// Assigning: the given leaves and tombstone positions become the whole
/// state, with no history.
pub open spec fn tracker_assign(t: TrackerView, leaves: Seq<Seq<u8>>, positions: Seq<usize>) -> TrackerView {
    let m = MmrView {
        leaves,
        deleted: Seq::new(leaves.len(), |i: int| holds_position(positions, i)),
    };
    TrackerView {
        base: m,
        checkpoints: Seq::empty(),
        current: m,
        pending: CpView::empty(),
        config: t.config,
    }
}

/// `positions.push(p)` holds `i` exactly when `positions` holds it or it is `p`.
pub proof fn lemma_holds_position_push(s: Seq<usize>, p: usize, i: int)
    ensures
        holds_position(s.push(p), i) == (holds_position(s, i) || i == p as int),
{
    if holds_position(s.push(p), i) {
        let j = choose|j: int| 0 <= j < s.push(p).len() && #[trigger] s.push(p)[j] == i;
        if j < s.len() {
            assert(s[j] == i);
        }
    }
    if holds_position(s, i) {
        let j = choose|j: int| 0 <= j < s.len() && #[trigger] s[j] == i;
        assert(s.push(p)[j] == i);
    }
    if i == p as int {
        assert(s.push(p)[s.len() as int] == i);
    }
}

pub proof fn lemma_tracker_push_wf(t: TrackerView, h: Seq<u8>)
    requires
        t.wf(),
    ensures
        tracker_push(t, h).wf(),
{
    let t2 = tracker_push(t, h);
    let r = replay(t.base, t.checkpoints);
    lemma_replay_wf(t.base, t.checkpoints);
    let k = t.pending.added.len();
    let a1 = apply_cp(r, t.pending);
    let a2 = apply_cp(r, t2.pending);
    assert(r.leaves + t.pending.added.push(h) =~= (r.leaves + t.pending.added).push(h));
    assert(t2.current.leaves =~= a2.leaves);
    let grown1 = r.deleted + Seq::new(k, |i: int| false);
    let grown2 = r.deleted + Seq::new((k + 1) as nat, |i: int| false);
    assert forall|i: int| 0 <= i < a2.deleted.len() implies a2.deleted[i]
        == t2.current.deleted[i] by {
        if i < t.current.len() {
            assert(grown2[i] == grown1[i]);
            assert(a1.deleted[i] == t.current.deleted[i]);
        } else {
            assert(grown2[i] == false);
            assert(!holds_position(t.pending.deleted, i));
        }
    }
    assert(t2.current.deleted =~= a2.deleted);
    assert(t2.current =~= a2);
}

pub proof fn lemma_tracker_delete_wf(t: TrackerView, pos: usize)
    requires
        t.wf(),
    ensures
        tracker_delete(t, pos).wf(),
{
    if pos < t.current.len() && !t.current.deleted[pos as int] {
        let t2 = tracker_delete(t, pos);
        let r = replay(t.base, t.checkpoints);
        lemma_replay_wf(t.base, t.checkpoints);
        let a1 = apply_cp(r, t.pending);
        let a2 = apply_cp(r, t2.pending);
        assert(a2.leaves =~= a1.leaves);
        assert forall|i: int| 0 <= i < a2.deleted.len() implies a2.deleted[i]
            == t2.current.deleted[i] by {
            lemma_holds_position_push(t.pending.deleted, pos, i);
            assert(a1.deleted[i] == t.current.deleted[i]);
        }
        assert(t2.current.deleted =~= a2.deleted);
        assert(t2.current =~= a2);
    }
}

/// Committing keeps the replayed history: the new base with the retained
/// checkpoints replays to the same state as the old base with every
/// checkpoint, pending included; and the result is well formed.
pub proof fn lemma_tracker_commit_wf(t: TrackerView)
    requires
        t.wf(),
    ensures
        tracker_commit(t).wf(),
        replay(tracker_commit(t).base, tracker_commit(t).checkpoints) == replay(
            t.base,
            t.checkpoints.push(t.pending),
        ),
        tracker_commit(t).current == t.current,
{
    let cps = t.checkpoints.push(t.pending);
    let k = commit_prune_count(t);
    let t2 = tracker_commit(t);
    assert(cps.take(k) + cps.skip(k) =~= cps);
    lemma_replay_append(t.base, cps.take(k), cps.skip(k));
    lemma_replay_push(t.base, t.checkpoints, t.pending);
    lemma_replay_wf(t.base, cps.take(k));
    assert(replay(t2.base, t2.checkpoints) == replay(t.base, cps));
    assert(replay(t.base, cps) == apply_cp(replay(t.base, t.checkpoints), t.pending));
    lemma_apply_cp_empty(t.current);
}

pub proof fn lemma_tracker_reset_wf(t: TrackerView)
    requires
        t.wf(),
    ensures
        tracker_reset(t).wf(),
{
    lemma_replay_wf(t.base, t.checkpoints);
    lemma_apply_cp_empty(replay(t.base, t.checkpoints));
}

pub proof fn lemma_tracker_rewind_wf(t: TrackerView, steps: int)
    requires
        t.wf(),
        0 <= steps <= t.checkpoints.len(),
    ensures
        tracker_rewind(t, steps).wf(),
{
    let cps = t.checkpoints.take(t.checkpoints.len() - steps);
    lemma_replay_wf(t.base, cps);
    lemma_apply_cp_empty(replay(t.base, cps));
}

pub proof fn lemma_tracker_assign_wf(t: TrackerView, leaves: Seq<Seq<u8>>, positions: Seq<usize>)
    requires
        t.config.min_history_len <= t.config.max_history_len,
    ensures
        tracker_assign(t, leaves, positions).wf(),
{
    let t2 = tracker_assign(t, leaves, positions);
    lemma_apply_cp_empty(t2.base);
}

impl MutableMmrLeafNodes {
    /// An independent copy.
    pub fn duplicate(&self) -> (r: Self)
        ensures
            r.leaf_hashes@.map_values(|v: Vec<u8>| v@) == self.leaf_hashes@.map_values(
                |v: Vec<u8>| v@,
            ),
            r.deleted@ == self.deleted@,
    {
        let mut leaf_hashes: Vec<Vec<u8>> = Vec::new();
        let mut i: usize = 0;
        while i < self.leaf_hashes.len()
            invariant
                i <= self.leaf_hashes.len(),
                leaf_hashes@.len() == i,
                forall|j: int| 0 <= j < i ==> leaf_hashes@[j]@ == self.leaf_hashes@[j]@,
            decreases self.leaf_hashes.len() - i,
        {
            leaf_hashes.push(copy_bytes(&self.leaf_hashes[i]));
            i = i + 1;
        }
        let deleted = self.deleted.clone();
        let r = MutableMmrLeafNodes { leaf_hashes, deleted };
        proof {
            assert(r.leaf_hashes@.map_values(|v: Vec<u8>| v@) =~= self.leaf_hashes@.map_values(
                |v: Vec<u8>| v@,
            ));
            assert(r.deleted@ =~= self.deleted@);
        }
        r
    }
}

/// Failure of a checkpoint-history operation: the requested checkpoint or
/// range lies outside what is retained.
#[derive(Clone, Copy, PartialEq, Eq, Structural, Debug)]
pub enum MmrError {
    CheckpointOutOfBounds,
}

/// Appends a checkpoint's leaves to `m` and marks its tombstone positions.
fn apply_cp_exec(m: &mut MutableMmr, cp: &MerkleCheckPoint)
    requires
        old(m)@.wf(),
    ensures
        final(m)@.wf(),
        final(m)@ == apply_cp(old(m)@, cp@),
{
    let mut i: usize = 0;
    while i < cp.nodes_added.len()
        invariant
            old(m)@.wf(),
            m@.wf(),
            i <= cp.nodes_added.len(),
            m@.leaves == old(m)@.leaves + cp@.added.take(i as int),
            m@.deleted.len() == m@.leaves.len(),
            forall|j: int| 0 <= j < old(m)@.len() ==> m@.deleted[j] == old(m)@.deleted[j],
            forall|j: int| old(m)@.len() <= j < m@.len() ==> !m@.deleted[j],
        decreases cp.nodes_added.len() - i,
    {
        m.push(&cp.nodes_added[i]);
        proof {
            assert(cp@.added[i as int] == cp.nodes_added@[i as int]@);
            assert(old(m)@.leaves + cp@.added.take(i + 1 as int) =~= (old(m)@.leaves
                + cp@.added.take(i as int)).push(cp@.added[i as int]));
        }
        i = i + 1;
    }
    proof {
        assert(cp@.added.take(cp@.added.len() as int) =~= cp@.added);
    }
    let ghost pre = m.deleted@;
    m.deleted = marked_flags(&m.deleted, &cp.nodes_deleted);
    proof {
        let target = apply_cp(old(m)@, cp@);
        let grown = old(m)@.deleted + Seq::new(cp@.added.len(), |i: int| false);
        assert(pre.len() == grown.len());
        assert forall|j: int| 0 <= j < pre.len() implies pre[j] == grown[j] by {
            if j < old(m)@.deleted.len() {
                assert(grown[j] == old(m)@.deleted[j]);
            } else {
                assert(grown[j] == false);
            }
        }
        assert(cp@.deleted == cp.nodes_deleted@);
        assert forall|j: int| 0 <= j < m.deleted@.len() implies m.deleted@[j]
            == target.deleted[j] by {
            assert(m.deleted@[j] == (pre[j] || holds_position(cp.nodes_deleted@, j)));
            assert(pre[j] == grown[j]);
        }
        assert(m@.deleted =~= target.deleted);
        assert(m@.leaves =~= target.leaves);
        assert(m@ =~= target);
    }
}

/// A change-tracked accumulator: a base state, the committed checkpoint
/// history, the current state and the uncommitted pending change set.
pub struct MerkleChangeTracker {
    base: MutableMmr,
    checkpoints: Vec<MerkleCheckPoint>,
    current: MutableMmr,
    pending: MerkleCheckPoint,
    config: MerkleChangeTrackerConfig,
}

impl View for MerkleChangeTracker {
    type V = TrackerView;

    closed spec fn view(&self) -> TrackerView {
        TrackerView {
            base: self.base@,
            checkpoints: self.checkpoints@.map_values(|c: MerkleCheckPoint| c@),
            current: self.current@,
            pending: self.pending@,
            config: self.config,
        }
    }
}

impl MerkleChangeTracker {
    /// A tracker over the given base state and committed history; the
    /// current state is the base with that history replayed, and nothing is
    /// pending.
    pub fn new(base: MutableMmr, checkpoints: Vec<MerkleCheckPoint>, config: MerkleChangeTrackerConfig) -> (t:
        Self)
        requires
            base@.wf(),
            config.min_history_len <= config.max_history_len,
        ensures
            t@.wf(),
            t@.base == base@,
            t@.checkpoints == checkpoints@.map_values(|c: MerkleCheckPoint| c@),
            t@.current == replay(base@, checkpoints@.map_values(|c: MerkleCheckPoint| c@)),
            t@.pending == CpView::empty(),
            t@.config == config,
    {
        let ghost cpsv = checkpoints@.map_values(|c: MerkleCheckPoint| c@);
        let mut current = base.duplicate();
        let mut i: usize = 0;
        while i < checkpoints.len()
            invariant
                base@.wf(),
                current@.wf(),
                i <= checkpoints.len(),
                cpsv == checkpoints@.map_values(|c: MerkleCheckPoint| c@),
                current@ == replay(base@, cpsv.take(i as int)),
            decreases checkpoints.len() - i,
        {
            apply_cp_exec(&mut current, &checkpoints[i]);
            proof {
                assert(cpsv.take(i + 1 as int) =~= cpsv.take(i as int).push(cpsv[i as int]));
                lemma_replay_push(base@, cpsv.take(i as int), cpsv[i as int]);
            }
            i = i + 1;
        }
        proof {
            assert(cpsv.take(checkpoints@.len() as int) =~= cpsv);
        }
        let pending = MerkleCheckPoint::new_empty();
        let t = MerkleChangeTracker { base, checkpoints, current, pending, config };
        proof {
            lemma_replay_wf(t@.base, t@.checkpoints);
            lemma_apply_cp_empty(replay(t@.base, t@.checkpoints));
        }
        t
    }

    /// Number of committed checkpoints currently retained.
    pub fn checkpoint_count(&self) -> (n: usize)
        ensures
            n == self@.checkpoints.len(),
    {
        proof {
            assert(self@.checkpoints.len() == self.checkpoints@.len());
        }
        self.checkpoints.len()
    }

    /// The current accumulator state, for read-only use.
    pub fn mmr(&self) -> (r: &MutableMmr)
        ensures
            r@ == self@.current,
    {
        &self.current
    }

    /// Appends a new leaf; the change is pending until the next commit.
    pub fn push(&mut self, hash: &Vec<u8>)
        requires
            old(self)@.wf(),
        ensures
            final(self)@.wf(),
            final(self)@ == tracker_push(old(self)@, hash@),
    {
        self.current.push(hash);
        self.pending.nodes_added.push(copy_bytes(hash));
        proof {
            assert(final(self)@.pending.added =~= tracker_push(old(self)@, hash@).pending.added);
            assert(final(self)@ =~~= tracker_push(old(self)@, hash@));
            lemma_tracker_push_wf(old(self)@, hash@);
        }
    }

    /// Tombstones the leaf at `pos`; the change is pending until the next
    /// commit.  Returns `false`, changing nothing, when `pos` is out of
    /// range or already tombstoned.
    pub fn delete(&mut self, pos: usize) -> (r: bool)
        requires
            old(self)@.wf(),
        ensures
            final(self)@.wf(),
            final(self)@ == tracker_delete(old(self)@, pos),
            r == (pos < old(self)@.current.len() && !old(self)@.current.deleted[pos as int]),
    {
        let r = self.current.delete(pos);
        if r {
            self.pending.nodes_deleted.push(pos);
        }
        proof {
            assert(final(self)@ =~~= tracker_delete(old(self)@, pos));
            lemma_tracker_delete_wf(old(self)@, pos);
        }
        r
    }

    /// Seals every pending change into a new checkpoint; history beyond the
    /// retention bound is merged into the base.
    pub fn commit(&mut self)
        requires
            old(self)@.wf(),
        ensures
            final(self)@.wf(),
            final(self)@ == tracker_commit(old(self)@),
    {
        let cp = self.pending.duplicate();
        self.checkpoints.push(cp);
        self.pending = MerkleCheckPoint::new_empty();
        let ghost cps = old(self)@.checkpoints.push(old(self)@.pending);
        proof {
            assert(self.checkpoints@.map_values(|c: MerkleCheckPoint| c@) =~= cps);
        }
        let ghost k = commit_prune_count(old(self)@);
        if self.checkpoints.len() > self.config.max_history_len {
            let excess = self.checkpoints.len() - self.config.min_history_len;
            proof {
                assert(excess == k);
            }
            let mut i: usize = 0;
            while i < excess
                invariant
                    i <= excess,
                    k == excess,
                    excess <= cps.len(),
                    old(self)@.base.wf(),
                    self.base@.wf(),
                    self.base@ == replay(old(self)@.base, cps.take(i as int)),
                    self.checkpoints@.map_values(|c: MerkleCheckPoint| c@) == cps,
                    self.current@ == old(self)@.current,
                    self.pending@ == CpView::empty(),
                    self.config == old(self)@.config,
                decreases excess - i,
            {
                proof {
                    assert(self.checkpoints@[i as int]@ == cps[i as int]);
                }
                let cp_i = self.checkpoints[i].duplicate();
                apply_cp_exec(&mut self.base, &cp_i);
                proof {
                    assert(cps.take(i + 1 as int) =~= cps.take(i as int).push(cps[i as int]));
                    lemma_replay_push(old(self)@.base, cps.take(i as int), cps[i as int]);
                }
                i = i + 1;
            }
            let kept = self.checkpoints.split_off(excess);
            self.checkpoints = kept;
            proof {
                assert(self.checkpoints@.map_values(|c: MerkleCheckPoint| c@) =~= cps.skip(
                    k,
                ));
            }
        } else {
            proof {
                assert(k == 0);
                assert(cps.take(0) =~= Seq::<CpView>::empty());
                assert(cps.skip(0) =~= cps);
            }
        }
        proof {
            assert(final(self)@ =~~= tracker_commit(old(self)@));
            lemma_tracker_commit_wf(old(self)@);
        }
    }

    /// Discards all uncommitted pending changes, restoring the last
    /// committed state.
    pub fn reset(&mut self)
        requires
            old(self)@.wf(),
        ensures
            final(self)@.wf(),
            final(self)@ == tracker_reset(old(self)@),
    {
        let mut current = self.base.duplicate();
        let ghost cpsv = self@.checkpoints;
        let mut i: usize = 0;
        while i < self.checkpoints.len()
            invariant
                self.base@.wf(),
                current@.wf(),
                i <= self.checkpoints.len(),
                cpsv == self.checkpoints@.map_values(|c: MerkleCheckPoint| c@),
                current@ == replay(self.base@, cpsv.take(i as int)),
            decreases self.checkpoints.len() - i,
        {
            apply_cp_exec(&mut current, &self.checkpoints[i]);
            proof {
                assert(cpsv.take(i + 1 as int) =~= cpsv.take(i as int).push(cpsv[i as int]));
                lemma_replay_push(self.base@, cpsv.take(i as int), cpsv[i as int]);
            }
            i = i + 1;
        }
        proof {
            assert(cpsv.take(self.checkpoints@.len() as int) =~= cpsv);
        }
        self.current = current;
        self.pending = MerkleCheckPoint::new_empty();
        proof {
            assert(final(self)@ =~~= tracker_reset(old(self)@));
            lemma_tracker_reset_wf(old(self)@);
        }
    }

    /// Discards the newest `steps` checkpoints and all pending changes,
    /// restoring the state at the earlier checkpoint.  Fails, changing
    /// nothing, when fewer than `steps` checkpoints are retained.
    pub fn rewind(&mut self, steps: usize) -> (r: Result<(), MmrError>)
        requires
            old(self)@.wf(),
        ensures
            final(self)@.wf(),
            match r {
                Ok(()) => steps <= old(self)@.checkpoints.len() && final(self)@ == tracker_rewind(
                    old(self)@,
                    steps as int,
                ),
                Err(_) => steps > old(self)@.checkpoints.len() && final(self)@ == old(self)@,
            },
    {
        if steps > self.checkpoints.len() {
            return Err(MmrError::CheckpointOutOfBounds);
        }
        let keep = self.checkpoints.len() - steps;
        self.checkpoints.truncate(keep);
        proof {
            assert(self.checkpoints@.map_values(|c: MerkleCheckPoint| c@) =~= old(
                self,
            )@.checkpoints.take(keep as int));
        }
        let mut current = self.base.duplicate();
        let ghost cpsv = old(self)@.checkpoints.take(keep as int);
        let mut i: usize = 0;
        while i < self.checkpoints.len()
            invariant
                self.base@.wf(),
                current@.wf(),
                i <= self.checkpoints.len(),
                cpsv == self.checkpoints@.map_values(|c: MerkleCheckPoint| c@),
                current@ == replay(self.base@, cpsv.take(i as int)),
            decreases self.checkpoints.len() - i,
        {
            apply_cp_exec(&mut current, &self.checkpoints[i]);
            proof {
                assert(cpsv.take(i + 1 as int) =~= cpsv.take(i as int).push(cpsv[i as int]));
                lemma_replay_push(self.base@, cpsv.take(i as int), cpsv[i as int]);
            }
            i = i + 1;
        }
        proof {
            assert(cpsv.take(self.checkpoints@.len() as int) =~= cpsv);
        }
        self.current = current;
        self.pending = MerkleCheckPoint::new_empty();
        proof {
            assert(final(self)@ =~~= tracker_rewind(old(self)@, steps as int));
            lemma_tracker_rewind_wf(old(self)@, steps as int);
        }
        Ok(())
    }

    /// Bulk-replaces the base state; all history and pending changes are
    /// discarded and the current state equals the new base.
    pub fn assign(&mut self, state: MutableMmrLeafNodes)
        requires
            old(self)@.wf(),
        ensures
            final(self)@.wf(),
            final(self)@ == tracker_assign(
                old(self)@,
                state.leaf_hashes@.map_values(|v: Vec<u8>| v@),
                state.deleted@,
            ),
    {
        let copy = state.duplicate();
        let ghost leaves = state.leaf_hashes@.map_values(|v: Vec<u8>| v@);
        let ghost positions = state.deleted@;
        self.base.assign(copy);
        self.current.assign(state);
        self.checkpoints.clear();
        self.pending = MerkleCheckPoint::new_empty();
        proof {
            let target = tracker_assign(old(self)@, leaves, positions);
            assert(self.base@.deleted =~= target.base.deleted);
            assert(self.current@.deleted =~= target.current.deleted);
            assert(final(self)@ =~~= target);
            lemma_tracker_assign_wf(old(self)@, leaves, positions);
        }
    }

    /// The retained checkpoint at `index`, counted from the oldest retained
    /// one; fails when no such checkpoint is retained.
    pub fn get_checkpoint(&self, index: usize) -> (r: Result<MerkleCheckPoint, MmrError>)
        ensures
            match r {
                Ok(cp) => index < self@.checkpoints.len() && cp@ == self@.checkpoints[index as int],
                Err(_) => index >= self@.checkpoints.len(),
            },
    {
        if index < self.checkpoints.len() {
            Ok(self.checkpoints[index].duplicate())
        } else {
            Err(MmrError::CheckpointOutOfBounds)
        }
    }

    /// Number of leaves in the base (oldest retained) state.
    pub fn get_base_leaf_count(&self) -> (n: usize)
        ensures
            n == self@.base.len(),
    {
        self.base.len()
    }

    /// Exports `count` base leaves starting at `index`, with the absolute
    /// positions of the tombstoned ones among them; fails when the range
    /// exceeds the base state.
    pub fn to_base_leaf_nodes(&self, index: usize, count: usize) -> (r: Result<
        MutableMmrLeafNodes,
        MmrError,
    >)
        requires
            self@.wf(),
        ensures
            match r {
                Ok(state) => {
                    &&& index + count <= self@.base.len()
                    &&& state.leaf_hashes@.map_values(|v: Vec<u8>| v@) == self@.base.leaves.subrange(
                        index as int,
                        index + count,
                    )
                    &&& forall|i: int|
                        holds_position(state.deleted@, i) == (index <= i < index + count
                            && self@.base.deleted[i])
                },
                Err(_) => index + count > self@.base.len(),
            },
    {
        if count > self.base.len() || index > self.base.len() - count {
            return Err(MmrError::CheckpointOutOfBounds);
        }
        let mut leaf_hashes: Vec<Vec<u8>> = Vec::new();
        let mut deleted: Vec<usize> = Vec::new();
        let mut p: usize = index;
        while p < index + count
            invariant
                index + count <= usize::MAX,
                index + count <= self.base.leaves@.len(),
                self.base.leaves@.map_values(|v: Vec<u8>| v@) == self@.base.leaves,
                self.base.deleted@ == self@.base.deleted,
                self@.base.wf(),
                index <= p <= index + count,
                leaf_hashes@.len() == p - index,
                forall|j: int|
                    0 <= j < p - index ==> leaf_hashes@[j]@ == self@.base.leaves[index + j],
                forall|i: int|
                    holds_position(deleted@, i) == (index <= i < p && self@.base.deleted[i]),
            decreases index + count - p,
        {
            leaf_hashes.push(copy_bytes(&self.base.leaves[p]));
            if self.base.deleted[p] {
                let ghost before = deleted@;
                deleted.push(p);
                proof {
                    assert forall|i: int|
                        holds_position(deleted@, i) == (index <= i < p + 1
                            && self@.base.deleted[i]) by {
                        lemma_holds_position_push(before, p, i);
                    }
                }
            } else {
                proof {
                    assert forall|i: int|
                        holds_position(deleted@, i) == (index <= i < p + 1
                            && self@.base.deleted[i]) by {}
                }
            }
            p = p + 1;
        }
        proof {
            assert(leaf_hashes@.map_values(|v: Vec<u8>| v@) =~= self@.base.leaves.subrange(
                index as int,
                index + count,
            ));
        }
        Ok(MutableMmrLeafNodes { leaf_hashes, deleted })
    }

    /// Root of the current state over leaves and tombstones.
    pub fn get_merkle_root(&self) -> (r: Vec<u8>)
        requires
            self@.wf(),
        ensures
            r@ == full_root(self@.current),
            r@.len() == 64,
    {
        self.current.get_merkle_root()
    }

    /// Root of the current state over the leaf hashes alone.
    pub fn get_mmr_only_root(&self) -> (r: Vec<u8>)
        requires
            self@.wf(),
        ensures
            r@ == chained_root(self@.current.leaves),
            r@.len() == 64,
    {
        self.current.get_mmr_only_root()
    }

    /// Position of the first current leaf whose hash equals `hash`, if any.
    pub fn find_leaf_index(&self, hash: &Vec<u8>) -> (r: Option<usize>)
        requires
            self@.wf(),
        ensures
            match r {
                Some(i) => first_index_of(self@.current.leaves, hash@) == Some(i as int),
                None => first_index_of(self@.current.leaves, hash@) is None,
            },
    {
        self.current.find_leaf_index(hash)
    }

    /// Hash and tombstone flag of the current leaf at `pos`; `(None, false)`
    /// when no such leaf exists.
    pub fn get_leaf_status(&self, pos: usize) -> (r: (Option<Vec<u8>>, bool))
        requires
            self@.wf(),
        ensures
            pos < self@.current.len() ==> (r.0 matches Some(h) && h@ == self@.current.leaves[pos as int]
                && r.1 == self@.current.deleted[pos as int]),
            pos >= self@.current.len() ==> r.0 is None && r.1 == false,
    {
        self.current.get_leaf_status(pos)
    }
}

} // verus!
