//! The record types the store keeps: headers, blocks, outputs and kernels.
//! Each is modelled by the plain bytes the store reads from it.

use vstd::prelude::*;
use crate::hashing::copy_bytes;

verus! {

/// A block header, modelled by the hash that identifies it.
pub struct BlockHeader {
    pub hash: Vec<u8>,
}

impl View for BlockHeader {
    type V = Seq<u8>;

    open spec fn view(&self) -> Seq<u8> {
        self.hash@
    }
}

impl BlockHeader {
    pub fn new(hash: Vec<u8>) -> (h: Self)
        ensures
            h@ == hash@,
    {
        BlockHeader { hash }
    }

    /// The hash identifying this header.
    pub fn hash(&self) -> (r: Vec<u8>)
        ensures
            r@ == self@,
    {
        copy_bytes(&self.hash)
    }

    pub fn duplicate(&self) -> (r: Self)
        ensures
            r@ == self@,
    {
        BlockHeader { hash: copy_bytes(&self.hash) }
    }
}

/// A block, modelled by its header.
pub struct Block {
    pub header: BlockHeader,
}

impl View for Block {
    type V = Seq<u8>;

    open spec fn view(&self) -> Seq<u8> {
        self.header@
    }
}

impl Block {
    pub fn new(header: BlockHeader) -> (b: Self)
        ensures
            b@ == header@,
    {
        Block { header }
    }

    pub fn duplicate(&self) -> (r: Self)
        ensures
            r@ == self@,
    {
        Block { header: self.header.duplicate() }
    }
}

/// Mathematical state of a transaction output.
#[verifier::ext_equal]
pub struct OutputView {
    pub commitment: Seq<u8>,
    pub proof_hash: Seq<u8>,
}

/// A transaction output: its commitment and the hash of its range proof.
pub struct TransactionOutput {
    pub commitment: Vec<u8>,
    pub proof_hash: Vec<u8>,
}

impl View for TransactionOutput {
    type V = OutputView;

    open spec fn view(&self) -> OutputView {
        OutputView { commitment: self.commitment@, proof_hash: self.proof_hash@ }
    }
}

impl TransactionOutput {
    pub fn new(commitment: Vec<u8>, proof_hash: Vec<u8>) -> (o: Self)
        ensures
            o@.commitment == commitment@,
            o@.proof_hash == proof_hash@,
    {
        TransactionOutput { commitment, proof_hash }
    }

    /// The hash of this output's range proof.
    pub fn proof_hash(&self) -> (r: Vec<u8>)
        ensures
            r@ == self@.proof_hash,
    {
        copy_bytes(&self.proof_hash)
    }

    pub fn duplicate(&self) -> (r: Self)
        ensures
            r@ == self@,
    {
        TransactionOutput {
            commitment: copy_bytes(&self.commitment),
            proof_hash: copy_bytes(&self.proof_hash),
        }
    }
}

/// A transaction kernel, modelled by its excess bytes.
pub struct TransactionKernel {
    pub excess: Vec<u8>,
}

impl View for TransactionKernel {
    type V = Seq<u8>;

    open spec fn view(&self) -> Seq<u8> {
        self.excess@
    }
}

impl TransactionKernel {
    pub fn new(excess: Vec<u8>) -> (k: Self)
        ensures
            k@ == excess@,
    {
        TransactionKernel { excess }
    }

    pub fn duplicate(&self) -> (r: Self)
        ensures
            r@ == self@,
    {
        TransactionKernel { excess: copy_bytes(&self.excess) }
    }
}

/// A record that also forms part of an accumulator: the value together with
/// its accumulator leaf position, which makes reverse lookups possible.
pub struct MerkleNode<T> {
    pub index: usize,
    pub value: T,
}

} // verus!
