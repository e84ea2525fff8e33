//! Keys, values, write operations and errors of the store's surface.

use vstd::prelude::*;
use crate::blocks::{Block, BlockHeader, TransactionKernel, TransactionOutput};

verus! {

/// Selector for one of the three accumulators.
#[derive(Clone, Copy, PartialEq, Eq, Structural, Debug)]
pub enum MmrTree {
    Utxo,
    Kernel,
    RangeProof,
}

/// The fixed metadata slots.
#[derive(Clone, Copy, PartialEq, Eq, Structural, Debug)]
pub enum MetadataKey {
    ChainHeight,
    BestBlock,
    AccumulatedWork,
    PruningHorizon,
}

/// The integer slot a metadata key is stored under.
pub open spec fn metadata_code(k: MetadataKey) -> u64 {
    match k {
        MetadataKey::ChainHeight => 0,
        MetadataKey::BestBlock => 1,
        MetadataKey::AccumulatedWork => 2,
        MetadataKey::PruningHorizon => 3,
    }
}

impl MetadataKey {
    /// The integer slot this key is stored under.
    pub fn code(&self) -> (c: u64)
        ensures
            c == metadata_code(*self),
    {
        match self {
            MetadataKey::ChainHeight => 0,
            MetadataKey::BestBlock => 1,
            MetadataKey::AccumulatedWork => 2,
            MetadataKey::PruningHorizon => 3,
        }
    }
}

/// A lookup key, one variant per table; `BlockHash` addresses a header
/// through the reverse index.
pub enum DbKey {
    Metadata(MetadataKey),
    BlockHeader(u64),
    BlockHash(Vec<u8>),
    UnspentOutput(Vec<u8>),
    SpentOutput(Vec<u8>),
    TransactionKernel(Vec<u8>),
    OrphanBlock(Vec<u8>),
}

/// A value fetched from the store, one variant per key variant.
pub enum DbValue {
    Metadata(Vec<u8>),
    BlockHeader(Box<BlockHeader>),
    BlockHash(Box<BlockHeader>),
    UnspentOutput(Box<TransactionOutput>),
    SpentOutput(Box<TransactionOutput>),
    TransactionKernel(Box<TransactionKernel>),
    OrphanBlock(Box<Block>),
}

/// A key/value pair to insert.  The `bool` on outputs and kernels says
/// whether the insert also registers a new accumulator leaf.
pub enum DbKeyValuePair {
    Metadata(MetadataKey, Vec<u8>),
    BlockHeader(u64, Box<BlockHeader>),
    UnspentOutput(Vec<u8>, Box<TransactionOutput>, bool),
    TransactionKernel(Vec<u8>, Box<TransactionKernel>, bool),
    OrphanBlock(Vec<u8>, Box<Block>),
}

/// One write operation of a batch.
pub enum WriteOperation {
    Insert(DbKeyValuePair),
    Delete(DbKey),
    Spend(DbKey),
    UnSpend(DbKey),
    CreateMmrCheckpoint(MmrTree),
    RewindMmr(MmrTree, usize),
}

/// An ordered batch of write operations, applied in order as one call.
pub struct DbTransaction {
    pub operations: Vec<WriteOperation>,
}

impl DbTransaction {
    pub fn new() -> (tx: Self)
        ensures
            tx.operations@ =~= Seq::<WriteOperation>::empty(),
    {
        DbTransaction { operations: Vec::new() }
    }

    pub fn add_operation(&mut self, op: WriteOperation)
        ensures
            final(self).operations@ == old(self).operations@.push(op),
    {
        self.operations.push(op);
    }
}

/// The kind of a storage failure, without its message.
#[derive(Clone, Copy, PartialEq, Eq, Structural, Debug)]
pub enum ErrorKind {
    AccessError,
    InvalidOperation,
    DuplicateKey,
    UnspendableInput,
    UnspendError,
    BeyondPruningHorizon,
    UnexpectedResult,
}

/// A storage failure.
#[derive(Debug)]
pub enum ChainStorageError {
    /// The lock or the checkpoint history could not serve the request.
    AccessError(String),
    /// The operation cannot be applied to the given key variant.
    InvalidOperation(String),
    /// An insert addressed an occupied key.
    DuplicateKey,
    /// A spend addressed a hash that is not a known unspent output.
    UnspendableInput,
    /// An unspend addressed a hash that is not a known spent output.
    UnspendError,
    /// The requested height or checkpoint predates retained history.
    BeyondPruningHorizon,
    /// A record that invariants guarantee should exist was not found.
    UnexpectedResult(String),
}

impl ChainStorageError {
    /// The kind of this failure.
    pub open spec fn kind(&self) -> ErrorKind {
        match self {
            ChainStorageError::AccessError(_) => ErrorKind::AccessError,
            ChainStorageError::InvalidOperation(_) => ErrorKind::InvalidOperation,
            ChainStorageError::DuplicateKey => ErrorKind::DuplicateKey,
            ChainStorageError::UnspendableInput => ErrorKind::UnspendableInput,
            ChainStorageError::UnspendError => ErrorKind::UnspendError,
            ChainStorageError::BeyondPruningHorizon => ErrorKind::BeyondPruningHorizon,
            ChainStorageError::UnexpectedResult(_) => ErrorKind::UnexpectedResult,
        }
    }

    /// The kind of this failure, for callers that match on it.
    pub fn kind_of(&self) -> (k: ErrorKind)
        ensures
            k == self.kind(),
    {
        match self {
            ChainStorageError::AccessError(_) => ErrorKind::AccessError,
            ChainStorageError::InvalidOperation(_) => ErrorKind::InvalidOperation,
            ChainStorageError::DuplicateKey => ErrorKind::DuplicateKey,
            ChainStorageError::UnspendableInput => ErrorKind::UnspendableInput,
            ChainStorageError::UnspendError => ErrorKind::UnspendError,
            ChainStorageError::BeyondPruningHorizon => ErrorKind::BeyondPruningHorizon,
            ChainStorageError::UnexpectedResult(_) => ErrorKind::UnexpectedResult,
        }
    }
}

} // verus!
