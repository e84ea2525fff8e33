//! Tests of the output-manager access logic over a plain in-memory test
//! backend.

use chain_store::output_manager::{
    Balance, DbKey, DbKeyValuePair, DbValue, KeyManagerState, OutputFeatures,
    OutputManagerBackend, OutputManagerDatabase, OutputManagerStorageError,
    PendingTransactionOutputs, UnblindedOutput, WriteOperation, balance_of,
    build_incoming_pending, sort_outputs_by_value,
};

fn output(value: u64, key: u8) -> UnblindedOutput {
    UnblindedOutput::new(value, vec![key; 32], OutputFeatures { flags: 0, maturity: 0 })
}

fn clone_output(o: &UnblindedOutput) -> UnblindedOutput {
    o.duplicate()
}

/// A plain in-memory backend for the tests.
struct TestBackend {
    unspent: Vec<UnblindedOutput>,
    spent: Vec<UnblindedOutput>,
    pending: Vec<PendingTransactionOutputs>,
    key_manager: Option<KeyManagerState>,
}

impl TestBackend {
    fn new() -> Self {
        TestBackend { unspent: Vec::new(), spent: Vec::new(), pending: Vec::new(), key_manager: None }
    }
}

fn clone_pending(p: &PendingTransactionOutputs) -> PendingTransactionOutputs {
    PendingTransactionOutputs {
        tx_id: p.tx_id,
        outputs_to_be_spent: p.outputs_to_be_spent.iter().map(clone_output).collect(),
        outputs_to_be_received: p.outputs_to_be_received.iter().map(clone_output).collect(),
        timestamp: p.timestamp,
    }
}

impl OutputManagerBackend for TestBackend {
    fn fetch(&self, key: &DbKey) -> Result<Option<DbValue>, OutputManagerStorageError> {
        match key {
            DbKey::UnspentOutputs => Ok(Some(DbValue::UnspentOutputs(
                self.unspent.iter().map(clone_output).collect(),
            ))),
            DbKey::SpentOutputs => Ok(Some(DbValue::SpentOutputs(
                self.spent.iter().map(clone_output).collect(),
            ))),
            DbKey::AllPendingTransactionOutputs => Ok(Some(DbValue::AllPendingTransactionOutputs(
                self.pending.iter().map(clone_pending).collect(),
            ))),
            DbKey::PendingTransactionOutputs(tx_id) => Ok(self
                .pending
                .iter()
                .find(|p| p.tx_id == *tx_id)
                .map(|p| DbValue::PendingTransactionOutputs(Box::new(clone_pending(p))))),
            DbKey::KeyManagerState => Ok(self.key_manager.as_ref().map(|k| {
                DbValue::KeyManagerState(KeyManagerState {
                    master_seed: k.master_seed.clone(),
                    branch_seed: k.branch_seed.clone(),
                    primary_key_index: k.primary_key_index,
                })
            })),
            _ => Ok(None),
        }
    }

    fn write(&mut self, op: WriteOperation) -> Result<Option<DbValue>, OutputManagerStorageError> {
        match op {
            WriteOperation::Insert(DbKeyValuePair::UnspentOutput(_, o)) => {
                self.unspent.push(*o);
                Ok(None)
            },
            WriteOperation::Insert(DbKeyValuePair::SpentOutput(_, o)) => {
                self.spent.push(*o);
                Ok(None)
            },
            WriteOperation::Insert(DbKeyValuePair::PendingTransactionOutputs(_, p)) => {
                self.pending.push(*p);
                Ok(None)
            },
            WriteOperation::Insert(DbKeyValuePair::KeyManagerState(k)) => {
                self.key_manager = Some(k);
                Ok(None)
            },
            WriteOperation::Remove(_) => Ok(None),
        }
    }

    fn confirm_transaction(&mut self, _tx_id: u64) -> Result<(), OutputManagerStorageError> {
        Ok(())
    }

    fn encumber_outputs(
        &mut self,
        _tx_id: u64,
        _outputs_to_send: &Vec<UnblindedOutput>,
        _change_output: Option<UnblindedOutput>,
    ) -> Result<(), OutputManagerStorageError> {
        Ok(())
    }

    fn cancel_pending_transaction(&mut self, _tx_id: u64) -> Result<(), OutputManagerStorageError> {
        Ok(())
    }

    fn timeout_pending_transactions(
        &mut self,
        _period_secs: u64,
    ) -> Result<(), OutputManagerStorageError> {
        Ok(())
    }

    fn increment_key_index(&mut self) -> Result<(), OutputManagerStorageError> {
        match &mut self.key_manager {
            Some(k) => {
                k.primary_key_index += 1;
                Ok(())
            },
            None => Err(OutputManagerStorageError::ValuesNotFound),
        }
    }
}

/// The balance sums unspent values and the pending flows exactly.
#[test]
fn balance_sums_exactly() {
    let unspent = vec![output(100, 1), output(250, 2), output(3, 3)];
    let pending = vec![
        PendingTransactionOutputs {
            tx_id: 1,
            outputs_to_be_spent: vec![output(30, 4)],
            outputs_to_be_received: vec![output(20, 5), output(5, 6)],
            timestamp: 0,
        },
        PendingTransactionOutputs {
            tx_id: 2,
            outputs_to_be_spent: vec![output(7, 7)],
            outputs_to_be_received: vec![],
            timestamp: 0,
        },
    ];
    let b = balance_of(&unspent, &pending).unwrap();
    assert_eq!(
        b,
        Balance {
            available_balance: 353,
            pending_incoming_balance: 25,
            pending_outgoing_balance: 37,
        }
    );
}

/// A sum beyond the largest representable amount yields no balance.
#[test]
fn balance_overflow_is_reported() {
    let unspent = vec![output(u64::MAX, 1), output(1, 2)];
    assert!(balance_of(&unspent, &Vec::new()).is_none());
}

/// The whole database path: balance through a backend.
#[test]
fn get_balance_through_backend() {
    let mut backend = TestBackend::new();
    backend.unspent.push(output(11, 1));
    backend.unspent.push(output(31, 2));
    let db = OutputManagerDatabase::new(backend);
    let b = db.get_balance().unwrap();
    assert_eq!(b.available_balance, 42);
    assert_eq!(b.pending_incoming_balance, 0);
    assert_eq!(b.pending_outgoing_balance, 0);
}

/// Unspent outputs come back ordered by value, smallest first.
#[test]
fn sorted_unspent_outputs() {
    let sorted = sort_outputs_by_value(vec![output(50, 1), output(2, 2), output(9, 3), output(2, 4)]);
    let values: Vec<u64> = sorted.iter().map(|o| o.value).collect();
    assert_eq!(values, vec![2, 2, 9, 50]);
    let mut backend = TestBackend::new();
    backend.unspent.push(output(50, 1));
    backend.unspent.push(output(2, 2));
    backend.unspent.push(output(9, 3));
    let db = OutputManagerDatabase::new(backend);
    let sorted = db.fetch_sorted_unspent_outputs().unwrap();
    let values: Vec<u64> = sorted.iter().map(|o| o.value).collect();
    assert_eq!(values, vec![2, 9, 50]);
}

/// An accepted incoming transaction stores one output to be received.
#[test]
fn accept_incoming_pending_transaction() {
    let record = build_incoming_pending(
        7,
        125,
        &vec![9; 32],
        OutputFeatures { flags: 0, maturity: 0 },
        1_000,
    );
    assert_eq!(record.tx_id, 7);
    assert!(record.outputs_to_be_spent.is_empty());
    assert_eq!(record.outputs_to_be_received.len(), 1);
    assert_eq!(record.outputs_to_be_received[0].value, 125);
    assert_eq!(record.outputs_to_be_received[0].spending_key, vec![9u8; 32]);
    let mut db = OutputManagerDatabase::new(TestBackend::new());
    db.accept_incoming_pending_transaction(7, 125, &vec![9; 32], OutputFeatures {
        flags: 0,
        maturity: 0,
    })
    .unwrap();
    let fetched = db.fetch_pending_transaction_outputs(7).unwrap();
    assert_eq!(fetched.outputs_to_be_received[0].value, 125);
}

/// A missing pending transaction is a value-not-found failure.
#[test]
fn missing_pending_transaction_fails() {
    let db = OutputManagerDatabase::new(TestBackend::new());
    let err = db.fetch_pending_transaction_outputs(99).unwrap_err();
    assert!(matches!(err, OutputManagerStorageError::ValueNotFound(_)));
}

/// Key-manager state round trip and index increments.
#[test]
fn key_manager_state_round_trip() {
    let mut db = OutputManagerDatabase::new(TestBackend::new());
    assert!(db.get_key_manager_state().unwrap().is_none());
    db.set_key_manager_state(KeyManagerState {
        master_seed: vec![1; 32],
        branch_seed: "trunk".to_string(),
        primary_key_index: 0,
    })
    .unwrap();
    db.increment_key_index().unwrap();
    db.increment_key_index().unwrap();
    let state = db.get_key_manager_state().unwrap().unwrap();
    assert_eq!(state.primary_key_index, 2);
    assert_eq!(state.branch_seed, "trunk");
}
