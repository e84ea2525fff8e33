//! Output-manager bookkeeping: the storage interface a wallet backend
//! implements, and the richer access logic built on it.  The backend is
//! caller-supplied and unverified; every computation on fetched data —
//! balance summation, output ordering, record construction — is a verified
//! function here.

use vstd::prelude::*;
use crate::hashing::copy_bytes;
use vstd::multiset::Multiset;

verus! {

/// Features of an unblinded output.
#[derive(Clone, Copy, PartialEq, Eq, Structural, Debug)]
pub struct OutputFeatures {
    pub flags: u8,
    pub maturity: u64,
}

/// An output the wallet can spend: its value, spending key and features.
#[derive(Debug)]
pub struct UnblindedOutput {
    pub value: u64,
    pub spending_key: Vec<u8>,
    pub features: OutputFeatures,
}

impl UnblindedOutput {
    pub fn new(value: u64, spending_key: Vec<u8>, features: OutputFeatures) -> (o: Self)
        ensures
            o.value == value,
            o.spending_key@ == spending_key@,
            o.features == features,
    {
        UnblindedOutput { value, spending_key, features }
    }

    pub fn duplicate(&self) -> (r: Self)
        ensures
            r.value == self.value,
            r.spending_key@ == self.spending_key@,
            r.features == self.features,
    {
        UnblindedOutput {
            value: self.value,
            spending_key: copy_bytes(&self.spending_key),
            features: self.features,
        }
    }
}

/// Outputs reserved for one pending transaction, with its creation time in
/// seconds since the epoch.
#[derive(Debug)]
pub struct PendingTransactionOutputs {
    pub tx_id: u64,
    pub outputs_to_be_spent: Vec<UnblindedOutput>,
    pub outputs_to_be_received: Vec<UnblindedOutput>,
    pub timestamp: u64,
}

/// State of the key manager backing the wallet.
pub struct KeyManagerState {
    pub master_seed: Vec<u8>,
    pub branch_seed: String,
    pub primary_key_index: usize,
}

/// A lookup key of the output-manager store.
pub enum DbKey {
    SpentOutput(Vec<u8>),
    UnspentOutput(Vec<u8>),
    PendingTransactionOutputs(u64),
    UnspentOutputs,
    SpentOutputs,
    AllPendingTransactionOutputs,
    KeyManagerState,
}

impl DbKey {
    /// A short description of the key, for error messages.
    pub fn describe(&self) -> (r: String) {
        match self {
            DbKey::SpentOutput(_) => String::from_str("spent output key"),
            DbKey::UnspentOutput(_) => String::from_str("unspent output key"),
            DbKey::PendingTransactionOutputs(_) => String::from_str(
                "pending transaction outputs key",
            ),
            DbKey::UnspentOutputs => String::from_str("unspent outputs key"),
            DbKey::SpentOutputs => String::from_str("spent outputs key"),
            DbKey::AllPendingTransactionOutputs => String::from_str(
                "all pending transaction outputs key",
            ),
            DbKey::KeyManagerState => String::from_str("key manager state key"),
        }
    }
}

/// A value fetched from the output-manager store.
pub enum DbValue {
    SpentOutput(Box<UnblindedOutput>),
    UnspentOutput(Box<UnblindedOutput>),
    PendingTransactionOutputs(Box<PendingTransactionOutputs>),
    UnspentOutputs(Vec<UnblindedOutput>),
    SpentOutputs(Vec<UnblindedOutput>),
    AllPendingTransactionOutputs(Vec<PendingTransactionOutputs>),
    KeyManagerState(KeyManagerState),
}

impl DbValue {
    /// A short description of the value's kind, for error messages.
    pub fn describe(&self) -> (r: String) {
        match self {
            DbValue::SpentOutput(_) => String::from_str("spent output"),
            DbValue::UnspentOutput(_) => String::from_str("unspent output"),
            DbValue::PendingTransactionOutputs(_) => String::from_str(
                "pending transaction outputs",
            ),
            DbValue::UnspentOutputs(_) => String::from_str("unspent outputs"),
            DbValue::SpentOutputs(_) => String::from_str("spent outputs"),
            DbValue::AllPendingTransactionOutputs(_) => String::from_str(
                "all pending transaction outputs",
            ),
            DbValue::KeyManagerState(_) => String::from_str("key manager state"),
        }
    }
}

/// A key/value pair to insert into the output-manager store.
pub enum DbKeyValuePair {
    SpentOutput(Vec<u8>, Box<UnblindedOutput>),
    UnspentOutput(Vec<u8>, Box<UnblindedOutput>),
    PendingTransactionOutputs(u64, Box<PendingTransactionOutputs>),
    KeyManagerState(KeyManagerState),
}

/// One write operation of the output-manager store.
pub enum WriteOperation {
    Insert(DbKeyValuePair),
    Remove(DbKey),
}

/// A failure of the output-manager store.
#[derive(Debug)]
pub enum OutputManagerStorageError {
    /// The addressed record was not found.
    ValueNotFound(String),
    /// Requested records were not found.
    ValuesNotFound,
    /// The output is already spent.
    OutputAlreadySpent,
    /// No pending transaction with the given identifier exists.
    PendingTransactionNotFound,
    /// An output with this key already exists.
    DuplicateOutput,
    /// The backend answered with a value of the wrong shape.
    UnexpectedResult(String),
}

/// The wallet's balance: spendable funds and the funds pending in and out.
#[derive(Clone, Copy, PartialEq, Eq, Structural, Debug)]
pub struct Balance {
    pub available_balance: u64,
    pub pending_incoming_balance: u64,
    pub pending_outgoing_balance: u64,
}

/// The behaviour a storage backend must provide for the output manager.
/// Implementations are caller-supplied and unverified, so no contract is
/// assumed of them; all computation on their answers happens in verified
/// code.
pub trait OutputManagerBackend {
    /// Retrieves the record under the given key.
    fn fetch(&self, key: &DbKey) -> Result<Option<DbValue>, OutputManagerStorageError>;

    /// Applies one write operation.
    fn write(&mut self, op: WriteOperation) -> Result<Option<DbValue>, OutputManagerStorageError>;

    /// Moves a confirmed pending transaction's outputs into the unspent
    /// and spent collections.
    fn confirm_transaction(&mut self, tx_id: u64) -> Result<(), OutputManagerStorageError>;

    /// Reserves the given outputs against a pending transaction.
    fn encumber_outputs(
        &mut self,
        tx_id: u64,
        outputs_to_send: &Vec<UnblindedOutput>,
        change_output: Option<UnblindedOutput>,
    ) -> Result<(), OutputManagerStorageError>;

    /// Moves a cancelled pending transaction's outputs back to unspent.
    fn cancel_pending_transaction(&mut self, tx_id: u64) -> Result<(), OutputManagerStorageError>;

    /// Cancels every pending transaction older than the given age in
    /// seconds.
    fn timeout_pending_transactions(&mut self, period_secs: u64) -> Result<
        (),
        OutputManagerStorageError,
    >;

    /// Increments the stored key-manager key index.
    fn increment_key_index(&mut self) -> Result<(), OutputManagerStorageError>;
}

/// Sum of the outputs' values.
pub open spec fn sum_values(s: Seq<UnblindedOutput>) -> int
    decreases s.len(),
{
    if s.len() == 0 {
        0
    } else {
        sum_values(s.drop_last()) + s.last().value
    }
}

/// Sum of the values to be received over all pending transactions.
pub open spec fn sum_received(s: Seq<PendingTransactionOutputs>) -> int
    decreases s.len(),
{
    if s.len() == 0 {
        0
    } else {
        sum_received(s.drop_last()) + sum_values(s.last().outputs_to_be_received@)
    }
}

/// Sum of the values to be spent over all pending transactions.
pub open spec fn sum_spent(s: Seq<PendingTransactionOutputs>) -> int
    decreases s.len(),
{
    if s.len() == 0 {
        0
    } else {
        sum_spent(s.drop_last()) + sum_values(s.last().outputs_to_be_spent@)
    }
}

/// Sum of the outputs' values, or nothing when it exceeds the largest
/// representable amount.
fn sum_outputs(v: &Vec<UnblindedOutput>) -> (r: Option<u64>)
    ensures
        match r {
            Some(total) => total == sum_values(v@),
            None => sum_values(v@) > u64::MAX,
        },
{
    let mut acc: u64 = 0;
    let mut i: usize = 0;
    while i < v.len()
        invariant
            i <= v@.len(),
            acc == sum_values(v@.take(i as int)),
        decreases v@.len() - i,
    {
        proof {
            assert(v@.take(i + 1 as int).drop_last() =~= v@.take(i as int));
            assert(v@.take(i + 1 as int).last() == v@[i as int]);
        }
        acc = match acc.checked_add(v[i].value) {
            Some(a) => a,
            None => {
                proof {
                    lemma_sum_values_prefix(v@, i + 1 as int);
                }
                return None;
            },
        };
        i = i + 1;
    }
    proof {
        assert(v@.take(v@.len() as int) =~= v@);
    }
    Some(acc)
}

/// Every prefix sum is at most the whole sum: values are not negative.
proof fn lemma_sum_values_prefix(s: Seq<UnblindedOutput>, i: int)
    requires
        0 <= i <= s.len(),
    ensures
        sum_values(s.take(i)) <= sum_values(s),
    decreases s.len() - i,
{
    if i < s.len() {
        assert(s.take(i + 1).drop_last() =~= s.take(i));
        assert(s.take(i + 1).last() == s[i]);
        lemma_sum_values_prefix(s, i + 1);
    } else {
        assert(s.take(i) =~= s);
    }
}

/// The balance that the given unspent outputs and pending transactions
/// describe: available funds are the sum of unspent values, pending
/// incoming and outgoing funds the sums over the pending records.  Nothing
/// is returned when a sum exceeds the largest representable amount.
pub fn balance_of(unspent: &Vec<UnblindedOutput>, pending: &Vec<PendingTransactionOutputs>) -> (r:
    Option<Balance>)
    ensures
        match r {
            Some(b) => {
                &&& b.available_balance == sum_values(unspent@)
                &&& b.pending_incoming_balance == sum_received(pending@)
                &&& b.pending_outgoing_balance == sum_spent(pending@)
            },
            None => sum_values(unspent@) > u64::MAX || sum_received(pending@) > u64::MAX
                || sum_spent(pending@) > u64::MAX,
        },
{
    let available_balance = match sum_outputs(unspent) {
        Some(a) => a,
        None => {
            return None;
        },
    };
    let mut pending_incoming: u64 = 0;
    let mut pending_outgoing: u64 = 0;
    let mut i: usize = 0;
    while i < pending.len()
        invariant
            i <= pending@.len(),
            pending_incoming == sum_received(pending@.take(i as int)),
            pending_outgoing == sum_spent(pending@.take(i as int)),
        decreases pending@.len() - i,
    {
        proof {
            assert(pending@.take(i + 1 as int).drop_last() =~= pending@.take(i as int));
            assert(pending@.take(i + 1 as int).last() == pending@[i as int]);
        }
        let received = match sum_outputs(&pending[i].outputs_to_be_received) {
            Some(a) => a,
            None => {
                proof {
                    lemma_sum_received_prefix(pending@, i + 1 as int);
                }
                return None;
            },
        };
        let spent = match sum_outputs(&pending[i].outputs_to_be_spent) {
            Some(a) => a,
            None => {
                proof {
                    lemma_sum_spent_prefix(pending@, i + 1 as int);
                }
                return None;
            },
        };
        pending_incoming = match pending_incoming.checked_add(received) {
            Some(a) => a,
            None => {
                proof {
                    lemma_sum_received_prefix(pending@, i + 1 as int);
                }
                return None;
            },
        };
        pending_outgoing = match pending_outgoing.checked_add(spent) {
            Some(a) => a,
            None => {
                proof {
                    lemma_sum_spent_prefix(pending@, i + 1 as int);
                }
                return None;
            },
        };
        i = i + 1;
    }
    proof {
        assert(pending@.take(pending@.len() as int) =~= pending@);
    }
    Some(
        Balance {
            available_balance,
            pending_incoming_balance: pending_incoming,
            pending_outgoing_balance: pending_outgoing,
        },
    )
}

/// Every prefix of the pending-incoming sum is at most the whole sum.
proof fn lemma_sum_received_prefix(s: Seq<PendingTransactionOutputs>, i: int)
    requires
        0 <= i <= s.len(),
    ensures
        sum_received(s.take(i)) <= sum_received(s),
    decreases s.len() - i,
{
    if i < s.len() {
        assert(s.take(i + 1).drop_last() =~= s.take(i));
        assert(s.take(i + 1).last() == s[i]);
        lemma_sum_values_nonneg(s[i].outputs_to_be_received@);
        lemma_sum_received_prefix(s, i + 1);
    } else {
        assert(s.take(i) =~= s);
    }
}

/// Every prefix of the pending-outgoing sum is at most the whole sum.
proof fn lemma_sum_spent_prefix(s: Seq<PendingTransactionOutputs>, i: int)
    requires
        0 <= i <= s.len(),
    ensures
        sum_spent(s.take(i)) <= sum_spent(s),
    decreases s.len() - i,
{
    if i < s.len() {
        assert(s.take(i + 1).drop_last() =~= s.take(i));
        assert(s.take(i + 1).last() == s[i]);
        lemma_sum_values_nonneg(s[i].outputs_to_be_spent@);
        lemma_sum_spent_prefix(s, i + 1);
    } else {
        assert(s.take(i) =~= s);
    }
}

/// A sum of output values is never negative.
proof fn lemma_sum_values_nonneg(s: Seq<UnblindedOutput>)
    ensures
        sum_values(s) >= 0,
    decreases s.len(),
{
    if s.len() > 0 {
        lemma_sum_values_nonneg(s.drop_last());
    }
}

/// Ordered by value, smallest first.
pub open spec fn sorted_by_value(s: Seq<UnblindedOutput>) -> bool {
    forall|i: int, j: int| 0 <= i < j < s.len() ==> #[trigger] s[i].value <= #[trigger] s[j].value
}

/// The outputs reordered by value, smallest first; exactly the same
/// outputs, as a multiset.
pub fn sort_outputs_by_value(outputs: Vec<UnblindedOutput>) -> (r: Vec<UnblindedOutput>)
    ensures
        sorted_by_value(r@),
        r@.to_multiset() == outputs@.to_multiset(),
{
    let ghost orig = outputs@;
    let mut rest = outputs;
    let mut out: Vec<UnblindedOutput> = Vec::new();
    proof {
        broadcast use vstd::seq_lib::group_to_multiset_ensures;

        assert(out@.to_multiset().add(rest@.to_multiset()) =~= orig.to_multiset());
    }
    while rest.len() > 0
        invariant
            sorted_by_value(out@),
            out@.to_multiset().add(rest@.to_multiset()) == orig.to_multiset(),
            forall|i: int, j: int|
                0 <= i < out@.len() && 0 <= j < rest@.len() ==> #[trigger] out@[i].value
                    <= #[trigger] rest@[j].value,
        decreases rest@.len(),
    {
        let mut m: usize = 0;
        let mut j: usize = 1;
        while j < rest.len()
            invariant
                m < j <= rest@.len(),
                rest@.len() > 0,
                forall|w: int| 0 <= w < j ==> rest@[m as int].value <= #[trigger] rest@[w].value,
            decreases rest@.len() - j,
        {
            if rest[j].value < rest[m].value {
                m = j;
            }
            j = j + 1;
        }
        let x = rest.remove(m);
        out.push(x);
        proof {
            broadcast use vstd::seq_lib::group_to_multiset_ensures;

            let prev_out = out@.drop_last();
            assert(prev_out.push(x) =~= out@);
            assert(out@.to_multiset() =~= prev_out.to_multiset().insert(x));
            assert(out@.to_multiset().add(rest@.to_multiset()) =~= orig.to_multiset()) by {
                assert(prev_out.to_multiset().insert(x).add(rest@.to_multiset())
                    =~= prev_out.to_multiset().add(rest@.to_multiset().insert(x)));
            }
        }
    }
    proof {
        broadcast use vstd::seq_lib::group_to_multiset_ensures;

        assert(rest@.to_multiset() =~= Multiset::<UnblindedOutput>::empty());
        assert(out@.to_multiset().add(rest@.to_multiset()) =~= out@.to_multiset());
    }
    out
}

/// The pending-transaction record an accepted incoming payment creates:
/// nothing to be spent, and one output to be received holding the amount
/// under the given key.
pub fn build_incoming_pending(
    tx_id: u64,
    amount: u64,
    spending_key: &Vec<u8>,
    features: OutputFeatures,
    timestamp: u64,
) -> (p: PendingTransactionOutputs)
    ensures
        p.tx_id == tx_id,
        p.outputs_to_be_spent@.len() == 0,
        p.outputs_to_be_received@.len() == 1,
        p.outputs_to_be_received@[0].value == amount,
        p.outputs_to_be_received@[0].spending_key@ == spending_key@,
        p.outputs_to_be_received@[0].features == features,
        p.timestamp == timestamp,
{
    let mut outputs_to_be_received: Vec<UnblindedOutput> = Vec::new();
    outputs_to_be_received.push(UnblindedOutput::new(amount, copy_bytes(spending_key), features));
    PendingTransactionOutputs {
        tx_id,
        outputs_to_be_spent: Vec::new(),
        outputs_to_be_received,
        timestamp,
    }
}

/// Relies on `std::time::SystemTime::now` for the current time, reported
/// as whole seconds since the epoch; a clock set before the epoch reports
/// zero, and no input makes the call panic.  Nothing is assumed of the
/// value: callers treat it as arbitrary.
#[verifier::external_body]
fn now_timestamp() -> u64 {
    match std::time::SystemTime::now().duration_since(std::time::UNIX_EPOCH) {
        Ok(elapsed) => elapsed.as_secs(),
        Err(_) => 0,
    }
}

/// An unexpected-shape failure for a query answered with the wrong value
/// variant.
fn unexpected_result<T>(req: DbKey, res: DbValue) -> (r: Result<T, OutputManagerStorageError>)
    ensures
        r matches Err(e) && e matches OutputManagerStorageError::UnexpectedResult(_),
{
    let msg = String::from_str("unexpected result for database query ").concat(
        req.describe().as_str(),
    ).concat(": ").concat(res.describe().as_str());
    Err(OutputManagerStorageError::UnexpectedResult(msg))
}

/// Passes a backend failure through unchanged; the failure concerns the
/// given key.
fn log_error<T>(_req: DbKey, err: OutputManagerStorageError) -> (r: Result<
    T,
    OutputManagerStorageError,
>)
    ensures
        r matches Err(e) && e == err,
{
    Err(err)
}

/// The access logic the output-manager service uses, built on a
/// caller-supplied backend.
pub struct OutputManagerDatabase<T: OutputManagerBackend> {
    db: T,
}

impl<T: OutputManagerBackend> OutputManagerDatabase<T> {
    pub fn new(db: T) -> Self {
        OutputManagerDatabase { db }
    }

    pub fn get_key_manager_state(&self) -> Result<Option<KeyManagerState>, OutputManagerStorageError> {
        match self.db.fetch(&DbKey::KeyManagerState) {
            Ok(None) => Ok(None),
            Ok(Some(DbValue::KeyManagerState(c))) => Ok(Some(c)),
            Ok(Some(other)) => unexpected_result(DbKey::KeyManagerState, other),
            Err(e) => log_error(DbKey::KeyManagerState, e),
        }
    }

    pub fn set_key_manager_state(&mut self, state: KeyManagerState) -> Result<
        (),
        OutputManagerStorageError,
    > {
        match self.db.write(WriteOperation::Insert(DbKeyValuePair::KeyManagerState(state))) {
            Ok(_) => Ok(()),
            Err(e) => Err(e),
        }
    }

    pub fn increment_key_index(&mut self) -> Result<(), OutputManagerStorageError> {
        match self.db.increment_key_index() {
            Ok(()) => Ok(()),
            Err(e) => Err(e),
        }
    }

    pub fn add_unspent_output(&mut self, output: UnblindedOutput) -> Result<
        (),
        OutputManagerStorageError,
    > {
        let key = copy_bytes(&output.spending_key);
        match self.db.write(
            WriteOperation::Insert(DbKeyValuePair::UnspentOutput(key, Box::new(output))),
        ) {
            Ok(_) => Ok(()),
            Err(e) => Err(e),
        }
    }

    /// Fetches the unspent outputs and all pending transactions and sums
    /// them into a balance with `balance_of`; a backend answer of the
    /// wrong shape, or a sum beyond the largest representable amount, is
    /// an unexpected result.
    pub fn get_balance(&self) -> Result<Balance, OutputManagerStorageError> {
        let pending_txs = match self.db.fetch(&DbKey::AllPendingTransactionOutputs) {
            Ok(Some(v)) => v,
            Ok(None) => {
                return Err(
                    OutputManagerStorageError::UnexpectedResult(
                        String::from_str("pending transaction outputs cannot be retrieved"),
                    ),
                );
            },
            Err(e) => {
                return Err(e);
            },
        };
        let unspent_outputs = match self.db.fetch(&DbKey::UnspentOutputs) {
            Ok(Some(v)) => v,
            Ok(None) => {
                return Err(
                    OutputManagerStorageError::UnexpectedResult(
                        String::from_str("unspent outputs cannot be retrieved"),
                    ),
                );
            },
            Err(e) => {
                return Err(e);
            },
        };
        match (unspent_outputs, pending_txs) {
            (DbValue::UnspentOutputs(uo), DbValue::AllPendingTransactionOutputs(pto)) => {
                match balance_of(&uo, &pto) {
                    Some(b) => Ok(b),
                    None => Err(
                        OutputManagerStorageError::UnexpectedResult(
                            String::from_str("balance exceeds the representable amount"),
                        ),
                    ),
                }
            },
            _ => Err(
                OutputManagerStorageError::UnexpectedResult(
                    String::from_str("unexpected result from database backend"),
                ),
            ),
        }
    }

    pub fn add_pending_transaction_outputs(
        &mut self,
        pending_transaction_outputs: PendingTransactionOutputs,
    ) -> Result<(), OutputManagerStorageError> {
        let tx_id = pending_transaction_outputs.tx_id;
        match self.db.write(
            WriteOperation::Insert(
                DbKeyValuePair::PendingTransactionOutputs(
                    tx_id,
                    Box::new(pending_transaction_outputs),
                ),
            ),
        ) {
            Ok(_) => Ok(()),
            Err(e) => Err(e),
        }
    }

    pub fn fetch_pending_transaction_outputs(&self, tx_id: u64) -> Result<
        PendingTransactionOutputs,
        OutputManagerStorageError,
    > {
        match self.db.fetch(&DbKey::PendingTransactionOutputs(tx_id)) {
            Ok(None) => Err(
                OutputManagerStorageError::ValueNotFound(
                    DbKey::PendingTransactionOutputs(tx_id).describe(),
                ),
            ),
            Ok(Some(DbValue::PendingTransactionOutputs(k))) => Ok(*k),
            Ok(Some(other)) => unexpected_result(DbKey::PendingTransactionOutputs(tx_id), other),
            Err(e) => log_error(DbKey::PendingTransactionOutputs(tx_id), e),
        }
    }

    /// Confirms a pending transaction: the backend moves its outputs into
    /// the unspent and spent collections.
    pub fn confirm_pending_transaction_outputs(&mut self, tx_id: u64) -> Result<
        (),
        OutputManagerStorageError,
    > {
        self.db.confirm_transaction(tx_id)
    }

    /// Accepts an incoming pending transaction: stores a pending record
    /// with one output to be received, stamped with the current time.
    pub fn accept_incoming_pending_transaction(
        &mut self,
        tx_id: u64,
        amount: u64,
        spending_key: &Vec<u8>,
        output_features: OutputFeatures,
    ) -> Result<(), OutputManagerStorageError> {
        let timestamp = now_timestamp();
        let record = build_incoming_pending(tx_id, amount, spending_key, output_features, timestamp);
        match self.db.write(
            WriteOperation::Insert(DbKeyValuePair::PendingTransactionOutputs(tx_id, Box::new(record))),
        ) {
            Ok(_) => Ok(()),
            Err(e) => Err(e),
        }
    }

    /// Encumbers unspent outputs against a transaction being built.
    pub fn encumber_outputs(
        &mut self,
        tx_id: u64,
        outputs_to_send: &Vec<UnblindedOutput>,
        change_output: Option<UnblindedOutput>,
    ) -> Result<(), OutputManagerStorageError> {
        self.db.encumber_outputs(tx_id, outputs_to_send, change_output)
    }

    /// Cancels a pending transaction: the backend moves its encumbered
    /// outputs back to unspent.
    pub fn cancel_pending_transaction_outputs(&mut self, tx_id: u64) -> Result<
        (),
        OutputManagerStorageError,
    > {
        self.db.cancel_pending_transaction(tx_id)
    }

    /// Cancels every pending transaction older than the given age in
    /// seconds.
    pub fn timeout_pending_transaction_outputs(&mut self, period_secs: u64) -> Result<
        (),
        OutputManagerStorageError,
    > {
        self.db.timeout_pending_transactions(period_secs)
    }

    /// The unspent outputs, ordered by value, smallest first.
    pub fn fetch_sorted_unspent_outputs(&self) -> Result<
        Vec<UnblindedOutput>,
        OutputManagerStorageError,
    > {
        let uo = match self.db.fetch(&DbKey::UnspentOutputs) {
            Ok(None) => {
                return log_error(
                    DbKey::UnspentOutputs,
                    OutputManagerStorageError::UnexpectedResult(
                        String::from_str("could not retrieve unspent outputs"),
                    ),
                );
            },
            Ok(Some(DbValue::UnspentOutputs(uo))) => uo,
            Ok(Some(other)) => {
                return unexpected_result(DbKey::UnspentOutputs, other);
            },
            Err(e) => {
                return log_error(DbKey::UnspentOutputs, e);
            },
        };
        Ok(sort_outputs_by_value(uo))
    }

    /// The spent outputs, in backend order.
    pub fn fetch_spent_outputs(&self) -> Result<Vec<UnblindedOutput>, OutputManagerStorageError> {
        match self.db.fetch(&DbKey::SpentOutputs) {
            Ok(None) => log_error(
                DbKey::SpentOutputs,
                OutputManagerStorageError::UnexpectedResult(
                    String::from_str("could not retrieve spent outputs"),
                ),
            ),
            Ok(Some(DbValue::SpentOutputs(uo))) => Ok(uo),
            Ok(Some(other)) => unexpected_result(DbKey::SpentOutputs, other),
            Err(e) => log_error(DbKey::SpentOutputs, e),
        }
    }

    /// All pending transaction records, in backend order.
    pub fn fetch_all_pending_transaction_outputs(&self) -> Result<
        Vec<PendingTransactionOutputs>,
        OutputManagerStorageError,
    > {
        match self.db.fetch(&DbKey::AllPendingTransactionOutputs) {
            Ok(None) => log_error(
                DbKey::AllPendingTransactionOutputs,
                OutputManagerStorageError::UnexpectedResult(
                    String::from_str("could not retrieve pending transaction outputs"),
                ),
            ),
            Ok(Some(DbValue::AllPendingTransactionOutputs(pt))) => Ok(pt),
            Ok(Some(other)) => unexpected_result(DbKey::AllPendingTransactionOutputs, other),
            Err(e) => log_error(DbKey::AllPendingTransactionOutputs, e),
        }
    }
}

} // verus!
