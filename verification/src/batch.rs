//! The tracking data model: batches, transactions, receipts, statuses and
//! submission errors, together with their mathematical views and the builders
//! that construct them.

use vstd::prelude::*;

use crate::error::BatchBuilderError;

verus! {

// ---------------------------------------------------------------------------
// Mathematical model
//
// Each executable type below has a spec-level counterpart whose fields are
// sequences and unbounded integers.  All contracts in this crate are stated
// over these models, reached through `View`.
// ---------------------------------------------------------------------------

/// Model of one signed transaction within a batch.
pub struct TransactionModel {
    pub transaction_id: Seq<char>,
    pub family_name: Seq<char>,
    pub family_version: Seq<char>,
    pub payload_hash_method: Seq<char>,
    pub payload: Seq<u8>,
    pub inputs: Seq<Seq<char>>,
    pub outputs: Seq<Seq<char>>,
    pub dependencies: Seq<Seq<char>>,
    pub nonce: Seq<char>,
}

/// Model of a ledger-reported outcome for one transaction.
pub struct ReceiptModel {
    pub transaction_id: Seq<char>,
    pub result_valid: bool,
    pub error_message: Option<Seq<char>>,
    pub error_data: Option<Seq<u8>>,
    pub serialized_receipt: Seq<char>,
}

/// Model of the per-transaction detail carried by an `Invalid` status.
pub struct InvalidTransactionModel {
    pub transaction_id: Seq<char>,
    pub error_message: Seq<char>,
    pub error_data: Seq<u8>,
}

/// Model of the per-transaction detail carried by a `Valid` status.
pub struct ValidTransactionModel {
    pub transaction_id: Seq<char>,
}

/// Model of a submission error.
pub struct SubmissionErrorModel {
    pub error_type: Seq<char>,
    pub error_message: Seq<char>,
}

/// Model of a batch status: a tagged variant, where the terminal variants
/// carry their per-transaction validation detail.
pub enum StatusModel {
    Unknown,
    Pending,
    Valid(Seq<ValidTransactionModel>),
    Invalid(Seq<InvalidTransactionModel>),
}

/// Model of one tracked batch.
pub struct BatchModel {
    pub batch_header: Seq<char>,
    pub data_change_id: Option<Seq<char>>,
    pub service_id: Seq<char>,
    pub signer_public_key: Seq<char>,
    pub submitted: bool,
    pub created_at: int,
    pub transactions: Seq<TransactionModel>,
    pub batch_status: StatusModel,
    pub submission_error: Option<SubmissionErrorModel>,
    pub transaction_receipts: Seq<ReceiptModel>,
}

/// A lookup key of this shape addresses a batch by its `data_change_id`
/// rather than by its `batch_header`.
pub open spec fn is_data_change_key(id: Seq<char>) -> bool {
    id.len() >= 5 && id.subrange(0, 5) == "dcid:"@
}

/// Whether `id` is shaped like a data change id, that is, carries the
/// `dcid:` prefix.
#[verifier::loop_isolation(false)]
pub fn id_is_data_change_key(id: &str) -> (r: bool)
    ensures
        r == is_data_change_key(id@),
{
    proof {
        reveal_strlit("dcid:");
    }
    if id.unicode_len() < 5 {
        return false;
    }
    let r = id.get_char(0) == 'd' && id.get_char(1) == 'c' && id.get_char(2) == 'i' && id.get_char(
        3,
    ) == 'd' && id.get_char(4) == ':';
    proof {
        let pre = id@.subrange(0, 5);
        assert(pre.len() == 5);
        assert(pre[0] == id@[0] && pre[1] == id@[1] && pre[2] == id@[2] && pre[3] == id@[3]
            && pre[4] == id@[4]);
        if r {
            assert(pre =~= "dcid:"@);
        } else {
            assert(pre != "dcid:"@);
        }
    }
    r
}

/// Two statuses agree on their tag, disregarding any per-transaction detail.
pub open spec fn same_status_tag(a: StatusModel, b: StatusModel) -> bool {
    match (a, b) {
        (StatusModel::Unknown, StatusModel::Unknown) => true,
        (StatusModel::Pending, StatusModel::Pending) => true,
        (StatusModel::Valid(_), StatusModel::Valid(_)) => true,
        (StatusModel::Invalid(_), StatusModel::Invalid(_)) => true,
        _ => false,
    }
}

// ---------------------------------------------------------------------------
// Executable types
// ---------------------------------------------------------------------------

/// One signed operation within a batch.  Immutable once the batch is added.
#[derive(Debug, PartialEq, Eq)]
pub struct TrackingTransaction {
    pub transaction_id: String,
    pub family_name: String,
    pub family_version: String,
    pub payload_hash_method: String,
    pub payload: Vec<u8>,
    pub inputs: Vec<String>,
    pub outputs: Vec<String>,
    pub dependencies: Vec<String>,
    pub nonce: String,
}

impl View for TrackingTransaction {
    type V = TransactionModel;

    open spec fn view(&self) -> TransactionModel {
        TransactionModel {
            transaction_id: self.transaction_id@,
            family_name: self.family_name@,
            family_version: self.family_version@,
            payload_hash_method: self.payload_hash_method@,
            payload: self.payload@,
            inputs: self.inputs.deep_view(),
            outputs: self.outputs.deep_view(),
            dependencies: self.dependencies.deep_view(),
            nonce: self.nonce@,
        }
    }
}

impl DeepView for TrackingTransaction {
    type V = TransactionModel;

    open spec fn deep_view(&self) -> TransactionModel {
        self@
    }
}

/// A ledger-reported outcome for one transaction within a batch.
#[derive(Debug, PartialEq, Eq)]
pub struct TransactionReceipt {
    pub transaction_id: String,
    pub result_valid: bool,
    pub error_message: Option<String>,
    pub error_data: Option<Vec<u8>>,
    pub serialized_receipt: String,
}

impl View for TransactionReceipt {
    type V = ReceiptModel;

    open spec fn view(&self) -> ReceiptModel {
        ReceiptModel {
            transaction_id: self.transaction_id@,
            result_valid: self.result_valid,
            error_message: self.error_message.deep_view(),
            error_data: self.error_data.deep_view(),
            serialized_receipt: self.serialized_receipt@,
        }
    }
}

impl DeepView for TransactionReceipt {
    type V = ReceiptModel;

    open spec fn deep_view(&self) -> ReceiptModel {
        self@
    }
}

/// Per-transaction validation detail embedded in an `Invalid` status.
#[derive(Debug, PartialEq, Eq)]
pub struct InvalidTransaction {
    pub transaction_id: String,
    pub error_message: String,
    pub error_data: Vec<u8>,
}

impl View for InvalidTransaction {
    type V = InvalidTransactionModel;

    open spec fn view(&self) -> InvalidTransactionModel {
        InvalidTransactionModel {
            transaction_id: self.transaction_id@,
            error_message: self.error_message@,
            error_data: self.error_data@,
        }
    }
}

impl DeepView for InvalidTransaction {
    type V = InvalidTransactionModel;

    open spec fn deep_view(&self) -> InvalidTransactionModel {
        self@
    }
}

/// Per-transaction validation detail embedded in a `Valid` status.
#[derive(Debug, PartialEq, Eq)]
pub struct ValidTransaction {
    pub transaction_id: String,
}

impl View for ValidTransaction {
    type V = ValidTransactionModel;

    open spec fn view(&self) -> ValidTransactionModel {
        ValidTransactionModel { transaction_id: self.transaction_id@ }
    }
}

impl DeepView for ValidTransaction {
    type V = ValidTransactionModel;

    open spec fn deep_view(&self) -> ValidTransactionModel {
        self@
    }
}

/// A submission error recorded against a batch.
#[derive(Debug, PartialEq, Eq)]
pub struct SubmissionError {
    pub error_type: String,
    pub error_message: String,
}

impl View for SubmissionError {
    type V = SubmissionErrorModel;

    open spec fn view(&self) -> SubmissionErrorModel {
        SubmissionErrorModel {
            error_type: self.error_type@,
            error_message: self.error_message@,
        }
    }
}

impl DeepView for SubmissionError {
    type V = SubmissionErrorModel;

    open spec fn deep_view(&self) -> SubmissionErrorModel {
        self@
    }
}

/// The lifecycle status of a batch: `Unknown` at intake, `Pending` once the
/// ledger accepted it for validation, then `Valid` or `Invalid` with the
/// per-transaction outcome.
#[derive(Debug, PartialEq, Eq)]
pub enum BatchStatus {
    Unknown,
    Pending,
    Valid(Vec<ValidTransaction>),
    Invalid(Vec<InvalidTransaction>),
}

impl View for BatchStatus {
    type V = StatusModel;

    open spec fn view(&self) -> StatusModel {
        match self {
            BatchStatus::Unknown => StatusModel::Unknown,
            BatchStatus::Pending => StatusModel::Pending,
            BatchStatus::Valid(v) => StatusModel::Valid(v.deep_view()),
            BatchStatus::Invalid(v) => StatusModel::Invalid(v.deep_view()),
        }
    }
}

impl DeepView for BatchStatus {
    type V = StatusModel;

    open spec fn deep_view(&self) -> StatusModel {
        self@
    }
}

/// The store's durable record of one batch and its tracking metadata.
#[derive(Debug, PartialEq, Eq)]
pub struct TrackingBatch {
    pub batch_header: String,
    pub data_change_id: Option<String>,
    pub service_id: String,
    pub signer_public_key: String,
    pub submitted: bool,
    pub created_at: i64,
    pub transactions: Vec<TrackingTransaction>,
    pub batch_status: BatchStatus,
    pub submission_error: Option<SubmissionError>,
    pub transaction_receipts: Vec<TransactionReceipt>,
}

impl View for TrackingBatch {
    type V = BatchModel;

    open spec fn view(&self) -> BatchModel {
        BatchModel {
            batch_header: self.batch_header@,
            data_change_id: self.data_change_id.deep_view(),
            service_id: self.service_id@,
            signer_public_key: self.signer_public_key@,
            submitted: self.submitted,
            created_at: self.created_at as int,
            transactions: self.transactions.deep_view(),
            batch_status: self.batch_status@,
            submission_error: self.submission_error.deep_view(),
            transaction_receipts: self.transaction_receipts.deep_view(),
        }
    }
}

impl DeepView for TrackingBatch {
    type V = BatchModel;

    open spec fn deep_view(&self) -> BatchModel {
        self@
    }
}

/// A list of tracked batches, as returned by the listing operations.
#[derive(Debug, PartialEq, Eq)]
pub struct TrackingBatchList {
    pub batches: Vec<TrackingBatch>,
}

impl View for TrackingBatchList {
    type V = Seq<BatchModel>;

    open spec fn view(&self) -> Seq<BatchModel> {
        self.batches.deep_view()
    }
}

// ---------------------------------------------------------------------------
// Cloning
//
// The store hands out copies of what it keeps, so every type carries a
// `Clone` whose contract says that the copy has the same model.
// ---------------------------------------------------------------------------

pub(crate) fn clone_string_vec(v: &Vec<String>) -> (res: Vec<String>)
    ensures
        res@ == v@,
        res.deep_view() == v.deep_view(),
{
    let mut res: Vec<String> = Vec::new();
    let mut i: usize = 0;
    while i < v.len()
        invariant
            i <= v.len(),
            res@ == v@.subrange(0, i as int),
        decreases v.len() - i,
    {
        res.push(v[i].clone());
        proof {
            assert(res@ =~= v@.subrange(0, i + 1));
        }
        i += 1;
    }
    proof {
        assert(res@ =~= v@);
        assert(res.deep_view() =~= v.deep_view());
    }
    res
}

pub(crate) fn clone_byte_vec(v: &Vec<u8>) -> (res: Vec<u8>)
    ensures
        res@ == v@,
{
    let mut res: Vec<u8> = Vec::new();
    let mut i: usize = 0;
    while i < v.len()
        invariant
            i <= v.len(),
            res@ == v@.subrange(0, i as int),
        decreases v.len() - i,
    {
        res.push(v[i]);
        proof {
            assert(res@ =~= v@.subrange(0, i + 1));
        }
        i += 1;
    }
    proof {
        assert(res@ =~= v@);
    }
    res
}

pub(crate) fn clone_opt_string(v: &Option<String>) -> (res: Option<String>)
    ensures
        res.deep_view() == v.deep_view(),
{
    match v {
        Some(s) => Some(s.clone()),
        None => None,
    }
}

pub(crate) fn clone_opt_byte_vec(v: &Option<Vec<u8>>) -> (res: Option<Vec<u8>>)
    ensures
        res.deep_view() == v.deep_view(),
{
    match v {
        Some(s) => Some(clone_byte_vec(s)),
        None => None,
    }
}

impl Clone for TrackingTransaction {
    fn clone(&self) -> (res: Self)
        ensures
            res@ == self@,
    {
        TrackingTransaction {
            transaction_id: self.transaction_id.clone(),
            family_name: self.family_name.clone(),
            family_version: self.family_version.clone(),
            payload_hash_method: self.payload_hash_method.clone(),
            payload: clone_byte_vec(&self.payload),
            inputs: clone_string_vec(&self.inputs),
            outputs: clone_string_vec(&self.outputs),
            dependencies: clone_string_vec(&self.dependencies),
            nonce: self.nonce.clone(),
        }
    }
}

impl Clone for TransactionReceipt {
    fn clone(&self) -> (res: Self)
        ensures
            res@ == self@,
    {
        TransactionReceipt {
            transaction_id: self.transaction_id.clone(),
            result_valid: self.result_valid,
            error_message: clone_opt_string(&self.error_message),
            error_data: clone_opt_byte_vec(&self.error_data),
            serialized_receipt: self.serialized_receipt.clone(),
        }
    }
}

impl Clone for InvalidTransaction {
    fn clone(&self) -> (res: Self)
        ensures
            res@ == self@,
    {
        InvalidTransaction {
            transaction_id: self.transaction_id.clone(),
            error_message: self.error_message.clone(),
            error_data: clone_byte_vec(&self.error_data),
        }
    }
}

impl Clone for ValidTransaction {
    fn clone(&self) -> (res: Self)
        ensures
            res@ == self@,
    {
        ValidTransaction { transaction_id: self.transaction_id.clone() }
    }
}

impl Clone for SubmissionError {
    fn clone(&self) -> (res: Self)
        ensures
            res@ == self@,
    {
        SubmissionError {
            error_type: self.error_type.clone(),
            error_message: self.error_message.clone(),
        }
    }
}

pub(crate) fn clone_transaction_vec(v: &Vec<TrackingTransaction>) -> (res: Vec<TrackingTransaction>)
    ensures
        res.deep_view() == v.deep_view(),
{
    let mut res: Vec<TrackingTransaction> = Vec::new();
    let mut i: usize = 0;
    while i < v.len()
        invariant
            i <= v.len(),
            res.len() == i,
            forall|k: int| 0 <= k < i as int ==> res@[k]@ == v@[k]@,
        decreases v.len() - i,
    {
        res.push(v[i].clone());
        i += 1;
    }
    proof {
        assert forall|k: int| 0 <= k < v@.len() implies res.deep_view()[k] == v.deep_view()[k] by {
            assert(res@[k]@ == v@[k]@);
        }
        assert(res.deep_view() =~= v.deep_view());
    }
    res
}

pub(crate) fn clone_receipt_vec(v: &Vec<TransactionReceipt>) -> (res: Vec<TransactionReceipt>)
    ensures
        res.deep_view() == v.deep_view(),
{
    let mut res: Vec<TransactionReceipt> = Vec::new();
    let mut i: usize = 0;
    while i < v.len()
        invariant
            i <= v.len(),
            res.len() == i,
            forall|k: int| 0 <= k < i as int ==> res@[k]@ == v@[k]@,
        decreases v.len() - i,
    {
        res.push(v[i].clone());
        i += 1;
    }
    proof {
        assert forall|k: int| 0 <= k < v@.len() implies res.deep_view()[k] == v.deep_view()[k] by {
            assert(res@[k]@ == v@[k]@);
        }
        assert(res.deep_view() =~= v.deep_view());
    }
    res
}

pub(crate) fn clone_invalid_vec(v: &Vec<InvalidTransaction>) -> (res: Vec<InvalidTransaction>)
    ensures
        res.deep_view() == v.deep_view(),
{
    let mut res: Vec<InvalidTransaction> = Vec::new();
    let mut i: usize = 0;
    while i < v.len()
        invariant
            i <= v.len(),
            res.len() == i,
            forall|k: int| 0 <= k < i as int ==> res@[k]@ == v@[k]@,
        decreases v.len() - i,
    {
        res.push(v[i].clone());
        i += 1;
    }
    proof {
        assert forall|k: int| 0 <= k < v@.len() implies res.deep_view()[k] == v.deep_view()[k] by {
            assert(res@[k]@ == v@[k]@);
        }
        assert(res.deep_view() =~= v.deep_view());
    }
    res
}

pub(crate) fn clone_valid_vec(v: &Vec<ValidTransaction>) -> (res: Vec<ValidTransaction>)
    ensures
        res.deep_view() == v.deep_view(),
{
    let mut res: Vec<ValidTransaction> = Vec::new();
    let mut i: usize = 0;
    while i < v.len()
        invariant
            i <= v.len(),
            res.len() == i,
            forall|k: int| 0 <= k < i as int ==> res@[k]@ == v@[k]@,
        decreases v.len() - i,
    {
        res.push(v[i].clone());
        i += 1;
    }
    proof {
        assert forall|k: int| 0 <= k < v@.len() implies res.deep_view()[k] == v.deep_view()[k] by {
            assert(res@[k]@ == v@[k]@);
        }
        assert(res.deep_view() =~= v.deep_view());
    }
    res
}

pub(crate) fn clone_opt_submission_error(v: &Option<SubmissionError>) -> (res: Option<
    SubmissionError,
>)
    ensures
        res.deep_view() == v.deep_view(),
{
    match v {
        Some(e) => Some(e.clone()),
        None => None,
    }
}

impl Clone for BatchStatus {
    fn clone(&self) -> (res: Self)
        ensures
            res@ == self@,
    {
        match self {
            BatchStatus::Unknown => BatchStatus::Unknown,
            BatchStatus::Pending => BatchStatus::Pending,
            BatchStatus::Valid(v) => BatchStatus::Valid(clone_valid_vec(v)),
            BatchStatus::Invalid(v) => BatchStatus::Invalid(clone_invalid_vec(v)),
        }
    }
}

impl Clone for TrackingBatch {
    fn clone(&self) -> (res: Self)
        ensures
            res@ == self@,
    {
        TrackingBatch {
            batch_header: self.batch_header.clone(),
            data_change_id: clone_opt_string(&self.data_change_id),
            service_id: self.service_id.clone(),
            signer_public_key: self.signer_public_key.clone(),
            submitted: self.submitted,
            created_at: self.created_at,
            transactions: clone_transaction_vec(&self.transactions),
            batch_status: self.batch_status.clone(),
            submission_error: match &self.submission_error {
                Some(e) => Some(e.clone()),
                None => None,
            },
            transaction_receipts: clone_receipt_vec(&self.transaction_receipts),
        }
    }
}


// ---------------------------------------------------------------------------
// Getters
// ---------------------------------------------------------------------------

impl TrackingBatch {
    /// The content-derived identifier of the batch.
    pub fn batch_header(&self) -> (r: String)
        ensures
            r@ == self@.batch_header,
    {
        self.batch_header.clone()
    }

    /// The secondary data change id, when one was assigned.
    pub fn data_change_id(&self) -> (r: Option<String>)
        ensures
            r.deep_view() == self@.data_change_id,
    {
        clone_opt_string(&self.data_change_id)
    }

    /// The service that owns the batch.
    pub fn service_id(&self) -> (r: String)
        ensures
            r@ == self@.service_id,
    {
        self.service_id.clone()
    }

    /// The public key of the batch's signer.
    pub fn signer_public_key(&self) -> (r: String)
        ensures
            r@ == self@.signer_public_key,
    {
        self.signer_public_key.clone()
    }

    /// Whether the batch has been marked submitted.
    pub fn submitted(&self) -> (r: bool)
        ensures
            r == self@.submitted,
    {
        self.submitted
    }

    /// The stamp assigned by the store when the batch was added.
    pub fn created_at(&self) -> (r: i64)
        ensures
            r as int == self@.created_at,
    {
        self.created_at
    }

    /// The batch's transactions, fixed at insertion.
    pub fn transactions(&self) -> (r: &Vec<TrackingTransaction>)
        ensures
            r.deep_view() == self@.transactions,
    {
        &self.transactions
    }

    /// The batch's current status.
    pub fn batch_status(&self) -> (r: &BatchStatus)
        ensures
            r@ == self@.batch_status,
    {
        &self.batch_status
    }

    /// The submission error recorded against the batch, if any.
    pub fn submission_error(&self) -> (r: &Option<SubmissionError>)
        ensures
            r.deep_view() == self@.submission_error,
    {
        &self.submission_error
    }

    /// The receipts recorded against the batch, in recording order.
    pub fn transaction_receipts(&self) -> (r: &Vec<TransactionReceipt>)
        ensures
            r.deep_view() == self@.transaction_receipts,
    {
        &self.transaction_receipts
    }
}

impl SubmissionError {
    /// The kind of the submission error.
    pub fn error_type(&self) -> (r: String)
        ensures
            r@ == self@.error_type,
    {
        self.error_type.clone()
    }

    /// The message of the submission error.
    pub fn error_message(&self) -> (r: String)
        ensures
            r@ == self@.error_message,
    {
        self.error_message.clone()
    }
}

// ---------------------------------------------------------------------------
// Builders
// ---------------------------------------------------------------------------

/// The data change id, when present, carries the `dcid:` prefix.
pub open spec fn data_change_id_ok(d: Option<String>) -> bool {
    match d {
        Some(x) => is_data_change_key(x@),
        None => true,
    }
}

/// Builds a `TrackingBatch`.  Every field defaults to its empty value, the
/// status to `Unknown` and the flag to unsubmitted; `build` rejects a
/// malformed data change id before the batch can reach the store.
pub struct TrackingBatchBuilder {
    pub batch_header: String,
    pub data_change_id: Option<String>,
    pub service_id: String,
    pub signer_public_key: String,
    pub submitted: bool,
    pub created_at: i64,
    pub transactions: Vec<TrackingTransaction>,
    pub batch_status: BatchStatus,
    pub submission_error: Option<SubmissionError>,
    pub transaction_receipts: Vec<TransactionReceipt>,
}

/// The batch a `TrackingBatchBuilder` describes.
pub open spec fn built_batch(b: TrackingBatchBuilder) -> BatchModel {
    BatchModel {
        batch_header: b.batch_header@,
        data_change_id: b.data_change_id.deep_view(),
        service_id: b.service_id@,
        signer_public_key: b.signer_public_key@,
        submitted: b.submitted,
        created_at: b.created_at as int,
        transactions: b.transactions.deep_view(),
        batch_status: b.batch_status@,
        submission_error: b.submission_error.deep_view(),
        transaction_receipts: b.transaction_receipts.deep_view(),
    }
}

impl Default for TrackingBatchBuilder {
    fn default() -> (r: Self)
        ensures
            r.batch_header@ == Seq::<char>::empty(),
            r.data_change_id is None,
            r.service_id@ == Seq::<char>::empty(),
            r.signer_public_key@ == Seq::<char>::empty(),
            r.submitted == false,
            r.created_at == 0,
            r.transactions@ == Seq::<TrackingTransaction>::empty(),
            r.batch_status is Unknown,
            r.submission_error is None,
            r.transaction_receipts@ == Seq::<TransactionReceipt>::empty(),
    {
        TrackingBatchBuilder {
            batch_header: String::new(),
            data_change_id: None,
            service_id: String::new(),
            signer_public_key: String::new(),
            submitted: false,
            created_at: 0,
            transactions: Vec::new(),
            batch_status: BatchStatus::Unknown,
            submission_error: None,
            transaction_receipts: Vec::new(),
        }
    }
}

impl TrackingBatchBuilder {
    /// Sets the batch header.
    pub fn with_batch_header(self, batch_header: String) -> (r: Self)
        ensures
            r == (TrackingBatchBuilder { batch_header, ..self }),
    {
        TrackingBatchBuilder { batch_header, ..self }
    }

    /// Sets the secondary data change id.
    pub fn with_data_change_id(self, data_change_id: String) -> (r: Self)
        ensures
            r == (TrackingBatchBuilder { data_change_id: Some(data_change_id), ..self }),
    {
        TrackingBatchBuilder { data_change_id: Some(data_change_id), ..self }
    }

    /// Sets the owning service.
    pub fn with_service_id(self, service_id: String) -> (r: Self)
        ensures
            r == (TrackingBatchBuilder { service_id, ..self }),
    {
        TrackingBatchBuilder { service_id, ..self }
    }

    /// Sets the signer's public key.
    pub fn with_signer_public_key(self, signer_public_key: String) -> (r: Self)
        ensures
            r == (TrackingBatchBuilder { signer_public_key, ..self }),
    {
        TrackingBatchBuilder { signer_public_key, ..self }
    }

    /// Sets the submitted flag.
    pub fn with_submitted(self, submitted: bool) -> (r: Self)
        ensures
            r == (TrackingBatchBuilder { submitted, ..self }),
    {
        TrackingBatchBuilder { submitted, ..self }
    }

    /// Sets the creation stamp; the store overwrites it at insertion.
    pub fn with_created_at(self, created_at: i64) -> (r: Self)
        ensures
            r == (TrackingBatchBuilder { created_at, ..self }),
    {
        TrackingBatchBuilder { created_at, ..self }
    }

    /// Sets the batch's transactions.
    pub fn with_transactions(self, transactions: Vec<TrackingTransaction>) -> (r: Self)
        ensures
            r == (TrackingBatchBuilder { transactions, ..self }),
    {
        TrackingBatchBuilder { transactions, ..self }
    }

    /// Sets the batch status.
    pub fn with_batch_status(self, batch_status: BatchStatus) -> (r: Self)
        ensures
            r == (TrackingBatchBuilder { batch_status, ..self }),
    {
        TrackingBatchBuilder { batch_status, ..self }
    }

    /// Sets the submission error.
    pub fn with_submission_error(self, submission_error: SubmissionError) -> (r: Self)
        ensures
            r == (TrackingBatchBuilder { submission_error: Some(submission_error), ..self }),
    {
        TrackingBatchBuilder { submission_error: Some(submission_error), ..self }
    }

    /// Sets the recorded receipts.
    pub fn with_transaction_receipts(self, transaction_receipts: Vec<TransactionReceipt>) -> (r:
        Self)
        ensures
            r == (TrackingBatchBuilder { transaction_receipts, ..self }),
    {
        TrackingBatchBuilder { transaction_receipts, ..self }
    }

    /// Builds the batch, rejecting a data change id that does not carry the
    /// `dcid:` prefix.
    pub fn build(self) -> (r: Result<TrackingBatch, BatchBuilderError>)
        ensures
            if data_change_id_ok(self.data_change_id) {
                r matches Ok(b) && b@ == built_batch(self)
            } else {
                r matches Err(BatchBuilderError::MissingRequiredField(m)) && m@
                    == "data change IDs must be formatted as 'dcid:<id>'"@
            },
    {
        let well_formed = match &self.data_change_id {
            Some(d) => id_is_data_change_key(d.as_str()),
            None => true,
        };
        if !well_formed {
            return Err(
                BatchBuilderError::MissingRequiredField(
                    String::from_str("data change IDs must be formatted as 'dcid:<id>'"),
                ),
            );
        }
        Ok(
            TrackingBatch {
                batch_header: self.batch_header,
                data_change_id: self.data_change_id,
                service_id: self.service_id,
                signer_public_key: self.signer_public_key,
                submitted: self.submitted,
                created_at: self.created_at,
                transactions: self.transactions,
                batch_status: self.batch_status,
                submission_error: self.submission_error,
                transaction_receipts: self.transaction_receipts,
            },
        )
    }
}

/// Builds a `TrackingTransaction`; the transaction id is required.
pub struct TrackingTransactionBuilder {
    pub transaction_id: String,
    pub family_name: String,
    pub family_version: String,
    pub payload_hash_method: String,
    pub payload: Vec<u8>,
    pub inputs: Vec<String>,
    pub outputs: Vec<String>,
    pub dependencies: Vec<String>,
    pub nonce: String,
}

/// The transaction a `TrackingTransactionBuilder` describes.
pub open spec fn built_transaction(b: TrackingTransactionBuilder) -> TransactionModel {
    TransactionModel {
        transaction_id: b.transaction_id@,
        family_name: b.family_name@,
        family_version: b.family_version@,
        payload_hash_method: b.payload_hash_method@,
        payload: b.payload@,
        inputs: b.inputs.deep_view(),
        outputs: b.outputs.deep_view(),
        dependencies: b.dependencies.deep_view(),
        nonce: b.nonce@,
    }
}

impl Default for TrackingTransactionBuilder {
    fn default() -> (r: Self)
        ensures
            r.transaction_id@ == Seq::<char>::empty(),
            r.family_name@ == Seq::<char>::empty(),
            r.family_version@ == Seq::<char>::empty(),
            r.payload_hash_method@ == Seq::<char>::empty(),
            r.payload@ == Seq::<u8>::empty(),
            r.inputs@ == Seq::<String>::empty(),
            r.outputs@ == Seq::<String>::empty(),
            r.dependencies@ == Seq::<String>::empty(),
            r.nonce@ == Seq::<char>::empty(),
    {
        TrackingTransactionBuilder {
            transaction_id: String::new(),
            family_name: String::new(),
            family_version: String::new(),
            payload_hash_method: String::new(),
            payload: Vec::new(),
            inputs: Vec::new(),
            outputs: Vec::new(),
            dependencies: Vec::new(),
            nonce: String::new(),
        }
    }
}

impl TrackingTransactionBuilder {
    /// Sets the transaction id.
    pub fn with_transaction_id(self, transaction_id: String) -> (r: Self)
        ensures
            r == (TrackingTransactionBuilder { transaction_id, ..self }),
    {
        TrackingTransactionBuilder { transaction_id, ..self }
    }

    /// Sets the family name.
    pub fn with_family_name(self, family_name: String) -> (r: Self)
        ensures
            r == (TrackingTransactionBuilder { family_name, ..self }),
    {
        TrackingTransactionBuilder { family_name, ..self }
    }

    /// Sets the family version.
    pub fn with_family_version(self, family_version: String) -> (r: Self)
        ensures
            r == (TrackingTransactionBuilder { family_version, ..self }),
    {
        TrackingTransactionBuilder { family_version, ..self }
    }

    /// Sets the payload hash method.
    pub fn with_payload_hash_method(self, payload_hash_method: String) -> (r: Self)
        ensures
            r == (TrackingTransactionBuilder { payload_hash_method, ..self }),
    {
        TrackingTransactionBuilder { payload_hash_method, ..self }
    }

    /// Sets the payload.
    pub fn with_payload(self, payload: Vec<u8>) -> (r: Self)
        ensures
            r == (TrackingTransactionBuilder { payload, ..self }),
    {
        TrackingTransactionBuilder { payload, ..self }
    }

    /// Sets the declared input address prefixes.
    pub fn with_inputs(self, inputs: Vec<String>) -> (r: Self)
        ensures
            r == (TrackingTransactionBuilder { inputs, ..self }),
    {
        TrackingTransactionBuilder { inputs, ..self }
    }

    /// Sets the declared output address prefixes.
    pub fn with_outputs(self, outputs: Vec<String>) -> (r: Self)
        ensures
            r == (TrackingTransactionBuilder { outputs, ..self }),
    {
        TrackingTransactionBuilder { outputs, ..self }
    }

    /// Sets the dependency list.
    pub fn with_dependencies(self, dependencies: Vec<String>) -> (r: Self)
        ensures
            r == (TrackingTransactionBuilder { dependencies, ..self }),
    {
        TrackingTransactionBuilder { dependencies, ..self }
    }

    /// Sets the nonce.
    pub fn with_nonce(self, nonce: String) -> (r: Self)
        ensures
            r == (TrackingTransactionBuilder { nonce, ..self }),
    {
        TrackingTransactionBuilder { nonce, ..self }
    }

    /// Builds the transaction; the transaction id is required.
    pub fn build(self) -> (r: Result<TrackingTransaction, BatchBuilderError>)
        ensures
            if self.transaction_id@.len() > 0 {
                r matches Ok(t) && t@ == built_transaction(self)
            } else {
                r matches Err(BatchBuilderError::MissingRequiredField(m)) && m@
                    == "transaction_id"@
            },
    {
        if self.transaction_id.as_str().is_empty() {
            return Err(BatchBuilderError::MissingRequiredField(String::from_str("transaction_id")));
        }
        Ok(
            TrackingTransaction {
                transaction_id: self.transaction_id,
                family_name: self.family_name,
                family_version: self.family_version,
                payload_hash_method: self.payload_hash_method,
                payload: self.payload,
                inputs: self.inputs,
                outputs: self.outputs,
                dependencies: self.dependencies,
                nonce: self.nonce,
            },
        )
    }
}

/// Builds a `TransactionReceipt`; the transaction id is required.
pub struct TransactionReceiptBuilder {
    pub transaction_id: String,
    pub result_valid: bool,
    pub error_message: Option<String>,
    pub error_data: Option<Vec<u8>>,
    pub serialized_receipt: String,
}

/// The receipt a `TransactionReceiptBuilder` describes.
pub open spec fn built_receipt(b: TransactionReceiptBuilder) -> ReceiptModel {
    ReceiptModel {
        transaction_id: b.transaction_id@,
        result_valid: b.result_valid,
        error_message: b.error_message.deep_view(),
        error_data: b.error_data.deep_view(),
        serialized_receipt: b.serialized_receipt@,
    }
}

impl Default for TransactionReceiptBuilder {
    fn default() -> (r: Self)
        ensures
            r.transaction_id@ == Seq::<char>::empty(),
            r.result_valid == false,
            r.error_message is None,
            r.error_data is None,
            r.serialized_receipt@ == Seq::<char>::empty(),
    {
        TransactionReceiptBuilder {
            transaction_id: String::new(),
            result_valid: false,
            error_message: None,
            error_data: None,
            serialized_receipt: String::new(),
        }
    }
}

impl TransactionReceiptBuilder {
    /// Sets the transaction the receipt reports on.
    pub fn with_transaction_id(self, transaction_id: String) -> (r: Self)
        ensures
            r == (TransactionReceiptBuilder { transaction_id, ..self }),
    {
        TransactionReceiptBuilder { transaction_id, ..self }
    }

    /// Sets whether the ledger judged the transaction valid.
    pub fn with_result_valid(self, result_valid: bool) -> (r: Self)
        ensures
            r == (TransactionReceiptBuilder { result_valid, ..self }),
    {
        TransactionReceiptBuilder { result_valid, ..self }
    }

    /// Sets the error message.
    pub fn with_error_message(self, error_message: String) -> (r: Self)
        ensures
            r == (TransactionReceiptBuilder { error_message: Some(error_message), ..self }),
    {
        TransactionReceiptBuilder { error_message: Some(error_message), ..self }
    }

    /// Sets the error data.
    pub fn with_error_data(self, error_data: Vec<u8>) -> (r: Self)
        ensures
            r == (TransactionReceiptBuilder { error_data: Some(error_data), ..self }),
    {
        TransactionReceiptBuilder { error_data: Some(error_data), ..self }
    }

    /// Sets the opaque serialized receipt handed back by the ledger.
    pub fn with_serialized_receipt(self, serialized_receipt: String) -> (r: Self)
        ensures
            r == (TransactionReceiptBuilder { serialized_receipt, ..self }),
    {
        TransactionReceiptBuilder { serialized_receipt, ..self }
    }

    /// Builds the receipt; the transaction id is required.
    pub fn build(self) -> (r: Result<TransactionReceipt, BatchBuilderError>)
        ensures
            if self.transaction_id@.len() > 0 {
                r matches Ok(t) && t@ == built_receipt(self)
            } else {
                r matches Err(BatchBuilderError::MissingRequiredField(m)) && m@
                    == "transaction_id"@
            },
    {
        if self.transaction_id.as_str().is_empty() {
            return Err(BatchBuilderError::MissingRequiredField(String::from_str("transaction_id")));
        }
        Ok(
            TransactionReceipt {
                transaction_id: self.transaction_id,
                result_valid: self.result_valid,
                error_message: self.error_message,
                error_data: self.error_data,
                serialized_receipt: self.serialized_receipt,
            },
        )
    }
}

/// Builds an `InvalidTransaction`; the transaction id is required.
pub struct InvalidTransactionBuilder {
    pub transaction_id: String,
    pub error_message: String,
    pub error_data: Vec<u8>,
}

impl Default for InvalidTransactionBuilder {
    fn default() -> (r: Self)
        ensures
            r.transaction_id@ == Seq::<char>::empty(),
            r.error_message@ == Seq::<char>::empty(),
            r.error_data@ == Seq::<u8>::empty(),
    {
        InvalidTransactionBuilder {
            transaction_id: String::new(),
            error_message: String::new(),
            error_data: Vec::new(),
        }
    }
}

impl InvalidTransactionBuilder {
    /// Sets the transaction the detail reports on.
    pub fn with_transaction_id(self, transaction_id: String) -> (r: Self)
        ensures
            r == (InvalidTransactionBuilder { transaction_id, ..self }),
    {
        InvalidTransactionBuilder { transaction_id, ..self }
    }

    /// Sets the error message.
    pub fn with_error_message(self, error_message: String) -> (r: Self)
        ensures
            r == (InvalidTransactionBuilder { error_message, ..self }),
    {
        InvalidTransactionBuilder { error_message, ..self }
    }

    /// Sets the error data.
    pub fn with_error_data(self, error_data: Vec<u8>) -> (r: Self)
        ensures
            r == (InvalidTransactionBuilder { error_data, ..self }),
    {
        InvalidTransactionBuilder { error_data, ..self }
    }

    /// Builds the detail record; the transaction id is required.
    pub fn build(self) -> (r: Result<InvalidTransaction, BatchBuilderError>)
        ensures
            if self.transaction_id@.len() > 0 {
                r matches Ok(t) && t@ == (InvalidTransactionModel {
                    transaction_id: self.transaction_id@,
                    error_message: self.error_message@,
                    error_data: self.error_data@,
                })
            } else {
                r matches Err(BatchBuilderError::MissingRequiredField(m)) && m@
                    == "transaction_id"@
            },
    {
        if self.transaction_id.as_str().is_empty() {
            return Err(BatchBuilderError::MissingRequiredField(String::from_str("transaction_id")));
        }
        Ok(
            InvalidTransaction {
                transaction_id: self.transaction_id,
                error_message: self.error_message,
                error_data: self.error_data,
            },
        )
    }
}

/// Builds a `SubmissionError`; both fields are required.
pub struct SubmissionErrorBuilder {
    pub error_type: String,
    pub error_message: String,
}

impl Default for SubmissionErrorBuilder {
    fn default() -> (r: Self)
        ensures
            r.error_type@ == Seq::<char>::empty(),
            r.error_message@ == Seq::<char>::empty(),
    {
        SubmissionErrorBuilder { error_type: String::new(), error_message: String::new() }
    }
}

impl SubmissionErrorBuilder {
    /// Sets the kind of the error.
    pub fn with_error_type(self, error_type: String) -> (r: Self)
        ensures
            r == (SubmissionErrorBuilder { error_type, ..self }),
    {
        SubmissionErrorBuilder { error_type, ..self }
    }

    /// Sets the message of the error.
    pub fn with_error_message(self, error_message: String) -> (r: Self)
        ensures
            r == (SubmissionErrorBuilder { error_message, ..self }),
    {
        SubmissionErrorBuilder { error_message, ..self }
    }

    /// Builds the error; both fields are required.
    pub fn build(self) -> (r: Result<SubmissionError, BatchBuilderError>)
        ensures
            if self.error_type@.len() == 0 {
                r matches Err(BatchBuilderError::MissingRequiredField(m)) && m@ == "error_type"@
            } else if self.error_message@.len() == 0 {
                r matches Err(BatchBuilderError::MissingRequiredField(m)) && m@
                    == "error_message"@
            } else {
                r matches Ok(e) && e@ == (SubmissionErrorModel {
                    error_type: self.error_type@,
                    error_message: self.error_message@,
                })
            },
    {
        if self.error_type.as_str().is_empty() {
            return Err(BatchBuilderError::MissingRequiredField(String::from_str("error_type")));
        }
        if self.error_message.as_str().is_empty() {
            return Err(BatchBuilderError::MissingRequiredField(String::from_str("error_message")));
        }
        Ok(SubmissionError { error_type: self.error_type, error_message: self.error_message })
    }
}

} // verus!
