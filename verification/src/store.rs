//! The verified batch tracking store operations.
//!
//! `BatchTrackingStoreOperations` keeps the five logical record kinds of the
//! store — batches, their transactions, their status (with nested validation
//! detail), their transaction receipts and their submission errors — as one
//! sequence of batch records, each batch carrying its dependent rows.  Every
//! operation's contract is stated against `StoreModel`, the mathematical view
//! of that state.

use vstd::prelude::*;
use vstd::assert_by_contradiction;

use crate::batch::{
    BatchModel, BatchStatus, ReceiptModel, StatusModel, SubmissionError, SubmissionErrorModel,
    TrackingBatch, TrackingBatchList, TransactionReceipt, id_is_data_change_key,
    is_data_change_key, same_status_tag,
};
use crate::error::BatchTrackingStoreError;

verus! {

/// Model of the whole store: the tracked batches in insertion order, and the
/// logical clock from which `created_at` stamps are drawn.
pub struct StoreModel {
    pub batches: Seq<BatchModel>,
    pub clock: int,
}

// ---------------------------------------------------------------------------
// Identity resolution
//
// A lookup key is either a secondary data change id — recognized by its
// `dcid:` prefix — or a raw batch header.  Both are scoped by a service id.
// ---------------------------------------------------------------------------

/// The batch `b` is the one addressed by `id` within `service_id`.
pub open spec fn batch_matches(b: BatchModel, id: Seq<char>, service_id: Seq<char>) -> bool {
    &&& b.service_id == service_id
    &&& if is_data_change_key(id) {
        b.data_change_id == Some(id)
    } else {
        b.batch_header == id
    }
}

/// The smallest index at or after `k` whose batch `id` addresses, if any.
pub open spec fn find_from(
    batches: Seq<BatchModel>,
    id: Seq<char>,
    service_id: Seq<char>,
    k: int,
) -> Option<int>
    decreases batches.len() - k,
    when 0 <= k <= batches.len()
{
    if k >= batches.len() {
        None
    } else if batch_matches(batches[k], id, service_id) {
        Some(k)
    } else {
        find_from(batches, id, service_id, k + 1)
    }
}

/// The index of the batch that `id` addresses within `service_id`, if any.
pub open spec fn find_batch(batches: Seq<BatchModel>, id: Seq<char>, service_id: Seq<char>) -> Option<
    int,
> {
    find_from(batches, id, service_id, 0)
}

/// What `find_from` returns: the first matching index, or a guarantee that
/// none matches.
pub proof fn lemma_find_from_props(
    batches: Seq<BatchModel>,
    id: Seq<char>,
    service_id: Seq<char>,
    k: int,
)
    requires
        0 <= k <= batches.len(),
    ensures
        match find_from(batches, id, service_id, k) {
            Some(i) => k <= i < batches.len() && batch_matches(batches[i], id, service_id)
                && forall|m: int| k <= m < i ==> !batch_matches(#[trigger] batches[m], id, service_id),
            None => forall|m: int|
                k <= m < batches.len() ==> !batch_matches(#[trigger] batches[m], id, service_id),
        },
    decreases batches.len() - k,
{
    if k < batches.len() && !batch_matches(batches[k], id, service_id) {
        lemma_find_from_props(batches, id, service_id, k + 1);
    }
}

/// Two batches collide on a lookup key: same service and same header, or same
/// service and the same assigned data change id.
pub open spec fn key_clash(a: BatchModel, b: BatchModel) -> bool {
    ||| (a.service_id == b.service_id && a.batch_header == b.batch_header)
    ||| (a.service_id == b.service_id && b.data_change_id is Some && a.data_change_id
        == b.data_change_id)
}

/// No two stored batches collide on a lookup key.
pub open spec fn distinct_keys(batches: Seq<BatchModel>) -> bool {
    forall|i: int, j: int|
        0 <= i < batches.len() && 0 <= j < batches.len() && i != j ==> !key_clash(
            #[trigger] batches[i],
            #[trigger] batches[j],
        )
}

/// Under `distinct_keys`, at most one batch matches a lookup, so a match at
/// `i` pins `find_batch` to `i`.
pub proof fn lemma_find_found(
    batches: Seq<BatchModel>,
    id: Seq<char>,
    service_id: Seq<char>,
    i: int,
)
    requires
        distinct_keys(batches),
        0 <= i < batches.len(),
        batch_matches(batches[i], id, service_id),
    ensures
        find_batch(batches, id, service_id) == Some(i),
{
    lemma_find_from_props(batches, id, service_id, 0);
    match find_batch(batches, id, service_id) {
        Some(j) => {
            if i != j {
                assert(batch_matches(batches[j], id, service_id));
                assert(key_clash(batches[i], batches[j]));
            }
        },
        None => {
            assert(!batch_matches(batches[i], id, service_id));
        },
    }
}

// ---------------------------------------------------------------------------
// Executable string and key helpers
// ---------------------------------------------------------------------------

/// Character-by-character string equality, with its meaning on the views.
#[verifier::loop_isolation(false)]
fn str_eq(a: &str, b: &str) -> (r: bool)
    ensures
        r == (a@ == b@),
{
    let a_len = a.unicode_len();
    let b_len = b.unicode_len();
    if a_len != b_len {
        return false;
    }
    let mut i: usize = 0;
    while i < a_len
        invariant
            i <= a_len,
            a_len == a@.len(),
            b_len == b@.len(),
            a_len == b_len,
            forall|k: int| 0 <= k < i as int ==> a@[k] == b@[k],
        decreases a_len - i,
    {
        if a.get_char(i) != b.get_char(i) {
            return false;
        }
        i += 1;
    }
    proof {
        assert(a@ =~= b@);
    }
    true
}

// ---------------------------------------------------------------------------
// Receipts
//
// Receipts are keyed by transaction id: recording a receipt overwrites any
// earlier receipt for the same transaction and appends otherwise.
// ---------------------------------------------------------------------------

/// The smallest index at or after `k` holding a receipt for `tid`, if any.
pub open spec fn receipt_idx_from(rs: Seq<ReceiptModel>, tid: Seq<char>, k: int) -> Option<int>
    decreases rs.len() - k,
    when 0 <= k <= rs.len()
{
    if k >= rs.len() {
        None
    } else if rs[k].transaction_id == tid {
        Some(k)
    } else {
        receipt_idx_from(rs, tid, k + 1)
    }
}

/// The index of the receipt recorded for `tid`, if any.
pub open spec fn receipt_idx(rs: Seq<ReceiptModel>, tid: Seq<char>) -> Option<int> {
    receipt_idx_from(rs, tid, 0)
}

/// Record one receipt: overwrite the entry for its transaction id, or append.
pub open spec fn upsert_receipt(rs: Seq<ReceiptModel>, r: ReceiptModel) -> Seq<ReceiptModel> {
    match receipt_idx(rs, r.transaction_id) {
        Some(j) => rs.update(j, r),
        None => rs.push(r),
    }
}

/// Record a sequence of receipts in order; a later receipt for the same
/// transaction id wins.
pub open spec fn merge_receipts(rs: Seq<ReceiptModel>, news: Seq<ReceiptModel>) -> Seq<
    ReceiptModel,
>
    decreases news.len(),
{
    if news.len() == 0 {
        rs
    } else {
        upsert_receipt(merge_receipts(rs, news.drop_last()), news.last())
    }
}

/// No two receipts in `rs` are for the same transaction.
pub open spec fn distinct_receipt_ids(rs: Seq<ReceiptModel>) -> bool {
    forall|i: int, j: int|
        0 <= i < j < rs.len() ==> (#[trigger] rs[i]).transaction_id != (
        #[trigger] rs[j]).transaction_id
}

// ---------------------------------------------------------------------------
// Per-batch validity
// ---------------------------------------------------------------------------

/// The batch holds a transaction with this id.
pub open spec fn batch_has_txn(b: BatchModel, tid: Seq<char>) -> bool {
    exists|t: int|
        0 <= t < b.transactions.len() && (#[trigger] b.transactions[t]).transaction_id == tid
}

/// Every receipt in `rs` references a transaction of the batch.
pub open spec fn receipts_reference(b: BatchModel, rs: Seq<ReceiptModel>) -> bool {
    forall|k: int| 0 <= k < rs.len() ==> batch_has_txn(b, (#[trigger] rs[k]).transaction_id)
}

/// Every per-transaction entry of the status references a transaction of the
/// batch.
pub open spec fn status_references(b: BatchModel, st: StatusModel) -> bool {
    match st {
        StatusModel::Unknown => true,
        StatusModel::Pending => true,
        StatusModel::Valid(v) => forall|k: int|
            0 <= k < v.len() ==> batch_has_txn(b, (#[trigger] v[k]).transaction_id),
        StatusModel::Invalid(v) => forall|k: int|
            0 <= k < v.len() ==> batch_has_txn(b, (#[trigger] v[k]).transaction_id),
    }
}

/// A batch record the store will hold: its receipts are keyed by transaction
/// id and, like its status detail, reference only its own transactions.
pub open spec fn batch_wf(b: BatchModel) -> bool {
    &&& distinct_receipt_ids(b.transaction_receipts)
    &&& receipts_reference(b, b.transaction_receipts)
    &&& status_references(b, b.batch_status)
}

// ---------------------------------------------------------------------------
// Store well-formedness
// ---------------------------------------------------------------------------

/// The store's invariant: unique lookup keys, `created_at` strictly
/// increasing in insertion order and below the clock, and every batch
/// well-formed.
pub open spec fn store_wf(s: StoreModel) -> bool {
    &&& distinct_keys(s.batches)
    &&& forall|i: int, j: int|
        0 <= i < j < s.batches.len() ==> (#[trigger] s.batches[i]).created_at < (
        #[trigger] s.batches[j]).created_at
    &&& forall|i: int|
        0 <= i < s.batches.len() ==> 0 <= (#[trigger] s.batches[i]).created_at < s.clock
    &&& 0 <= s.clock <= i64::MAX
    &&& forall|i: int| 0 <= i < s.batches.len() ==> batch_wf(#[trigger] s.batches[i])
}

// ---------------------------------------------------------------------------
// Intake
// ---------------------------------------------------------------------------

/// `b` collides with no batch of `batches` on any lookup key.
pub open spec fn keys_fresh(batches: Seq<BatchModel>, b: BatchModel) -> bool {
    forall|i: int|
        0 <= i < batches.len() ==> !key_clash(#[trigger] batches[i], b) && !key_clash(
            b,
            batches[i],
        )
}

/// The `k`-th batch of an intake call is acceptable: fresh against the store,
/// fresh against the batches before it in the same call, and well-formed.
pub open spec fn admissible_at(batches: Seq<BatchModel>, news: Seq<BatchModel>, k: int) -> bool {
    &&& keys_fresh(batches, news[k])
    &&& keys_fresh(news.subrange(0, k), news[k])
    &&& batch_wf(news[k])
}

/// Every batch of an intake call is acceptable.
pub open spec fn add_admissible(batches: Seq<BatchModel>, news: Seq<BatchModel>) -> bool {
    forall|k: int| 0 <= k < news.len() ==> #[trigger] admissible_at(batches, news, k)
}

/// The batch as stored: every field as given, `created_at` stamped by the
/// store.
pub open spec fn stamp_batch(b: BatchModel, at: int) -> BatchModel {
    BatchModel {
        batch_header: b.batch_header,
        data_change_id: b.data_change_id,
        service_id: b.service_id,
        signer_public_key: b.signer_public_key,
        submitted: b.submitted,
        created_at: at,
        transactions: b.transactions,
        batch_status: b.batch_status,
        submission_error: b.submission_error,
        transaction_receipts: b.transaction_receipts,
    }
}

/// The batches of one intake call as stored: consecutive clock stamps, in
/// call order.
pub open spec fn stamp_batches(news: Seq<BatchModel>, clock: int) -> Seq<BatchModel> {
    Seq::new(news.len(), |k: int| stamp_batch(news[k], clock + k))
}

/// Stamping `created_at` changes no transaction, receipt or status of the
/// batch, so it keeps the batch well-formed.
proof fn lemma_stamp_preserves_batch_wf(b: BatchModel, at: int)
    requires
        batch_wf(b),
    ensures
        batch_wf(stamp_batch(b, at)),
{
    let s = stamp_batch(b, at);
    assert forall|k: int| 0 <= k < s.transaction_receipts.len() implies batch_has_txn(
        s,
        (#[trigger] s.transaction_receipts[k]).transaction_id,
    ) by {
        assert(batch_has_txn(b, b.transaction_receipts[k].transaction_id));
        let t = choose|t: int|
            0 <= t < b.transactions.len() && (#[trigger] b.transactions[t]).transaction_id
                == b.transaction_receipts[k].transaction_id;
        assert(s.transactions[t].transaction_id == s.transaction_receipts[k].transaction_id);
    }
    match s.batch_status {
        StatusModel::Unknown => {},
        StatusModel::Pending => {},
        StatusModel::Valid(v) => {
            assert forall|k: int| 0 <= k < v.len() implies batch_has_txn(
                s,
                (#[trigger] v[k]).transaction_id,
            ) by {
                assert(batch_has_txn(b, v[k].transaction_id));
                let t = choose|t: int|
                    0 <= t < b.transactions.len() && (#[trigger] b.transactions[t]).transaction_id
                        == v[k].transaction_id;
                assert(s.transactions[t].transaction_id == v[k].transaction_id);
            }
        },
        StatusModel::Invalid(v) => {
            assert forall|k: int| 0 <= k < v.len() implies batch_has_txn(
                s,
                (#[trigger] v[k]).transaction_id,
            ) by {
                assert(batch_has_txn(b, v[k].transaction_id));
                let t = choose|t: int|
                    0 <= t < b.transactions.len() && (#[trigger] b.transactions[t]).transaction_id
                        == v[k].transaction_id;
                assert(s.transactions[t].transaction_id == v[k].transaction_id);
            }
        },
    }
}

/// An admissible intake preserves the store invariant.
pub(crate) proof fn lemma_add_preserves_wf(s: StoreModel, news: Seq<BatchModel>)
    requires
        store_wf(s),
        add_admissible(s.batches, news),
        s.clock + news.len() <= i64::MAX,
    ensures
        store_wf(
            StoreModel {
                batches: s.batches + stamp_batches(news, s.clock),
                clock: s.clock + news.len(),
            },
        ),
{
    let old_n = s.batches.len() as int;
    let t = s.batches + stamp_batches(news, s.clock);
    assert forall|i: int, j: int|
        0 <= i < t.len() && 0 <= j < t.len() && i != j implies !key_clash(
        #[trigger] t[i],
        #[trigger] t[j],
    ) by {
        if i < old_n && j < old_n {
            assert(!key_clash(s.batches[i], s.batches[j]));
        } else if i < old_n {
            assert(admissible_at(s.batches, news, j - old_n));
            assert(t[j] == stamp_batch(news[j - old_n], s.clock + (j - old_n)));
        } else if j < old_n {
            assert(admissible_at(s.batches, news, i - old_n));
            assert(t[i] == stamp_batch(news[i - old_n], s.clock + (i - old_n)));
        } else {
            let a = i - old_n;
            let b = j - old_n;
            if a < b {
                assert(admissible_at(s.batches, news, b));
                assert(news.subrange(0, b)[a] == news[a]);
                assert(!key_clash(news[a], news[b]) && !key_clash(news[b], news[a]));
            } else {
                assert(admissible_at(s.batches, news, a));
                assert(news.subrange(0, a)[b] == news[b]);
                assert(!key_clash(news[a], news[b]) && !key_clash(news[b], news[a]));
            }
        }
    }
    assert forall|i: int, j: int| 0 <= i < j < t.len() implies (#[trigger] t[i]).created_at < (
    #[trigger] t[j]).created_at by {
        if i >= old_n {
            assert(t[i] == stamp_batch(news[i - old_n], s.clock + (i - old_n)));
        }
        if j >= old_n {
            assert(t[j] == stamp_batch(news[j - old_n], s.clock + (j - old_n)));
        }
    }
    assert forall|i: int| 0 <= i < t.len() implies 0 <= (#[trigger] t[i]).created_at < s.clock
        + news.len() by {
        if i >= old_n {
            assert(t[i] == stamp_batch(news[i - old_n], s.clock + (i - old_n)));
        }
    }
    assert forall|i: int| 0 <= i < t.len() implies batch_wf(#[trigger] t[i]) by {
        if i >= old_n {
            assert(admissible_at(s.batches, news, i - old_n));
            assert(t[i] == stamp_batch(news[i - old_n], s.clock + (i - old_n)));
            assert(batch_wf(news[i - old_n]));
            lemma_stamp_preserves_batch_wf(news[i - old_n], s.clock + (i - old_n));
        }
    }
}

// ---------------------------------------------------------------------------
// Executable validity checks
// ---------------------------------------------------------------------------

/// Whether `a` and `b` collide on any lookup key, in either direction.
fn key_clash_exec(a: &TrackingBatch, b: &TrackingBatch) -> (r: bool)
    ensures
        r == (key_clash(a@, b@) || key_clash(b@, a@)),
{
    if !str_eq(a.service_id.as_str(), b.service_id.as_str()) {
        return false;
    }
    if str_eq(a.batch_header.as_str(), b.batch_header.as_str()) {
        return true;
    }
    match (&a.data_change_id, &b.data_change_id) {
        (Some(da), Some(db)) => str_eq(da.as_str(), db.as_str()),
        _ => false,
    }
}

/// Whether the batch holds a transaction with id `tid`.
#[verifier::loop_isolation(false)]
fn has_txn(b: &TrackingBatch, tid: &str) -> (r: bool)
    ensures
        r == batch_has_txn(b@, tid@),
{
    let n = b.transactions.len();
    let mut i: usize = 0;
    while i < n
        invariant
            i <= n,
            n == b.transactions.len(),
            forall|k: int|
                0 <= k < i as int ==> (#[trigger] b@.transactions[k]).transaction_id != tid@,
        decreases n - i,
    {
        if str_eq(b.transactions[i].transaction_id.as_str(), tid) {
            proof {
                assert(b@.transactions[i as int].transaction_id == tid@);
            }
            return true;
        }
        proof {
            assert(b@.transactions[i as int] == b.transactions[i as int]@);
        }
        i += 1;
    }
    false
}

/// Whether the receipts carry pairwise distinct transaction ids.
#[verifier::loop_isolation(false)]
fn receipts_distinct(rs: &Vec<TransactionReceipt>) -> (r: bool)
    ensures
        r == distinct_receipt_ids(rs.deep_view()),
{
    let n = rs.len();
    let mut i: usize = 0;
    while i < n
        invariant
            i <= n,
            n == rs.len(),
            forall|x: int, y: int|
                0 <= x < y < n as int && x < i as int ==> (
                #[trigger] rs.deep_view()[x]).transaction_id != (
                #[trigger] rs.deep_view()[y]).transaction_id,
        decreases n - i,
    {
        let mut j: usize = i + 1;
        while j < n
            invariant
                i < j <= n,
                n == rs.len(),
                forall|y: int|
                    (i as int) < y && y < j as int ==> (#[trigger] rs.deep_view()[y]).transaction_id
                        != rs.deep_view()[i as int].transaction_id,
            decreases n - j,
        {
            if str_eq(rs[i].transaction_id.as_str(), rs[j].transaction_id.as_str()) {
                proof {
                    assert(rs.deep_view()[i as int].transaction_id == rs.deep_view()[
                        j as int].transaction_id);
                }
                return false;
            }
            proof {
                assert(rs.deep_view()[j as int] == rs[j as int]@);
                assert(rs.deep_view()[i as int] == rs[i as int]@);
            }
            j += 1;
        }
        i += 1;
    }
    true
}

/// Whether every receipt of `rs` references a transaction of `b`.
#[verifier::loop_isolation(false)]
fn receipts_reference_exec(b: &TrackingBatch, rs: &Vec<TransactionReceipt>) -> (r: bool)
    ensures
        r == receipts_reference(b@, rs.deep_view()),
{
    let n = rs.len();
    let mut i: usize = 0;
    while i < n
        invariant
            i <= n,
            n == rs.len(),
            forall|k: int|
                0 <= k < i as int ==> batch_has_txn(b@, (#[trigger] rs.deep_view()[k]).transaction_id),
        decreases n - i,
    {
        if !has_txn(b, rs[i].transaction_id.as_str()) {
            proof {
                assert(rs.deep_view()[i as int] == rs[i as int]@);
                assert(!batch_has_txn(b@, rs.deep_view()[i as int].transaction_id));
            }
            return false;
        }
        proof {
            assert(rs.deep_view()[i as int] == rs[i as int]@);
        }
        i += 1;
    }
    true
}

/// Whether every per-transaction entry of `st` references a transaction of
/// the batch.
#[verifier::loop_isolation(false)]
fn status_entries_reference(b: &TrackingBatch, st: &BatchStatus) -> (r: bool)
    ensures
        r == status_references(b@, st@),
{
    match st {
        BatchStatus::Unknown => true,
        BatchStatus::Pending => true,
        BatchStatus::Valid(v) => {
            let n = v.len();
            let mut i: usize = 0;
            while i < n
                invariant
                    i <= n,
                    n == v.len(),
                    st@ == StatusModel::Valid(v.deep_view()),
                    forall|k: int|
                        0 <= k < i as int ==> batch_has_txn(
                            b@,
                            (#[trigger] v.deep_view()[k]).transaction_id,
                        ),
                decreases n - i,
            {
                if !has_txn(b, v[i].transaction_id.as_str()) {
                    proof {
                        assert(v.deep_view()[i as int] == v[i as int]@);
                        assert(!batch_has_txn(b@, v.deep_view()[i as int].transaction_id));
                        let vs = v.deep_view();
                        assert(st@ == StatusModel::Valid(vs));
                        assert_by_contradiction!(!status_references(b@, st@), {
                            match st@ {
                                StatusModel::Valid(vs2) => {
                                    assert(vs2 == vs);
                                    assert(batch_has_txn(b@, vs2[i as int].transaction_id));
                                },
                                _ => {
                                    assert(false);
                                },
                            }
                        });
                    }
                    return false;
                }
                proof {
                    assert(v.deep_view()[i as int] == v[i as int]@);
                }
                i += 1;
            }
            true
        },
        BatchStatus::Invalid(v) => {
            let n = v.len();
            let mut i: usize = 0;
            while i < n
                invariant
                    i <= n,
                    n == v.len(),
                    st@ == StatusModel::Invalid(v.deep_view()),
                    forall|k: int|
                        0 <= k < i as int ==> batch_has_txn(
                            b@,
                            (#[trigger] v.deep_view()[k]).transaction_id,
                        ),
                decreases n - i,
            {
                if !has_txn(b, v[i].transaction_id.as_str()) {
                    proof {
                        assert(v.deep_view()[i as int] == v[i as int]@);
                        assert(!batch_has_txn(b@, v.deep_view()[i as int].transaction_id));
                        let vs = v.deep_view();
                        assert(st@ == StatusModel::Invalid(vs));
                        assert_by_contradiction!(!status_references(b@, st@), {
                            match st@ {
                                StatusModel::Invalid(vs2) => {
                                    assert(vs2 == vs);
                                    assert(batch_has_txn(b@, vs2[i as int].transaction_id));
                                },
                                _ => {
                                    assert(false);
                                },
                            }
                        });
                    }
                    return false;
                }
                proof {
                    assert(v.deep_view()[i as int] == v[i as int]@);
                }
                i += 1;
            }
            true
        },
    }
}

/// Whether the batch satisfies `batch_wf`.
fn check_batch_wf(b: &TrackingBatch) -> (r: bool)
    ensures
        r == batch_wf(b@),
{
    receipts_distinct(&b.transaction_receipts) && receipts_reference_exec(
        b,
        &b.transaction_receipts,
    ) && status_entries_reference(b, &b.batch_status)
}

// ---------------------------------------------------------------------------
// Status and submission updates
// ---------------------------------------------------------------------------

/// The message carried by a `NotFoundError` for the identifier `id`.
pub open spec fn not_found_message(id: Seq<char>) -> Seq<char> {
    "Could not find batch with ID "@ + id
}

/// The status named by a ledger acknowledgment string; the terminal variants
/// come back with empty detail, since an acknowledgment names no
/// per-transaction outcome.
pub open spec fn parse_status_key(s: Seq<char>) -> Option<StatusModel> {
    if s == "Unknown"@ {
        Some(StatusModel::Unknown)
    } else if s == "Pending"@ {
        Some(StatusModel::Pending)
    } else if s == "Valid"@ {
        Some(StatusModel::Valid(Seq::empty()))
    } else if s == "Invalid"@ {
        Some(StatusModel::Invalid(Seq::empty()))
    } else {
        None
    }
}

/// An update against the batch `b` is acceptable: every incoming receipt and
/// every per-transaction entry of an incoming status references one of the
/// batch's own transactions.
pub open spec fn update_acceptable(
    b: BatchModel,
    st: Option<StatusModel>,
    news: Seq<ReceiptModel>,
) -> bool {
    &&& receipts_reference(b, news)
    &&& match st {
        Some(x) => status_references(b, x),
        None => true,
    }
}

/// The batch after `update_batch_status`: the status is replaced when one is
/// given, the receipts are recorded over the stored ones, the submission
/// error is replaced when one is given, and everything else stands.
pub open spec fn apply_update(
    b: BatchModel,
    st: Option<StatusModel>,
    news: Seq<ReceiptModel>,
    err: Option<SubmissionErrorModel>,
) -> BatchModel {
    BatchModel {
        batch_header: b.batch_header,
        data_change_id: b.data_change_id,
        service_id: b.service_id,
        signer_public_key: b.signer_public_key,
        submitted: b.submitted,
        created_at: b.created_at,
        transactions: b.transactions,
        batch_status: match st {
            Some(x) => x,
            None => b.batch_status,
        },
        submission_error: match err {
            Some(e) => Some(e),
            None => b.submission_error,
        },
        transaction_receipts: merge_receipts(b.transaction_receipts, news),
    }
}

/// The batch after `change_batch_to_submitted`: as `apply_update`, except
/// that the batch is marked submitted and the submission error field is set
/// to exactly what the call carried, present or absent.
pub open spec fn apply_submitted(
    b: BatchModel,
    st: Option<StatusModel>,
    news: Seq<ReceiptModel>,
    err: Option<SubmissionErrorModel>,
) -> BatchModel {
    BatchModel {
        batch_header: b.batch_header,
        data_change_id: b.data_change_id,
        service_id: b.service_id,
        signer_public_key: b.signer_public_key,
        submitted: true,
        created_at: b.created_at,
        transactions: b.transactions,
        batch_status: match st {
            Some(x) => x,
            None => b.batch_status,
        },
        submission_error: err,
        transaction_receipts: merge_receipts(b.transaction_receipts, news),
    }
}

/// What `receipt_idx_from` returns: the first index holding `tid`, or a
/// guarantee that none does.
pub proof fn lemma_receipt_idx_props(rs: Seq<ReceiptModel>, tid: Seq<char>, k: int)
    requires
        0 <= k <= rs.len(),
    ensures
        match receipt_idx_from(rs, tid, k) {
            Some(j) => k <= j < rs.len() && rs[j].transaction_id == tid && forall|m: int|
                k <= m < j ==> (#[trigger] rs[m]).transaction_id != tid,
            None => forall|m: int|
                k <= m < rs.len() ==> (#[trigger] rs[m]).transaction_id != tid,
        },
    decreases rs.len() - k,
{
    if k < rs.len() && rs[k].transaction_id != tid {
        lemma_receipt_idx_props(rs, tid, k + 1);
    }
}

/// Recording one receipt that references the batch keeps the receipt set
/// keyed and referencing.
proof fn lemma_upsert_wf(b: BatchModel, rs: Seq<ReceiptModel>, r: ReceiptModel)
    requires
        distinct_receipt_ids(rs),
        receipts_reference(b, rs),
        batch_has_txn(b, r.transaction_id),
    ensures
        distinct_receipt_ids(upsert_receipt(rs, r)),
        receipts_reference(b, upsert_receipt(rs, r)),
{
    lemma_receipt_idx_props(rs, r.transaction_id, 0);
    let out = upsert_receipt(rs, r);
    match receipt_idx(rs, r.transaction_id) {
        Some(j) => {
            assert forall|x: int, y: int| 0 <= x < y < out.len() implies (
            #[trigger] out[x]).transaction_id != (#[trigger] out[y]).transaction_id by {
                assert(out[x].transaction_id == rs[x].transaction_id);
                assert(out[y].transaction_id == rs[y].transaction_id);
            }
        },
        None => {
            assert forall|x: int, y: int| 0 <= x < y < out.len() implies (
            #[trigger] out[x]).transaction_id != (#[trigger] out[y]).transaction_id by {
                if y < rs.len() {
                    assert(out[x] == rs[x] && out[y] == rs[y]);
                } else {
                    assert(out[x] == rs[x] && out[y] == r);
                }
            }
        },
    }
}

/// Recording a sequence of receipts that reference the batch keeps the
/// receipt set keyed and referencing.
proof fn lemma_merge_wf(b: BatchModel, rs: Seq<ReceiptModel>, news: Seq<ReceiptModel>)
    requires
        distinct_receipt_ids(rs),
        receipts_reference(b, rs),
        receipts_reference(b, news),
    ensures
        distinct_receipt_ids(merge_receipts(rs, news)),
        receipts_reference(b, merge_receipts(rs, news)),
    decreases news.len(),
{
    if news.len() != 0 {
        let d = news.drop_last();
        assert forall|k: int| 0 <= k < d.len() implies batch_has_txn(
            b,
            (#[trigger] d[k]).transaction_id,
        ) by {
            assert(d[k] == news[k]);
        }
        lemma_merge_wf(b, rs, d);
        assert(news.last() == news[news.len() - 1]);
        lemma_upsert_wf(b, merge_receipts(rs, d), news.last());
    }
}

/// A transaction id found in `a` is found in any batch with the same
/// transactions.
proof fn lemma_txn_transfer(a: BatchModel, b: BatchModel, tid: Seq<char>)
    requires
        a.transactions == b.transactions,
        batch_has_txn(a, tid),
    ensures
        batch_has_txn(b, tid),
{
    let t = choose|t: int|
        0 <= t < a.transactions.len() && (#[trigger] a.transactions[t]).transaction_id == tid;
    assert(b.transactions[t].transaction_id == tid);
}

/// A batch whose receipts are keyed and whose receipts and status reference
/// the transactions of a batch with the same transactions is well-formed.
proof fn lemma_transfer_batch_wf(b: BatchModel, b2: BatchModel)
    requires
        b2.transactions == b.transactions,
        distinct_receipt_ids(b2.transaction_receipts),
        receipts_reference(b, b2.transaction_receipts),
        status_references(b, b2.batch_status),
    ensures
        batch_wf(b2),
{
    assert forall|k: int| 0 <= k < b2.transaction_receipts.len() implies batch_has_txn(
        b2,
        (#[trigger] b2.transaction_receipts[k]).transaction_id,
    ) by {
        lemma_txn_transfer(b, b2, b2.transaction_receipts[k].transaction_id);
    }
    match b2.batch_status {
        StatusModel::Unknown => {},
        StatusModel::Pending => {},
        StatusModel::Valid(v) => {
            assert forall|k: int| 0 <= k < v.len() implies batch_has_txn(
                b2,
                (#[trigger] v[k]).transaction_id,
            ) by {
                assert(batch_has_txn(b, v[k].transaction_id));
                lemma_txn_transfer(b, b2, v[k].transaction_id);
            }
        },
        StatusModel::Invalid(v) => {
            assert forall|k: int| 0 <= k < v.len() implies batch_has_txn(
                b2,
                (#[trigger] v[k]).transaction_id,
            ) by {
                assert(batch_has_txn(b, v[k].transaction_id));
                lemma_txn_transfer(b, b2, v[k].transaction_id);
            }
        },
    }
}

/// Replacing one batch with a well-formed batch that carries the same keys
/// and the same stamp keeps the store invariant.
pub(crate) proof fn lemma_update_preserves_wf(s: StoreModel, i: int, b2: BatchModel)
    requires
        store_wf(s),
        0 <= i < s.batches.len(),
        b2.batch_header == s.batches[i].batch_header,
        b2.data_change_id == s.batches[i].data_change_id,
        b2.service_id == s.batches[i].service_id,
        b2.created_at == s.batches[i].created_at,
        batch_wf(b2),
    ensures
        store_wf(StoreModel { batches: s.batches.update(i, b2), clock: s.clock }),
{
    let t = s.batches.update(i, b2);
    assert forall|x: int, y: int|
        0 <= x < t.len() && 0 <= y < t.len() && x != y implies !key_clash(
        #[trigger] t[x],
        #[trigger] t[y],
    ) by {
        assert(!key_clash(s.batches[x], s.batches[y]));
    }
    assert forall|x: int, y: int| 0 <= x < y < t.len() implies (#[trigger] t[x]).created_at < (
    #[trigger] t[y]).created_at by {
        assert(s.batches[x].created_at < s.batches[y].created_at);
    }
}

/// Builds the error that reports an unresolved identifier.
fn not_found_error(id: &str) -> (e: BatchTrackingStoreError)
    ensures
        e matches BatchTrackingStoreError::NotFoundError(m) && m@ == not_found_message(id@),
{
    BatchTrackingStoreError::NotFoundError(
        String::from_str("Could not find batch with ID ").concat(id),
    )
}

/// Parses a ledger acknowledgment string into the status it names.
fn parse_status_exec(s: &str) -> (r: Option<BatchStatus>)
    ensures
        match r {
            Some(st) => parse_status_key(s@) == Some(st@),
            None => parse_status_key(s@) is None,
        },
{
    if str_eq(s, "Unknown") {
        Some(BatchStatus::Unknown)
    } else if str_eq(s, "Pending") {
        Some(BatchStatus::Pending)
    } else if str_eq(s, "Valid") {
        let v: Vec<crate::batch::ValidTransaction> = Vec::new();
        proof {
            assert(v.deep_view() =~= Seq::<crate::batch::ValidTransactionModel>::empty());
        }
        Some(BatchStatus::Valid(v))
    } else if str_eq(s, "Invalid") {
        let v: Vec<crate::batch::InvalidTransaction> = Vec::new();
        proof {
            assert(v.deep_view() =~= Seq::<crate::batch::InvalidTransactionModel>::empty());
        }
        Some(BatchStatus::Invalid(v))
    } else {
        None
    }
}

/// Resolves a transaction id to the index of its receipt, if one is
/// recorded.
#[verifier::loop_isolation(false)]
fn find_receipt(rs: &Vec<TransactionReceipt>, tid: &str) -> (r: Option<usize>)
    ensures
        match r {
            Some(u) => (u as int) < rs.deep_view().len() && receipt_idx(rs.deep_view(), tid@)
                == Some(u as int),
            None => receipt_idx(rs.deep_view(), tid@) is None,
        },
{
    let n = rs.len();
    let mut j: usize = 0;
    while j < n
        invariant
            j <= n,
            receipt_idx(rs.deep_view(), tid@) == receipt_idx_from(rs.deep_view(), tid@, j as int),
        decreases n - j,
    {
        proof {
            assert(rs.deep_view()[j as int] == rs[j as int]@);
        }
        if str_eq(rs[j].transaction_id.as_str(), tid) {
            return Some(j);
        }
        j += 1;
    }
    None
}

/// Records the receipts of `news` over the receipts of `base`, in order,
/// keyed by transaction id.
#[verifier::loop_isolation(false)]
fn merge_receipts_exec(base: &Vec<TransactionReceipt>, news: &Vec<TransactionReceipt>) -> (r: Vec<
    TransactionReceipt,
>)
    ensures
        r.deep_view() == merge_receipts(base.deep_view(), news.deep_view()),
{
    let mut out = crate::batch::clone_receipt_vec(base);
    let n = news.len();
    let mut k: usize = 0;
    proof {
        assert(news.deep_view().subrange(0, 0) =~= Seq::<ReceiptModel>::empty());
    }
    while k < n
        invariant
            k <= n,
            out.deep_view() == merge_receipts(
                base.deep_view(),
                news.deep_view().subrange(0, k as int),
            ),
        decreases n - k,
    {
        let ghost cur = out.deep_view();
        let ghost nd = news.deep_view();
        let r_new = &news[k];
        proof {
            assert(r_new@ == nd[k as int]);
        }
        match find_receipt(&out, r_new.transaction_id.as_str()) {
            Some(j) => {
                let ghost prev = out.deep_view();
                out.set(j, r_new.clone());
                proof {
                    assert forall|m: int| 0 <= m < prev.len() implies out.deep_view()[m]
                        == prev.update(j as int, nd[k as int])[m] by {}
                    assert(out.deep_view() =~= prev.update(j as int, nd[k as int]));
                    assert(upsert_receipt(cur, nd[k as int]) == cur.update(j as int, nd[k as int]));
                }
            },
            None => {
                let ghost prev = out.deep_view();
                out.push(r_new.clone());
                proof {
                    assert forall|m: int| 0 <= m < prev.len() + 1 implies out.deep_view()[m]
                        == prev.push(nd[k as int])[m] by {}
                    assert(out.deep_view() =~= prev.push(nd[k as int]));
                    assert(upsert_receipt(cur, nd[k as int]) == cur.push(nd[k as int]));
                }
            },
        }
        proof {
            assert(nd.subrange(0, k as int + 1).drop_last() =~= nd.subrange(0, k as int));
            assert(nd.subrange(0, k as int + 1).last() == nd[k as int]);
            assert(merge_receipts(base.deep_view(), nd.subrange(0, k as int + 1))
                == upsert_receipt(
                merge_receipts(base.deep_view(), nd.subrange(0, k as int)),
                nd[k as int],
            ));
        }
        k += 1;
    }
    proof {
        assert(news.deep_view().subrange(0, n as int) =~= news.deep_view());
    }
    out
}

// ---------------------------------------------------------------------------
// Filtering
// ---------------------------------------------------------------------------

/// Every element of a filtered sequence is an element of the sequence it
/// was filtered from.
pub(crate) proof fn lemma_filter_element_of(s: Seq<BatchModel>, pred: spec_fn(BatchModel) -> bool)
    ensures
        forall|k: int| 0 <= k < s.filter(pred).len() ==> s.contains(#[trigger] s.filter(pred)[k]),
    decreases s.len(),
{
    reveal(Seq::filter);
    if s.len() != 0 {
        let d = s.drop_last();
        lemma_filter_element_of(d, pred);
        assert forall|k: int| 0 <= k < s.filter(pred).len() implies s.contains(
            #[trigger] s.filter(pred)[k],
        ) by {
            if k < d.filter(pred).len() {
                assert(d.contains(d.filter(pred)[k]));
                let x = choose|x: int| 0 <= x < d.len() && d[x] == d.filter(pred)[k];
                assert(s[x] == s.filter(pred)[k]);
            } else {
                assert(s.filter(pred)[k] == s.last());
            }
        }
    }
}

/// Filtering keeps any property that held of every ordered pair.
pub(crate) proof fn lemma_filter_preserves_pairwise(
    s: Seq<BatchModel>,
    pred: spec_fn(BatchModel) -> bool,
    p: spec_fn(BatchModel, BatchModel) -> bool,
)
    requires
        forall|i: int, j: int| 0 <= i < j < s.len() ==> p(#[trigger] s[i], #[trigger] s[j]),
    ensures
        forall|i: int, j: int|
            0 <= i < j < s.filter(pred).len() ==> p(
                #[trigger] s.filter(pred)[i],
                #[trigger] s.filter(pred)[j],
            ),
    decreases s.len(),
{
    reveal(Seq::filter);
    if s.len() != 0 {
        let d = s.drop_last();
        assert forall|i: int, j: int| 0 <= i < j < d.len() implies p(
            #[trigger] d[i],
            #[trigger] d[j],
        ) by {
            assert(d[i] == s[i] && d[j] == s[j]);
        }
        lemma_filter_preserves_pairwise(d, pred, p);
        lemma_filter_element_of(d, pred);
        let f = s.filter(pred);
        let fd = d.filter(pred);
        assert forall|i: int, j: int| 0 <= i < j < f.len() implies p(
            #[trigger] f[i],
            #[trigger] f[j],
        ) by {
            if j < fd.len() {
                assert(f[i] == fd[i] && f[j] == fd[j]);
            } else {
                assert(pred(s.last()) && f[j] == s.last());
                assert(f[i] == fd[i]);
                assert(d.contains(fd[i]));
                let x = choose|x: int| 0 <= x < d.len() && d[x] == fd[i];
                assert(s[x] == fd[i]);
                assert(p(s[x], s[s.len() - 1]));
            }
        }
    }
}

/// Dropping batches keeps the store invariant: the survivors stand in their
/// old order with their old stamps.
proof fn lemma_filter_preserves_wf(s: StoreModel, pred: spec_fn(BatchModel) -> bool)
    requires
        store_wf(s),
    ensures
        store_wf(StoreModel { batches: s.batches.filter(pred), clock: s.clock }),
{
    let f = s.batches.filter(pred);
    lemma_filter_element_of(s.batches, pred);
    lemma_filter_preserves_pairwise(
        s.batches,
        pred,
        |a: BatchModel, b: BatchModel| !key_clash(a, b) && !key_clash(b, a),
    );
    lemma_filter_preserves_pairwise(
        s.batches,
        pred,
        |a: BatchModel, b: BatchModel| a.created_at < b.created_at,
    );
    assert forall|i: int, j: int|
        0 <= i < f.len() && 0 <= j < f.len() && i != j implies !key_clash(
        #[trigger] f[i],
        #[trigger] f[j],
    ) by {}
    assert forall|i: int| 0 <= i < f.len() implies 0 <= (#[trigger] f[i]).created_at < s.clock
        && batch_wf(f[i]) by {
        assert(s.batches.contains(f[i]));
        let x = choose|x: int| 0 <= x < s.batches.len() && s.batches[x] == f[i];
        assert(batch_wf(s.batches[x]));
    }
}

/// One step of filtering: extending the prefix by `s[i]` appends `s[i]` to
/// the filtered prefix exactly when the predicate keeps it.
proof fn lemma_filter_step(s: Seq<BatchModel>, pred: spec_fn(BatchModel) -> bool, i: int)
    requires
        0 <= i < s.len(),
    ensures
        s.subrange(0, i + 1).filter(pred) == if pred(s[i]) {
            s.subrange(0, i).filter(pred).push(s[i])
        } else {
            s.subrange(0, i).filter(pred)
        },
{
    reveal(Seq::filter);
    let p1 = s.subrange(0, i + 1);
    assert(p1.drop_last() =~= s.subrange(0, i));
    assert(p1.last() == s[i]);
    assert(p1.len() != 0);
}

/// Whether two statuses carry the same tag.
fn status_tag_eq(a: &BatchStatus, b: &BatchStatus) -> (r: bool)
    ensures
        r == same_status_tag(a@, b@),
{
    match (a, b) {
        (BatchStatus::Unknown, BatchStatus::Unknown) => true,
        (BatchStatus::Pending, BatchStatus::Pending) => true,
        (BatchStatus::Valid(_), BatchStatus::Valid(_)) => true,
        (BatchStatus::Invalid(_), BatchStatus::Invalid(_)) => true,
        _ => false,
    }
}

// ---------------------------------------------------------------------------
// The store
// ---------------------------------------------------------------------------

/// The batch tracking store: every operation of the public contract, backed
/// by in-memory state and verified against `StoreModel`.
pub struct BatchTrackingStoreOperations {
    batches: Vec<TrackingBatch>,
    clock: i64,
}

impl View for BatchTrackingStoreOperations {
    type V = StoreModel;

    closed spec fn view(&self) -> StoreModel {
        StoreModel { batches: self.batches.deep_view(), clock: self.clock as int }
    }
}

impl BatchTrackingStoreOperations {
    /// The store's invariant, established by `new` and preserved by every
    /// operation.
    pub open spec fn wf(self) -> bool {
        store_wf(self@)
    }

    /// Creates a new, empty store.
    pub fn new() -> (s: Self)
        ensures
            s.wf(),
            s@.batches == Seq::<BatchModel>::empty(),
            s@.clock == 0,
    {
        let s = BatchTrackingStoreOperations { batches: Vec::new(), clock: 0 };
        proof {
            assert(s@.batches =~= Seq::<BatchModel>::empty());
        }
        s
    }

    /// Adds every batch of `batches`, or none of them.
    ///
    /// Each added batch is stamped with the store's clock as its
    /// `created_at` — one tick per batch, in call order — and is stored with
    /// every other field exactly as given.  The whole call fails, leaving the
    /// store unchanged, if any batch would collide with a stored batch or
    /// with another batch of the call on its header or data change id, if
    /// any batch's receipts or status detail are not keyed by and referencing
    /// its own transactions, or if the clock cannot stamp them all.
    #[verifier::loop_isolation(false)]
    pub fn add_batches(&mut self, batches: Vec<TrackingBatch>) -> (r: Result<
        (),
        BatchTrackingStoreError,
    >)
        requires
            old(self).wf(),
        ensures
            final(self).wf(),
            ({
                let s = old(self)@;
                let news = batches.deep_view();
                if add_admissible(s.batches, news) && s.clock + news.len() <= i64::MAX {
                    &&& r is Ok
                    &&& final(self)@.batches == s.batches + stamp_batches(news, s.clock)
                    &&& final(self)@.clock == s.clock + news.len()
                } else {
                    &&& r matches Err(BatchTrackingStoreError::InternalError(_))
                    &&& final(self)@ == s
                }
            }),
    {
        let ghost s0 = self@;
        let ghost news = batches.deep_view();
        let n = batches.len();
        proof {
            assert(news.len() == n);
        }
        if (n as u64) > ((i64::MAX - self.clock) as u64) {
            return Err(
                BatchTrackingStoreError::InternalError(
                    String::from_str("the store's clock cannot stamp this many batches"),
                ),
            );
        }
        // Validate every batch before touching the state, so that the call is
        // all-or-nothing.
        let mut k: usize = 0;
        while k < n
            invariant
                k <= n,
                n == batches.len(),
                news == batches.deep_view(),
                forall|m: int| 0 <= m < k as int ==> admissible_at(s0.batches, news, m),
                self@ == s0,
                self.wf(),
            decreases n - k,
        {
            let b = &batches[k];
            proof {
                assert(b@ == news[k as int]);
            }
            // Against the stored batches.
            let stored_n = self.batches.len();
            let mut i: usize = 0;
            while i < stored_n
                invariant
                    i <= stored_n,
                    stored_n == self.batches.len(),
                    self@ == s0,
                    b@ == news[k as int],
                    k < n,
                    n == batches.len(),
                    news == batches.deep_view(),
                    forall|m: int|
                        0 <= m < i as int ==> !key_clash(#[trigger] s0.batches[m], news[k as int])
                            && !key_clash(news[k as int], s0.batches[m]),
                decreases stored_n - i,
            {
                let clash = key_clash_exec(&self.batches[i], b);
                proof {
                    assert(self.batches[i as int]@ == s0.batches[i as int]);
                }
                if clash {
                    proof {
                        assert(!keys_fresh(s0.batches, news[k as int]));
                        assert(!admissible_at(s0.batches, news, k as int));
                        assert(!add_admissible(s0.batches, news));
                    }
                    return Err(
                        BatchTrackingStoreError::InternalError(
                            String::from_str("a batch identifier is already in use"),
                        ),
                    );
                }
                i += 1;
            }
            // Against the earlier batches of this call.
            let mut j: usize = 0;
            while j < k
                invariant
                    j <= k,
                    k < n,
                    n == batches.len(),
                    news == batches.deep_view(),
                    self@ == s0,
                    b@ == news[k as int],
                    forall|m: int|
                        0 <= m < j as int ==> !key_clash(#[trigger] news[m], news[k as int])
                            && !key_clash(news[k as int], news[m]),
                decreases k - j,
            {
                let clash = key_clash_exec(&batches[j], b);
                proof {
                    assert(batches[j as int]@ == news[j as int]);
                }
                if clash {
                    proof {
                        assert(news.subrange(0, k as int)[j as int] == news[j as int]);
                        assert(!keys_fresh(news.subrange(0, k as int), news[k as int]));
                        assert(!admissible_at(s0.batches, news, k as int));
                        assert(!add_admissible(s0.batches, news));
                    }
                    return Err(
                        BatchTrackingStoreError::InternalError(
                            String::from_str("two batches of the call share an identifier"),
                        ),
                    );
                }
                j += 1;
            }
            if !check_batch_wf(b) {
                proof {
                    assert(!batch_wf(news[k as int]));
                    assert(!admissible_at(s0.batches, news, k as int));
                    assert(!add_admissible(s0.batches, news));
                }
                return Err(
                    BatchTrackingStoreError::InternalError(
                        String::from_str(
                            "a batch's receipts or status detail do not key to its transactions",
                        ),
                    ),
                );
            }
            proof {
                assert forall|m: int| 0 <= m < i as int implies !key_clash(
                    #[trigger] s0.batches[m],
                    news[k as int],
                ) && !key_clash(news[k as int], s0.batches[m]) by {}
                assert(keys_fresh(s0.batches, news[k as int]));
                assert forall|m: int| 0 <= m < k as int implies !key_clash(
                    #[trigger] news.subrange(0, k as int)[m],
                    news[k as int],
                ) && !key_clash(news[k as int], news.subrange(0, k as int)[m]) by {
                    assert(news.subrange(0, k as int)[m] == news[m]);
                }
                assert(keys_fresh(news.subrange(0, k as int), news[k as int]));
                assert(admissible_at(s0.batches, news, k as int));
            }
            k += 1;
        }
        proof {
            assert(add_admissible(s0.batches, news));
        }
        // Commit: stamp and append each batch.
        let mut k: usize = 0;
        while k < n
            invariant
                k <= n,
                n == batches.len(),
                news == batches.deep_view(),
                s0.clock + n <= i64::MAX,
                self.clock as int == s0.clock + k,
                self@.batches == s0.batches + stamp_batches(news, s0.clock).subrange(0, k as int),
            decreases n - k,
        {
            let mut b = batches[k].clone();
            b.created_at = self.clock;
            proof {
                assert(b@ == stamp_batch(news[k as int], s0.clock + k));
            }
            let ghost prev = self@.batches;
            self.batches.push(b);
            self.clock = self.clock + 1;
            proof {
                assert forall|m: int| 0 <= m < prev.len() + 1 implies self@.batches[m] == (
                s0.batches + stamp_batches(news, s0.clock).subrange(0, k as int + 1))[m] by {
                    if m < prev.len() {
                        assert(self@.batches[m] == prev[m]);
                    } else {
                        assert(self@.batches[m] == b@);
                        assert(stamp_batches(news, s0.clock).subrange(0, k as int + 1)[k as int]
                            == stamp_batch(news[k as int], s0.clock + k));
                    }
                }
                assert(self@.batches =~= s0.batches + stamp_batches(news, s0.clock).subrange(
                    0,
                    k as int + 1,
                ));
            }
            k += 1;
        }
        proof {
            assert(stamp_batches(news, s0.clock).subrange(0, n as int) =~= stamp_batches(
                news,
                s0.clock,
            ));
            assert(self@.batches == s0.batches + stamp_batches(news, s0.clock));
            lemma_add_preserves_wf(s0, news);
        }
        Ok(())
    }

    /// Resolves a lookup key to the index of the batch it addresses.
    #[verifier::loop_isolation(false)]
    fn find_index(&self, id: &str, service_id: &str) -> (r: Option<usize>)
        ensures
            match r {
                Some(u) => (u as int) < self@.batches.len() && find_batch(
                    self@.batches,
                    id@,
                    service_id@,
                ) == Some(u as int),
                None => find_batch(self@.batches, id@, service_id@) is None,
            },
    {
        let is_dc = id_is_data_change_key(id);
        let n = self.batches.len();
        let mut i: usize = 0;
        while i < n
            invariant
                i <= n,
                n == self.batches.len(),
                is_dc == is_data_change_key(id@),
                find_batch(self@.batches, id@, service_id@) == find_from(
                    self@.batches,
                    id@,
                    service_id@,
                    i as int,
                ),
            decreases n - i,
        {
            let b = &self.batches[i];
            let mut matched = str_eq(b.service_id.as_str(), service_id);
            if matched {
                if is_dc {
                    matched = match &b.data_change_id {
                        Some(d) => str_eq(d.as_str(), id),
                        None => false,
                    };
                } else {
                    matched = str_eq(b.batch_header.as_str(), id);
                }
            }
            proof {
                assert(self@.batches[i as int] == self.batches[i as int]@);
            }
            if matched {
                assert(batch_matches(self@.batches[i as int], id@, service_id@));
                return Some(i);
            }
            assert(!batch_matches(self@.batches[i as int], id@, service_id@));
            i += 1;
        }
        None
    }

    /// Fetches the full batch — transactions, receipts, status and submission
    /// error — addressed by `id` within `service_id`, or `None` if the
    /// identifier does not resolve.
    pub fn get_batch(&self, id: &str, service_id: &str) -> (r: Result<
        Option<TrackingBatch>,
        BatchTrackingStoreError,
    >)
        requires
            self.wf(),
        ensures
            match find_batch(self@.batches, id@, service_id@) {
                Some(i) => r matches Ok(Some(b)) && b@ == self@.batches[i],
                None => r matches Ok(None),
            },
    {
        match self.find_index(id, service_id) {
            Some(i) => {
                let b = self.batches[i].clone();
                proof {
                    assert(self.batches[i as int]@ == self@.batches[i as int]);
                }
                Ok(Some(b))
            },
            None => Ok(None),
        }
    }

    /// Fetches only the status of the batch addressed by `id` within
    /// `service_id`, or `None` if the identifier does not resolve.
    pub fn get_batch_status(&self, id: &str, service_id: &str) -> (r: Result<
        Option<BatchStatus>,
        BatchTrackingStoreError,
    >)
        requires
            self.wf(),
        ensures
            match find_batch(self@.batches, id@, service_id@) {
                Some(i) => r matches Ok(Some(st)) && st@ == self@.batches[i].batch_status,
                None => r matches Ok(None),
            },
    {
        match self.find_index(id, service_id) {
            Some(i) => {
                let st = self.batches[i].batch_status.clone();
                proof {
                    assert(self.batches[i as int]@ == self@.batches[i as int]);
                }
                Ok(Some(st))
            },
            None => Ok(None),
        }
    }

    /// Lists every batch, across all services, whose status carries the same
    /// tag as `status`; the detail inside the tag plays no part in the
    /// comparison.  Batches come back in insertion order.
    #[verifier::loop_isolation(false)]
    pub fn list_batches_by_status(&self, status: &BatchStatus) -> (r: Result<
        TrackingBatchList,
        BatchTrackingStoreError,
    >)
        requires
            self.wf(),
        ensures
            r matches Ok(l) && l@ == self@.batches.filter(
                |b: BatchModel| same_status_tag(b.batch_status, status@),
            ),
    {
        let ghost s = self@.batches;
        let ghost pred = |b: BatchModel| same_status_tag(b.batch_status, status@);
        let n = self.batches.len();
        let mut out: Vec<TrackingBatch> = Vec::new();
        let mut i: usize = 0;
        proof {
            reveal(Seq::filter);
            assert(out.deep_view() =~= s.subrange(0, 0).filter(pred));
        }
        while i < n
            invariant
                i <= n,
                out.deep_view() == s.subrange(0, i as int).filter(pred),
            decreases n - i,
        {
            let b = &self.batches[i];
            proof {
                assert(b@ == s[i as int]);
            }
            let keep = status_tag_eq(&b.batch_status, status);
            let ghost prev = out.deep_view();
            if keep {
                out.push(b.clone());
                proof {
                    assert forall|m: int| 0 <= m < prev.len() + 1 implies out.deep_view()[m] == prev.push(
                        s[i as int],
                    )[m] by {}
                    assert(out.deep_view() =~= prev.push(s[i as int]));
                }
            }
            proof {
                lemma_filter_step(s, pred, i as int);
            }
            i += 1;
        }
        proof {
            assert(s.subrange(0, n as int) =~= s);
        }
        Ok(TrackingBatchList { batches: out })
    }

    /// Lists every batch that has not yet been marked submitted, in insertion
    /// order.
    #[verifier::loop_isolation(false)]
    pub fn get_unsubmitted_batches(&self) -> (r: Result<
        TrackingBatchList,
        BatchTrackingStoreError,
    >)
        requires
            self.wf(),
        ensures
            r matches Ok(l) && l@ == self@.batches.filter(|b: BatchModel| !b.submitted),
    {
        let ghost s = self@.batches;
        let ghost pred = |b: BatchModel| !b.submitted;
        let n = self.batches.len();
        let mut out: Vec<TrackingBatch> = Vec::new();
        let mut i: usize = 0;
        proof {
            reveal(Seq::filter);
            assert(out.deep_view() =~= s.subrange(0, 0).filter(pred));
        }
        while i < n
            invariant
                i <= n,
                out.deep_view() == s.subrange(0, i as int).filter(pred),
            decreases n - i,
        {
            let b = &self.batches[i];
            proof {
                assert(b@ == s[i as int]);
            }
            let ghost prev = out.deep_view();
            if !b.submitted {
                out.push(b.clone());
                proof {
                    assert forall|m: int| 0 <= m < prev.len() + 1 implies out.deep_view()[m] == prev.push(
                        s[i as int],
                    )[m] by {}
                    assert(out.deep_view() =~= prev.push(s[i as int]));
                }
            }
            proof {
                lemma_filter_step(s, pred, i as int);
            }
            i += 1;
        }
        proof {
            assert(s.subrange(0, n as int) =~= s);
        }
        Ok(TrackingBatchList { batches: out })
    }

    /// Lists every batch whose status tag is `Invalid`, with its full nested
    /// detail, in insertion order.
    #[verifier::loop_isolation(false)]
    pub fn get_failed_batches(&self) -> (r: Result<TrackingBatchList, BatchTrackingStoreError>)
        requires
            self.wf(),
        ensures
            r matches Ok(l) && l@ == self@.batches.filter(
                |b: BatchModel| b.batch_status is Invalid,
            ),
    {
        let ghost s = self@.batches;
        let ghost pred = |b: BatchModel| b.batch_status is Invalid;
        let n = self.batches.len();
        let mut out: Vec<TrackingBatch> = Vec::new();
        let mut i: usize = 0;
        proof {
            reveal(Seq::filter);
            assert(out.deep_view() =~= s.subrange(0, 0).filter(pred));
        }
        while i < n
            invariant
                i <= n,
                out.deep_view() == s.subrange(0, i as int).filter(pred),
            decreases n - i,
        {
            let b = &self.batches[i];
            proof {
                assert(b@ == s[i as int]);
            }
            let failed = match &b.batch_status {
                BatchStatus::Invalid(_) => true,
                _ => false,
            };
            proof {
                assert(failed == pred(s[i as int]));
            }
            let ghost prev = out.deep_view();
            if failed {
                out.push(b.clone());
                proof {
                    assert forall|m: int| 0 <= m < prev.len() + 1 implies out.deep_view()[m] == prev.push(
                        s[i as int],
                    )[m] by {}
                    assert(out.deep_view() =~= prev.push(s[i as int]));
                }
            }
            proof {
                lemma_filter_step(s, pred, i as int);
            }
            i += 1;
        }
        proof {
            assert(s.subrange(0, n as int) =~= s);
        }
        Ok(TrackingBatchList { batches: out })
    }

    /// Deletes every batch — with all its dependent records — whose
    /// `created_at` is strictly below `cutoff`.  A batch stamped exactly at
    /// `cutoff` is retained.  The clock does not move backwards.
    #[verifier::loop_isolation(false)]
    pub fn clean_stale_records(&mut self, cutoff: i64) -> (r: Result<(), BatchTrackingStoreError>)
        requires
            old(self).wf(),
        ensures
            final(self).wf(),
            r is Ok,
            final(self)@.batches == old(self)@.batches.filter(
                |b: BatchModel| b.created_at >= cutoff,
            ),
            final(self)@.clock == old(self)@.clock,
    {
        let ghost s = self@.batches;
        let ghost pred = |b: BatchModel| b.created_at >= cutoff;
        let n = self.batches.len();
        let mut out: Vec<TrackingBatch> = Vec::new();
        let mut i: usize = 0;
        proof {
            reveal(Seq::filter);
            assert(out.deep_view() =~= s.subrange(0, 0).filter(pred));
        }
        while i < n
            invariant
                i <= n,
                n == self.batches.len(),
                self@.batches == s,
                out.deep_view() == s.subrange(0, i as int).filter(pred),
            decreases n - i,
        {
            let b = &self.batches[i];
            proof {
                assert(b@ == s[i as int]);
            }
            let keep = b.created_at >= cutoff;
            let ghost prev = out.deep_view();
            if keep {
                out.push(b.clone());
                proof {
                    assert forall|m: int| 0 <= m < prev.len() + 1 implies out.deep_view()[m] == prev.push(
                        s[i as int],
                    )[m] by {}
                    assert(out.deep_view() =~= prev.push(s[i as int]));
                }
            }
            proof {
                lemma_filter_step(s, pred, i as int);
            }
            i += 1;
        }
        self.batches = out;
        proof {
            assert(s.subrange(0, n as int) =~= s);
            lemma_filter_preserves_wf(StoreModel { batches: s, clock: self.clock as int }, pred);
        }
        Ok(())
    }

    /// Updates the tracking record of the batch addressed by `id` within
    /// `service_id`, as one atomic step: replaces its status when `status`
    /// carries one, records the given receipts keyed by transaction id —
    /// overwriting, not duplicating, a receipt recorded earlier for the same
    /// transaction — and replaces its submission error when one is given.
    /// Fields left `None` and an empty receipt list change nothing.  Fails
    /// with `NotFoundError` when the identifier does not resolve, and with
    /// `InternalError` when a receipt or status entry names a transaction
    /// outside the batch; on any failure the store is unchanged.
    pub fn update_batch_status(
        &mut self,
        id: &str,
        service_id: &str,
        status: Option<BatchStatus>,
        transaction_receipts: Vec<TransactionReceipt>,
        submission_error: Option<SubmissionError>,
    ) -> (r: Result<(), BatchTrackingStoreError>)
        requires
            old(self).wf(),
        ensures
            final(self).wf(),
            ({
                let s = old(self)@;
                match find_batch(s.batches, id@, service_id@) {
                    Some(i) => {
                        if update_acceptable(
                            s.batches[i],
                            status.deep_view(),
                            transaction_receipts.deep_view(),
                        ) {
                            &&& r is Ok
                            &&& final(self)@ == (StoreModel {
                                batches: s.batches.update(
                                    i,
                                    apply_update(
                                        s.batches[i],
                                        status.deep_view(),
                                        transaction_receipts.deep_view(),
                                        submission_error.deep_view(),
                                    ),
                                ),
                                clock: s.clock,
                            })
                        } else {
                            &&& r matches Err(BatchTrackingStoreError::InternalError(_))
                            &&& final(self)@ == s
                        }
                    },
                    None => {
                        &&& r matches Err(BatchTrackingStoreError::NotFoundError(m)) && m@
                            == not_found_message(id@)
                        &&& final(self)@ == s
                    },
                }
            }),
    {
        let ghost s = self@;
        let idx = match self.find_index(id, service_id) {
            Some(i) => i,
            None => {
                return Err(not_found_error(id));
            },
        };
        let ghost bm = s.batches[idx as int];
        proof {
            assert(self.batches[idx as int]@ == bm);
        }
        let ok_receipts = receipts_reference_exec(&self.batches[idx], &transaction_receipts);
        let ok_status = match &status {
            Some(st) => status_entries_reference(&self.batches[idx], st),
            None => true,
        };
        if !(ok_receipts && ok_status) {
            proof {
                assert(!update_acceptable(
                    bm,
                    status.deep_view(),
                    transaction_receipts.deep_view(),
                ));
            }
            return Err(
                BatchTrackingStoreError::InternalError(
                    String::from_str(
                        "a receipt or status entry names a transaction outside the batch",
                    ),
                ),
            );
        }
        let old_b = &self.batches[idx];
        let new_receipts = merge_receipts_exec(&old_b.transaction_receipts, &transaction_receipts);
        let new_error = match &submission_error {
            Some(e) => Some(e.clone()),
            None => crate::batch::clone_opt_submission_error(&old_b.submission_error),
        };
        let new_status = match status {
            Some(st) => st,
            None => old_b.batch_status.clone(),
        };
        let b2 = TrackingBatch {
            batch_header: old_b.batch_header.clone(),
            data_change_id: crate::batch::clone_opt_string(&old_b.data_change_id),
            service_id: old_b.service_id.clone(),
            signer_public_key: old_b.signer_public_key.clone(),
            submitted: old_b.submitted,
            created_at: old_b.created_at,
            transactions: crate::batch::clone_transaction_vec(&old_b.transactions),
            batch_status: new_status,
            submission_error: new_error,
            transaction_receipts: new_receipts,
        };
        let ghost b2m = apply_update(
            bm,
            status.deep_view(),
            transaction_receipts.deep_view(),
            submission_error.deep_view(),
        );
        proof {
            assert(b2@ == b2m);
        }
        let ghost prev = self@.batches;
        self.batches.set(idx, b2);
        proof {
            assert forall|m: int| 0 <= m < prev.len() implies self@.batches[m] == prev.update(
                idx as int,
                b2m,
            )[m] by {}
            assert(self@.batches =~= prev.update(idx as int, b2m));
            lemma_merge_wf(bm, bm.transaction_receipts, transaction_receipts.deep_view());
            match status.deep_view() {
                Some(x) => {
                    assert(status_references(bm, x));
                },
                None => {},
            }
            lemma_transfer_batch_wf(bm, b2m);
            lemma_update_preserves_wf(s, idx as int, b2m);
        }
        Ok(())
    }

    /// Marks the batch addressed by `batch_id` within `service_id` as
    /// submitted, as one atomic step: sets `submitted`, records an initial
    /// status when the ledger acknowledgment `dlt_status` names one, records
    /// the given receipts keyed by transaction id, and sets the submission
    /// error field to exactly what the call carried.  Fails with
    /// `NotFoundError` when the identifier does not resolve — submission
    /// tracking never creates a batch — and with `InternalError` on an
    /// unrecognized acknowledgment or a receipt naming a transaction outside
    /// the batch; on any failure the store is unchanged.
    pub fn change_batch_to_submitted(
        &mut self,
        batch_id: &str,
        service_id: &str,
        transaction_receipts: Vec<TransactionReceipt>,
        dlt_status: Option<&str>,
        submission_error: Option<SubmissionError>,
    ) -> (r: Result<(), BatchTrackingStoreError>)
        requires
            old(self).wf(),
        ensures
            final(self).wf(),
            ({
                let s = old(self)@;
                let st = match dlt_status {
                    Some(ds) => parse_status_key(ds@),
                    None => None,
                };
                match find_batch(s.batches, batch_id@, service_id@) {
                    Some(i) => {
                        if dlt_status is Some && st is None {
                            &&& r matches Err(BatchTrackingStoreError::InternalError(_))
                            &&& final(self)@ == s
                        } else if update_acceptable(
                            s.batches[i],
                            st,
                            transaction_receipts.deep_view(),
                        ) {
                            &&& r is Ok
                            &&& final(self)@ == (StoreModel {
                                batches: s.batches.update(
                                    i,
                                    apply_submitted(
                                        s.batches[i],
                                        st,
                                        transaction_receipts.deep_view(),
                                        submission_error.deep_view(),
                                    ),
                                ),
                                clock: s.clock,
                            })
                        } else {
                            &&& r matches Err(BatchTrackingStoreError::InternalError(_))
                            &&& final(self)@ == s
                        }
                    },
                    None => {
                        &&& r matches Err(BatchTrackingStoreError::NotFoundError(m)) && m@
                            == not_found_message(batch_id@)
                        &&& final(self)@ == s
                    },
                }
            }),
    {
        let ghost s = self@;
        let idx = match self.find_index(batch_id, service_id) {
            Some(i) => i,
            None => {
                return Err(not_found_error(batch_id));
            },
        };
        let ghost bm = s.batches[idx as int];
        proof {
            assert(self.batches[idx as int]@ == bm);
        }
        let parsed: Option<BatchStatus> = match dlt_status {
            Some(ds) => {
                match parse_status_exec(ds) {
                    Some(st) => Some(st),
                    None => {
                        return Err(
                            BatchTrackingStoreError::InternalError(
                                String::from_str("unrecognized ledger status"),
                            ),
                        );
                    },
                }
            },
            None => None,
        };
        let ghost stm = match dlt_status {
            Some(ds) => parse_status_key(ds@),
            None => None,
        };
        proof {
            assert(parsed.deep_view() == stm);
        }
        let ok_receipts = receipts_reference_exec(&self.batches[idx], &transaction_receipts);
        let ok_status = match &parsed {
            Some(st) => status_entries_reference(&self.batches[idx], st),
            None => true,
        };
        if !(ok_receipts && ok_status) {
            proof {
                assert(!update_acceptable(bm, stm, transaction_receipts.deep_view()));
            }
            return Err(
                BatchTrackingStoreError::InternalError(
                    String::from_str(
                        "a receipt or status entry names a transaction outside the batch",
                    ),
                ),
            );
        }
        let old_b = &self.batches[idx];
        let new_receipts = merge_receipts_exec(&old_b.transaction_receipts, &transaction_receipts);
        let new_status = match parsed {
            Some(st) => st,
            None => old_b.batch_status.clone(),
        };
        let b2 = TrackingBatch {
            batch_header: old_b.batch_header.clone(),
            data_change_id: crate::batch::clone_opt_string(&old_b.data_change_id),
            service_id: old_b.service_id.clone(),
            signer_public_key: old_b.signer_public_key.clone(),
            submitted: true,
            created_at: old_b.created_at,
            transactions: crate::batch::clone_transaction_vec(&old_b.transactions),
            batch_status: new_status,
            submission_error,
            transaction_receipts: new_receipts,
        };
        let ghost b2m = apply_submitted(
            bm,
            stm,
            transaction_receipts.deep_view(),
            submission_error.deep_view(),
        );
        proof {
            assert(b2@ == b2m);
        }
        let ghost prev = self@.batches;
        self.batches.set(idx, b2);
        proof {
            assert forall|m: int| 0 <= m < prev.len() implies self@.batches[m] == prev.update(
                idx as int,
                b2m,
            )[m] by {}
            assert(self@.batches =~= prev.update(idx as int, b2m));
            lemma_merge_wf(bm, bm.transaction_receipts, transaction_receipts.deep_view());
            match stm {
                Some(x) => {
                    assert(status_references(bm, x));
                },
                None => {},
            }
            lemma_transfer_batch_wf(bm, b2m);
            lemma_update_preserves_wf(s, idx as int, b2m);
        }
        Ok(())
    }
}

} // verus!
