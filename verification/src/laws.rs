//! Store-level laws: properties of the operations' models, proved once and
//! holding for every store state that the operations can reach.

use vstd::prelude::*;

use crate::batch::{
    BatchModel, ReceiptModel, StatusModel, SubmissionErrorModel, is_data_change_key, same_status_tag,
};
use crate::store::{
    StoreModel, add_admissible, apply_submitted, apply_update, batch_matches, find_batch,
    key_clash, lemma_add_preserves_wf, lemma_filter_element_of, lemma_filter_preserves_pairwise,
    lemma_find_found, lemma_receipt_idx_props, merge_receipts, receipt_idx, receipt_idx_from,
    stamp_batch, stamp_batches, store_wf, upsert_receipt,
};

verus! {

// ---------------------------------------------------------------------------
// Round trip and dual identity
// ---------------------------------------------------------------------------

/// Round trip: every batch accepted by `add_batches` is found again by a
/// `get_batch` lookup on its header, stamped with a fresh `created_at` and
/// with every other field exactly as it was handed in.  (A header that itself
/// carries the `dcid:` prefix would be routed to the secondary key by the
/// resolver, so the law is stated for headers without it.)
pub proof fn lemma_add_then_get_round_trip(s: StoreModel, news: Seq<BatchModel>, k: int)
    requires
        store_wf(s),
        add_admissible(s.batches, news),
        s.clock + news.len() <= i64::MAX,
        0 <= k < news.len(),
        !is_data_change_key(news[k].batch_header),
    ensures
        ({
            let t = s.batches + stamp_batches(news, s.clock);
            let i = s.batches.len() as int + k;
            &&& find_batch(t, news[k].batch_header, news[k].service_id) == Some(i)
            &&& t[i].batch_header == news[k].batch_header
            &&& t[i].data_change_id == news[k].data_change_id
            &&& t[i].service_id == news[k].service_id
            &&& t[i].signer_public_key == news[k].signer_public_key
            &&& t[i].submitted == news[k].submitted
            &&& t[i].transactions == news[k].transactions
            &&& t[i].batch_status == news[k].batch_status
            &&& t[i].submission_error == news[k].submission_error
            &&& t[i].transaction_receipts == news[k].transaction_receipts
            &&& t[i].created_at == s.clock + k
            &&& t[i].created_at >= 0
        }),
{
    let t = s.batches + stamp_batches(news, s.clock);
    let i = s.batches.len() as int + k;
    lemma_add_preserves_wf(s, news);
    assert(t[i] == stamp_batch(news[k], s.clock + k));
    assert(batch_matches(t[i], news[k].batch_header, news[k].service_id));
    lemma_find_found(t, news[k].batch_header, news[k].service_id, i);
}

/// Dual identity: when a stored batch carries a well-formed data change id,
/// a lookup by that id and a lookup by the batch header resolve to the same
/// index, so `get_batch` returns identical results for either key.
pub proof fn lemma_dual_identity_equivalence(s: StoreModel, i: int, d: Seq<char>)
    requires
        store_wf(s),
        0 <= i < s.batches.len(),
        s.batches[i].data_change_id == Some(d),
        is_data_change_key(d),
        !is_data_change_key(s.batches[i].batch_header),
    ensures
        find_batch(s.batches, d, s.batches[i].service_id) == Some(i),
        find_batch(s.batches, s.batches[i].batch_header, s.batches[i].service_id) == Some(i),
{
    assert(batch_matches(s.batches[i], d, s.batches[i].service_id));
    assert(batch_matches(s.batches[i], s.batches[i].batch_header, s.batches[i].service_id));
    lemma_find_found(s.batches, d, s.batches[i].service_id, i);
    lemma_find_found(s.batches, s.batches[i].batch_header, s.batches[i].service_id, i);
}

// ---------------------------------------------------------------------------
// Idempotence of status updates
// ---------------------------------------------------------------------------

/// The receipt recorded for `tid`, if any.
pub open spec fn receipt_entry(rs: Seq<ReceiptModel>, tid: Seq<char>) -> Option<ReceiptModel> {
    match receipt_idx(rs, tid) {
        Some(j) => Some(rs[j]),
        None => None,
    }
}

/// Some receipt of `news` is for `tid`.
pub open spec fn has_receipt_for(news: Seq<ReceiptModel>, tid: Seq<char>) -> bool {
    exists|k: int| 0 <= k < news.len() && (#[trigger] news[k]).transaction_id == tid
}

/// Sequences with pointwise equal transaction ids index a transaction id at
/// the same position.
proof fn lemma_receipt_idx_same_tids(
    rs1: Seq<ReceiptModel>,
    rs2: Seq<ReceiptModel>,
    tid: Seq<char>,
    k: int,
)
    requires
        rs1.len() == rs2.len(),
        forall|m: int|
            0 <= m < rs1.len() ==> (#[trigger] rs1[m]).transaction_id == (
            #[trigger] rs2[m]).transaction_id,
        0 <= k <= rs1.len(),
    ensures
        receipt_idx_from(rs1, tid, k) == receipt_idx_from(rs2, tid, k),
    decreases rs1.len() - k,
{
    if k < rs1.len() && rs1[k].transaction_id != tid {
        lemma_receipt_idx_same_tids(rs1, rs2, tid, k + 1);
    }
}

/// Appending a receipt does not move the index of a different transaction id.
proof fn lemma_receipt_idx_push(rs: Seq<ReceiptModel>, r: ReceiptModel, tid: Seq<char>, k: int)
    requires
        tid != r.transaction_id,
        0 <= k <= rs.len(),
    ensures
        receipt_idx_from(rs.push(r), tid, k) == receipt_idx_from(rs, tid, k),
    decreases rs.len() - k,
{
    if k < rs.len() {
        assert(rs.push(r)[k] == rs[k]);
        if rs[k].transaction_id != tid {
            lemma_receipt_idx_push(rs, r, tid, k + 1);
        }
    } else {
        assert(rs.push(r)[k] == r);
        assert(receipt_idx_from(rs.push(r), tid, k + 1) is None);
        assert(receipt_idx_from(rs, tid, k) is None);
    }
}

/// What one upsert does to every entry: the upserted transaction id now maps
/// to the new receipt, every other transaction id maps as before.
proof fn lemma_upsert_entry(rs: Seq<ReceiptModel>, r: ReceiptModel, tid: Seq<char>)
    ensures
        receipt_entry(upsert_receipt(rs, r), tid) == if tid == r.transaction_id {
            Some(r)
        } else {
            receipt_entry(rs, tid)
        },
{
    lemma_receipt_idx_props(rs, r.transaction_id, 0);
    match receipt_idx(rs, r.transaction_id) {
        Some(j) => {
            let out = rs.update(j, r);
            assert forall|m: int| 0 <= m < rs.len() implies (#[trigger] rs[m]).transaction_id == (
            #[trigger] out[m]).transaction_id by {}
            lemma_receipt_idx_same_tids(rs, out, tid, 0);
            lemma_receipt_idx_props(out, tid, 0);
            lemma_receipt_idx_props(rs, tid, 0);
        },
        None => {
            let out = rs.push(r);
            if tid == r.transaction_id {
                lemma_receipt_idx_props(out, tid, 0);
                match receipt_idx(out, tid) {
                    Some(m) => {
                        if m < rs.len() {
                            assert(rs[m].transaction_id == tid);
                        }
                        assert(m == rs.len());
                        assert(out[m] == r);
                    },
                    None => {
                        assert(out[rs.len() as int].transaction_id == tid);
                    },
                }
            } else {
                lemma_receipt_idx_push(rs, r, tid, 0);
                lemma_receipt_idx_props(rs, tid, 0);
            }
        },
    }
}

/// The last receipt of `news` for `tid`, if any.
pub open spec fn last_receipt_for(news: Seq<ReceiptModel>, tid: Seq<char>) -> Option<ReceiptModel>
    decreases news.len(),
{
    if news.len() == 0 {
        None
    } else if news.last().transaction_id == tid {
        Some(news.last())
    } else {
        last_receipt_for(news.drop_last(), tid)
    }
}

/// The last receipt of `news` for `tid`, or `dflt` when there is none.
pub open spec fn last_receipt_or(
    news: Seq<ReceiptModel>,
    tid: Seq<char>,
    dflt: ReceiptModel,
) -> ReceiptModel {
    match last_receipt_for(news, tid) {
        Some(r) => r,
        None => dflt,
    }
}

/// The last receipt for `tid` carries `tid`, and exists exactly when some
/// receipt of `news` carries it.
proof fn lemma_last_receipt_props(news: Seq<ReceiptModel>, tid: Seq<char>)
    ensures
        match last_receipt_for(news, tid) {
            Some(r) => r.transaction_id == tid && has_receipt_for(news, tid),
            None => !has_receipt_for(news, tid),
        },
    decreases news.len(),
{
    if news.len() != 0 {
        let d = news.drop_last();
        lemma_last_receipt_props(d, tid);
        if news.last().transaction_id == tid {
            assert(news[news.len() - 1].transaction_id == tid);
        } else {
            match last_receipt_for(d, tid) {
                Some(_) => {
                    let k = choose|k: int|
                        0 <= k < d.len() && (#[trigger] d[k]).transaction_id == tid;
                    assert(news[k].transaction_id == tid);
                },
                None => {
                    if has_receipt_for(news, tid) {
                        let k = choose|k: int|
                            0 <= k < news.len() && (#[trigger] news[k]).transaction_id == tid;
                        assert(k < news.len() - 1);
                        assert(d[k].transaction_id == tid);
                    }
                },
            }
        }
    }
}

/// After recording `news`, the entry for any transaction id is the last
/// receipt of `news` for it, or the old entry when `news` carries none.
proof fn lemma_merge_entry(rs: Seq<ReceiptModel>, news: Seq<ReceiptModel>, tid: Seq<char>)
    ensures
        receipt_entry(merge_receipts(rs, news), tid) == match last_receipt_for(news, tid) {
            Some(r) => Some(r),
            None => receipt_entry(rs, tid),
        },
    decreases news.len(),
{
    if news.len() != 0 {
        let d = news.drop_last();
        lemma_merge_entry(rs, d, tid);
        lemma_upsert_entry(merge_receipts(rs, d), news.last(), tid);
    }
}

/// Recording receipts whose transaction ids are all present leaves the
/// length and the per-position transaction ids unchanged, and rewrites
/// exactly the entry position of each recorded id to the last receipt for
/// it.
proof fn lemma_merge_characterization(m: Seq<ReceiptModel>, news: Seq<ReceiptModel>)
    requires
        forall|k: int|
            0 <= k < news.len() ==> receipt_entry(m, (#[trigger] news[k]).transaction_id) is Some,
    ensures
        ({
            let out = merge_receipts(m, news);
            &&& out.len() == m.len()
            &&& forall|p: int|
                0 <= p < m.len() ==> #[trigger] out[p] == ({
                    let tid = m[p].transaction_id;
                    if receipt_idx(m, tid) == Some(p) && has_receipt_for(news, tid) {
                        last_receipt_or(news, tid, m[p])
                    } else {
                        m[p]
                    }
                })
        }),
    decreases news.len(),
{
    if news.len() != 0 {
        let d = news.drop_last();
        let r = news.last();
        let tid_r = r.transaction_id;
        assert forall|k: int| 0 <= k < d.len() implies receipt_entry(
            m,
            (#[trigger] d[k]).transaction_id,
        ) is Some by {
            assert(d[k] == news[k]);
        }
        lemma_merge_characterization(m, d);
        let mid = merge_receipts(m, d);
        assert(merge_receipts(m, news) == upsert_receipt(mid, r));
        // The per-position transaction ids of `mid` equal those of `m`.
        assert forall|p: int| 0 <= p < m.len() implies (#[trigger] mid[p]).transaction_id == (
        #[trigger] m[p]).transaction_id by {
            let tid = m[p].transaction_id;
            if receipt_idx(m, tid) == Some(p) && has_receipt_for(d, tid) {
                lemma_last_receipt_props(d, tid);
            }
        }
        lemma_receipt_idx_same_tids(m, mid, tid_r, 0);
        // The entry position for the recorded id exists in `m`.
        assert(receipt_entry(m, tid_r) is Some) by {
            assert(news[news.len() - 1].transaction_id == tid_r);
        }
        lemma_receipt_idx_props(m, tid_r, 0);
        let p_r = receipt_idx(m, tid_r)->0;
        assert(receipt_idx(mid, tid_r) == Some(p_r));
        assert(upsert_receipt(mid, r) == mid.update(p_r, r));
        assert forall|p: int| 0 <= p < m.len() implies #[trigger] merge_receipts(m, news)[p] == ({
            let tid = m[p].transaction_id;
            if receipt_idx(m, tid) == Some(p) && has_receipt_for(news, tid) {
                last_receipt_or(news, tid, m[p])
            } else {
                m[p]
            }
        }) by {
            let tid = m[p].transaction_id;
            lemma_last_receipt_props(news, tid);
            lemma_last_receipt_props(d, tid);
            if p == p_r {
                assert(tid == tid_r);
                assert(last_receipt_for(news, tid) == Some(r));
            } else {
                assert(merge_receipts(m, news)[p] == mid[p]);
                if tid == tid_r {
                    // A duplicate position for the recorded id is not its
                    // entry position, so no pass touches it.
                    assert(receipt_idx(m, tid) == Some(p_r));
                    assert(mid[p] == m[p]);
                } else {
                    assert(last_receipt_for(news, tid) == last_receipt_for(d, tid));
                    assert(has_receipt_for(news, tid) == has_receipt_for(d, tid)) by {
                        if has_receipt_for(news, tid) && !has_receipt_for(d, tid) {
                            let k = choose|k: int|
                                0 <= k < news.len() && (#[trigger] news[k]).transaction_id == tid;
                            assert(k < news.len() - 1);
                            assert(d[k].transaction_id == tid);
                        }
                        if has_receipt_for(d, tid) {
                            let k = choose|k: int|
                                0 <= k < d.len() && (#[trigger] d[k]).transaction_id == tid;
                            assert(news[k].transaction_id == tid);
                        }
                    }
                }
            }
        }
    }
}

/// Recording the same receipts a second time changes nothing: every entry
/// already holds the last receipt for its id.
proof fn lemma_merge_idempotent(rs: Seq<ReceiptModel>, news: Seq<ReceiptModel>)
    ensures
        merge_receipts(merge_receipts(rs, news), news) == merge_receipts(rs, news),
{
    let m = merge_receipts(rs, news);
    assert forall|k: int| 0 <= k < news.len() implies receipt_entry(
        m,
        (#[trigger] news[k]).transaction_id,
    ) is Some by {
        let tid = news[k].transaction_id;
        lemma_merge_entry(rs, news, tid);
        lemma_last_receipt_props(news, tid);
        match last_receipt_for(news, tid) {
            Some(_) => {},
            None => {},
        }
    }
    lemma_merge_characterization(m, news);
    assert forall|p: int| 0 <= p < m.len() implies #[trigger] merge_receipts(m, news)[p] == m[p] by {
        let tid = m[p].transaction_id;
        if receipt_idx(m, tid) == Some(p) && has_receipt_for(news, tid) {
            lemma_merge_entry(rs, news, tid);
            lemma_last_receipt_props(news, tid);
            assert(receipt_entry(m, tid) == last_receipt_for(news, tid));
            assert(receipt_entry(m, tid) == Some(m[p]));
        }
    }
    assert(merge_receipts(m, news) =~= m);
}

/// Idempotence: applying the same `update_batch_status` call twice leaves
/// the same record as applying it once.
pub proof fn lemma_update_idempotent(
    b: BatchModel,
    st: Option<StatusModel>,
    news: Seq<ReceiptModel>,
    err: Option<SubmissionErrorModel>,
)
    ensures
        apply_update(apply_update(b, st, news, err), st, news, err) == apply_update(
            b,
            st,
            news,
            err,
        ),
{
    lemma_merge_idempotent(b.transaction_receipts, news);
}

/// Idempotence of submission marking: repeating the same
/// `change_batch_to_submitted` call leaves the same record.
pub proof fn lemma_submitted_idempotent(
    b: BatchModel,
    st: Option<StatusModel>,
    news: Seq<ReceiptModel>,
    err: Option<SubmissionErrorModel>,
)
    ensures
        apply_submitted(apply_submitted(b, st, news, err), st, news, err) == apply_submitted(
            b,
            st,
            news,
            err,
        ),
{
    lemma_merge_idempotent(b.transaction_receipts, news);
}

// ---------------------------------------------------------------------------
// Listing laws
// ---------------------------------------------------------------------------

/// Two batches matched by one lookup key collide on it.
proof fn lemma_matches_clash(a: BatchModel, b: BatchModel, id: Seq<char>, service_id: Seq<char>)
    requires
        batch_matches(a, id, service_id),
        batch_matches(b, id, service_id),
    ensures
        key_clash(a, b),
{
}

/// After replacing the batch at `i` with one the predicate rejects, no batch
/// of the filtered listing is addressed by a key that addressed the batch at
/// `i`.
proof fn lemma_replaced_batch_absent(
    s: StoreModel,
    i: int,
    b2: BatchModel,
    id: Seq<char>,
    service_id: Seq<char>,
    pred: spec_fn(BatchModel) -> bool,
)
    requires
        store_wf(s),
        0 <= i < s.batches.len(),
        batch_matches(s.batches[i], id, service_id),
        b2.batch_header == s.batches[i].batch_header,
        b2.data_change_id == s.batches[i].data_change_id,
        b2.service_id == s.batches[i].service_id,
        !pred(b2),
    ensures
        ({
            let f = s.batches.update(i, b2).filter(pred);
            forall|k: int| 0 <= k < f.len() ==> !batch_matches(#[trigger] f[k], id, service_id)
        }),
{
    let t = s.batches.update(i, b2);
    let f = t.filter(pred);
    lemma_filter_element_of(t, pred);
    assert(batch_matches(b2, id, service_id));
    assert forall|k: int| 0 <= k < f.len() implies !batch_matches(
        #[trigger] f[k],
        id,
        service_id,
    ) by {
        Seq::lemma_filter_pred(t, pred, k);
        assert(t.contains(f[k]));
        let x = choose|x: int| 0 <= x < t.len() && t[x] == f[k];
        if batch_matches(f[k], id, service_id) {
            assert(x != i) by {
                assert(!pred(t[i]));
                assert(pred(f[k]));
            }
            lemma_matches_clash(t[x], b2, id, service_id);
            assert(key_clash(s.batches[x], s.batches[i]));
            assert(!key_clash(s.batches[x], s.batches[i]));
        }
    }
}

/// After a successful `change_batch_to_submitted` of the batch at `i`, that
/// batch no longer appears among the unsubmitted batches, under any key that
/// addressed it.
pub proof fn lemma_submitted_leaves_unsubmitted(
    s: StoreModel,
    i: int,
    st: Option<StatusModel>,
    news: Seq<ReceiptModel>,
    err: Option<SubmissionErrorModel>,
    id: Seq<char>,
    service_id: Seq<char>,
)
    requires
        store_wf(s),
        0 <= i < s.batches.len(),
        batch_matches(s.batches[i], id, service_id),
    ensures
        ({
            let f = s.batches.update(i, apply_submitted(s.batches[i], st, news, err)).filter(
                |b: BatchModel| !b.submitted,
            );
            forall|k: int| 0 <= k < f.len() ==> !batch_matches(#[trigger] f[k], id, service_id)
        }),
{
    lemma_replaced_batch_absent(
        s,
        i,
        apply_submitted(s.batches[i], st, news, err),
        id,
        service_id,
        |b: BatchModel| !b.submitted,
    );
}

/// Listing by status tracks status updates: after a successful
/// `update_batch_status` that set the status of the batch at `i`, the updated
/// batch appears in the listing of its new status tag, and under no key that
/// addressed it does it appear in the listing of any other tag.
pub proof fn lemma_status_listing_tracks_updates(
    s: StoreModel,
    i: int,
    st: StatusModel,
    news: Seq<ReceiptModel>,
    err: Option<SubmissionErrorModel>,
    tag: StatusModel,
    id: Seq<char>,
    service_id: Seq<char>,
)
    requires
        store_wf(s),
        0 <= i < s.batches.len(),
        batch_matches(s.batches[i], id, service_id),
    ensures
        ({
            let b2 = apply_update(s.batches[i], Some(st), news, err);
            let t = s.batches.update(i, b2);
            let f = t.filter(|b: BatchModel| same_status_tag(b.batch_status, tag));
            &&& same_status_tag(st, tag) ==> f.contains(b2)
            &&& !same_status_tag(st, tag) ==> forall|k: int|
                0 <= k < f.len() ==> !batch_matches(#[trigger] f[k], id, service_id)
        }),
{
    let b2 = apply_update(s.batches[i], Some(st), news, err);
    let t = s.batches.update(i, b2);
    let pred = |b: BatchModel| same_status_tag(b.batch_status, tag);
    if same_status_tag(st, tag) {
        assert(pred(t[i]));
        Seq::lemma_filter_contains(t, pred, i);
    } else {
        lemma_replaced_batch_absent(s, i, b2, id, service_id, pred);
    }
}


/// Listings are deterministic: batches are stamped in insertion order, so
/// every filtered listing of a well-formed store — by status tag, by the
/// submitted flag, or by any other property — carries strictly increasing
/// `created_at` stamps.
pub proof fn lemma_listings_keep_insertion_order(
    s: StoreModel,
    pred: spec_fn(BatchModel) -> bool,
)
    requires
        store_wf(s),
    ensures
        ({
            let f = s.batches.filter(pred);
            forall|i: int, j: int|
                0 <= i < j < f.len() ==> (#[trigger] f[i]).created_at < (
                #[trigger] f[j]).created_at
        }),
{
    lemma_filter_preserves_pairwise(
        s.batches,
        pred,
        |a: BatchModel, b: BatchModel| a.created_at < b.created_at,
    );
}

} // verus!
