//! Edge cases: duplicate identities, receipts keyed by transaction id,
//! idempotent updates, scoping by service, retention boundaries and the
//! error paths of the builders and the store.

use batch_tracking::batch::{
    BatchStatus, InvalidTransactionBuilder, SubmissionErrorBuilder, TrackingBatch,
    TrackingBatchBuilder, TrackingTransaction, TrackingTransactionBuilder,
    TransactionReceipt, TransactionReceiptBuilder,
};
use batch_tracking::error::{BatchBuilderError, BatchTrackingStoreError};
use batch_tracking::store::BatchTrackingStoreOperations;

fn make_txn(transaction_id: &str) -> TrackingTransaction {
    TrackingTransactionBuilder::default()
        .with_transaction_id(transaction_id.to_string())
        .with_family_name("test_family".to_string())
        .with_family_version("0.1".to_string())
        .with_nonce("f9kdzz".to_string())
        .with_payload_hash_method("sha512".to_string())
        .with_payload(vec![0x05, 0x06, 0x07, 0x08])
        .build()
        .expect("Failed to build transaction")
}

fn make_batch(header: &str, service_id: &str, transaction_id: &str) -> TrackingBatch {
    TrackingBatchBuilder::default()
        .with_batch_header(header.to_string())
        .with_service_id(service_id.to_string())
        .with_signer_public_key("key".to_string())
        .with_submitted(false)
        .with_transactions(vec![make_txn(transaction_id)])
        .build()
        .expect("Failed to build batch")
}

fn make_receipt(transaction_id: &str, result_valid: bool) -> TransactionReceipt {
    TransactionReceiptBuilder::default()
        .with_transaction_id(transaction_id.to_string())
        .with_result_valid(result_valid)
        .with_serialized_receipt("receipt".to_string())
        .build()
        .expect("Failed to build receipt")
}

fn is_internal(e: &BatchTrackingStoreError) -> bool {
    matches!(e, BatchTrackingStoreError::InternalError(_))
}

#[test]
fn add_empty_call_is_ok() {
    let mut store = BatchTrackingStoreOperations::new();
    store.add_batches(Vec::new()).expect("Empty intake must succeed");
    assert_eq!(store.get_unsubmitted_batches().unwrap().batches, Vec::new());
}

#[test]
fn add_duplicate_header_rejected() {
    let mut store = BatchTrackingStoreOperations::new();
    store
        .add_batches(vec![make_batch("h1", "TEST", "t1")])
        .expect("Failed to add batch");
    let err = store
        .add_batches(vec![make_batch("h1", "TEST", "t2")])
        .unwrap_err();
    assert!(is_internal(&err));
    // The failed call left the stored batch as it was.
    let fetched = store.get_batch("h1", "TEST").unwrap().unwrap();
    assert_eq!(fetched.transactions()[0].transaction_id, "t1".to_string());
}

#[test]
fn add_duplicate_header_in_one_call_rejected() {
    let mut store = BatchTrackingStoreOperations::new();
    let err = store
        .add_batches(vec![make_batch("h1", "TEST", "t1"), make_batch("h1", "TEST", "t2")])
        .unwrap_err();
    assert!(is_internal(&err));
    // All-or-nothing: neither batch was persisted.
    assert_eq!(store.get_batch("h1", "TEST").unwrap(), None);
}

#[test]
fn add_duplicate_dcid_rejected() {
    let mut store = BatchTrackingStoreOperations::new();
    let b1 = TrackingBatchBuilder::default()
        .with_batch_header("h1".to_string())
        .with_service_id("TEST".to_string())
        .with_data_change_id("dcid:x".to_string())
        .with_transactions(vec![make_txn("t1")])
        .build()
        .expect("Failed to build batch");
    let b2 = TrackingBatchBuilder::default()
        .with_batch_header("h2".to_string())
        .with_service_id("TEST".to_string())
        .with_data_change_id("dcid:x".to_string())
        .with_transactions(vec![make_txn("t2")])
        .build()
        .expect("Failed to build batch");
    store.add_batches(vec![b1]).expect("Failed to add batch");
    let err = store.add_batches(vec![b2]).unwrap_err();
    assert!(is_internal(&err));
}

#[test]
fn same_header_different_service_is_allowed() {
    let mut store = BatchTrackingStoreOperations::new();
    store
        .add_batches(vec![make_batch("h1", "SVC_A", "t1"), make_batch("h1", "SVC_B", "t2")])
        .expect("Failed to add batches");
    let a = store.get_batch("h1", "SVC_A").unwrap().unwrap();
    let b = store.get_batch("h1", "SVC_B").unwrap().unwrap();
    assert_eq!(a.service_id(), "SVC_A".to_string());
    assert_eq!(b.service_id(), "SVC_B".to_string());
}

#[test]
fn lookup_is_scoped_by_service() {
    let mut store = BatchTrackingStoreOperations::new();
    store
        .add_batches(vec![make_batch("h1", "TEST", "t1")])
        .expect("Failed to add batch");
    assert_eq!(store.get_batch("h1", "OTHER").unwrap(), None);
    assert_eq!(store.get_batch_status("h1", "OTHER").unwrap(), None);
}

#[test]
fn get_batch_status_returns_status_only() {
    let mut store = BatchTrackingStoreOperations::new();
    store
        .add_batches(vec![make_batch("h1", "TEST", "t1")])
        .expect("Failed to add batch");
    assert_eq!(
        store.get_batch_status("h1", "TEST").unwrap(),
        Some(BatchStatus::Unknown)
    );
    store
        .update_batch_status("h1", "TEST", Some(BatchStatus::Pending), Vec::new(), None)
        .expect("Failed to update batch");
    assert_eq!(
        store.get_batch_status("h1", "TEST").unwrap(),
        Some(BatchStatus::Pending)
    );
}

#[test]
fn update_not_found_reports_identifier() {
    let mut store = BatchTrackingStoreOperations::new();
    let err = store
        .update_batch_status("missing", "TEST", Some(BatchStatus::Pending), Vec::new(), None)
        .unwrap_err();
    assert_eq!(
        err,
        BatchTrackingStoreError::NotFoundError(
            "Could not find batch with ID missing".to_string()
        )
    );
}

#[test]
fn update_receipt_for_unknown_transaction_rejected() {
    let mut store = BatchTrackingStoreOperations::new();
    store
        .add_batches(vec![make_batch("h1", "TEST", "t1")])
        .expect("Failed to add batch");
    let err = store
        .update_batch_status("h1", "TEST", None, vec![make_receipt("t9", true)], None)
        .unwrap_err();
    assert!(is_internal(&err));
    // The rejected update changed nothing.
    let fetched = store.get_batch("h1", "TEST").unwrap().unwrap();
    assert_eq!(fetched.transaction_receipts().len(), 0);
}

#[test]
fn update_status_detail_for_unknown_transaction_rejected() {
    let mut store = BatchTrackingStoreOperations::new();
    store
        .add_batches(vec![make_batch("h1", "TEST", "t1")])
        .expect("Failed to add batch");
    let bad = InvalidTransactionBuilder::default()
        .with_transaction_id("t9".to_string())
        .with_error_message("test".to_string())
        .with_error_data(vec![1])
        .build()
        .expect("Failed to build invalid transaction");
    let err = store
        .update_batch_status("h1", "TEST", Some(BatchStatus::Invalid(vec![bad])), Vec::new(), None)
        .unwrap_err();
    assert!(is_internal(&err));
}

#[test]
fn receipts_overwrite_by_transaction_id() {
    let mut store = BatchTrackingStoreOperations::new();
    store
        .add_batches(vec![make_batch("h1", "TEST", "t1")])
        .expect("Failed to add batch");
    store
        .update_batch_status("h1", "TEST", None, vec![make_receipt("t1", false)], None)
        .expect("Failed to update batch");
    store
        .update_batch_status("h1", "TEST", None, vec![make_receipt("t1", true)], None)
        .expect("Failed to update batch");
    let fetched = store.get_batch("h1", "TEST").unwrap().unwrap();
    // Overwritten, not duplicated: one receipt, carrying the latest outcome.
    assert_eq!(fetched.transaction_receipts().len(), 1);
    assert_eq!(fetched.transaction_receipts()[0].result_valid, true);
}

#[test]
fn update_twice_is_idempotent() {
    let mut store = BatchTrackingStoreOperations::new();
    store
        .add_batches(vec![make_batch("h1", "TEST", "t1")])
        .expect("Failed to add batch");
    let error = SubmissionErrorBuilder::default()
        .with_error_type("test".to_string())
        .with_error_message("test message".to_string())
        .build()
        .expect("Failed to build error");
    store
        .update_batch_status(
            "h1",
            "TEST",
            Some(BatchStatus::Pending),
            vec![make_receipt("t1", true)],
            Some(error.clone()),
        )
        .expect("Failed to update batch");
    let once = store.get_batch("h1", "TEST").unwrap().unwrap();
    store
        .update_batch_status(
            "h1",
            "TEST",
            Some(BatchStatus::Pending),
            vec![make_receipt("t1", true)],
            Some(error),
        )
        .expect("Failed to update batch");
    let twice = store.get_batch("h1", "TEST").unwrap().unwrap();
    assert_eq!(once, twice);
}

#[test]
fn update_with_nothing_changes_nothing() {
    let mut store = BatchTrackingStoreOperations::new();
    store
        .add_batches(vec![make_batch("h1", "TEST", "t1")])
        .expect("Failed to add batch");
    let before = store.get_batch("h1", "TEST").unwrap().unwrap();
    store
        .update_batch_status("h1", "TEST", None, Vec::new(), None)
        .expect("Failed to update batch");
    let after = store.get_batch("h1", "TEST").unwrap().unwrap();
    assert_eq!(before, after);
}

#[test]
fn submitted_batch_leaves_unsubmitted_listing() {
    let mut store = BatchTrackingStoreOperations::new();
    store
        .add_batches(vec![make_batch("h1", "TEST", "t1")])
        .expect("Failed to add batch");
    assert_eq!(store.get_unsubmitted_batches().unwrap().batches.len(), 1);
    store
        .change_batch_to_submitted("h1", "TEST", Vec::new(), None, None)
        .expect("Failed to change batch to submitted");
    assert_eq!(store.get_unsubmitted_batches().unwrap().batches.len(), 0);
}

#[test]
fn change_to_submitted_with_bad_dlt_status_rejected() {
    let mut store = BatchTrackingStoreOperations::new();
    store
        .add_batches(vec![make_batch("h1", "TEST", "t1")])
        .expect("Failed to add batch");
    let err = store
        .change_batch_to_submitted("h1", "TEST", Vec::new(), Some("Garbage"), None)
        .unwrap_err();
    assert!(is_internal(&err));
    // The rejected call changed nothing.
    let fetched = store.get_batch("h1", "TEST").unwrap().unwrap();
    assert_eq!(fetched.submitted(), false);
}

#[test]
fn change_to_submitted_records_each_named_status() {
    for (name, expected) in [
        ("Unknown", BatchStatus::Unknown),
        ("Pending", BatchStatus::Pending),
        ("Valid", BatchStatus::Valid(Vec::new())),
        ("Invalid", BatchStatus::Invalid(Vec::new())),
    ] {
        let mut store = BatchTrackingStoreOperations::new();
        store
            .add_batches(vec![make_batch("h1", "TEST", "t1")])
            .expect("Failed to add batch");
        store
            .change_batch_to_submitted("h1", "TEST", Vec::new(), Some(name), None)
            .expect("Failed to change batch to submitted");
        assert_eq!(store.get_batch_status("h1", "TEST").unwrap(), Some(expected));
    }
}

#[test]
fn change_to_submitted_overwrites_submission_error_with_given_value() {
    let mut store = BatchTrackingStoreOperations::new();
    store
        .add_batches(vec![make_batch("h1", "TEST", "t1")])
        .expect("Failed to add batch");
    let error = SubmissionErrorBuilder::default()
        .with_error_type("test".to_string())
        .with_error_message("test message".to_string())
        .build()
        .expect("Failed to build error");
    store
        .update_batch_status("h1", "TEST", None, Vec::new(), Some(error))
        .expect("Failed to update batch");
    // A submission marking without an error clears the recorded one.
    store
        .change_batch_to_submitted("h1", "TEST", Vec::new(), None, None)
        .expect("Failed to change batch to submitted");
    let fetched = store.get_batch("h1", "TEST").unwrap().unwrap();
    assert_eq!(fetched.submission_error(), &None);
}

#[test]
fn clean_retains_batch_stamped_at_cutoff() {
    let mut store = BatchTrackingStoreOperations::new();
    store
        .add_batches(vec![make_batch("h1", "TEST", "t1"), make_batch("h2", "TEST", "t2")])
        .expect("Failed to add batches");
    let second = store.get_batch("h2", "TEST").unwrap().unwrap();
    store
        .clean_stale_records(second.created_at())
        .expect("Failed to clean records");
    // Strictly older batches go; the one stamped exactly at the cutoff stays.
    assert_eq!(store.get_batch("h1", "TEST").unwrap(), None);
    assert!(store.get_batch("h2", "TEST").unwrap().is_some());
}

#[test]
fn listings_keep_insertion_order() {
    let mut store = BatchTrackingStoreOperations::new();
    store
        .add_batches(vec![
            make_batch("h1", "TEST", "t1"),
            make_batch("h2", "TEST", "t2"),
            make_batch("h3", "TEST", "t3"),
        ])
        .expect("Failed to add batches");
    let listed = store.get_unsubmitted_batches().unwrap().batches;
    let headers: Vec<String> = listed.iter().map(|b| b.batch_header()).collect();
    assert_eq!(
        headers,
        vec!["h1".to_string(), "h2".to_string(), "h3".to_string()]
    );
    assert!(listed[0].created_at() < listed[1].created_at());
    assert!(listed[1].created_at() < listed[2].created_at());
}

#[test]
fn full_update_scenario() {
    // Intake a batch with one transaction and nonce "f9kdzz"; fetch it by its
    // header; expect an unsubmitted batch in the Unknown status.  Then record
    // an Invalid status with detail, one failed receipt and a submission
    // error, and expect all three updated with `submitted` unchanged.
    let mut store = BatchTrackingStoreOperations::new();
    store
        .add_batches(vec![make_batch("h1", "TEST", "t1")])
        .expect("Failed to add batch");
    let fetched = store.get_batch("h1", "TEST").unwrap().unwrap();
    assert_eq!(fetched.submitted(), false);
    assert_eq!(fetched.batch_status(), &BatchStatus::Unknown);
    assert_eq!(fetched.transactions()[0].nonce, "f9kdzz".to_string());

    let invalid = InvalidTransactionBuilder::default()
        .with_transaction_id("t1".to_string())
        .with_error_message("test".to_string())
        .with_error_data(vec![0x05, 0x06, 0x07, 0x08])
        .build()
        .expect("Failed to build invalid transaction");
    let error = SubmissionErrorBuilder::default()
        .with_error_type("test".to_string())
        .with_error_message("test message".to_string())
        .build()
        .expect("Failed to build error");
    store
        .update_batch_status(
            "h1",
            "TEST",
            Some(BatchStatus::Invalid(vec![invalid.clone()])),
            vec![make_receipt("t1", false)],
            Some(error.clone()),
        )
        .expect("Failed to update batch");

    let updated = store.get_batch("h1", "TEST").unwrap().unwrap();
    assert_eq!(updated.batch_status(), &BatchStatus::Invalid(vec![invalid]));
    assert_eq!(updated.transaction_receipts().len(), 1);
    assert_eq!(updated.transaction_receipts()[0].result_valid, false);
    assert_eq!(updated.submission_error(), &Some(error));
    assert_eq!(updated.submitted(), false);
}

#[test]
fn receipt_builder_requires_transaction_id() {
    let err = TransactionReceiptBuilder::default()
        .with_result_valid(true)
        .build()
        .unwrap_err();
    assert_eq!(
        err,
        BatchBuilderError::MissingRequiredField("transaction_id".to_string())
    );
}

#[test]
fn submission_error_builder_requires_both_fields() {
    let err = SubmissionErrorBuilder::default()
        .with_error_message("m".to_string())
        .build()
        .unwrap_err();
    assert_eq!(err, BatchBuilderError::MissingRequiredField("error_type".to_string()));
    let err = SubmissionErrorBuilder::default()
        .with_error_type("t".to_string())
        .build()
        .unwrap_err();
    assert_eq!(err, BatchBuilderError::MissingRequiredField("error_message".to_string()));
}

#[test]
fn clock_stamps_are_fresh_across_cleaning() {
    let mut store = BatchTrackingStoreOperations::new();
    store
        .add_batches(vec![make_batch("h1", "TEST", "t1")])
        .expect("Failed to add batch");
    let first = store.get_batch("h1", "TEST").unwrap().unwrap();
    store
        .clean_stale_records(first.created_at() + 1)
        .expect("Failed to clean records");
    store
        .add_batches(vec![make_batch("h2", "TEST", "t2")])
        .expect("Failed to add batch");
    let second = store.get_batch("h2", "TEST").unwrap().unwrap();
    // The clock does not move backwards when records are purged.
    assert!(second.created_at() > first.created_at());
}
