//! End-to-end tests of the batch tracking store: intake, lookup by either
//! identity, status and submission updates, listings and retention.

use batch_tracking::batch::{
    BatchStatus, InvalidTransactionBuilder, SubmissionErrorBuilder, TrackingBatch,
    TrackingBatchBuilder, TrackingBatchList, TrackingTransaction, TrackingTransactionBuilder,
    TransactionReceiptBuilder,
};
use batch_tracking::error::{BatchBuilderError, BatchTrackingStoreError};
use batch_tracking::store::BatchTrackingStoreOperations;

const FAMILY_NAME: &str = "test_family";
const FAMILY_VERSION: &str = "0.1";
const KEY1: &str = "111111111111111111111111111111111111111111111111111111111111111111";
const KEY2: &str = "222222222222222222222222222222222222222222222222222222222222222222";
const KEY3: &str = "333333333333333333333333333333333333333333333333333333333333333333";
const KEY4: &str = "444444444444444444444444444444444444444444444444444444444444444444";
const KEY5: &str = "555555555555555555555555555555555555555555555555555555555555555555";
const KEY6: &str = "666666666666666666666666666666666666666666666666666666666666666666";
const KEY7: &str = "777777777777777777777777777777777777777777777777777777777777777777";
const NONCE: &str = "f9kdzz";
const NONCE2: &str = "dzzf9k";
const BYTES2: [u8; 4] = [0x05, 0x06, 0x07, 0x08];
const TXN_ID1: &str = "aaaaaaaaaaaaaaaaaaaaaaaaaaaaaaaaaaaaaaaaaaaaaaaaaaaaaaaaaaaaaaaa";
const TXN_ID2: &str = "bbbbbbbbbbbbbbbbbbbbbbbbbbbbbbbbbbbbbbbbbbbbbbbbbbbbbbbbbbbbbbbb";
const HEADER1: &str = "cccccccccccccccccccccccccccccccccccccccccccccccccccccccccccccccc";
const HEADER2: &str = "dddddddddddddddddddddddddddddddddddddddddddddddddddddddddddddddd";

fn get_tracking_transaction(nonce: &str, transaction_id: &str) -> TrackingTransaction {
    TrackingTransactionBuilder::default()
        .with_transaction_id(transaction_id.to_string())
        .with_dependencies(vec![KEY2.to_string(), KEY3.to_string()])
        .with_family_name(FAMILY_NAME.to_string())
        .with_family_version(FAMILY_VERSION.to_string())
        .with_inputs(vec![KEY4.to_string(), KEY5[0..4].to_string()])
        .with_nonce(nonce.to_string())
        .with_outputs(vec![KEY6.to_string(), KEY7[0..4].to_string()])
        .with_payload_hash_method("sha512".to_string())
        .with_payload(BYTES2.to_vec())
        .build()
        .expect("Failed to build transaction")
}

fn get_tracking_batch(
    header: &str,
    transactions: Vec<TrackingTransaction>,
    submitted: bool,
) -> TrackingBatchBuilder {
    TrackingBatchBuilder::default()
        .with_batch_header(header.to_string())
        .with_transactions(transactions)
        .with_service_id("TEST".to_string())
        .with_signer_public_key(KEY1.to_string())
        .with_submitted(submitted)
}

#[test]
fn add_and_fetch_batch() {
    let mut store = BatchTrackingStoreOperations::new();

    let pair = get_tracking_transaction(NONCE, TXN_ID1);

    let add_tracking_batch = get_tracking_batch(HEADER1, vec![pair], false)
        .build()
        .expect("Failed to build batch");

    let id = add_tracking_batch.batch_header();

    store
        .add_batches(vec![add_tracking_batch.clone()])
        .expect("Failed to add batch");

    let batch_result = store
        .get_batch(&id, "TEST")
        .expect("Failed to get batch")
        .unwrap();
    let batch_timestamp = batch_result.created_at();

    let expected = get_tracking_batch(HEADER1, vec![get_tracking_transaction(NONCE, TXN_ID1)], false)
        .with_created_at(batch_timestamp)
        .build()
        .expect("Failed to build batch");

    assert_eq!(batch_result, expected);
}

#[test]
fn add_and_fetch_batch_with_dcid() {
    let mut store = BatchTrackingStoreOperations::new();

    let pair = get_tracking_transaction(NONCE, TXN_ID1);

    let dcid = "dcid:data_change".to_string();

    let add_tracking_batch = get_tracking_batch(HEADER1, vec![pair], false)
        .with_data_change_id(dcid.clone())
        .build()
        .expect("Failed to build batch");

    store
        .add_batches(vec![add_tracking_batch.clone()])
        .expect("Failed to add batch");

    let batch_result = store
        .get_batch(&dcid, "TEST")
        .expect("Failed to get batch")
        .unwrap();
    let batch_timestamp = batch_result.created_at();
    let expected = get_tracking_batch(HEADER1, vec![get_tracking_transaction(NONCE, TXN_ID1)], false)
        .with_created_at(batch_timestamp)
        .with_data_change_id(dcid)
        .build()
        .expect("Failed to build batch");

    assert_eq!(batch_result, expected);
}

#[test]
fn test_invalid_dcid() {
    let pair = get_tracking_transaction(NONCE, TXN_ID1);

    let dcid = "data_change".to_string();

    let add_tracking_batch = TrackingBatchBuilder::default()
        .with_batch_header(HEADER1.to_string())
        .with_transactions(vec![pair])
        .with_service_id("TEST".to_string())
        .with_data_change_id(dcid)
        .with_signer_public_key(KEY1.to_string())
        .with_submitted(false)
        .build();

    assert!(add_tracking_batch.is_err());

    let expected = BatchBuilderError::MissingRequiredField(
        "data change IDs must be formatted as 'dcid:<id>'".to_string(),
    );

    assert_eq!(add_tracking_batch.unwrap_err(), expected);
}

#[test]
fn update_batch_status() {
    let mut store = BatchTrackingStoreOperations::new();

    let pair = get_tracking_transaction(NONCE, TXN_ID1);

    let transaction_id = TXN_ID1.to_string();

    let tracking_batch = get_tracking_batch(HEADER1, vec![pair], false)
        .build()
        .expect("Failed to build batch");

    let id = tracking_batch.batch_header();

    store
        .add_batches(vec![tracking_batch.clone()])
        .expect("Failed to add batch");

    store
        .update_batch_status(&id, "TEST", Some(BatchStatus::Pending), Vec::new(), None)
        .expect("Failed to update batch");

    let batch_result_1 = store
        .get_batch(&id, "TEST")
        .expect("Failed to get batch")
        .unwrap();
    let batch_result_1_timestamp = batch_result_1.created_at();

    let expected_1 = get_tracking_batch(HEADER1, vec![get_tracking_transaction(NONCE, TXN_ID1)], false)
        .with_created_at(batch_result_1_timestamp)
        .with_batch_status(BatchStatus::Pending)
        .build()
        .expect("Failed to build batch");

    assert_eq!(batch_result_1, expected_1);

    let submission_error = SubmissionErrorBuilder::default()
        .with_error_type("test".to_string())
        .with_error_message("test message".to_string())
        .build()
        .expect("Failed to build error");

    let receipt_1 = TransactionReceiptBuilder::default()
        .with_transaction_id(transaction_id.to_string())
        .with_result_valid(false)
        .with_error_message("test".to_string())
        .with_error_data(BYTES2.to_vec())
        .with_serialized_receipt(
            std::str::from_utf8(&BYTES2)
                .expect("Failed to build string")
                .to_string(),
        )
        .build()
        .expect("Failed to build receipt");

    let invalid_transactions = vec![InvalidTransactionBuilder::default()
        .with_transaction_id(transaction_id.to_string())
        .with_error_message("test".to_string())
        .with_error_data(BYTES2.to_vec())
        .build()
        .expect("Failed to build invalid transaction")];

    store
        .update_batch_status(
            &id,
            "TEST",
            Some(BatchStatus::Invalid(invalid_transactions.to_vec())),
            vec![receipt_1.clone()],
            Some(submission_error.clone()),
        )
        .expect("Failed to update batch");

    let batch_result_2 = store
        .get_batch(&id, "TEST")
        .expect("Failed to get batch")
        .unwrap();
    let batch_result_2_timestamp = batch_result_2.created_at();

    let expected_2 = get_tracking_batch(HEADER1, vec![get_tracking_transaction(NONCE, TXN_ID1)], false)
        .with_created_at(batch_result_2_timestamp)
        .with_batch_status(BatchStatus::Invalid(invalid_transactions))
        .with_submission_error(submission_error)
        .with_transaction_receipts(vec![receipt_1])
        .build()
        .expect("Failed to build batch");

    assert_eq!(batch_result_2, expected_2);
}

#[test]
fn update_batch_status_dcid() {
    let mut store = BatchTrackingStoreOperations::new();

    let pair = get_tracking_transaction(NONCE, TXN_ID1);

    let transaction_id = TXN_ID1.to_string();

    let dcid = "dcid:data_change".to_string();

    let tracking_batch = get_tracking_batch(HEADER1, vec![pair], false)
        .with_data_change_id(dcid.clone())
        .build()
        .expect("Failed to build batch");

    store
        .add_batches(vec![tracking_batch.clone()])
        .expect("Failed to add batch");

    store
        .update_batch_status(&dcid, "TEST", Some(BatchStatus::Pending), Vec::new(), None)
        .expect("Failed to update batch");

    let batch_result_1 = store
        .get_batch(&dcid, "TEST")
        .expect("Failed to get batch")
        .unwrap();
    let batch_result_1_timestamp = batch_result_1.created_at();

    let expected_1 = get_tracking_batch(HEADER1, vec![get_tracking_transaction(NONCE, TXN_ID1)], false)
        .with_created_at(batch_result_1_timestamp)
        .with_batch_status(BatchStatus::Pending)
        .with_data_change_id(dcid.clone())
        .build()
        .expect("Failed to build batch");

    assert_eq!(batch_result_1, expected_1);

    let submission_error = SubmissionErrorBuilder::default()
        .with_error_type("test".to_string())
        .with_error_message("test message".to_string())
        .build()
        .expect("Failed to build error");

    let receipt_1 = TransactionReceiptBuilder::default()
        .with_transaction_id(transaction_id.to_string())
        .with_result_valid(false)
        .with_error_message("test".to_string())
        .with_error_data(BYTES2.to_vec())
        .with_serialized_receipt(
            std::str::from_utf8(&BYTES2)
                .expect("Failed to build string")
                .to_string(),
        )
        .build()
        .expect("Failed to build receipt");

    let invalid_transactions = vec![InvalidTransactionBuilder::default()
        .with_transaction_id(transaction_id.to_string())
        .with_error_message("test".to_string())
        .with_error_data(BYTES2.to_vec())
        .build()
        .expect("Failed to build invalid transaction")];

    store
        .update_batch_status(
            &dcid,
            "TEST",
            Some(BatchStatus::Invalid(invalid_transactions.to_vec())),
            vec![receipt_1.clone()],
            Some(submission_error.clone()),
        )
        .expect("Failed to update batch");

    let batch_result_2 = store
        .get_batch(&dcid, "TEST")
        .expect("Failed to get batch")
        .unwrap();
    let batch_result_2_timestamp = batch_result_2.created_at();

    let expected_2 = get_tracking_batch(HEADER1, vec![get_tracking_transaction(NONCE, TXN_ID1)], false)
        .with_created_at(batch_result_2_timestamp)
        .with_batch_status(BatchStatus::Invalid(invalid_transactions))
        .with_submission_error(submission_error)
        .with_data_change_id(dcid.clone())
        .with_transaction_receipts(vec![receipt_1])
        .build()
        .expect("Failed to build batch");

    assert_eq!(batch_result_2, expected_2);
}

#[test]
fn change_batch_to_submitted() {
    let mut store = BatchTrackingStoreOperations::new();

    let pair = get_tracking_transaction(NONCE, TXN_ID1);

    let transaction_header = TXN_ID1.to_string();

    let tracking_batch = get_tracking_batch(HEADER1, vec![pair], false)
        .build()
        .expect("Failed to build batch");

    let id = tracking_batch.batch_header();

    let txn_receipts = vec![TransactionReceiptBuilder::default()
        .with_transaction_id(transaction_header)
        .with_result_valid(true)
        .with_serialized_receipt(
            std::str::from_utf8(&BYTES2)
                .expect("Failed to build string")
                .to_string(),
        )
        .build()
        .expect("Failed to build receipt")];

    let submission_error = SubmissionErrorBuilder::default()
        .with_error_type("test".to_string())
        .with_error_message("test message".to_string())
        .build()
        .expect("Failed to build error");

    store
        .add_batches(vec![tracking_batch.clone()])
        .expect("Failed to add batch");

    store
        .change_batch_to_submitted(&id, "TEST", txn_receipts, Some("Pending"), Some(submission_error))
        .expect("Failed to change batch to submitted");

    let batch = store
        .get_batch(&id, "TEST")
        .expect("Failed to get batch")
        .unwrap();

    assert_eq!(batch.submitted(), true)
}

#[test]
fn change_batch_to_submitted_dcid() {
    let mut store = BatchTrackingStoreOperations::new();

    let pair = get_tracking_transaction(NONCE, TXN_ID1);

    let transaction_header = TXN_ID1.to_string();

    let dcid = "dcid:data_change".to_string();

    let tracking_batch = get_tracking_batch(HEADER1, vec![pair], false)
        .with_data_change_id(dcid.clone())
        .build()
        .expect("Failed to build batch");

    let txn_receipts = vec![TransactionReceiptBuilder::default()
        .with_transaction_id(transaction_header)
        .with_result_valid(true)
        .with_serialized_receipt(
            std::str::from_utf8(&BYTES2)
                .expect("Failed to build string")
                .to_string(),
        )
        .build()
        .expect("Failed to build receipt")];

    let submission_error = SubmissionErrorBuilder::default()
        .with_error_type("test".to_string())
        .with_error_message("test message".to_string())
        .build()
        .expect("Failed to build error");

    store
        .add_batches(vec![tracking_batch.clone()])
        .expect("Failed to add batch");

    store
        .change_batch_to_submitted(&dcid, "TEST", txn_receipts, Some("Pending"), Some(submission_error))
        .expect("Failed to change batch to submitted");

    let batch = store
        .get_batch(&dcid, "TEST")
        .expect("Failed to get batch")
        .unwrap();

    assert_eq!(batch.submitted(), true)
}

#[test]
fn change_batch_to_submitted_no_batch() {
    let mut store = BatchTrackingStoreOperations::new();

    let res = store
        .change_batch_to_submitted("id", "TEST", Vec::new(), Some("Pending"), None)
        .unwrap_err();

    assert_eq!(
        res,
        BatchTrackingStoreError::NotFoundError("Could not find batch with ID id".to_string())
    );
}

#[test]
fn get_unsubmitted_batches() {
    let mut store = BatchTrackingStoreOperations::new();

    let pair_1 = get_tracking_transaction(NONCE, TXN_ID1);

    let pair_2 = get_tracking_transaction(NONCE2, TXN_ID2);

    let tracking_batch_1 = get_tracking_batch(HEADER1, vec![pair_1], false)
        .build()
        .expect("Failed to build batch");

    let id = tracking_batch_1.batch_header();

    let tracking_batch_2 = get_tracking_batch(HEADER2, vec![pair_2], true)
        .build()
        .expect("Failed to build batch");

    store
        .add_batches(vec![tracking_batch_1.clone(), tracking_batch_2])
        .expect("Failed to add batches");

    let batch_result = store
        .get_batch(&id, "TEST")
        .expect("Failed to get batch")
        .unwrap();
    let batch_result_timestamp = batch_result.created_at();

    let expected_batch = get_tracking_batch(HEADER1, vec![get_tracking_transaction(NONCE, TXN_ID1)], false)
        .with_created_at(batch_result_timestamp)
        .build()
        .expect("Failed to build batch");

    let expected = TrackingBatchList {
        batches: vec![expected_batch],
    };

    assert_eq!(
        store
            .get_unsubmitted_batches()
            .expect("Failed to get batch"),
        expected
    );
}

#[test]
fn test_list_pending_batches() {
    let mut store = BatchTrackingStoreOperations::new();

    let pair = get_tracking_transaction(NONCE, TXN_ID1);

    let tracking_batch = get_tracking_batch(HEADER1, vec![pair], false)
        .build()
        .expect("Failed to build batch");

    let id = tracking_batch.batch_header();

    store
        .add_batches(vec![tracking_batch.clone()])
        .expect("Failed to add batch");

    let batch_result = store
        .get_batch(&id, "TEST")
        .expect("Failed to get batch")
        .unwrap();
    let batch_result_timestamp = batch_result.created_at();

    store
        .update_batch_status(&id, "TEST", Some(BatchStatus::Pending), Vec::new(), None)
        .expect("Failed to update batch");

    let expected = get_tracking_batch(HEADER1, vec![get_tracking_transaction(NONCE, TXN_ID1)], false)
        .with_created_at(batch_result_timestamp)
        .with_batch_status(BatchStatus::Pending)
        .build()
        .expect("Failed to build batch");

    assert_eq!(
        store
            .list_batches_by_status(&BatchStatus::Pending)
            .expect("Failed to get batch"),
        TrackingBatchList {
            batches: vec![expected]
        }
    );

    store
        .update_batch_status(&id, "TEST", Some(BatchStatus::Unknown), Vec::new(), None)
        .expect("Failed to update batch");

    assert_eq!(
        store
            .list_batches_by_status(&BatchStatus::Pending)
            .expect("Failed to get batch"),
        TrackingBatchList {
            batches: Vec::new()
        }
    );
}

#[test]
fn test_get_failed_batches() {
    let mut store = BatchTrackingStoreOperations::new();

    let pair = get_tracking_transaction(NONCE, TXN_ID1);

    let transaction_id = TXN_ID1.to_string();

    let tracking_batch = get_tracking_batch(HEADER1, vec![pair], false)
        .build()
        .expect("Failed to build batch");

    let id = tracking_batch.batch_header();

    store
        .add_batches(vec![tracking_batch.clone()])
        .expect("Failed to add batch");

    let batch_result = store
        .get_batch(&id, "TEST")
        .expect("Failed to get batch")
        .unwrap();
    let batch_result_timestamp = batch_result.created_at();

    let submission_error = SubmissionErrorBuilder::default()
        .with_error_type("test".to_string())
        .with_error_message("test message".to_string())
        .build()
        .expect("Failed to build error");

    let receipt_1 = TransactionReceiptBuilder::default()
        .with_transaction_id(transaction_id.to_string())
        .with_result_valid(false)
        .with_error_message("test".to_string())
        .with_error_data(BYTES2.to_vec())
        .with_serialized_receipt(
            std::str::from_utf8(&BYTES2)
                .expect("Failed to build string")
                .to_string(),
        )
        .build()
        .expect("Failed to build receipt");

    let invalid_transactions = vec![InvalidTransactionBuilder::default()
        .with_transaction_id(transaction_id.to_string())
        .with_error_message("test".to_string())
        .with_error_data(BYTES2.to_vec())
        .build()
        .expect("Failed to build transaction")];

    store
        .update_batch_status(
            &id,
            "TEST",
            Some(BatchStatus::Invalid(invalid_transactions.to_vec())),
            vec![receipt_1.clone()],
            Some(submission_error.clone()),
        )
        .expect("Failed to update batch");

    let expected = get_tracking_batch(HEADER1, vec![get_tracking_transaction(NONCE, TXN_ID1)], false)
        .with_created_at(batch_result_timestamp)
        .with_batch_status(BatchStatus::Invalid(invalid_transactions))
        .with_submission_error(submission_error)
        .with_transaction_receipts(vec![receipt_1])
        .build()
        .expect("Failed to build batch");

    assert_eq!(
        store.get_failed_batches().expect("Failed to get batch"),
        TrackingBatchList {
            batches: vec![expected]
        }
    );

    store
        .update_batch_status(&id, "TEST", Some(BatchStatus::Pending), Vec::new(), None)
        .expect("Failed to update batch");

    assert_eq!(
        store.get_failed_batches().expect("Failed to get batch"),
        TrackingBatchList {
            batches: Vec::new()
        }
    );
}

#[test]
fn test_clean_stale_records() {
    let mut store = BatchTrackingStoreOperations::new();

    let pair = get_tracking_transaction(NONCE, TXN_ID1);

    let tracking_batch = get_tracking_batch(HEADER1, vec![pair], false)
        .build()
        .expect("Failed to build batch");

    let id = tracking_batch.batch_header();

    store
        .add_batches(vec![tracking_batch.clone()])
        .expect("Failed to add batch");

    let batch_result = store
        .get_batch(&id, "TEST")
        .expect("Failed to get batch")
        .unwrap();
    let batch_timestamp = batch_result.created_at();

    store
        .clean_stale_records(batch_timestamp + 1)
        .expect("Failed to clean records");

    assert_eq!(store.get_batch(&id, "TEST").expect("Failed to get batch"), None)
}
