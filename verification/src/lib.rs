//! A batch tracking store: durable bookkeeping for transaction batches
//! submitted to a distributed ledger.
//!
//! The store records each batch together with its transactions, its evolving
//! validation status, the transaction receipts reported back by the ledger,
//! and any submission error.  A batch is addressed either by its
//! content-derived `batch_header` or, when one was assigned, by a secondary
//! `data_change_id` of the form `dcid:<id>`; every lookup is scoped by a
//! `service_id`.

pub mod batch;
pub mod error;
pub mod laws;
pub mod store;
