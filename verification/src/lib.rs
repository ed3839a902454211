//! A verified payments ledger engine.
//!
//! The library ingests a stream of transaction records (deposits,
//! withdrawals, disputes, resolves, chargebacks) and produces final
//! per-client account balances. Balances are fixed-point decimals with
//! four fractional digits, held as counts of ten-thousandths.
//!
//! Every account satisfies `total == available + held` at all times
//! ([`model::lemma_run_preserves_wf`]), the dispute lifecycle is
//! enforced as a state machine against the transition function in
//! [`model`], and the chunked, per-client-partitioned batch scheduler
//! is proved in [`equivalence`] to produce the same final snapshot as
//! plain sequential processing.

pub mod account;
pub mod account_manager;
pub mod batch;
pub mod cli;
pub mod csv_format;
pub mod engine;
pub mod equivalence;
pub mod error;
pub mod model;
pub mod strategy;
pub mod transaction;
pub mod transaction_store;

pub use account::Account;
pub use account_manager::AccountManager;
pub use batch::{BatchProcessor, ProcessingResult};
pub use cli::{CliArgs, StrategyType};
pub use csv_format::{
    convert_csv_record, format_amount, parse_amount, render_accounts_csv, trim_spaces, CsvRecord,
};
pub use engine::TransactionEngine;
pub use error::PaymentError;
pub use strategy::{
    create_strategy, AsyncProcessingStrategy, BatchConfig, ProcessingStrategy, Strategy,
    SyncProcessingStrategy, DEFAULT_BATCH_SIZE,
};
pub use transaction::{
    ClientId, StoredTransaction, TransactionId, TransactionRecord, TransactionType,
};
pub use transaction_store::TransactionStore;
