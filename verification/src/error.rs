//! Error taxonomy of the payments engine.
//!
//! Every variant is a per-record, recoverable rejection except
//! `FileNotFound` and `IoError`, which callers treat as fatal.

use vstd::prelude::*;

verus! {

/// All errors the payments engine can report.
///
/// Balance fields (`available`, `held`, `requested`) are fixed-point
/// amounts in ten-thousandths, as everywhere in this crate.
#[derive(Debug, Clone, PartialEq, Eq)]
pub enum PaymentError {
    /// Input source not found; fatal, aborts the run.
    FileNotFound { path: String },
    /// I/O failure while reading or writing; fatal.
    IoError { message: String },
    /// Malformed input record; the record is skipped.
    ParseError { line: Option<u64>, message: String },
    /// Unrecognized transaction type; the record is skipped.
    InvalidTransactionType { tx_type: String, tx: Option<u32> },
    /// Deposit or withdrawal without an amount; the record is skipped.
    MissingAmount { tx_type: String, tx: u32, client: u16 },
    /// Negative, malformed or out-of-range amount; the record is skipped.
    InvalidAmount { amount: String, tx: u32 },
    /// Withdrawal larger than the available balance; rejected.
    InsufficientFunds { client: u16, available: u64, requested: u64 },
    /// Deposit or withdrawal on a locked account; rejected.
    AccountLocked { client: u16 },
    /// A checked addition would exceed the balance range; rejected.
    ArithmeticOverflow { operation: String, client: u16 },
    /// A checked subtraction would go below zero; rejected.
    ArithmeticUnderflow { operation: String, client: u16 },
    /// Dispute, resolve or chargeback on an unknown transaction id.
    TransactionNotFound { tx: u32, operation: String },
    /// Dispute on a transaction already under dispute.
    TransactionAlreadyDisputed { tx: u32, client: u16 },
    /// Resolve or chargeback on a transaction not under dispute.
    TransactionNotDisputed { tx: u32, client: u16, operation: String },
    /// The record's client does not own the referenced transaction.
    ClientMismatch { tx: u32, expected_client: u16, actual_client: u16, operation: String },
    /// Hold, release or chargeback larger than the held balance.
    InsufficientHeldFunds { client: u16, held: u64, requested: u64, operation: String },
    /// Hold larger than the available balance.
    InsufficientAvailableFunds { client: u16, available: u64, requested: u64, operation: String },
    /// A deposit or withdrawal reused an existing transaction id.
    DuplicateTransaction { tx: u32, client: u16 },
}

impl PaymentError {
    /// Create an InsufficientFunds error.
    pub fn insufficient_funds(client: u16, available: u64, requested: u64) -> (e: Self)
        ensures
            e == (PaymentError::InsufficientFunds { client, available, requested }),
    {
        PaymentError::InsufficientFunds { client, available, requested }
    }

    /// Create an AccountLocked error.
    pub fn account_locked(client: u16) -> (e: Self)
        ensures
            e == (PaymentError::AccountLocked { client }),
    {
        PaymentError::AccountLocked { client }
    }

    /// Create a TransactionNotFound error.
    pub fn transaction_not_found(tx: u32, operation: &str) -> (e: Self)
        ensures
            e matches PaymentError::TransactionNotFound { tx: t, operation: op }
                && t == tx && op@ == operation@,
    {
        PaymentError::TransactionNotFound { tx, operation: operation.to_owned() }
    }

    /// Create a ClientMismatch error.
    pub fn client_mismatch(tx: u32, expected_client: u16, actual_client: u16, operation: &str) -> (e: Self)
        ensures
            e matches PaymentError::ClientMismatch {
                tx: t, expected_client: exp, actual_client: act, operation: op }
                && t == tx && exp == expected_client && act == actual_client && op@ == operation@,
    {
        PaymentError::ClientMismatch {
            tx,
            expected_client,
            actual_client,
            operation: operation.to_owned(),
        }
    }

    /// Create a TransactionAlreadyDisputed error.
    pub fn transaction_already_disputed(tx: u32, client: u16) -> (e: Self)
        ensures
            e == (PaymentError::TransactionAlreadyDisputed { tx, client }),
    {
        PaymentError::TransactionAlreadyDisputed { tx, client }
    }

    /// Create a TransactionNotDisputed error.
    pub fn transaction_not_disputed(tx: u32, client: u16, operation: &str) -> (e: Self)
        ensures
            e matches PaymentError::TransactionNotDisputed { tx: t, client: c, operation: op }
                && t == tx && c == client && op@ == operation@,
    {
        PaymentError::TransactionNotDisputed { tx, client, operation: operation.to_owned() }
    }

    /// Create an ArithmeticOverflow error.
    pub fn arithmetic_overflow(operation: &str, client: u16) -> (e: Self)
        ensures
            e matches PaymentError::ArithmeticOverflow { operation: op, client: c }
                && op@ == operation@ && c == client,
    {
        PaymentError::ArithmeticOverflow { operation: operation.to_owned(), client }
    }

    /// Create an ArithmeticUnderflow error.
    pub fn arithmetic_underflow(operation: &str, client: u16) -> (e: Self)
        ensures
            e matches PaymentError::ArithmeticUnderflow { operation: op, client: c }
                && op@ == operation@ && c == client,
    {
        PaymentError::ArithmeticUnderflow { operation: operation.to_owned(), client }
    }

    /// Create a MissingAmount error.
    pub fn missing_amount(tx_type: &str, tx: u32, client: u16) -> (e: Self)
        ensures
            e matches PaymentError::MissingAmount { tx_type: tt, tx: t, client: c }
                && tt@ == tx_type@ && t == tx && c == client,
    {
        PaymentError::MissingAmount { tx_type: tx_type.to_owned(), tx, client }
    }

    /// Create an InvalidAmount error.
    pub fn invalid_amount(amount: &str, tx: u32) -> (e: Self)
        ensures
            e matches PaymentError::InvalidAmount { amount: a, tx: t }
                && a@ == amount@ && t == tx,
    {
        PaymentError::InvalidAmount { amount: amount.to_owned(), tx }
    }

    /// Create an InvalidTransactionType error.
    pub fn invalid_transaction_type(tx_type: &str, tx: Option<u32>) -> (e: Self)
        ensures
            e matches PaymentError::InvalidTransactionType { tx_type: tt, tx: t }
                && tt@ == tx_type@ && t == tx,
    {
        PaymentError::InvalidTransactionType { tx_type: tx_type.to_owned(), tx }
    }

    /// Create an InsufficientHeldFunds error.
    pub fn insufficient_held_funds(client: u16, held: u64, requested: u64, operation: &str) -> (e: Self)
        ensures
            e matches PaymentError::InsufficientHeldFunds {
                client: c, held: h, requested: r, operation: op }
                && c == client && h == held && r == requested && op@ == operation@,
    {
        PaymentError::InsufficientHeldFunds {
            client,
            held,
            requested,
            operation: operation.to_owned(),
        }
    }

    /// Create an InsufficientAvailableFunds error.
    pub fn insufficient_available_funds(
        client: u16,
        available: u64,
        requested: u64,
        operation: &str,
    ) -> (e: Self)
        ensures
            e matches PaymentError::InsufficientAvailableFunds {
                client: c, available: a, requested: r, operation: op }
                && c == client && a == available && r == requested && op@ == operation@,
    {
        PaymentError::InsufficientAvailableFunds {
            client,
            available,
            requested,
            operation: operation.to_owned(),
        }
    }

    /// Create a DuplicateTransaction error.
    pub fn duplicate_transaction(tx: u32, client: u16) -> (e: Self)
        ensures
            e == (PaymentError::DuplicateTransaction { tx, client }),
    {
        PaymentError::DuplicateTransaction { tx, client }
    }
}

} // verus!
