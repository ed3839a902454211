//! Transaction records and the stored form kept for dispute resolution.

use vstd::prelude::*;

verus! {

/// Client identifier.
pub type ClientId = u16;

/// Transaction identifier.
pub type TransactionId = u32;

/// The five operations the engine processes.
///
/// Deposits and withdrawals move balances directly; disputes, resolves
/// and chargebacks drive the dispute lifecycle of an earlier deposit or
/// withdrawal.
#[derive(Debug, Clone, Copy, PartialEq, Eq, Structural)]
pub enum TransactionType {
    /// Credit funds to an account.
    Deposit,
    /// Debit funds from an account; needs sufficient available funds.
    Withdrawal,
    /// Challenge an earlier transaction, freezing its funds.
    Dispute,
    /// Release the funds of a disputed transaction back to available.
    Resolve,
    /// Reverse a disputed transaction and lock the account.
    Chargeback,
}

/// One input record.
///
/// `amount` is required for deposits and withdrawals and absent (or
/// ignored) for the dispute-lifecycle operations. Amounts are
/// fixed-point values in ten-thousandths.
#[derive(Debug, Clone, Copy, PartialEq, Eq)]
pub struct TransactionRecord {
    /// The operation this record asks for.
    pub tx_type: TransactionType,
    /// The client the record applies to.
    pub client: ClientId,
    /// Unique identifier of a deposit or withdrawal; for the
    /// dispute-lifecycle operations, the id of the referenced
    /// transaction.
    pub tx: TransactionId,
    /// Amount in ten-thousandths, where the operation carries one.
    pub amount: Option<u64>,
}

/// A stored deposit or withdrawal, kept so that later records can
/// dispute it. Only these two kinds are ever stored.
#[derive(Debug, Clone, Copy, PartialEq, Eq, Structural)]
pub struct StoredTransaction {
    /// The client that owns this transaction.
    pub client: ClientId,
    /// The transaction amount in ten-thousandths.
    pub amount: u64,
    /// Either `Deposit` or `Withdrawal`.
    pub tx_type: TransactionType,
    /// Whether the transaction is currently under dispute.
    pub under_dispute: bool,
}

} // verus!
