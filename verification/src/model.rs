//! The mathematical model of the ledger engine.
//!
//! [`EngineState`] is the ghost state of the whole engine: the account
//! map and the stored-transaction map. [`transition`] is the engine's
//! transition function: what one record does to the state and which
//! rejection, if any, it earns. The executable engine is verified
//! against this function, and the scheduler equivalence proofs reason
//! about it alone.

use vstd::prelude::*;

use crate::account::Account;
use crate::account_manager::map_account;
use crate::transaction::{StoredTransaction, TransactionRecord, TransactionType};

verus! {

/// Ghost state of the ledger engine: all accounts and all stored
/// disputable transactions.
#[verifier::ext_equal]
pub ghost struct EngineState {
    /// Account state per client.
    pub accounts: Map<u16, Account>,
    /// Stored deposits and withdrawals per transaction id.
    pub transactions: Map<u32, StoredTransaction>,
}

/// Why a record was rejected. Mirrors the `PaymentError` variants the
/// engine itself can produce, without their diagnostic payload.
pub enum Rejection {
    /// Deposit or withdrawal on a locked account.
    AccountLocked,
    /// Deposit or withdrawal without an amount.
    MissingAmount,
    /// Deposit or withdrawal reusing a stored transaction id.
    DuplicateTransaction,
    /// A checked addition would exceed the balance range.
    ArithmeticOverflow,
    /// Withdrawal larger than the available balance.
    InsufficientFunds,
    /// Dispute, resolve or chargeback on an unknown transaction id.
    TransactionNotFound,
    /// The record's client does not own the referenced transaction.
    ClientMismatch,
    /// Dispute on a transaction already under dispute.
    TransactionAlreadyDisputed,
    /// Resolve or chargeback on a transaction not under dispute.
    TransactionNotDisputed,
    /// Dispute hold larger than the available balance.
    InsufficientAvailableFunds,
    /// Resolve or chargeback larger than the held balance.
    InsufficientHeldFunds,
}

impl EngineState {
    /// The state before any record has been processed.
    pub open spec fn initial() -> EngineState {
        EngineState { accounts: Map::empty(), transactions: Map::empty() }
    }

    /// Engine invariant: every account belongs to the client it is
    /// keyed under and satisfies `total == available + held`.
    pub open spec fn wf(self) -> bool {
        forall|c: u16| self.accounts.contains_key(c) ==> (#[trigger] self.accounts[c]).wf(c)
    }

    /// Whether an account exists for `client` and is locked.
    pub open spec fn is_locked(self, client: u16) -> bool {
        self.accounts.contains_key(client) && self.accounts[client].locked
    }

    /// The account of `client`, or a fresh zero account where none
    /// exists yet.
    pub open spec fn account(self, client: u16) -> Account {
        map_account(self.accounts, client)
    }
}

/// What a deposit record does: lock gate, amount and duplicate checks,
/// then checked additions to `available` and `total`, and storage of
/// the transaction for later disputes.
pub open spec fn transition_deposit(s: EngineState, r: TransactionRecord) -> (EngineState, Option<
    Rejection,
>) {
    if s.is_locked(r.client) {
        (s, Some(Rejection::AccountLocked))
    } else {
        match r.amount {
            None => (s, Some(Rejection::MissingAmount)),
            Some(amount) => if s.transactions.contains_key(r.tx) {
                (s, Some(Rejection::DuplicateTransaction))
            } else {
                let a = s.account(r.client);
                if a.available + amount > u64::MAX || a.total + amount > u64::MAX {
                    // the account is created even when the addition is
                    // refused
                    (
                        EngineState { accounts: s.accounts.insert(r.client, a), ..s },
                        Some(Rejection::ArithmeticOverflow),
                    )
                } else {
                    (
                        EngineState {
                            accounts: s.accounts.insert(
                                r.client,
                                Account {
                                    available: (a.available + amount) as u64,
                                    total: (a.total + amount) as u64,
                                    ..a
                                },
                            ),
                            transactions: s.transactions.insert(
                                r.tx,
                                StoredTransaction {
                                    client: r.client,
                                    amount,
                                    tx_type: TransactionType::Deposit,
                                    under_dispute: false,
                                },
                            ),
                        },
                        None,
                    )
                }
            },
        }
    }
}

/// What a withdrawal record does: lock gate, amount and duplicate
/// checks, an available-funds check, then subtraction from `available`
/// and `total`, and storage of the transaction. A failed withdrawal is
/// not stored, but it does create the account.
pub open spec fn transition_withdrawal(s: EngineState, r: TransactionRecord) -> (
    EngineState,
    Option<Rejection>,
) {
    if s.is_locked(r.client) {
        (s, Some(Rejection::AccountLocked))
    } else {
        match r.amount {
            None => (s, Some(Rejection::MissingAmount)),
            Some(amount) => if s.transactions.contains_key(r.tx) {
                (s, Some(Rejection::DuplicateTransaction))
            } else {
                let a = s.account(r.client);
                if a.available < amount {
                    (
                        EngineState { accounts: s.accounts.insert(r.client, a), ..s },
                        Some(Rejection::InsufficientFunds),
                    )
                } else {
                    (
                        EngineState {
                            accounts: s.accounts.insert(
                                r.client,
                                Account {
                                    available: (a.available - amount) as u64,
                                    total: (a.total - amount) as u64,
                                    ..a
                                },
                            ),
                            transactions: s.transactions.insert(
                                r.tx,
                                StoredTransaction {
                                    client: r.client,
                                    amount,
                                    tx_type: TransactionType::Withdrawal,
                                    under_dispute: false,
                                },
                            ),
                        },
                        None,
                    )
                }
            },
        }
    }
}

/// What a dispute record does: look up the referenced transaction,
/// check ownership and that it is not already disputed, then move its
/// amount from `available` to `held` and set the dispute flag.
/// Disputes are permitted on locked accounts.
pub open spec fn transition_dispute(s: EngineState, r: TransactionRecord) -> (EngineState, Option<
    Rejection,
>) {
    if !s.transactions.contains_key(r.tx) {
        (s, Some(Rejection::TransactionNotFound))
    } else {
        let t = s.transactions[r.tx];
        if t.client != r.client {
            (s, Some(Rejection::ClientMismatch))
        } else if t.under_dispute {
            (s, Some(Rejection::TransactionAlreadyDisputed))
        } else {
            let a = s.account(r.client);
            if a.available < t.amount {
                (
                    EngineState { accounts: s.accounts.insert(r.client, a), ..s },
                    Some(Rejection::InsufficientAvailableFunds),
                )
            } else {
                (
                    EngineState {
                        accounts: s.accounts.insert(
                            r.client,
                            Account {
                                available: (a.available - t.amount) as u64,
                                held: (a.held + t.amount) as u64,
                                ..a
                            },
                        ),
                        transactions: s.transactions.insert(
                            r.tx,
                            StoredTransaction { under_dispute: true, ..t },
                        ),
                    },
                    None,
                )
            }
        }
    }
}

/// What a resolve record does: look up the referenced transaction,
/// check ownership and that it is under dispute, then move its amount
/// from `held` back to `available` and clear the dispute flag.
pub open spec fn transition_resolve(s: EngineState, r: TransactionRecord) -> (EngineState, Option<
    Rejection,
>) {
    if !s.transactions.contains_key(r.tx) {
        (s, Some(Rejection::TransactionNotFound))
    } else {
        let t = s.transactions[r.tx];
        if t.client != r.client {
            (s, Some(Rejection::ClientMismatch))
        } else if !t.under_dispute {
            (s, Some(Rejection::TransactionNotDisputed))
        } else {
            let a = s.account(r.client);
            if a.held < t.amount {
                (
                    EngineState { accounts: s.accounts.insert(r.client, a), ..s },
                    Some(Rejection::InsufficientHeldFunds),
                )
            } else {
                (
                    EngineState {
                        accounts: s.accounts.insert(
                            r.client,
                            Account {
                                available: (a.available + t.amount) as u64,
                                held: (a.held - t.amount) as u64,
                                ..a
                            },
                        ),
                        transactions: s.transactions.insert(
                            r.tx,
                            StoredTransaction { under_dispute: false, ..t },
                        ),
                    },
                    None,
                )
            }
        }
    }
}

/// What a chargeback record does: look up the referenced transaction,
/// check ownership and that it is under dispute, then remove its amount
/// from `held` and `total` and lock the account. The dispute flag is
/// left as-is: the transaction is terminal.
pub open spec fn transition_chargeback(s: EngineState, r: TransactionRecord) -> (
    EngineState,
    Option<Rejection>,
) {
    if !s.transactions.contains_key(r.tx) {
        (s, Some(Rejection::TransactionNotFound))
    } else {
        let t = s.transactions[r.tx];
        if t.client != r.client {
            (s, Some(Rejection::ClientMismatch))
        } else if !t.under_dispute {
            (s, Some(Rejection::TransactionNotDisputed))
        } else {
            let a = s.account(r.client);
            if a.held < t.amount {
                (
                    EngineState { accounts: s.accounts.insert(r.client, a), ..s },
                    Some(Rejection::InsufficientHeldFunds),
                )
            } else {
                (
                    EngineState {
                        accounts: s.accounts.insert(
                            r.client,
                            Account {
                                held: (a.held - t.amount) as u64,
                                total: (a.total - t.amount) as u64,
                                locked: true,
                                ..a
                            },
                        ),
                        ..s
                    },
                    None,
                )
            }
        }
    }
}

/// The engine's transition function: the state after one record, and
/// the rejection the record earned, if any. A rejected record leaves
/// the balances untouched except that a deposit, withdrawal or dispute
/// rejected after its account lookup still leaves the account created.
pub open spec fn transition(s: EngineState, r: TransactionRecord) -> (EngineState, Option<
    Rejection,
>) {
    match r.tx_type {
        TransactionType::Deposit => transition_deposit(s, r),
        TransactionType::Withdrawal => transition_withdrawal(s, r),
        TransactionType::Dispute => transition_dispute(s, r),
        TransactionType::Resolve => transition_resolve(s, r),
        TransactionType::Chargeback => transition_chargeback(s, r),
    }
}

/// The state after one record.
pub open spec fn step(s: EngineState, r: TransactionRecord) -> EngineState {
    transition(s, r).0
}

/// The rejection one record earns, or `None` where it is accepted.
pub open spec fn outcome(s: EngineState, r: TransactionRecord) -> Option<Rejection> {
    transition(s, r).1
}

/// The state after a whole sequence of records, applied in order.
pub open spec fn run(s: EngineState, records: Seq<TransactionRecord>) -> EngineState
    decreases records.len(),
{
    if records.len() == 0 {
        s
    } else {
        run(step(s, records[0]), records.drop_first())
    }
}

/// Whether a record is a deposit or withdrawal, the two kinds that are
/// stored under their transaction id and can be disputed.
pub open spec fn is_disputable(r: TransactionRecord) -> bool {
    r.tx_type == TransactionType::Deposit || r.tx_type == TransactionType::Withdrawal
}

/// One record preserves the engine invariant.
pub proof fn lemma_step_preserves_wf(s: EngineState, r: TransactionRecord)
    requires
        s.wf(),
    ensures
        step(s, r).wf(),
{
    assert(s.account(r.client).wf(r.client));
}

/// A whole sequence of records preserves the engine invariant.
pub proof fn lemma_run_preserves_wf(s: EngineState, records: Seq<TransactionRecord>)
    requires
        s.wf(),
    ensures
        run(s, records).wf(),
    decreases records.len(),
{
    if records.len() > 0 {
        lemma_step_preserves_wf(s, records[0]);
        lemma_run_preserves_wf(step(s, records[0]), records.drop_first());
    }
}

/// The balance invariant: after any sequence of records, every account
/// satisfies `total == available + held` (and, balances being
/// unsigned, every balance is at least zero).
pub proof fn lemma_balance_invariant(records: Seq<TransactionRecord>)
    ensures
        run(EngineState::initial(), records).wf(),
{
    lemma_run_preserves_wf(EngineState::initial(), records);
}

/// Idempotence of duplicate transaction ids: a deposit or withdrawal
/// whose transaction id is already stored is rejected and changes
/// nothing—the stored transaction keeps its first value and the ledger
/// is untouched.
pub proof fn lemma_duplicate_id_rejected(s: EngineState, r: TransactionRecord)
    requires
        is_disputable(r),
        s.transactions.contains_key(r.tx),
    ensures
        step(s, r) == s,
        outcome(s, r) is Some,
{
}

/// Dispute lifecycle legality, first half: a dispute of a transaction
/// already under dispute is always rejected as such and changes
/// nothing.
pub proof fn lemma_double_dispute_rejected(s: EngineState, r: TransactionRecord)
    requires
        r.tx_type == TransactionType::Dispute,
        s.transactions.contains_key(r.tx),
        s.transactions[r.tx].under_dispute,
    ensures
        step(s, r) == s,
        outcome(s, r) == Some(Rejection::TransactionAlreadyDisputed) || outcome(s, r) == Some(
            Rejection::ClientMismatch,
        ),
        s.transactions[r.tx].client == r.client ==> outcome(s, r) == Some(
            Rejection::TransactionAlreadyDisputed,
        ),
{
}

/// Dispute lifecycle legality, second half: a resolve or chargeback of
/// a transaction not under dispute is always rejected as such and
/// changes nothing.
pub proof fn lemma_undisputed_lifecycle_rejected(s: EngineState, r: TransactionRecord)
    requires
        r.tx_type == TransactionType::Resolve || r.tx_type == TransactionType::Chargeback,
        s.transactions.contains_key(r.tx),
        !s.transactions[r.tx].under_dispute,
    ensures
        step(s, r) == s,
        outcome(s, r) == Some(Rejection::TransactionNotDisputed) || outcome(s, r) == Some(
            Rejection::ClientMismatch,
        ),
        s.transactions[r.tx].client == r.client ==> outcome(s, r) == Some(
            Rejection::TransactionNotDisputed,
        ),
{
}

} // verus!
