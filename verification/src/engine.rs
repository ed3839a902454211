//! The ledger engine: validates and routes each record to a ledger or
//! store mutation, enforcing the lock gate, duplicate detection and the
//! dispute lifecycle.
//!
//! Every method's effect on the engine state is exactly the model's
//! [`crate::model::transition`] function, and the `Result` it returns
//! is `Ok` exactly when the model accepts the record.

use vstd::prelude::*;

use crate::account::Account;
use crate::account_manager::{snapshot_of, AccountManager};
use crate::error::PaymentError;
use crate::model::{
    outcome, step, transition_chargeback, transition_deposit, transition_dispute,
    transition_resolve, transition_withdrawal, EngineState, Rejection,
};
use crate::transaction::{StoredTransaction, TransactionRecord, TransactionType};
use crate::transaction_store::TransactionStore;

verus! {

/// The diagnostic name of each operation, as it appears in the
/// `operation` and `tx_type` fields of errors.
pub open spec fn kind_name(t: TransactionType) -> Seq<char> {
    match t {
        TransactionType::Deposit => "deposit"@,
        TransactionType::Withdrawal => "withdrawal"@,
        TransactionType::Dispute => "dispute"@,
        TransactionType::Resolve => "resolve"@,
        TransactionType::Chargeback => "chargeback"@,
    }
}

/// The exact error a rejected record is reported with: the variant
/// matching its [`Rejection`], carrying the record's ids, the balances
/// the engine saw when it rejected, and the operation's name.
pub open spec fn error_reflects(
    s: EngineState,
    r: TransactionRecord,
    rej: Rejection,
    e: PaymentError,
) -> bool {
    match rej {
        Rejection::AccountLocked => e == (PaymentError::AccountLocked { client: r.client }),
        Rejection::MissingAmount => e matches PaymentError::MissingAmount { tx_type, tx, client }
            && tx_type@ == kind_name(r.tx_type) && tx == r.tx && client == r.client,
        Rejection::DuplicateTransaction => e == (PaymentError::DuplicateTransaction {
            tx: r.tx,
            client: r.client,
        }),
        Rejection::ArithmeticOverflow => e matches PaymentError::ArithmeticOverflow {
            operation,
            client,
        } && operation@ == kind_name(r.tx_type) && client == r.client,
        Rejection::InsufficientFunds => r.amount matches Some(requested) && e == (
        PaymentError::InsufficientFunds {
            client: r.client,
            available: s.account(r.client).available,
            requested,
        }),
        Rejection::TransactionNotFound => e matches PaymentError::TransactionNotFound {
            tx,
            operation,
        } && tx == r.tx && operation@ == kind_name(r.tx_type),
        Rejection::ClientMismatch => e matches PaymentError::ClientMismatch {
            tx,
            expected_client,
            actual_client,
            operation,
        } && tx == r.tx && expected_client == s.transactions[r.tx].client && actual_client
            == r.client && operation@ == kind_name(r.tx_type),
        Rejection::TransactionAlreadyDisputed => e == (PaymentError::TransactionAlreadyDisputed {
            tx: r.tx,
            client: r.client,
        }),
        Rejection::TransactionNotDisputed => e matches PaymentError::TransactionNotDisputed {
            tx,
            client,
            operation,
        } && tx == r.tx && client == r.client && operation@ == kind_name(r.tx_type),
        Rejection::InsufficientAvailableFunds => e
            matches PaymentError::InsufficientAvailableFunds {
            client,
            available,
            requested,
            operation,
        } && client == r.client && available == s.account(r.client).available && requested
            == s.transactions[r.tx].amount && operation@ == "hold_funds"@,
        Rejection::InsufficientHeldFunds => e matches PaymentError::InsufficientHeldFunds {
            client,
            held,
            requested,
            operation,
        } && client == r.client && held == s.account(r.client).held && requested
            == s.transactions[r.tx].amount && operation@ == (if r.tx_type
            == TransactionType::Resolve {
            "release_funds"@
        } else {
            "chargeback"@
        }),
    }
}

/// The engine's whole contract for one record, shared by
/// [`TransactionEngine::process`] and the per-kind methods: the state
/// moves by `transition`, success is exactly the model's acceptance,
/// and a rejection is reported with the matching error.
pub open spec fn process_contract(
    pre: EngineState,
    post: EngineState,
    r: TransactionRecord,
    result: Result<(), PaymentError>,
) -> bool {
    &&& post == step(pre, r)
    &&& result is Ok <==> outcome(pre, r) is None
    &&& result matches Err(e) ==> outcome(pre, r) matches Some(rej) && error_reflects(
        pre,
        r,
        rej,
        e,
    )
}

/// Transaction processing engine over the account ledger and the
/// transaction store.
pub struct TransactionEngine {
    account_manager: AccountManager,
    transaction_store: TransactionStore,
}

impl View for TransactionEngine {
    type V = EngineState;

    closed spec fn view(&self) -> EngineState {
        EngineState { accounts: self.account_manager@, transactions: self.transaction_store@ }
    }
}

impl TransactionEngine {
    /// The engine invariant: every account satisfies
    /// `total == available + held`.
    pub open spec fn wf(self) -> bool {
        self@.wf()
    }

    /// Create a new engine with no accounts and no stored transactions.
    pub fn new() -> (engine: Self)
        ensures
            engine@ == EngineState::initial(),
            engine.wf(),
    {
        let engine = TransactionEngine {
            account_manager: AccountManager::new(),
            transaction_store: TransactionStore::new(),
        };
        proof {
            assert(engine@ =~= EngineState::initial());
        }
        engine
    }

    /// Process a deposit: reject on a locked account, a missing amount
    /// or a duplicate transaction id; otherwise credit the account and
    /// store the transaction for later disputes.
    pub fn process_deposit(&mut self, record: TransactionRecord) -> (result: Result<
        (),
        PaymentError,
    >)
        requires
            old(self).wf(),
            record.tx_type == TransactionType::Deposit,
        ensures
            final(self).wf(),
            process_contract(old(self)@, final(self)@, record, result),
    {
        if self.account_manager.is_locked(record.client) {
            return Err(PaymentError::account_locked(record.client));
        }
        let amount = match record.amount {
            Some(amount) => amount,
            None => {
                return Err(PaymentError::missing_amount("deposit", record.tx, record.client));
            },
        };
        if self.transaction_store.get(record.tx).is_some() {
            return Err(PaymentError::duplicate_transaction(record.tx, record.client));
        }

        let deposited = self.account_manager.deposit(record.client, amount);
        match deposited {
            Ok(_) => {
                self.transaction_store.store(
                    record.tx,
                    StoredTransaction {
                        client: record.client,
                        amount,
                        tx_type: TransactionType::Deposit,
                        under_dispute: false,
                    },
                );
                proof {
                    assert(self@ =~= transition_deposit(old(self)@, record).0);
                }
                Ok(())
            },
            Err(e) => {
                proof {
                    assert(self@ =~= transition_deposit(old(self)@, record).0);
                }
                Err(e)
            },
        }
    }

    /// Process a withdrawal: reject on a locked account, a missing
    /// amount, a duplicate transaction id or insufficient available
    /// funds; otherwise debit the account and store the transaction. A
    /// rejected withdrawal is not stored.
    pub fn process_withdrawal(&mut self, record: TransactionRecord) -> (result: Result<
        (),
        PaymentError,
    >)
        requires
            old(self).wf(),
            record.tx_type == TransactionType::Withdrawal,
        ensures
            final(self).wf(),
            process_contract(old(self)@, final(self)@, record, result),
    {
        if self.account_manager.is_locked(record.client) {
            return Err(PaymentError::account_locked(record.client));
        }
        let amount = match record.amount {
            Some(amount) => amount,
            None => {
                return Err(PaymentError::missing_amount("withdrawal", record.tx, record.client));
            },
        };
        if self.transaction_store.get(record.tx).is_some() {
            return Err(PaymentError::duplicate_transaction(record.tx, record.client));
        }

        let withdrawn = self.account_manager.withdraw(record.client, amount);
        match withdrawn {
            Ok(_) => {
                self.transaction_store.store(
                    record.tx,
                    StoredTransaction {
                        client: record.client,
                        amount,
                        tx_type: TransactionType::Withdrawal,
                        under_dispute: false,
                    },
                );
                proof {
                    assert(self@ =~= transition_withdrawal(old(self)@, record).0);
                }
                Ok(())
            },
            Err(e) => {
                proof {
                    assert(self@ =~= transition_withdrawal(old(self)@, record).0);
                }
                Err(e)
            },
        }
    }

    /// Process a dispute: the referenced transaction must exist, belong
    /// to the record's client and not be under dispute already, and the
    /// account must have its amount available; then the amount moves
    /// from available to held and the transaction is marked disputed.
    /// Disputes are permitted on locked accounts.
    pub fn process_dispute(&mut self, record: TransactionRecord) -> (result: Result<
        (),
        PaymentError,
    >)
        requires
            old(self).wf(),
            record.tx_type == TransactionType::Dispute,
        ensures
            final(self).wf(),
            process_contract(old(self)@, final(self)@, record, result),
    {
        let stored = match self.transaction_store.get(record.tx) {
            Some(stored) => stored,
            None => {
                return Err(PaymentError::transaction_not_found(record.tx, "dispute"));
            },
        };
        if stored.client != record.client {
            return Err(PaymentError::client_mismatch(
                record.tx,
                stored.client,
                record.client,
                "dispute",
            ));
        }
        if stored.under_dispute {
            return Err(PaymentError::transaction_already_disputed(record.tx, record.client));
        }

        let held = self.account_manager.hold_funds(record.client, stored.amount);
        match held {
            Ok(_) => {
                let marked = self.transaction_store.mark_disputed(record.tx);
                match marked {
                    Ok(_) => {
                        proof {
                            assert(self@ =~= transition_dispute(old(self)@, record).0);
                        }
                        Ok(())
                    },
                    // the transaction was just looked up, so this arm is
                    // unreachable
                    Err(e) => Err(e),
                }
            },
            Err(e) => {
                proof {
                    assert(self@ =~= transition_dispute(old(self)@, record).0);
                }
                Err(e)
            },
        }
    }

    /// Process a resolve: the referenced transaction must exist, belong
    /// to the record's client and be under dispute, and the account
    /// must hold its amount; then the amount moves from held back to
    /// available and the dispute flag is cleared.
    pub fn process_resolve(&mut self, record: TransactionRecord) -> (result: Result<
        (),
        PaymentError,
    >)
        requires
            old(self).wf(),
            record.tx_type == TransactionType::Resolve,
        ensures
            final(self).wf(),
            process_contract(old(self)@, final(self)@, record, result),
    {
        let stored = match self.transaction_store.get(record.tx) {
            Some(stored) => stored,
            None => {
                return Err(PaymentError::transaction_not_found(record.tx, "resolve"));
            },
        };
        if stored.client != record.client {
            return Err(PaymentError::client_mismatch(
                record.tx,
                stored.client,
                record.client,
                "resolve",
            ));
        }
        if !stored.under_dispute {
            return Err(PaymentError::transaction_not_disputed(record.tx, record.client, "resolve"));
        }

        let released = self.account_manager.release_funds(record.client, stored.amount);
        match released {
            Ok(_) => {
                let marked = self.transaction_store.mark_resolved(record.tx);
                match marked {
                    Ok(_) => {
                        proof {
                            assert(self@ =~= transition_resolve(old(self)@, record).0);
                        }
                        Ok(())
                    },
                    // the transaction was just looked up, so this arm is
                    // unreachable
                    Err(e) => Err(e),
                }
            },
            Err(e) => {
                proof {
                    assert(self@ =~= transition_resolve(old(self)@, record).0);
                }
                Err(e)
            },
        }
    }

    /// Process a chargeback: the referenced transaction must exist,
    /// belong to the record's client and be under dispute, and the
    /// account must hold its amount; then the amount leaves held and
    /// total and the account is locked for good. The dispute flag is
    /// left as-is: the transaction is terminal.
    pub fn process_chargeback(&mut self, record: TransactionRecord) -> (result: Result<
        (),
        PaymentError,
    >)
        requires
            old(self).wf(),
            record.tx_type == TransactionType::Chargeback,
        ensures
            final(self).wf(),
            process_contract(old(self)@, final(self)@, record, result),
    {
        let stored = match self.transaction_store.get(record.tx) {
            Some(stored) => stored,
            None => {
                return Err(PaymentError::transaction_not_found(record.tx, "chargeback"));
            },
        };
        if stored.client != record.client {
            return Err(PaymentError::client_mismatch(
                record.tx,
                stored.client,
                record.client,
                "chargeback",
            ));
        }
        if !stored.under_dispute {
            return Err(PaymentError::transaction_not_disputed(
                record.tx,
                record.client,
                "chargeback",
            ));
        }

        let charged = self.account_manager.chargeback(record.client, stored.amount);
        match charged {
            Ok(_) => {
                proof {
                    assert(self@ =~= transition_chargeback(old(self)@, record).0);
                }
                Ok(())
            },
            Err(e) => {
                proof {
                    assert(self@ =~= transition_chargeback(old(self)@, record).0);
                }
                Err(e)
            },
        }
    }

    /// Process a single record, routing it by its transaction type.
    /// The state moves by the model's transition function; a rejected
    /// record is reported and leaves the balances unchanged.
    pub fn process(&mut self, record: TransactionRecord) -> (result: Result<(), PaymentError>)
        requires
            old(self).wf(),
        ensures
            final(self).wf(),
            process_contract(old(self)@, final(self)@, record, result),
    {
        match record.tx_type {
            TransactionType::Deposit => self.process_deposit(record),
            TransactionType::Withdrawal => self.process_withdrawal(record),
            TransactionType::Dispute => self.process_dispute(record),
            TransactionType::Resolve => self.process_resolve(record),
            TransactionType::Chargeback => self.process_chargeback(record),
        }
    }

    /// Final account states for output: every account ever created, in
    /// ascending order of client id.
    pub fn get_accounts(&self) -> (accounts: Vec<Account>)
        ensures
            accounts@ == snapshot_of(self@.accounts),
    {
        self.account_manager.get_all_accounts()
    }

    /// The transaction stored under `tx`, where one exists.
    pub fn get_transaction(&self, tx: u32) -> (stored: Option<StoredTransaction>)
        ensures
            stored == if self@.transactions.contains_key(tx) {
                Some(self@.transactions[tx])
            } else {
                None::<StoredTransaction>
            },
    {
        self.transaction_store.get(tx)
    }
}

impl Default for TransactionEngine {
    /// Same as [`TransactionEngine::new`].
    fn default() -> (engine: Self)
        ensures
            engine@ == EngineState::initial(),
            engine.wf(),
    {
        TransactionEngine::new()
    }
}

} // verus!
