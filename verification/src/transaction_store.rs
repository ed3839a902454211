//! Storage of disputable transactions (deposits and withdrawals), keyed
//! by transaction id.
//!
//! The store is the duplicate-id defense: the first record stored under
//! an id wins, and a later `store` under the same id is a no-op. The
//! dispute flag of a stored transaction is toggled by
//! [`TransactionStore::mark_disputed`] and
//! [`TransactionStore::mark_resolved`].

use vstd::prelude::*;
use vstd::hash_map::HashMapWithView;

use crate::error::PaymentError;
use crate::transaction::{StoredTransaction, TransactionId};

verus! {

broadcast use vstd::std_specs::hash::group_hash_axioms;

/// Transaction store for dispute resolution.
pub struct TransactionStore {
    transactions: HashMapWithView<TransactionId, StoredTransaction>,
}

impl View for TransactionStore {
    type V = Map<TransactionId, StoredTransaction>;

    closed spec fn view(&self) -> Map<TransactionId, StoredTransaction> {
        self.transactions@
    }
}

impl TransactionStore {
    /// Create a new empty transaction store.
    pub fn new() -> (s: Self)
        ensures
            s@ == Map::<TransactionId, StoredTransaction>::empty(),
    {
        TransactionStore { transactions: HashMapWithView::new() }
    }

    /// Store a disputable transaction under `tx_id`. Where the id is
    /// already present the call changes nothing: the first occurrence
    /// wins.
    pub fn store(&mut self, tx_id: TransactionId, tx: StoredTransaction)
        ensures
            final(self)@ == if old(self)@.contains_key(tx_id) {
                old(self)@
            } else {
                old(self)@.insert(tx_id, tx)
            },
    {
        if !self.transactions.contains_key(&tx_id) {
            self.transactions.insert(tx_id, tx);
        } else {
            proof {
                assert(self@ =~= old(self)@);
            }
        }
    }

    /// Look up the transaction stored under `tx_id`.
    pub fn get(&self, tx_id: TransactionId) -> (tx: Option<StoredTransaction>)
        ensures
            tx == if self@.contains_key(tx_id) {
                Some(self@[tx_id])
            } else {
                None::<StoredTransaction>
            },
    {
        match self.transactions.get(&tx_id) {
            Some(tx) => Some(*tx),
            None => None,
        }
    }

    /// Set the dispute flag of the transaction stored under `tx_id`.
    /// Fails with `TransactionNotFound`, changing nothing, when the id
    /// is absent.
    pub fn mark_disputed(&mut self, tx_id: TransactionId) -> (result: Result<(), PaymentError>)
        ensures
            if old(self)@.contains_key(tx_id) {
                &&& result is Ok
                &&& final(self)@ == old(self)@.insert(tx_id, StoredTransaction {
                    under_dispute: true,
                    ..old(self)@[tx_id]
                })
            } else {
                &&& result matches Err(e) && e matches PaymentError::TransactionNotFound {
                    tx, operation } && tx == tx_id && operation@ == "mark_disputed"@
                &&& final(self)@ == old(self)@
            },
    {
        match self.transactions.get(&tx_id) {
            Some(tx) => {
                let updated = StoredTransaction { under_dispute: true, ..*tx };
                self.transactions.insert(tx_id, updated);
                Ok(())
            },
            None => Err(PaymentError::transaction_not_found(tx_id, "mark_disputed")),
        }
    }

    /// Clear the dispute flag of the transaction stored under `tx_id`.
    /// Fails with `TransactionNotFound`, changing nothing, when the id
    /// is absent.
    pub fn mark_resolved(&mut self, tx_id: TransactionId) -> (result: Result<(), PaymentError>)
        ensures
            if old(self)@.contains_key(tx_id) {
                &&& result is Ok
                &&& final(self)@ == old(self)@.insert(tx_id, StoredTransaction {
                    under_dispute: false,
                    ..old(self)@[tx_id]
                })
            } else {
                &&& result matches Err(e) && e matches PaymentError::TransactionNotFound {
                    tx, operation } && tx == tx_id && operation@ == "mark_resolved"@
                &&& final(self)@ == old(self)@
            },
    {
        match self.transactions.get(&tx_id) {
            Some(tx) => {
                let updated = StoredTransaction { under_dispute: false, ..*tx };
                self.transactions.insert(tx_id, updated);
                Ok(())
            },
            None => Err(PaymentError::transaction_not_found(tx_id, "mark_resolved")),
        }
    }
}

impl Default for TransactionStore {
    /// Same as [`TransactionStore::new`].
    fn default() -> (s: Self)
        ensures
            s@ == Map::<TransactionId, StoredTransaction>::empty(),
    {
        TransactionStore::new()
    }
}

} // verus!
