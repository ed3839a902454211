//! End-to-end scenarios over the ledger engine: one record stream in,
//! one snapshot out.

use payments_engine::{
    PaymentError, TransactionEngine, TransactionRecord, TransactionType,
};

fn record(
    tx_type: TransactionType,
    client: u16,
    tx: u32,
    amount: Option<u64>,
) -> TransactionRecord {
    TransactionRecord { tx_type, client, tx, amount }
}

#[test]
fn scenario_single_deposit() {
    let mut engine = TransactionEngine::new();
    engine
        .process(record(TransactionType::Deposit, 1, 1, Some(10000)))
        .unwrap();

    let accounts = engine.get_accounts();
    assert_eq!(accounts.len(), 1);
    assert_eq!(accounts[0].available, 10000);
    assert_eq!(accounts[0].held, 0);
    assert_eq!(accounts[0].total, 10000);
    assert!(!accounts[0].locked);
}

#[test]
fn scenario_deposit_then_withdrawal() {
    let mut engine = TransactionEngine::new();
    engine
        .process(record(TransactionType::Deposit, 1, 1, Some(10000)))
        .unwrap();
    engine
        .process(record(TransactionType::Withdrawal, 1, 2, Some(3000)))
        .unwrap();

    let accounts = engine.get_accounts();
    assert_eq!(accounts[0].available, 7000);
    assert_eq!(accounts[0].total, 7000);
}

#[test]
fn scenario_deposit_then_dispute() {
    let mut engine = TransactionEngine::new();
    engine
        .process(record(TransactionType::Deposit, 1, 1, Some(10000)))
        .unwrap();
    engine
        .process(record(TransactionType::Dispute, 1, 1, None))
        .unwrap();

    let accounts = engine.get_accounts();
    assert_eq!(accounts[0].available, 0);
    assert_eq!(accounts[0].held, 10000);
    assert_eq!(accounts[0].total, 10000);
}

#[test]
fn scenario_dispute_then_chargeback_locks_account() {
    let mut engine = TransactionEngine::new();
    engine
        .process(record(TransactionType::Deposit, 1, 1, Some(10000)))
        .unwrap();
    engine
        .process(record(TransactionType::Dispute, 1, 1, None))
        .unwrap();
    engine
        .process(record(TransactionType::Chargeback, 1, 1, None))
        .unwrap();

    let accounts = engine.get_accounts();
    assert_eq!(accounts[0].available, 0);
    assert_eq!(accounts[0].held, 0);
    assert_eq!(accounts[0].total, 0);
    assert!(accounts[0].locked);

    // A subsequent deposit fails with AccountLocked
    let result = engine.process(record(TransactionType::Deposit, 1, 2, Some(5000)));
    assert!(matches!(
        result.unwrap_err(),
        PaymentError::AccountLocked { client: 1 }
    ));
}

#[test]
fn scenario_withdrawal_with_no_prior_deposit() {
    let mut engine = TransactionEngine::new();
    let result = engine.process(record(TransactionType::Withdrawal, 1, 1, Some(10000)));

    assert!(matches!(
        result.unwrap_err(),
        PaymentError::InsufficientFunds { .. }
    ));

    // The account remains, at zero
    let accounts = engine.get_accounts();
    assert_eq!(accounts.len(), 1);
    assert_eq!(accounts[0].available, 0);
    assert_eq!(accounts[0].total, 0);
}

#[test]
fn scenario_duplicate_transaction_id_rejected_without_mutation() {
    let mut engine = TransactionEngine::new();
    engine
        .process(record(TransactionType::Deposit, 1, 1, Some(10000)))
        .unwrap();

    // A second record reusing the id is rejected and changes nothing
    let result = engine.process(record(TransactionType::Deposit, 1, 1, Some(99999)));
    assert!(matches!(
        result.unwrap_err(),
        PaymentError::DuplicateTransaction { tx: 1, client: 1 }
    ));

    let accounts = engine.get_accounts();
    assert_eq!(accounts[0].available, 10000);

    // The store still holds the first record
    let stored = engine.get_transaction(1).unwrap();
    assert_eq!(stored.amount, 10000);
}

#[test]
fn scenario_dispute_lifecycle_on_locked_account() {
    // Dispute-lifecycle records are permitted on locked accounts, so a
    // second chargeback can complete after the first locked the account.
    let mut engine = TransactionEngine::new();
    engine
        .process(record(TransactionType::Deposit, 1, 1, Some(10000)))
        .unwrap();
    engine
        .process(record(TransactionType::Deposit, 1, 2, Some(20000)))
        .unwrap();
    engine
        .process(record(TransactionType::Dispute, 1, 1, None))
        .unwrap();
    engine
        .process(record(TransactionType::Dispute, 1, 2, None))
        .unwrap();
    engine
        .process(record(TransactionType::Chargeback, 1, 1, None))
        .unwrap();

    // The account is now locked; the second chargeback still goes through
    engine
        .process(record(TransactionType::Chargeback, 1, 2, None))
        .unwrap();

    let accounts = engine.get_accounts();
    assert_eq!(accounts[0].available, 0);
    assert_eq!(accounts[0].held, 0);
    assert_eq!(accounts[0].total, 0);
    assert!(accounts[0].locked);
}

#[test]
fn scenario_resolve_reopens_dispute_path() {
    // A resolved transaction can be disputed again
    let mut engine = TransactionEngine::new();
    engine
        .process(record(TransactionType::Deposit, 1, 1, Some(10000)))
        .unwrap();
    engine
        .process(record(TransactionType::Dispute, 1, 1, None))
        .unwrap();
    engine
        .process(record(TransactionType::Resolve, 1, 1, None))
        .unwrap();
    engine
        .process(record(TransactionType::Dispute, 1, 1, None))
        .unwrap();

    let accounts = engine.get_accounts();
    assert_eq!(accounts[0].available, 0);
    assert_eq!(accounts[0].held, 10000);
    assert_eq!(accounts[0].total, 10000);
}

#[test]
fn scenario_balance_invariant_holds_throughout() {
    let mut engine = TransactionEngine::new();
    let stream = vec![
        record(TransactionType::Deposit, 1, 1, Some(50000)),
        record(TransactionType::Deposit, 2, 2, Some(70000)),
        record(TransactionType::Withdrawal, 1, 3, Some(20000)),
        record(TransactionType::Dispute, 1, 1, None),
        record(TransactionType::Withdrawal, 2, 4, Some(90000)),
        record(TransactionType::Resolve, 1, 1, None),
        record(TransactionType::Dispute, 2, 2, None),
        record(TransactionType::Chargeback, 2, 2, None),
        record(TransactionType::Deposit, 1, 5, Some(10000)),
    ];
    for r in stream {
        let _ = engine.process(r);
        for account in engine.get_accounts() {
            assert_eq!(account.total, account.available + account.held);
        }
    }
}

#[test]
fn scenario_dispute_rejected_when_funds_already_withdrawn() {
    // The disputed deposit's funds are no longer available, so the
    // hold is rejected and the dispute flag stays clear.
    let mut engine = TransactionEngine::new();
    engine
        .process(record(TransactionType::Deposit, 1, 1, Some(10000)))
        .unwrap();
    engine
        .process(record(TransactionType::Withdrawal, 1, 2, Some(8000)))
        .unwrap();

    let result = engine.process(record(TransactionType::Dispute, 1, 1, None));
    assert!(matches!(
        result.unwrap_err(),
        PaymentError::InsufficientAvailableFunds { .. }
    ));

    let accounts = engine.get_accounts();
    assert_eq!(accounts[0].available, 2000);
    assert_eq!(accounts[0].held, 0);
    assert!(!engine.get_transaction(1).unwrap().under_dispute);
}

#[test]
fn scenario_resolve_after_chargeback_rejected() {
    // A chargeback leaves the dispute flag set but removes the held
    // funds, so a later resolve of the same transaction is rejected.
    let mut engine = TransactionEngine::new();
    engine
        .process(record(TransactionType::Deposit, 1, 1, Some(10000)))
        .unwrap();
    engine
        .process(record(TransactionType::Dispute, 1, 1, None))
        .unwrap();
    engine
        .process(record(TransactionType::Chargeback, 1, 1, None))
        .unwrap();

    let result = engine.process(record(TransactionType::Resolve, 1, 1, None));
    assert!(matches!(
        result.unwrap_err(),
        PaymentError::InsufficientHeldFunds { .. }
    ));
}
