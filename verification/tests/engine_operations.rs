use payments_engine::{
    Account, PaymentError, TransactionEngine, TransactionRecord, TransactionType,
};

fn find_account(accounts: &[Account], client: u16) -> Account {
    *accounts.iter().find(|a| a.client == client).unwrap()
}

#[test]
fn test_process_deposit_successful() {
    let mut engine = TransactionEngine::new();

    let record = TransactionRecord {
        tx_type: TransactionType::Deposit,
        client: 1,
        tx: 1,
        amount: Some(10000),
    };

    let result = engine.process_deposit(record);
    assert!(result.is_ok());

    // Verify account balance updated
    let account = find_account(&engine.get_accounts(), 1);
    assert_eq!(account.available, 10000);
    assert_eq!(account.held, 0);
    assert_eq!(account.total, 10000);
    assert!(!account.locked);

    // Verify transaction stored
    let stored_tx = engine.get_transaction(1);
    assert!(stored_tx.is_some());
    let stored_tx = stored_tx.unwrap();
    assert_eq!(stored_tx.client, 1);
    assert_eq!(stored_tx.amount, 10000);
    assert_eq!(stored_tx.tx_type, TransactionType::Deposit);
    assert!(!stored_tx.under_dispute);
}

#[test]
fn test_process_deposit_creates_account_if_not_exists() {
    let mut engine = TransactionEngine::new();

    let record = TransactionRecord {
        tx_type: TransactionType::Deposit,
        client: 42,
        tx: 1,
        amount: Some(5000),
    };

    let result = engine.process_deposit(record);
    assert!(result.is_ok());

    // Verify account was created
    let account = find_account(&engine.get_accounts(), 42);
    assert_eq!(account.client, 42);
    assert_eq!(account.available, 5000);
    assert_eq!(account.total, 5000);
}

#[test]
fn test_process_deposit_missing_amount() {
    let mut engine = TransactionEngine::new();

    let record = TransactionRecord {
        tx_type: TransactionType::Deposit,
        client: 1,
        tx: 1,
        amount: None, // Missing amount
    };

    let result = engine.process_deposit(record);
    assert!(result.is_err());

    match result {
        Err(PaymentError::MissingAmount { tx_type, tx, client }) => {
            assert_eq!(tx_type, "deposit");
            assert_eq!(tx, 1);
            assert_eq!(client, 1);
        }
        _ => panic!("Expected MissingAmount error"),
    }

    // Verify no account was created
    assert_eq!(engine.get_accounts().len(), 0);

    // Verify transaction was not stored
    assert!(engine.get_transaction(1).is_none());
}

#[test]
fn test_process_deposit_multiple_deposits_same_account() {
    let mut engine = TransactionEngine::new();

    // First deposit
    let record1 = TransactionRecord {
        tx_type: TransactionType::Deposit,
        client: 1,
        tx: 1,
        amount: Some(10000),
    };
    engine.process_deposit(record1).unwrap();

    // Second deposit
    let record2 = TransactionRecord {
        tx_type: TransactionType::Deposit,
        client: 1,
        tx: 2,
        amount: Some(5000),
    };
    engine.process_deposit(record2).unwrap();

    // Verify cumulative balance
    let account = find_account(&engine.get_accounts(), 1);
    assert_eq!(account.available, 15000);
    assert_eq!(account.total, 15000);

    // Verify both transactions stored
    assert!(engine.get_transaction(1).is_some());
    assert!(engine.get_transaction(2).is_some());
}

#[test]
fn test_process_deposit_different_accounts() {
    let mut engine = TransactionEngine::new();

    // Deposit to account 1
    let record1 = TransactionRecord {
        tx_type: TransactionType::Deposit,
        client: 1,
        tx: 1,
        amount: Some(10000),
    };
    engine.process_deposit(record1).unwrap();

    // Deposit to account 2
    let record2 = TransactionRecord {
        tx_type: TransactionType::Deposit,
        client: 2,
        tx: 2,
        amount: Some(20000),
    };
    engine.process_deposit(record2).unwrap();

    // Verify both accounts have correct balances
    let accounts = engine.get_accounts();
    let account1 = find_account(&accounts, 1);
    assert_eq!(account1.available, 10000);

    let account2 = find_account(&accounts, 2);
    assert_eq!(account2.available, 20000);
}

#[test]
fn test_process_deposit_arithmetic_overflow() {
    let mut engine = TransactionEngine::new();

    // Set account to the maximum value
    engine
        .process_deposit(TransactionRecord {
            tx_type: TransactionType::Deposit,
            client: 1,
            tx: 100,
            amount: Some(u64::MAX),
        })
        .unwrap();

    // Try to deposit more (should overflow)
    let record = TransactionRecord {
        tx_type: TransactionType::Deposit,
        client: 1,
        tx: 1,
        amount: Some(10000),
    };

    let result = engine.process_deposit(record);
    assert!(result.is_err());

    match result {
        Err(PaymentError::ArithmeticOverflow { operation, client }) => {
            assert_eq!(operation, "deposit");
            assert_eq!(client, 1);
        }
        _ => panic!("Expected ArithmeticOverflow error"),
    }

    // Verify account state unchanged
    let account = find_account(&engine.get_accounts(), 1);
    assert_eq!(account.available, u64::MAX);
    assert_eq!(account.total, u64::MAX);
}

#[test]
fn test_process_withdrawal_successful() {
    let mut engine = TransactionEngine::new();

    // First deposit funds
    let deposit = TransactionRecord {
        tx_type: TransactionType::Deposit,
        client: 1,
        tx: 1,
        amount: Some(10000),
    };
    engine.process_deposit(deposit).unwrap();

    // Then withdraw
    let withdrawal = TransactionRecord {
        tx_type: TransactionType::Withdrawal,
        client: 1,
        tx: 2,
        amount: Some(5000),
    };

    let result = engine.process_withdrawal(withdrawal);
    assert!(result.is_ok());

    // Verify account balance updated
    let account = find_account(&engine.get_accounts(), 1);
    assert_eq!(account.available, 5000);
    assert_eq!(account.held, 0);
    assert_eq!(account.total, 5000);
    assert!(!account.locked);

    // Verify transaction stored
    let stored_tx = engine.get_transaction(2);
    assert!(stored_tx.is_some());
    let stored_tx = stored_tx.unwrap();
    assert_eq!(stored_tx.client, 1);
    assert_eq!(stored_tx.amount, 5000);
    assert_eq!(stored_tx.tx_type, TransactionType::Withdrawal);
    assert!(!stored_tx.under_dispute);
}

#[test]
fn test_process_withdrawal_insufficient_funds() {
    let mut engine = TransactionEngine::new();

    // Deposit small amount
    let deposit = TransactionRecord {
        tx_type: TransactionType::Deposit,
        client: 1,
        tx: 1,
        amount: Some(5000),
    };
    engine.process_deposit(deposit).unwrap();

    // Try to withdraw more than available
    let withdrawal = TransactionRecord {
        tx_type: TransactionType::Withdrawal,
        client: 1,
        tx: 2,
        amount: Some(10000),
    };

    let result = engine.process_withdrawal(withdrawal);
    assert!(result.is_err());

    match result {
        Err(PaymentError::InsufficientFunds { client, available, requested }) => {
            assert_eq!(client, 1);
            assert_eq!(available, 5000);
            assert_eq!(requested, 10000);
        }
        _ => panic!("Expected InsufficientFunds error"),
    }

    // Verify account balance unchanged
    let account = find_account(&engine.get_accounts(), 1);
    assert_eq!(account.available, 5000);
    assert_eq!(account.total, 5000);

    // Verify transaction was NOT stored (failed withdrawal)
    assert!(engine.get_transaction(2).is_none());
}

#[test]
fn test_process_withdrawal_missing_amount() {
    let mut engine = TransactionEngine::new();

    let withdrawal = TransactionRecord {
        tx_type: TransactionType::Withdrawal,
        client: 1,
        tx: 1,
        amount: None, // Missing amount
    };

    let result = engine.process_withdrawal(withdrawal);
    assert!(result.is_err());

    match result {
        Err(PaymentError::MissingAmount { tx_type, tx, client }) => {
            assert_eq!(tx_type, "withdrawal");
            assert_eq!(tx, 1);
            assert_eq!(client, 1);
        }
        _ => panic!("Expected MissingAmount error"),
    }

    // Verify no account changes
    assert_eq!(engine.get_accounts().len(), 0);

    // Verify transaction was not stored
    assert!(engine.get_transaction(1).is_none());
}

#[test]
fn test_process_withdrawal_from_empty_account() {
    let mut engine = TransactionEngine::new();

    // Try to withdraw from account with no funds
    let withdrawal = TransactionRecord {
        tx_type: TransactionType::Withdrawal,
        client: 1,
        tx: 1,
        amount: Some(5000),
    };

    let result = engine.process_withdrawal(withdrawal);
    assert!(result.is_err());

    match result {
        Err(PaymentError::InsufficientFunds { client, available, requested }) => {
            assert_eq!(client, 1);
            assert_eq!(available, 0);
            assert_eq!(requested, 5000);
        }
        _ => panic!("Expected InsufficientFunds error"),
    }
}

#[test]
fn test_process_withdrawal_multiple_withdrawals() {
    let mut engine = TransactionEngine::new();

    // Deposit funds
    let deposit = TransactionRecord {
        tx_type: TransactionType::Deposit,
        client: 1,
        tx: 1,
        amount: Some(10000),
    };
    engine.process_deposit(deposit).unwrap();

    // First withdrawal
    let withdrawal1 = TransactionRecord {
        tx_type: TransactionType::Withdrawal,
        client: 1,
        tx: 2,
        amount: Some(3000),
    };
    engine.process_withdrawal(withdrawal1).unwrap();

    // Second withdrawal
    let withdrawal2 = TransactionRecord {
        tx_type: TransactionType::Withdrawal,
        client: 1,
        tx: 3,
        amount: Some(2000),
    };
    engine.process_withdrawal(withdrawal2).unwrap();

    // Verify cumulative balance
    let account = find_account(&engine.get_accounts(), 1);
    assert_eq!(account.available, 5000);
    assert_eq!(account.total, 5000);

    // Verify both transactions stored
    assert!(engine.get_transaction(2).is_some());
    assert!(engine.get_transaction(3).is_some());
}

#[test]
fn test_process_withdrawal_different_accounts() {
    let mut engine = TransactionEngine::new();

    // Deposit to both accounts
    let deposit1 = TransactionRecord {
        tx_type: TransactionType::Deposit,
        client: 1,
        tx: 1,
        amount: Some(10000),
    };
    engine.process_deposit(deposit1).unwrap();

    let deposit2 = TransactionRecord {
        tx_type: TransactionType::Deposit,
        client: 2,
        tx: 2,
        amount: Some(20000),
    };
    engine.process_deposit(deposit2).unwrap();

    // Withdraw from both accounts
    let withdrawal1 = TransactionRecord {
        tx_type: TransactionType::Withdrawal,
        client: 1,
        tx: 3,
        amount: Some(5000),
    };
    engine.process_withdrawal(withdrawal1).unwrap();

    let withdrawal2 = TransactionRecord {
        tx_type: TransactionType::Withdrawal,
        client: 2,
        tx: 4,
        amount: Some(8000),
    };
    engine.process_withdrawal(withdrawal2).unwrap();

    // Verify both accounts have correct balances
    let accounts = engine.get_accounts();
    let account1 = find_account(&accounts, 1);
    assert_eq!(account1.available, 5000);

    let account2 = find_account(&accounts, 2);
    assert_eq!(account2.available, 12000);
}

#[test]
fn test_process_withdrawal_arithmetic_underflow() {
    let mut engine = TransactionEngine::new();

    // Verify that normal operations don't cause underflow
    let deposit = TransactionRecord {
        tx_type: TransactionType::Deposit,
        client: 1,
        tx: 1,
        amount: Some(10000),
    };
    engine.process_deposit(deposit).unwrap();

    let withdrawal = TransactionRecord {
        tx_type: TransactionType::Withdrawal,
        client: 1,
        tx: 2,
        amount: Some(10000),
    };

    let result = engine.process_withdrawal(withdrawal);
    assert!(result.is_ok());
}
