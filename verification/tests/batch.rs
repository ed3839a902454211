use payments_engine::{
    Account, BatchProcessor, TransactionEngine, TransactionRecord, TransactionType,
};
use std::collections::HashSet;

fn new_processor() -> BatchProcessor {
    BatchProcessor::new(TransactionEngine::new())
}

fn partition_of<'a>(
    parts: &'a [(u16, Vec<TransactionRecord>)],
    client: u16,
) -> Option<&'a Vec<TransactionRecord>> {
    parts.iter().find(|(c, _)| *c == client).map(|(_, v)| v)
}

fn snapshot_account(accounts: &[Account], client: u16) -> Account {
    *accounts.iter().find(|a| a.client == client).unwrap()
}

#[test]
fn test_partition_by_client_empty_batch() {
    let processor = new_processor();

    let batch = vec![];
    let partitioned = processor.partition_by_client(batch);

    assert_eq!(partitioned.len(), 0);
}

#[test]
fn test_partition_by_client_single_client() {
    let processor = new_processor();

    let batch = vec![
        TransactionRecord {
            tx_type: TransactionType::Deposit,
            client: 1,
            tx: 1,
            amount: Some(10000),
        },
        TransactionRecord {
            tx_type: TransactionType::Deposit,
            client: 1,
            tx: 2,
            amount: Some(20000),
        },
        TransactionRecord {
            tx_type: TransactionType::Withdrawal,
            client: 1,
            tx: 3,
            amount: Some(5000),
        },
    ];

    let partitioned = processor.partition_by_client(batch);

    // Should have exactly one client
    assert_eq!(partitioned.len(), 1);

    // Client 1 should have all 3 transactions
    let client1_txs = partition_of(&partitioned, 1).unwrap();
    assert_eq!(client1_txs.len(), 3);

    // Verify order is maintained
    assert_eq!(client1_txs[0].tx, 1);
    assert_eq!(client1_txs[1].tx, 2);
    assert_eq!(client1_txs[2].tx, 3);
}

#[test]
fn test_partition_by_client_multiple_clients() {
    let processor = new_processor();

    let batch = vec![
        TransactionRecord {
            tx_type: TransactionType::Deposit,
            client: 1,
            tx: 1,
            amount: Some(10000),
        },
        TransactionRecord {
            tx_type: TransactionType::Deposit,
            client: 2,
            tx: 2,
            amount: Some(20000),
        },
        TransactionRecord {
            tx_type: TransactionType::Deposit,
            client: 1,
            tx: 3,
            amount: Some(5000),
        },
        TransactionRecord {
            tx_type: TransactionType::Deposit,
            client: 3,
            tx: 4,
            amount: Some(15000),
        },
        TransactionRecord {
            tx_type: TransactionType::Deposit,
            client: 2,
            tx: 5,
            amount: Some(8000),
        },
    ];

    let partitioned = processor.partition_by_client(batch);

    // Should have 3 clients
    assert_eq!(partitioned.len(), 3);

    // Client 1 should have 2 transactions
    let client1_txs = partition_of(&partitioned, 1).unwrap();
    assert_eq!(client1_txs.len(), 2);
    assert_eq!(client1_txs[0].tx, 1);
    assert_eq!(client1_txs[1].tx, 3);

    // Client 2 should have 2 transactions
    let client2_txs = partition_of(&partitioned, 2).unwrap();
    assert_eq!(client2_txs.len(), 2);
    assert_eq!(client2_txs[0].tx, 2);
    assert_eq!(client2_txs[1].tx, 5);

    // Client 3 should have 1 transaction
    let client3_txs = partition_of(&partitioned, 3).unwrap();
    assert_eq!(client3_txs.len(), 1);
    assert_eq!(client3_txs[0].tx, 4);
}

#[test]
fn test_partition_by_client_maintains_order() {
    let processor = new_processor();

    // Create a batch with interleaved transactions for the same client
    let batch = vec![
        TransactionRecord {
            tx_type: TransactionType::Deposit,
            client: 1,
            tx: 10,
            amount: Some(10000),
        },
        TransactionRecord {
            tx_type: TransactionType::Deposit,
            client: 2,
            tx: 20,
            amount: Some(20000),
        },
        TransactionRecord {
            tx_type: TransactionType::Deposit,
            client: 1,
            tx: 11,
            amount: Some(5000),
        },
        TransactionRecord {
            tx_type: TransactionType::Deposit,
            client: 1,
            tx: 12,
            amount: Some(3000),
        },
        TransactionRecord {
            tx_type: TransactionType::Deposit,
            client: 2,
            tx: 21,
            amount: Some(8000),
        },
    ];

    let partitioned = processor.partition_by_client(batch);

    // Verify client 1 transactions are in order
    let client1_txs = partition_of(&partitioned, 1).unwrap();
    assert_eq!(client1_txs.len(), 3);
    assert_eq!(client1_txs[0].tx, 10);
    assert_eq!(client1_txs[1].tx, 11);
    assert_eq!(client1_txs[2].tx, 12);

    // Verify client 2 transactions are in order
    let client2_txs = partition_of(&partitioned, 2).unwrap();
    assert_eq!(client2_txs.len(), 2);
    assert_eq!(client2_txs[0].tx, 20);
    assert_eq!(client2_txs[1].tx, 21);
}

#[test]
fn test_partition_by_client_no_transactions_lost() {
    let processor = new_processor();

    let batch = vec![
        TransactionRecord {
            tx_type: TransactionType::Deposit,
            client: 1,
            tx: 1,
            amount: Some(10000),
        },
        TransactionRecord {
            tx_type: TransactionType::Deposit,
            client: 2,
            tx: 2,
            amount: Some(20000),
        },
        TransactionRecord {
            tx_type: TransactionType::Deposit,
            client: 3,
            tx: 3,
            amount: Some(30000),
        },
    ];

    let original_count = batch.len();
    let partitioned = processor.partition_by_client(batch);

    // Count total transactions in all sub-batches
    let total_count: usize = partitioned.iter().map(|(_, v)| v.len()).sum();

    // Verify no transactions were lost
    assert_eq!(total_count, original_count);
}

#[test]
fn test_partition_by_client_no_duplicates() {
    let processor = new_processor();

    let batch = vec![
        TransactionRecord {
            tx_type: TransactionType::Deposit,
            client: 1,
            tx: 1,
            amount: Some(10000),
        },
        TransactionRecord {
            tx_type: TransactionType::Deposit,
            client: 2,
            tx: 2,
            amount: Some(20000),
        },
        TransactionRecord {
            tx_type: TransactionType::Deposit,
            client: 1,
            tx: 3,
            amount: Some(30000),
        },
    ];

    let partitioned = processor.partition_by_client(batch);

    // Collect all transaction IDs
    let mut tx_ids = HashSet::new();
    for (_, transactions) in &partitioned {
        for record in transactions {
            // If insert returns false, the ID was already present (duplicate)
            assert!(tx_ids.insert(record.tx), "Duplicate transaction ID found");
        }
    }

    // Verify we have all 3 unique transaction IDs
    assert_eq!(tx_ids.len(), 3);
    assert!(tx_ids.contains(&1));
    assert!(tx_ids.contains(&2));
    assert!(tx_ids.contains(&3));
}

#[test]
fn test_partition_by_client_many_clients() {
    let processor = new_processor();

    // Create a batch with 100 clients, each with 1 transaction
    let mut batch = Vec::new();
    for i in 0..100u16 {
        batch.push(TransactionRecord {
            tx_type: TransactionType::Deposit,
            client: i,
            tx: i as u32,
            amount: Some(10000),
        });
    }

    let partitioned = processor.partition_by_client(batch);

    // Should have 100 clients
    assert_eq!(partitioned.len(), 100);

    // Each client should have exactly 1 transaction
    for i in 0..100u16 {
        let client_txs = partition_of(&partitioned, i).unwrap();
        assert_eq!(client_txs.len(), 1);
        assert_eq!(client_txs[0].client, i);
    }
}

#[test]
fn test_partition_by_client_with_dispute_transactions() {
    let processor = new_processor();

    let batch = vec![
        TransactionRecord {
            tx_type: TransactionType::Deposit,
            client: 1,
            tx: 1,
            amount: Some(10000),
        },
        TransactionRecord {
            tx_type: TransactionType::Dispute,
            client: 1,
            tx: 1,
            amount: None,
        },
        TransactionRecord {
            tx_type: TransactionType::Deposit,
            client: 2,
            tx: 2,
            amount: Some(20000),
        },
    ];

    let partitioned = processor.partition_by_client(batch);

    // Client 1 should have 2 transactions (deposit + dispute)
    let client1_txs = partition_of(&partitioned, 1).unwrap();
    assert_eq!(client1_txs.len(), 2);
    assert_eq!(client1_txs[0].tx_type, TransactionType::Deposit);
    assert_eq!(client1_txs[1].tx_type, TransactionType::Dispute);

    // Client 2 should have 1 transaction
    let client2_txs = partition_of(&partitioned, 2).unwrap();
    assert_eq!(client2_txs.len(), 1);
}

#[test]
fn test_process_client_transactions_in_order() {
    let mut processor = new_processor();

    let transactions = vec![
        TransactionRecord {
            tx_type: TransactionType::Deposit,
            client: 1,
            tx: 1,
            amount: Some(100000),
        },
        TransactionRecord {
            tx_type: TransactionType::Withdrawal,
            client: 1,
            tx: 2,
            amount: Some(30000),
        },
        TransactionRecord {
            tx_type: TransactionType::Withdrawal,
            client: 1,
            tx: 3,
            amount: Some(200000), // rejected: insufficient funds
        },
    ];

    let results = processor.process_client_transactions(transactions);

    assert_eq!(results.len(), 3);
    assert!(results[0].result.is_ok());
    assert!(results[1].result.is_ok());
    assert!(results[2].result.is_err());
    assert_eq!(results[0].record.tx, 1);
    assert_eq!(results[1].record.tx, 2);
    assert_eq!(results[2].record.tx, 3);

    let account = snapshot_account(&processor.get_accounts(), 1);
    assert_eq!(account.available, 70000);
    assert_eq!(account.total, 70000);
}

#[test]
fn test_process_batch_matches_sequential_processing() {
    // The same records, processed as one partitioned batch and
    // sequentially, must produce identical snapshots.
    let records = vec![
        TransactionRecord {
            tx_type: TransactionType::Deposit,
            client: 1,
            tx: 1,
            amount: Some(100000),
        },
        TransactionRecord {
            tx_type: TransactionType::Deposit,
            client: 2,
            tx: 2,
            amount: Some(50000),
        },
        TransactionRecord {
            tx_type: TransactionType::Withdrawal,
            client: 1,
            tx: 3,
            amount: Some(30000),
        },
        TransactionRecord {
            tx_type: TransactionType::Dispute,
            client: 2,
            tx: 2,
            amount: None,
        },
        TransactionRecord {
            tx_type: TransactionType::Chargeback,
            client: 2,
            tx: 2,
            amount: None,
        },
    ];

    let mut processor = new_processor();
    processor.process_batch(records.clone());
    let batched = processor.get_accounts();

    let mut engine = TransactionEngine::new();
    for record in records {
        let _ = engine.process(record);
    }
    let sequential = engine.get_accounts();

    assert_eq!(batched, sequential);
}
