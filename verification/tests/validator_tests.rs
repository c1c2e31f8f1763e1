use icn_core::errors::IcnError;
use icn_core::ledger::{Blockchain, CurrencyType, Transaction};
use icn_core::validator::TransactionValidator;

/// A fixed validation instant, in seconds since the epoch.
const NOW: i64 = 1_700_000_000;

fn create_signed_transaction(from: &str, to: &str, amount: u64) -> Transaction {
    let mut tx = Transaction::new(
        from.to_string(),
        to.to_string(),
        amount,
        CurrencyType::BasicNeeds,
        NOW,
    );
    tx.signature = Some(vec![7u8; 64]);
    tx
}

fn funded_blockchain() -> Blockchain {
    let mut blockchain = Blockchain::new();
    blockchain
        .add_transaction(create_signed_transaction("Genesis", "Alice", 100))
        .unwrap();
    blockchain.create_block_at(NOW).unwrap();
    blockchain
}

#[test]
fn test_validate_transaction() {
    let blockchain = funded_blockchain();
    let tx = create_signed_transaction("Alice", "Bob", 50);
    assert!(TransactionValidator::validate_transaction_at(&tx, &blockchain, NOW, true).is_ok());
}

#[test]
fn test_insufficient_balance() {
    let blockchain = funded_blockchain();
    let tx = create_signed_transaction("Alice", "Bob", 150);
    assert!(TransactionValidator::validate_transaction_at(&tx, &blockchain, NOW, true).is_err());
}

#[test]
fn test_double_spend() {
    let mut blockchain = funded_blockchain();
    let tx = create_signed_transaction("Alice", "Bob", 50);
    blockchain.add_transaction(tx.clone()).unwrap();
    blockchain.create_block_at(NOW).unwrap();
    assert!(TransactionValidator::validate_transaction_at(&tx, &blockchain, NOW, true).is_err());
}

#[test]
fn test_invalid_timestamp() {
    let blockchain = Blockchain::new();
    let mut tx = create_signed_transaction("Alice", "Bob", 50);
    tx.timestamp = NOW + 60 * 60;
    assert!(TransactionValidator::validate_transaction_at(&tx, &blockchain, NOW, true).is_err());
}

#[test]
fn happy_path_transfer_updates_balances() {
    let mut blockchain = funded_blockchain();
    assert_eq!(
        blockchain.get_balance("Alice", &CurrencyType::BasicNeeds),
        100
    );
    let tx = create_signed_transaction("Alice", "Bob", 50);
    assert!(TransactionValidator::validate_transaction_at(&tx, &blockchain, NOW, true).is_ok());
    blockchain.add_transaction(tx).unwrap();
    blockchain.create_block_at(NOW).unwrap();
    assert_eq!(
        blockchain.get_balance("Alice", &CurrencyType::BasicNeeds),
        50
    );
    assert_eq!(blockchain.get_balance("Bob", &CurrencyType::BasicNeeds), 50);
}

#[test]
fn insufficient_balance_reports_currency_error() {
    let blockchain = funded_blockchain();
    let len_before = blockchain.chain_len();
    let tx = create_signed_transaction("Alice", "Bob", 150);
    let err =
        TransactionValidator::validate_transaction_at(&tx, &blockchain, NOW, true).unwrap_err();
    match err {
        IcnError::Currency(m) => assert_eq!(m, "Insufficient balance"),
        other => panic!("unexpected error kind: {:?}", other),
    }
    assert_eq!(blockchain.chain_len(), len_before);
    assert_eq!(
        blockchain.get_balance("Alice", &CurrencyType::BasicNeeds),
        100
    );
}

#[test]
fn double_spend_reports_blockchain_error() {
    let mut blockchain = funded_blockchain();
    let tx = create_signed_transaction("Alice", "Bob", 50);
    blockchain.add_transaction(tx.clone()).unwrap();
    blockchain.create_block_at(NOW).unwrap();
    let err =
        TransactionValidator::validate_transaction_at(&tx, &blockchain, NOW, true).unwrap_err();
    match err {
        IcnError::Blockchain(m) => assert_eq!(m, "Double spend detected"),
        other => panic!("unexpected error kind: {:?}", other),
    }
}

#[test]
fn future_timestamp_reports_blockchain_error() {
    let blockchain = funded_blockchain();
    let mut tx = create_signed_transaction("Alice", "Bob", 50);
    tx.timestamp = NOW + 3600;
    let err =
        TransactionValidator::validate_transaction_at(&tx, &blockchain, NOW, true).unwrap_err();
    match err {
        IcnError::Blockchain(m) => assert_eq!(m, "Transaction timestamp is not valid"),
        other => panic!("unexpected error kind: {:?}", other),
    }
}

#[test]
fn zero_amount_reports_currency_error() {
    let blockchain = funded_blockchain();
    let tx = create_signed_transaction("Alice", "Bob", 0);
    let err =
        TransactionValidator::validate_transaction_at(&tx, &blockchain, NOW, true).unwrap_err();
    match err {
        IcnError::Currency(m) => assert_eq!(m, "Invalid currency or amount"),
        other => panic!("unexpected error kind: {:?}", other),
    }
}

#[test]
fn rejected_signature_reports_identity_error() {
    let blockchain = funded_blockchain();
    let tx = create_signed_transaction("Alice", "Bob", 50);
    let err =
        TransactionValidator::validate_transaction_at(&tx, &blockchain, NOW, false).unwrap_err();
    match err {
        IcnError::Identity(m) => assert_eq!(m, "Invalid signature"),
        other => panic!("unexpected error kind: {:?}", other),
    }
}

#[test]
fn unsigned_transaction_reports_identity_error() {
    let blockchain = funded_blockchain();
    let tx = Transaction::new(
        "Alice".to_string(),
        "Bob".to_string(),
        50,
        CurrencyType::BasicNeeds,
        NOW,
    );
    let err =
        TransactionValidator::validate_transaction_at(&tx, &blockchain, NOW, true).unwrap_err();
    match err {
        IcnError::Identity(m) => assert_eq!(m, "Invalid signature"),
        other => panic!("unexpected error kind: {:?}", other),
    }
}

#[test]
fn stale_timestamp_at_window_edge_is_accepted() {
    let blockchain = funded_blockchain();
    let mut tx = create_signed_transaction("Alice", "Bob", 50);
    tx.timestamp = NOW - 3600;
    assert!(TransactionValidator::validate_transaction_at(&tx, &blockchain, NOW, true).is_ok());
    tx.timestamp = NOW - 3601;
    assert!(TransactionValidator::validate_transaction_at(&tx, &blockchain, NOW, true).is_err());
}

#[test]
fn genesis_account_balance_goes_negative() {
    let blockchain = funded_blockchain();
    assert_eq!(
        blockchain.get_balance("Genesis", &CurrencyType::BasicNeeds),
        -100
    );
    assert_eq!(blockchain.get_balance("Alice", &CurrencyType::Education), 0);
}
