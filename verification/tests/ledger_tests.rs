use icn_core::errors::IcnError;
use icn_core::ledger::{Blockchain, CurrencyType, Transaction};

const NOW: i64 = 1_700_000_000;

fn tx(from: &str, to: &str, amount: u64) -> Transaction {
    Transaction::new(
        from.to_string(),
        to.to_string(),
        amount,
        CurrencyType::BasicNeeds,
        NOW,
    )
}

#[test]
fn committed_chain_is_hash_linked() {
    let mut blockchain = Blockchain::new();
    blockchain.add_transaction(tx("Genesis", "Alice", 100)).unwrap();
    blockchain.create_block_at(NOW).unwrap();
    blockchain.add_transaction(tx("Alice", "Bob", 50)).unwrap();
    blockchain.create_block_at(NOW + 1).unwrap();

    let chain = blockchain.chain();
    assert_eq!(chain.len(), 2);
    assert_eq!(chain[0].index, 0);
    assert_eq!(chain[0].previous_hash, "0");
    assert_eq!(chain[1].index, 1);
    assert_eq!(chain[1].previous_hash, chain[0].hash);
    assert_eq!(chain[0].hash, chain[0].calculate_hash());
    assert_eq!(chain[1].hash, chain[1].calculate_hash());
}

#[test]
fn mempool_refuses_duplicates_and_zero_amounts() {
    let mut blockchain = Blockchain::new();
    let transfer = tx("Genesis", "Alice", 100);
    blockchain.add_transaction(transfer.clone()).unwrap();

    // The same transaction cannot sit in the mempool twice.
    let err = blockchain.add_transaction(transfer.clone()).unwrap_err();
    match err {
        IcnError::Blockchain(m) => assert_eq!(m, "Double spend detected"),
        other => panic!("unexpected error kind: {:?}", other),
    }

    // Once committed, it cannot be admitted again either.
    blockchain.create_block_at(NOW).unwrap();
    assert!(blockchain.add_transaction(transfer).is_err());

    let err = blockchain.add_transaction(tx("Alice", "Bob", 0)).unwrap_err();
    match err {
        IcnError::Currency(m) => assert_eq!(m, "Invalid currency or amount"),
        other => panic!("unexpected error kind: {:?}", other),
    }
}

#[test]
fn transaction_equality_is_structural() {
    let a = tx("Alice", "Bob", 50);
    let b = tx("Alice", "Bob", 50);
    let mut c = tx("Alice", "Bob", 50);
    c.signature = Some(vec![1, 2, 3]);
    assert!(a.eq_tx(&b));
    assert!(!a.eq_tx(&c));
    assert!(a.eq_tx(&a.clone()));
    assert!(c.eq_tx(&c.clone()));
    let mut d = tx("Alice", "Bob", 50);
    d.fee = 1;
    assert!(!a.eq_tx(&d));
}

#[test]
fn balances_fold_amounts_and_fees() {
    let mut blockchain = Blockchain::new();
    blockchain.add_transaction(tx("Genesis", "Alice", 100)).unwrap();
    blockchain.create_block_at(NOW).unwrap();
    let mut transfer = tx("Alice", "Bob", 30);
    transfer.fee = 5;
    blockchain.add_transaction(transfer).unwrap();
    blockchain.create_block_at(NOW + 1).unwrap();

    let cur = CurrencyType::BasicNeeds;
    assert_eq!(blockchain.get_balance("Alice", &cur), 65);
    assert_eq!(blockchain.get_balance("Bob", &cur), 30);
    assert_eq!(blockchain.get_balance("Genesis", &cur), -100);
}
