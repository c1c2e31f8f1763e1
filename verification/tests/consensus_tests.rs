use icn_core::consensus::PoCConsensus;
use icn_core::errors::IcnError;
use icn_core::ledger::Block;

fn block_with(index: u64, previous_hash: &str) -> Block {
    let mut block = Block {
        index,
        timestamp: 1_700_000_000,
        transactions: vec![],
        previous_hash: previous_hash.to_string(),
        hash: String::new(),
    };
    block.hash = block.calculate_hash();
    block
}

#[test]
fn test_poc_consensus_creation() {
    let consensus = PoCConsensus::new(660, 510);
    assert!(consensus.is_ok());
}

#[test]
fn test_add_and_remove_validator() {
    let mut consensus = PoCConsensus::new(660, 510).unwrap();
    assert!(consensus.add_validator("validator1".to_string(), 800).is_ok());
    assert!(consensus.add_validator("validator2".to_string(), 700).is_ok());
    assert!(consensus.remove_validator("validator1").is_ok());
    assert_eq!(consensus.validator_count(), 1);
}

#[test]
fn test_process_new_block() {
    let mut consensus = PoCConsensus::new(660, 510).unwrap();
    consensus.add_validator("validator1".to_string(), 800).unwrap();
    consensus.add_validator("validator2".to_string(), 700).unwrap();

    let mut genesis_block = block_with(0, "0");
    genesis_block.hash = "test_hash_0".to_string();
    consensus.add_block_to_chain(genesis_block).unwrap();

    let new_block = block_with(1, "test_hash_0");
    assert!(consensus.process_new_block(new_block).is_ok());

    let blockchain = consensus.get_blockchain().unwrap();
    assert_eq!(blockchain.len(), 2);
}

#[test]
fn test_update_validator_reputation() {
    let mut consensus = PoCConsensus::new(660, 510).unwrap();
    consensus.add_validator("validator1".to_string(), 800).unwrap();
    assert!(consensus.update_validator_reputation("validator1", 900).is_ok());
    assert_eq!(consensus.get_validator_reputation("validator1"), Some(900));
}

#[test]
fn creation_rejects_out_of_range_fractions() {
    for (threshold, quorum) in [(0u64, 510u64), (1001, 510), (660, 0), (660, 1001)] {
        let err = PoCConsensus::new(threshold, quorum).unwrap_err();
        match err {
            IcnError::Consensus(m) => assert_eq!(m, "Invalid threshold or quorum value"),
            other => panic!("unexpected error kind: {:?}", other),
        }
    }
    assert!(PoCConsensus::new(1000, 1000).is_ok());
}

#[test]
fn add_validator_rejects_out_of_range_reputation() {
    let mut consensus = PoCConsensus::new(660, 510).unwrap();
    let err = consensus
        .add_validator("validator1".to_string(), 1001)
        .unwrap_err();
    match err {
        IcnError::Consensus(m) => assert_eq!(m, "Invalid initial reputation"),
        other => panic!("unexpected error kind: {:?}", other),
    }
    assert_eq!(consensus.validator_count(), 0);
}

#[test]
fn update_reputation_of_absent_validator_fails() {
    let mut consensus = PoCConsensus::new(660, 510).unwrap();
    let err = consensus
        .update_validator_reputation("validator1", 900)
        .unwrap_err();
    match err {
        IcnError::Consensus(m) => assert_eq!(m, "Validator not found"),
        other => panic!("unexpected error kind: {:?}", other),
    }
}

#[test]
fn badly_linked_block_is_rejected_by_consensus() {
    let mut consensus = PoCConsensus::new(660, 510).unwrap();
    consensus.add_validator("validator1".to_string(), 800).unwrap();
    consensus.add_validator("validator2".to_string(), 700).unwrap();
    consensus.add_block_to_chain(block_with(0, "0")).unwrap();

    let bad_block = block_with(1, "not_the_tip_hash");
    let err = consensus.process_new_block(bad_block).unwrap_err();
    match err {
        IcnError::Consensus(m) => assert_eq!(m, "Block rejected by consensus"),
        other => panic!("unexpected error kind: {:?}", other),
    }
    assert_eq!(consensus.get_blockchain().unwrap().len(), 1);
}

#[test]
fn non_initial_block_without_chain_reports_missing_previous() {
    let mut consensus = PoCConsensus::new(660, 510).unwrap();
    consensus.add_validator("validator1".to_string(), 800).unwrap();
    let err = consensus.process_new_block(block_with(1, "0")).unwrap_err();
    match err {
        IcnError::Consensus(m) => assert_eq!(m, "No previous block found"),
        other => panic!("unexpected error kind: {:?}", other),
    }
}

#[test]
fn empty_validator_set_leaves_block_pending() {
    let mut consensus = PoCConsensus::new(660, 510).unwrap();
    assert!(consensus.process_new_block(block_with(0, "0")).is_ok());
    assert_eq!(consensus.get_blockchain().unwrap().len(), 0);
}

#[test]
fn zero_total_reputation_leaves_block_pending() {
    // With validators registered but no reputation mass, the quorum can
    // never be met: the round is a no-op and the candidate stays pending.
    let mut consensus = PoCConsensus::new(660, 510).unwrap();
    consensus.add_validator("validator1".to_string(), 0).unwrap();
    consensus.add_validator("validator2".to_string(), 0).unwrap();
    assert!(consensus.process_new_block(block_with(0, "0")).is_ok());
    assert_eq!(consensus.get_blockchain().unwrap().len(), 0);

    // Once reputation arrives, the next round drains the pending queue.
    consensus
        .update_validator_reputation("validator1", 800)
        .unwrap();
    assert!(consensus.process_new_block(block_with(0, "0")).is_ok());
    assert_eq!(consensus.get_blockchain().unwrap().len(), 2);
}

#[test]
fn raising_threshold_never_turns_rejection_into_commit() {
    // The same bad candidate, rejected at the lowest threshold, stays
    // rejected at the highest one.
    for threshold in [1u64, 660, 1000] {
        let mut consensus = PoCConsensus::new(threshold, 510).unwrap();
        consensus.add_validator("validator1".to_string(), 800).unwrap();
        consensus.add_validator("validator2".to_string(), 700).unwrap();
        consensus.add_block_to_chain(block_with(0, "0")).unwrap();
        assert!(consensus.process_new_block(block_with(1, "wrong")).is_err());
        assert_eq!(consensus.get_blockchain().unwrap().len(), 1);
    }
}

#[test]
fn digest_of_fixed_block_is_exact() {
    let block = Block {
        index: 0,
        timestamp: 0,
        transactions: vec![],
        previous_hash: "0".to_string(),
        hash: String::new(),
    };
    assert_eq!(block.calculate_hash(), "9e1fc4ac8097ceeb");
}

#[test]
fn digest_depends_on_contents() {
    let a = block_with(1, "abc");
    let b = block_with(2, "abc");
    let c = block_with(1, "abd");
    assert_ne!(a.hash, b.hash);
    assert_ne!(a.hash, c.hash);
    assert_eq!(a.hash, block_with(1, "abc").hash);
    assert_eq!(a.hash.len(), 16);
}
