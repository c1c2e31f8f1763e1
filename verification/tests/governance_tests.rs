use icn_core::errors::IcnError;
use icn_core::governance::{
    GovernanceSystem, Proposal, ProposalCategory, ProposalStatus, ProposalType,
};

/// Seven days, in seconds.
const WEEK: i64 = 7 * 24 * 60 * 60;

fn create_test_proposal(id: &str) -> Proposal {
    Proposal::new(
        id.to_string(),
        "Test Proposal".to_string(),
        "This is a test proposal".to_string(),
        "Alice".to_string(),
        WEEK,
        ProposalType::Constitutional,
        ProposalCategory::Technical,
        500,
        None,
    )
}

#[test]
fn test_create_proposal() {
    let mut gov_system = GovernanceSystem::new();
    let proposal = create_test_proposal("prop1");
    let proposal_id = gov_system.create_proposal(proposal).unwrap();
    assert_eq!(proposal_id, "prop1");
    assert!(gov_system.get_proposal("prop1").is_some());
}

#[test]
fn test_vote_on_proposal() {
    let mut gov_system = GovernanceSystem::new();
    let proposal = create_test_proposal("prop1");
    gov_system.create_proposal(proposal).unwrap();

    assert!(gov_system
        .vote_on_proposal("prop1", "Alice".to_string(), true, 1000)
        .is_ok());
    assert!(gov_system
        .vote_on_proposal("prop1", "Bob".to_string(), false, 1000)
        .is_ok());

    // A second vote by the same voter is refused.
    assert!(gov_system
        .vote_on_proposal("prop1", "Alice".to_string(), false, 1000)
        .is_err());

    // Voting on an absent proposal is refused.
    assert!(gov_system
        .vote_on_proposal("prop2", "Charlie".to_string(), true, 1000)
        .is_err());
}

#[test]
fn test_finalize_proposal() {
    let mut gov_system = GovernanceSystem::new();
    let mut proposal = create_test_proposal("prop1");
    proposal.voting_ends_at = 1_000_000; // voting window closes at this instant
    gov_system.create_proposal(proposal).unwrap();

    gov_system
        .vote_on_proposal_at("prop1", "Alice".to_string(), true, 1000, 500_000)
        .unwrap();
    gov_system
        .vote_on_proposal_at("prop1", "Bob".to_string(), true, 1000, 500_000)
        .unwrap();
    gov_system
        .vote_on_proposal_at("prop1", "Charlie".to_string(), false, 1000, 500_000)
        .unwrap();

    let result = gov_system.finalize_proposal_at("prop1", 2_000_000).unwrap();
    assert_eq!(result, ProposalStatus::Passed);

    // Finalizing an already finalized proposal is refused.
    assert!(gov_system.finalize_proposal_at("prop1", 2_000_000).is_err());
}

#[test]
fn test_list_active_proposals() {
    let mut gov_system = GovernanceSystem::new();
    let proposal1 = create_test_proposal("prop1");
    let proposal2 = create_test_proposal("prop2");
    let mut proposal3 = create_test_proposal("prop3");
    proposal3.status = ProposalStatus::Passed;

    gov_system.create_proposal(proposal1).unwrap();
    gov_system.create_proposal(proposal2).unwrap();
    gov_system.create_proposal(proposal3).unwrap();

    let active_proposals = gov_system.list_active_proposals();
    assert_eq!(active_proposals.len(), 2);
    assert!(active_proposals.iter().any(|p| p.id == "prop1"));
    assert!(active_proposals.iter().any(|p| p.id == "prop2"));
}

#[test]
fn test_mark_as_executed() {
    let mut gov_system = GovernanceSystem::new();
    let mut proposal = create_test_proposal("prop1");
    proposal.status = ProposalStatus::Passed;
    gov_system.create_proposal(proposal).unwrap();

    assert!(gov_system.mark_as_executed("prop1").is_ok());
    let executed_proposal = gov_system.get_proposal("prop1").unwrap();
    assert_eq!(executed_proposal.status, ProposalStatus::Executed);

    // A proposal that has not passed cannot be marked executed.
    let proposal2 = create_test_proposal("prop2");
    gov_system.create_proposal(proposal2).unwrap();
    assert!(gov_system.mark_as_executed("prop2").is_err());
}

#[test]
fn test_quorum_requirement() {
    let mut gov_system = GovernanceSystem::new();
    let mut proposal = create_test_proposal("prop1");
    proposal.required_quorum = 3000;
    proposal.voting_ends_at = 1_000_000;
    gov_system.create_proposal(proposal).unwrap();

    gov_system
        .vote_on_proposal_at("prop1", "Alice".to_string(), true, 1000, 500_000)
        .unwrap();
    gov_system
        .vote_on_proposal_at("prop1", "Bob".to_string(), true, 1000, 500_000)
        .unwrap();

    let result = gov_system.finalize_proposal_at("prop1", 2_000_000).unwrap();
    assert_eq!(result, ProposalStatus::Rejected); // quorum of 3000 not met by 2000

    let mut proposal2 = create_test_proposal("prop2");
    proposal2.required_quorum = 3000;
    proposal2.voting_ends_at = 1_000_000;
    gov_system.create_proposal(proposal2).unwrap();

    gov_system
        .vote_on_proposal_at("prop2", "Alice".to_string(), true, 1500, 500_000)
        .unwrap();
    gov_system
        .vote_on_proposal_at("prop2", "Bob".to_string(), true, 1500, 500_000)
        .unwrap();

    let result2 = gov_system.finalize_proposal_at("prop2", 2_000_000).unwrap();
    assert_eq!(result2, ProposalStatus::Passed); // quorum met, all weight in favor
}

#[test]
fn duplicate_proposal_id_is_refused() {
    let mut gov_system = GovernanceSystem::new();
    gov_system.create_proposal(create_test_proposal("prop1")).unwrap();
    let err = gov_system
        .create_proposal(create_test_proposal("prop1"))
        .unwrap_err();
    match err {
        IcnError::Governance(m) => assert_eq!(m, "Proposal ID already exists"),
        other => panic!("unexpected error kind: {:?}", other),
    }
}

#[test]
fn vote_after_window_closes_is_refused() {
    let mut gov_system = GovernanceSystem::new();
    let mut proposal = create_test_proposal("prop1");
    proposal.voting_ends_at = 1_000_000;
    gov_system.create_proposal(proposal).unwrap();
    let err = gov_system
        .vote_on_proposal_at("prop1", "Alice".to_string(), true, 1000, 2_000_000)
        .unwrap_err();
    match err {
        IcnError::Governance(m) => assert_eq!(m, "Voting period has ended"),
        other => panic!("unexpected error kind: {:?}", other),
    }
}

#[test]
fn finalize_before_window_closes_is_refused() {
    let mut gov_system = GovernanceSystem::new();
    let mut proposal = create_test_proposal("prop1");
    proposal.voting_ends_at = 1_000_000;
    gov_system.create_proposal(proposal).unwrap();
    let err = gov_system
        .finalize_proposal_at("prop1", 500_000)
        .unwrap_err();
    match err {
        IcnError::Governance(m) => assert_eq!(m, "Voting period has not ended yet"),
        other => panic!("unexpected error kind: {:?}", other),
    }
}

#[test]
fn tied_vote_is_rejected() {
    let mut gov_system = GovernanceSystem::new();
    let mut proposal = create_test_proposal("prop1");
    proposal.required_quorum = 1000;
    proposal.voting_ends_at = 1_000_000;
    gov_system.create_proposal(proposal).unwrap();
    gov_system
        .vote_on_proposal_at("prop1", "Alice".to_string(), true, 1000, 500_000)
        .unwrap();
    gov_system
        .vote_on_proposal_at("prop1", "Bob".to_string(), false, 1000, 500_000)
        .unwrap();
    let result = gov_system.finalize_proposal_at("prop1", 2_000_000).unwrap();
    assert_eq!(result, ProposalStatus::Rejected);
}

#[test]
fn absent_proposal_reports_not_found() {
    let mut gov_system = GovernanceSystem::new();
    let err = gov_system.mark_as_executed("prop1").unwrap_err();
    match err {
        IcnError::Governance(m) => assert_eq!(m, "Proposal not found"),
        other => panic!("unexpected error kind: {:?}", other),
    }
    assert!(gov_system.get_proposal("prop1").is_none());
}
