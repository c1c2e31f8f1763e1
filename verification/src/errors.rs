//! Error taxonomy shared by the ledger, the consensus engine and the
//! governance module. The variant is the contract; the string payload is a
//! human-readable description for logging.

use vstd::prelude::*;

verus! {

/// An error raised by one of the core subsystems, tagged with its kind.
#[derive(Debug)]
pub enum IcnError {
    /// Structural ledger violations: double spend, bad timestamp, hash or
    /// link mismatch.
    Blockchain(String),
    /// Economic validity: non-positive amount, insufficient balance.
    Currency(String),
    /// Signature verification failure.
    Identity(String),
    /// Consensus configuration errors and vote-round failures.
    Consensus(String),
    /// Proposal-lifecycle violations: duplicate id, wrong status, closed or
    /// open voting window, duplicate vote.
    Governance(String),
}

/// Result type used across the core subsystems.
pub type IcnResult<T> = Result<T, IcnError>;

} // verus!
