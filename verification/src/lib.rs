//! Transactional and governance core of a permissioned cooperative ledger.
//!
//! Three subsystems share one data model: a transaction validator that gates
//! value transfers against the committed chain, a proof-of-cooperation
//! consensus engine that admits blocks by reputation-weighted voting, and a
//! governance module that manages time-bounded, quorum-weighted proposals.
//!
//! Fractional quantities (reputations, thresholds, vote weights) are held as
//! fixed-point integers scaled by one thousand, so that all arithmetic is
//! exact and verifiable.

pub mod clock;
pub mod consensus;
pub mod digest;
pub mod errors;
pub mod governance;
pub mod ledger;
pub mod text;
pub mod validator;

pub use errors::IcnError;
pub use errors::IcnResult;
