//! Council governance engine: tiered vote policies, the proposal state
//! machine, and the store that records proposals, votes and their effects.
//!
//! The host supplies the caller's identity, the current time and the attached
//! deposit, and carries out the value transfers that finalization returns.
pub mod dao;
pub mod laws;
pub mod policy;
pub mod proposal;

pub use dao::{DaoError, DaoView, ProposalInput, SputnikDAO, Transfer};
pub use policy::{NumOrRatio, PolicyItem};
pub use proposal::{Ballot, Proposal, ProposalKind, ProposalStatus, Vote};
