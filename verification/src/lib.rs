//! Decentralised adjudication and fair payout of claims against a pooled fund:
//! the claim lifecycle, seeded committee selection, vote aggregation with
//! reward and slashing, and the distribution rounds.
//!
//! Every operation takes the entities it acts on and the current time as plain
//! values, and returns a record of what it did. An operation that fails
//! changes nothing.

pub mod errors;
pub mod instructions;
pub mod keys;
pub mod selection;
pub mod state;

pub use errors::NovaError;
pub use keys::AccountId;
pub use state::{
    ClaimRequest,
    ClaimStatus,
    DistributionQueue,
    IncidentType,
    InsurancePool,
    PoolType,
    PriorityScore,
    UserCoverage,
    Validation,
    ValidatorRegistry,
    ValidatorStake,
    VrfState,
};
