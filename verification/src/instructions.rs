//! The operations of the system, grouped by the entity they act on.

pub mod claims_management;
pub mod distribution_management;
pub mod pool_management;
pub mod validator_management;
pub mod vrf_integration;
pub mod yield_integration;

pub use claims_management::{assign_committee, finalize_claim, submit_claim, ClaimSubmittedEvent};
pub use distribution_management::{
    add_to_distribution_queue,
    distribute_claims,
    initialize_distribution_queue,
    payout_claim,
    select_within_funds,
    ClaimPaidOutEvent,
    ClaimsDistributedEvent,
    DistributionQueueInitializedEvent,
};
pub use pool_management::{
    initialize_pool,
    join_pool,
    pay_premium,
    PoolCreatedEvent,
    PremiumPaidEvent,
    UserJoinedEvent,
};
pub use validator_management::{
    slash_validator,
    stake_as_validator,
    update_validator_reputation,
    validate_claim,
    ClaimValidatedEvent,
    ValidatorStakedEvent,
};
pub use vrf_integration::{
    fulfill_validator_selection,
    generate_randomness,
    initialize_vrf_state,
    randomness_input,
    request_validator_selection,
    select_random_validators,
    ValidatorSelectionFulfilledEvent,
    ValidatorsAssignedEvent,
    VrfStateInitializedEvent,
};
pub use yield_integration::{
    calculate_apy,
    calculate_idle_funds,
    deposit_to_yield,
    withdraw_from_yield,
    YieldDepositedEvent,
    YieldWithdrawnEvent,
};
