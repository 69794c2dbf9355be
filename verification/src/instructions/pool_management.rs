//! Pools and their members: creating a pool, joining it, paying premiums.

use vstd::prelude::*;
use crate::errors::NovaError;
use crate::keys::AccountId;
use crate::state::{InsurancePool, PoolType, UserCoverage};

verus! {

/// Record of a pool having been created.
#[derive(Clone, Copy, Debug, PartialEq, Eq)]
pub struct PoolCreatedEvent {
    pub pool_id: AccountId,
    pub authority: AccountId,
    pub pool_type: PoolType,
    pub premium_amount: u64,
    pub coverage_amount: u64,
    pub min_validators: u8,
    pub claim_period: i64,
    pub timestamp: i64,
}

/// Record of a member having joined a pool.
#[derive(Clone, Copy, Debug, PartialEq, Eq)]
pub struct UserJoinedEvent {
    pub user: AccountId,
    pub pool: AccountId,
    pub coverage_amount: u64,
    pub premium_paid: u64,
    pub timestamp: i64,
}

/// Record of a premium having been paid.
#[derive(Clone, Copy, Debug, PartialEq, Eq)]
pub struct PremiumPaidEvent {
    pub user: AccountId,
    pub pool: AccountId,
    pub amount: u64,
    pub total_paid: u64,
    pub timestamp: i64,
}

/// Why a pool cannot be created with these terms, if it cannot.
pub open spec fn pool_terms_error(
    premium_amount: u64,
    coverage_amount: u64,
    min_validators: u8,
    claim_period: i64,
) -> Option<NovaError> {
    if premium_amount == 0 {
        Some(NovaError::InvalidPremiumAmount)
    } else if coverage_amount <= premium_amount {
        Some(NovaError::InvalidCoverageAmount)
    } else if min_validators < 3 {
        Some(NovaError::InsufficientValidators)
    } else if claim_period <= 0 {
        Some(NovaError::ClaimPeriodExpired)
    } else {
        None
    }
}

/// A pool as it is created: without funds, members or claims.
pub open spec fn created_pool(
    pool_id: AccountId,
    authority: AccountId,
    vault: AccountId,
    pool_type: PoolType,
    premium_amount: u64,
    coverage_amount: u64,
    min_validators: u8,
    claim_period: i64,
    now: i64,
    bump: u8,
) -> InsurancePool {
    InsurancePool {
        pool_id: pool_id,
        pool_type: pool_type,
        authority: authority,
        vault: vault,
        premium_amount: premium_amount,
        coverage_amount: coverage_amount,
        total_pooled: 0,
        total_members: 0,
        active_claims: 0,
        claim_period: claim_period,
        min_validators: min_validators,
        created_at: now,
        yield_deposited: 0,
        yield_earned: 0,
        last_yield_update: 0,
        bump: bump,
    }
}

/// Creates a pool. The premium must be positive, the coverage larger than the
/// premium, the committee at least three strong and the claim period positive.
pub fn initialize_pool(
    pool_id: AccountId,
    authority: AccountId,
    vault: AccountId,
    pool_type: PoolType,
    premium_amount: u64,
    coverage_amount: u64,
    min_validators: u8,
    claim_period: i64,
    now: i64,
    bump: u8,
) -> (r: Result<(InsurancePool, PoolCreatedEvent), NovaError>)
    ensures
        match r {
            Ok((pool, event)) => {
                &&& pool_terms_error(premium_amount, coverage_amount, min_validators, claim_period)
                    is None
                &&& pool == created_pool(
                    pool_id,
                    authority,
                    vault,
                    pool_type,
                    premium_amount,
                    coverage_amount,
                    min_validators,
                    claim_period,
                    now,
                    bump,
                )
                &&& pool.wf()
                &&& event == (PoolCreatedEvent {
                    pool_id: pool_id,
                    authority: authority,
                    pool_type: pool_type,
                    premium_amount: premium_amount,
                    coverage_amount: coverage_amount,
                    min_validators: min_validators,
                    claim_period: claim_period,
                    timestamp: now,
                })
            },
            Err(e) => pool_terms_error(
                premium_amount,
                coverage_amount,
                min_validators,
                claim_period,
            ) == Some(e),
        },
{
    if premium_amount == 0 {
        return Err(NovaError::InvalidPremiumAmount);
    }
    if coverage_amount <= premium_amount {
        return Err(NovaError::InvalidCoverageAmount);
    }
    if min_validators < 3 {
        return Err(NovaError::InsufficientValidators);
    }
    if claim_period <= 0 {
        return Err(NovaError::ClaimPeriodExpired);
    }
    let pool = InsurancePool {
        pool_id: pool_id,
        pool_type: pool_type,
        authority: authority,
        vault: vault,
        premium_amount: premium_amount,
        coverage_amount: coverage_amount,
        total_pooled: 0,
        total_members: 0,
        active_claims: 0,
        claim_period: claim_period,
        min_validators: min_validators,
        created_at: now,
        yield_deposited: 0,
        yield_earned: 0,
        last_yield_update: 0,
        bump: bump,
    };
    let event = PoolCreatedEvent {
        pool_id: pool_id,
        authority: authority,
        pool_type: pool_type,
        premium_amount: premium_amount,
        coverage_amount: coverage_amount,
        min_validators: min_validators,
        claim_period: claim_period,
        timestamp: now,
    };
    Ok((pool, event))
}

/// Why a member cannot join a pool, if it cannot.
pub open spec fn join_error(pool: InsurancePool, coverage_amount: u64) -> Option<NovaError> {
    if coverage_amount > pool.coverage_amount {
        Some(NovaError::ExcessiveClaimAmount)
    } else if coverage_amount == 0 {
        Some(NovaError::InvalidCoverageAmount)
    } else if pool.total_pooled + pool.premium_amount > u64::MAX {
        Some(NovaError::MathOverflow)
    } else if pool.total_members == u32::MAX {
        Some(NovaError::MathOverflow)
    } else {
        None
    }
}

/// The coverage of a member that has just joined `pool` and paid its first
/// premium.
pub open spec fn joined_coverage(
    pool: InsurancePool,
    user: AccountId,
    coverage_amount: u64,
    now: i64,
    bump: u8,
) -> UserCoverage {
    UserCoverage {
        user: user,
        pool: pool.pool_id,
        premiums_paid: pool.premium_amount,
        last_payment: now,
        coverage_active: true,
        coverage_amount: coverage_amount,
        claims_made: 0,
        joined_at: now,
        bump: bump,
    }
}

/// Lets `user` join the pool with the given coverage, which must be positive
/// and within what the pool offers. The first premium enters the pool; the
/// returned record names the amount to collect from the member.
pub fn join_pool(
    pool: &mut InsurancePool,
    user: AccountId,
    coverage_amount: u64,
    now: i64,
    bump: u8,
) -> (r: Result<(UserCoverage, UserJoinedEvent), NovaError>)
    ensures
        match r {
            Ok((coverage, event)) => {
                &&& join_error(*old(pool), coverage_amount) is None
                &&& coverage == joined_coverage(*old(pool), user, coverage_amount, now, bump)
                &&& *final(pool) == (InsurancePool {
                    total_pooled: (old(pool).total_pooled + old(pool).premium_amount) as u64,
                    total_members: (old(pool).total_members + 1) as u32,
                    ..*old(pool)
                })
                &&& event == (UserJoinedEvent {
                    user: user,
                    pool: old(pool).pool_id,
                    coverage_amount: coverage_amount,
                    premium_paid: old(pool).premium_amount,
                    timestamp: now,
                })
            },
            Err(e) => join_error(*old(pool), coverage_amount) == Some(e) && *final(pool) == *old(pool),
        },
        old(pool).wf() ==> final(pool).wf(),
{
    if coverage_amount > pool.coverage_amount {
        return Err(NovaError::ExcessiveClaimAmount);
    }
    if coverage_amount == 0 {
        return Err(NovaError::InvalidCoverageAmount);
    }
    let pooled: u64 = match pool.total_pooled.checked_add(pool.premium_amount) {
        Some(p) => p,
        None => {
            return Err(NovaError::MathOverflow);
        },
    };
    let members: u32 = match pool.total_members.checked_add(1) {
        Some(m) => m,
        None => {
            return Err(NovaError::MathOverflow);
        },
    };
    let coverage = UserCoverage {
        user: user,
        pool: pool.pool_id,
        premiums_paid: pool.premium_amount,
        last_payment: now,
        coverage_active: true,
        coverage_amount: coverage_amount,
        claims_made: 0,
        joined_at: now,
        bump: bump,
    };
    let event = UserJoinedEvent {
        user: user,
        pool: pool.pool_id,
        coverage_amount: coverage_amount,
        premium_paid: pool.premium_amount,
        timestamp: now,
    };
    pool.total_pooled = pooled;
    pool.total_members = members;
    Ok((coverage, event))
}

/// Why a premium cannot be paid, if it cannot.
pub open spec fn premium_error(pool: InsurancePool, coverage: UserCoverage, user: AccountId) -> Option<
    NovaError,
> {
    if coverage.user != user {
        Some(NovaError::UnauthorizedValidator)
    } else if coverage.premiums_paid + pool.premium_amount > u64::MAX {
        Some(NovaError::MathOverflow)
    } else {
        None
    }
}

/// Records a premium payment of `user`: the coverage counts the premium of
/// the pool, is dated `now` and is active. The returned record names the
/// amount to collect from the member.
pub fn pay_premium(
    pool: &InsurancePool,
    user_coverage: &mut UserCoverage,
    user: AccountId,
    now: i64,
) -> (r: Result<PremiumPaidEvent, NovaError>)
    ensures
        match r {
            Ok(event) => {
                &&& premium_error(*pool, *old(user_coverage), user) is None
                &&& *final(user_coverage) == (UserCoverage {
                    premiums_paid: (old(user_coverage).premiums_paid + pool.premium_amount) as u64,
                    last_payment: now,
                    coverage_active: true,
                    ..*old(user_coverage)
                })
                &&& event == (PremiumPaidEvent {
                    user: user,
                    pool: pool.pool_id,
                    amount: pool.premium_amount,
                    total_paid: final(user_coverage).premiums_paid,
                    timestamp: now,
                })
            },
            Err(e) => premium_error(*pool, *old(user_coverage), user) == Some(e) && *final(user_coverage) == *old(user_coverage),
        },
{
    if user_coverage.user != user {
        return Err(NovaError::UnauthorizedValidator);
    }
    let paid: u64 = match user_coverage.premiums_paid.checked_add(pool.premium_amount) {
        Some(p) => p,
        None => {
            return Err(NovaError::MathOverflow);
        },
    };
    user_coverage.premiums_paid = paid;
    user_coverage.last_payment = now;
    user_coverage.coverage_active = true;
    Ok(
        PremiumPaidEvent {
            user: user,
            pool: pool.pool_id,
            amount: pool.premium_amount,
            total_paid: paid,
            timestamp: now,
        },
    )
}

} // verus!
