//! Idle funds: placing them in a yield vault, taking them back, and the
//! figures that tell how much can be placed and what it earned.

use vstd::prelude::*;
use crate::errors::NovaError;
use crate::keys::AccountId;
use crate::state::InsurancePool;

verus! {

/// Share of the pooled funds that stays in the vault, in percent.
pub const MIN_RESERVE_PERCENT: u64 = 20;

/// Seconds in a year of 365 days.
pub const SECONDS_PER_YEAR: u64 = 31_536_000;

/// Record of funds having been placed in the yield vault.
#[derive(Clone, Copy, Debug, PartialEq, Eq)]
pub struct YieldDepositedEvent {
    pub pool: AccountId,
    pub amount: u64,
    pub total_yield_deposited: u64,
    pub timestamp: i64,
}

/// Record of funds having been taken back from the yield vault.
#[derive(Clone, Copy, Debug, PartialEq, Eq)]
pub struct YieldWithdrawnEvent {
    pub pool: AccountId,
    pub amount: u64,
    pub yield_earned: u64,
    pub total_yield_deposited: u64,
    pub timestamp: i64,
}

/// The reserve that the vault of a pool keeps: a fifth of the pooled funds.
pub open spec fn min_reserve(total_pooled: u64) -> int {
    total_pooled * MIN_RESERVE_PERCENT / 100
}

/// Why funds cannot be placed in the yield vault, if they cannot.
pub open spec fn deposit_error(pool: InsurancePool, vault_amount: u64, amount: u64) -> Option<
    NovaError,
> {
    if amount == 0 {
        Some(NovaError::InvalidCoverageAmount)
    } else if pool.total_pooled * MIN_RESERVE_PERCENT > u64::MAX {
        Some(NovaError::MathOverflow)
    } else if vault_amount < min_reserve(pool.total_pooled) {
        Some(NovaError::InsufficientPoolFunds)
    } else if amount > vault_amount - min_reserve(pool.total_pooled) {
        Some(NovaError::InsufficientPoolFunds)
    } else if pool.yield_deposited + amount > u64::MAX {
        Some(NovaError::MathOverflow)
    } else {
        None
    }
}

/// Places `amount` of the vault's funds in the yield vault.
///
/// The amount must be positive and leave the reserve in the vault, which
/// holds `vault_amount`. The returned record names the amount to move.
pub fn deposit_to_yield(pool: &mut InsurancePool, vault_amount: u64, amount: u64, now: i64) -> (r:
    Result<YieldDepositedEvent, NovaError>)
    ensures
        match r {
            Ok(event) => {
                &&& deposit_error(*old(pool), vault_amount, amount) is None
                &&& *final(pool) == (InsurancePool {
                    yield_deposited: (old(pool).yield_deposited + amount) as u64,
                    last_yield_update: now,
                    ..*old(pool)
                })
                &&& event == (YieldDepositedEvent {
                    pool: old(pool).pool_id,
                    amount: amount,
                    total_yield_deposited: final(pool).yield_deposited,
                    timestamp: now,
                })
            },
            Err(e) => deposit_error(*old(pool), vault_amount, amount) == Some(e) && *final(pool)
                == *old(pool),
        },
        old(pool).wf() ==> final(pool).wf(),
{
    if amount == 0 {
        return Err(NovaError::InvalidCoverageAmount);
    }
    let reserve: u64 = match pool.total_pooled.checked_mul(MIN_RESERVE_PERCENT) {
        Some(scaled) => scaled / 100,
        None => {
            return Err(NovaError::MathOverflow);
        },
    };
    let available_for_yield: u64 = match vault_amount.checked_sub(reserve) {
        Some(free) => free,
        None => {
            return Err(NovaError::InsufficientPoolFunds);
        },
    };
    if amount > available_for_yield {
        return Err(NovaError::InsufficientPoolFunds);
    }
    let deposited: u64 = match pool.yield_deposited.checked_add(amount) {
        Some(d) => d,
        None => {
            return Err(NovaError::MathOverflow);
        },
    };
    pool.yield_deposited = deposited;
    pool.last_yield_update = now;
    Ok(
        YieldDepositedEvent {
            pool: pool.pool_id,
            amount: amount,
            total_yield_deposited: deposited,
            timestamp: now,
        },
    )
}

/// What the yield vault holds beyond what was placed in it.
pub open spec fn accrued_yield(pool: InsurancePool, yield_vault_balance: u64) -> int {
    if yield_vault_balance > pool.yield_deposited {
        yield_vault_balance - pool.yield_deposited
    } else {
        0
    }
}

/// Why funds cannot be taken back from the yield vault, if they cannot.
pub open spec fn withdraw_error(pool: InsurancePool, yield_vault_balance: u64, amount: u64) -> Option<
    NovaError,
> {
    if amount == 0 {
        Some(NovaError::InvalidCoverageAmount)
    } else if amount > pool.yield_deposited {
        Some(NovaError::InsufficientPoolFunds)
    } else if pool.yield_earned + accrued_yield(pool, yield_vault_balance) > u64::MAX {
        Some(NovaError::MathOverflow)
    } else if pool.total_pooled + amount > u64::MAX {
        Some(NovaError::MathOverflow)
    } else {
        None
    }
}

/// Takes `amount` back from the yield vault, which holds
/// `yield_vault_balance`, into the pool.
///
/// The amount must be positive and no more than what was placed. What the
/// yield vault holds beyond that counts as yield earned. The returned record
/// names the amount to move.
pub fn withdraw_from_yield(
    pool: &mut InsurancePool,
    yield_vault_balance: u64,
    amount: u64,
    now: i64,
) -> (r: Result<YieldWithdrawnEvent, NovaError>)
    ensures
        match r {
            Ok(event) => {
                &&& withdraw_error(*old(pool), yield_vault_balance, amount) is None
                &&& *final(pool) == (InsurancePool {
                    yield_earned: (old(pool).yield_earned + accrued_yield(
                        *old(pool),
                        yield_vault_balance,
                    )) as u64,
                    yield_deposited: (old(pool).yield_deposited - amount) as u64,
                    total_pooled: (old(pool).total_pooled + amount) as u64,
                    last_yield_update: now,
                    ..*old(pool)
                })
                &&& event == (YieldWithdrawnEvent {
                    pool: old(pool).pool_id,
                    amount: amount,
                    yield_earned: final(pool).yield_earned,
                    total_yield_deposited: final(pool).yield_deposited,
                    timestamp: now,
                })
            },
            Err(e) => withdraw_error(*old(pool), yield_vault_balance, amount) == Some(e) && *final(pool) == *old(pool),
        },
        old(pool).wf() ==> final(pool).wf(),
{
    if amount == 0 {
        return Err(NovaError::InvalidCoverageAmount);
    }
    if amount > pool.yield_deposited {
        return Err(NovaError::InsufficientPoolFunds);
    }
    let principal: u64 = pool.yield_deposited;
    let earned: u64 = if yield_vault_balance > principal {
        match pool.yield_earned.checked_add(yield_vault_balance - principal) {
            Some(e) => e,
            None => {
                return Err(NovaError::MathOverflow);
            },
        }
    } else {
        pool.yield_earned
    };
    let pooled: u64 = match pool.total_pooled.checked_add(amount) {
        Some(p) => p,
        None => {
            return Err(NovaError::MathOverflow);
        },
    };
    pool.yield_earned = earned;
    pool.yield_deposited = principal - amount;
    pool.total_pooled = pooled;
    pool.last_yield_update = now;
    Ok(
        YieldWithdrawnEvent {
            pool: pool.pool_id,
            amount: amount,
            yield_earned: earned,
            total_yield_deposited: principal - amount,
            timestamp: now,
        },
    )
}

/// What a pool sets aside for the claims in process: half the coverage for
/// each of them.
pub open spec fn reserved_for_claims(pool: InsurancePool) -> int {
    pool.active_claims * (pool.coverage_amount / 2)
}

/// Everything a pool keeps back: the reserve for claims and the minimum
/// reserve.
pub open spec fn total_reserved(pool: InsurancePool) -> int {
    reserved_for_claims(pool) + min_reserve(pool.total_pooled)
}

/// The idle funds of a pool: what the vault holds beyond what the pool keeps
/// back; a figure that does not fit 64 bits on the way is an overflow.
pub open spec fn idle_funds(pool: InsurancePool, vault_balance: u64) -> Result<u64, NovaError> {
    if reserved_for_claims(pool) > u64::MAX || pool.total_pooled * MIN_RESERVE_PERCENT > u64::MAX
        || total_reserved(pool) > u64::MAX {
        Err(NovaError::MathOverflow)
    } else if vault_balance > total_reserved(pool) {
        Ok((vault_balance - total_reserved(pool)) as u64)
    } else {
        Ok(0u64)
    }
}

/// Computes the funds of a pool that can be placed in the yield vault.
pub fn calculate_idle_funds(pool: &InsurancePool, vault_balance: u64) -> (r: Result<
    u64,
    NovaError,
>)
    ensures
        r == idle_funds(*pool, vault_balance),
{
    let avg_claim_estimate: u64 = pool.coverage_amount / 2;
    let reserved: u64 = match (pool.active_claims as u64).checked_mul(avg_claim_estimate) {
        Some(x) => x,
        None => {
            return Err(NovaError::MathOverflow);
        },
    };
    let reserve: u64 = match pool.total_pooled.checked_mul(MIN_RESERVE_PERCENT) {
        Some(scaled) => scaled / 100,
        None => {
            return Err(NovaError::MathOverflow);
        },
    };
    let kept: u64 = match reserved.checked_add(reserve) {
        Some(x) => x,
        None => {
            return Err(NovaError::MathOverflow);
        },
    };
    if vault_balance > kept {
        Ok(vault_balance - kept)
    } else {
        Ok(0)
    }
}

/// The yield per year, in hundredths of a percent of the principal, scaled
/// from the time that has elapsed.
pub open spec fn annualized_yield(yield_earned: u64, principal: u64, time_elapsed_seconds: i64) -> int {
    (yield_earned * 10000 / (principal as int)) * SECONDS_PER_YEAR / (
    time_elapsed_seconds as int)
}

/// The annual percentage yield: zero without principal or elapsed time, else
/// the annualized yield in percent; an annualized yield that does not fit 64
/// bits is an overflow.
pub open spec fn apy(yield_earned: u64, principal: u64, time_elapsed_seconds: i64) -> Result<
    u64,
    NovaError,
> {
    if principal == 0 || time_elapsed_seconds <= 0 {
        Ok(0u64)
    } else if annualized_yield(yield_earned, principal, time_elapsed_seconds) > u64::MAX {
        Err(NovaError::MathOverflow)
    } else {
        Ok((annualized_yield(yield_earned, principal, time_elapsed_seconds) / 100) as u64)
    }
}

/// Computes the annual percentage yield of `yield_earned` on `principal` over
/// `time_elapsed_seconds`.
pub fn calculate_apy(yield_earned: u64, principal: u64, time_elapsed_seconds: i64) -> (r: Result<
    u64,
    NovaError,
>)
    ensures
        r == apy(yield_earned, principal, time_elapsed_seconds),
{
    if principal == 0 || time_elapsed_seconds <= 0 {
        return Ok(0);
    }
    assert(yield_earned * 10000 <= 0xffff_ffff_ffff_ffff * 10000) by (nonlinear_arith)
        requires
            0 <= yield_earned <= 0xffff_ffff_ffff_ffff,
    ;
    let scaled: u128 = yield_earned as u128 * 10000;
    let yield_ratio: u128 = scaled / (principal as u128);
    assert(yield_ratio <= scaled) by (nonlinear_arith)
        requires
            yield_ratio == scaled / (principal as u128),
            principal >= 1,
            scaled >= 0,
    ;
    assert(yield_ratio * SECONDS_PER_YEAR <= 0xffff_ffff_ffff_ffff * 10000 * 31_536_000)
        by (nonlinear_arith)
        requires
            0 <= yield_ratio <= 0xffff_ffff_ffff_ffff * 10000,
            SECONDS_PER_YEAR == 31_536_000,
    ;
    let annualized: u128 = yield_ratio * (SECONDS_PER_YEAR as u128) / (
    time_elapsed_seconds as u128);
    if annualized > u64::MAX as u128 {
        return Err(NovaError::MathOverflow);
    }
    Ok((annualized / 100) as u64)
}

} // verus!
