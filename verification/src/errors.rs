//! The failures an operation can report.

use vstd::prelude::*;

verus! {

/// Every way an operation of this crate can fail. An operation that fails
/// leaves the state it was given untouched.
#[derive(Clone, Copy, Debug, PartialEq, Eq, Structural)]
pub enum NovaError {
    /// Premium amount must be greater than zero.
    InvalidPremiumAmount,
    /// An amount is zero where it must be positive, a coverage does not exceed
    /// its premium, or a text is longer than its bound.
    InvalidCoverageAmount,
    /// Fewer than three validators asked for, a stake below the minimum, or a
    /// registry that is full.
    InsufficientValidators,
    /// Claim period must be positive.
    InvalidClaimPeriod,
    /// The randomness state belongs to another pool.
    InvalidPoolType,
    /// Coverage amount exceeds pool maximum.
    ExcessiveCoverageAmount,
    /// The coverage is not active, belongs to another pool, or the claim is
    /// not in the approved state that a payout or a queue entry needs.
    InactiveCoverage,
    /// The amount exceeds what the coverage or the pool allows.
    ExcessiveClaimAmount,
    /// The incident lies outside the claim window, or the claim is not in a
    /// state that accepts the operation.
    ClaimPeriodExpired,
    /// The pool does not hold enough funds.
    InsufficientPoolFunds,
    /// The caller is not the owner, not a member of the committee, or the
    /// claim was not selected for payout.
    UnauthorizedValidator,
    /// Validator has already validated this claim.
    DuplicateValidation,
    /// Stake amount is below minimum required.
    InsufficientStake,
    /// Validator reputation is too low.
    LowReputation,
    /// Premium payment is overdue.
    PremiumOverdue,
    /// A counter or a balance would leave the range of its type.
    MathOverflow,
    /// Unauthorized access attempt.
    Unauthorized,
    /// Account is already initialized.
    AlreadyInitialized,
    /// Invalid timestamp.
    InvalidTimestamp,
    /// More selections were asked for than there are candidates.
    InsufficientCandidates,
    /// The claim already has a committee.
    DuplicateAssignment,
    /// The validator has already voted on the claim.
    DuplicateVote,
    /// The claim is already waiting in the distribution queue.
    DuplicateEntry,
    /// An oversubscribed round was asked for without a seed.
    MissingRandomness,
    /// A bounded list is full.
    CapacityExceeded,
}

} // verus!
