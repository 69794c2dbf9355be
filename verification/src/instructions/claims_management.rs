//! Submitting a claim against a pool.

use vstd::prelude::*;
use crate::errors::NovaError;
use crate::keys::AccountId;
use crate::state::{
    text_len,
    utf8_len,
    ClaimRequest,
    ClaimRequestView,
    ClaimStatus,
    IncidentType,
    InsurancePool,
    UserCoverage,
    MAX_COMMITTEE_SIZE,
    MAX_DESCRIPTION_LEN,
};

verus! {

/// Record of a claim having been submitted.
#[derive(Clone, Copy, Debug, PartialEq, Eq)]
pub struct ClaimSubmittedEvent {
    pub claim_id: AccountId,
    pub claimant: AccountId,
    pub pool: AccountId,
    pub amount_requested: u64,
    pub incident_type: IncidentType,
    pub incident_timestamp: i64,
    pub timestamp: i64,
}

/// Why a claim cannot be submitted, if it cannot.
///
/// The coverage must be active and belong to the claimant and to the pool. The
/// amount must be positive and within the coverage. The incident must lie in
/// the past, no longer ago than the claim period of the pool, and not before
/// the claimant joined. The description must be within its bound.
pub open spec fn submit_error(
    pool: InsurancePool,
    coverage: UserCoverage,
    claimant: AccountId,
    amount_requested: u64,
    incident_timestamp: i64,
    description: Seq<char>,
    now: i64,
) -> Option<NovaError> {
    if !coverage.coverage_active {
        Some(NovaError::InactiveCoverage)
    } else if coverage.user != claimant {
        Some(NovaError::UnauthorizedValidator)
    } else if coverage.pool != pool.pool_id {
        Some(NovaError::InactiveCoverage)
    } else if amount_requested == 0 {
        Some(NovaError::InvalidCoverageAmount)
    } else if amount_requested > coverage.coverage_amount {
        Some(NovaError::ExcessiveClaimAmount)
    } else if now - incident_timestamp < 0 || now - incident_timestamp > pool.claim_period {
        Some(NovaError::ClaimPeriodExpired)
    } else if coverage.joined_at > incident_timestamp {
        Some(NovaError::ClaimPeriodExpired)
    } else if utf8_len(description) > MAX_DESCRIPTION_LEN {
        Some(NovaError::InvalidCoverageAmount)
    } else if pool.active_claims == u32::MAX {
        Some(NovaError::MathOverflow)
    } else {
        None
    }
}

/// A claim as it is submitted: pending, without committee, votes or decision.
pub open spec fn submitted_claim(
    claim_id: AccountId,
    claimant: AccountId,
    pool: AccountId,
    incident_type: IncidentType,
    amount_requested: u64,
    incident_timestamp: i64,
    description: Seq<char>,
    now: i64,
    bump: u8,
) -> ClaimRequestView {
    ClaimRequestView {
        claim_id: claim_id,
        claimant: claimant,
        pool: pool,
        amount_requested: amount_requested,
        incident_type: incident_type,
        incident_timestamp: incident_timestamp,
        description: description,
        validators_assigned: Seq::empty(),
        validations: Seq::empty(),
        approvals: 0,
        rejections: 0,
        status: ClaimStatus::Pending,
        vrf_result: None,
        created_at: now,
        resolved_at: None,
        payout_amount: None,
        bump: bump,
    }
}

/// Submits a claim of `claimant` against `pool` under `user_coverage`.
///
/// A claim that passes the checks of `submit_error` is created pending, and
/// the pool counts one more active claim.
pub fn submit_claim(
    pool: &mut InsurancePool,
    user_coverage: &UserCoverage,
    claim_id: AccountId,
    claimant: AccountId,
    incident_type: IncidentType,
    amount_requested: u64,
    incident_timestamp: i64,
    description: String,
    now: i64,
    bump: u8,
) -> (r: Result<(ClaimRequest, ClaimSubmittedEvent), NovaError>)
    ensures
        match r {
            Ok((claim, event)) => {
                &&& submit_error(
                    *old(pool),
                    *user_coverage,
                    claimant,
                    amount_requested,
                    incident_timestamp,
                    description@,
                    now,
                ) is None
                &&& claim@ == submitted_claim(
                    claim_id,
                    claimant,
                    old(pool).pool_id,
                    incident_type,
                    amount_requested,
                    incident_timestamp,
                    description@,
                    now,
                    bump,
                )
                &&& claim@.wf()
                &&& *final(pool) == (InsurancePool {
                    active_claims: (old(pool).active_claims + 1) as u32,
                    ..*old(pool)
                })
                &&& event == (ClaimSubmittedEvent {
                    claim_id: claim_id,
                    claimant: claimant,
                    pool: old(pool).pool_id,
                    amount_requested: amount_requested,
                    incident_type: incident_type,
                    incident_timestamp: incident_timestamp,
                    timestamp: now,
                })
            },
            Err(e) => submit_error(
                *old(pool),
                *user_coverage,
                claimant,
                amount_requested,
                incident_timestamp,
                description@,
                now,
            ) == Some(e) && *final(pool) == *old(pool),
        },
        old(pool).wf() ==> final(pool).wf(),
{
    if !user_coverage.coverage_active {
        return Err(NovaError::InactiveCoverage);
    }
    if user_coverage.user != claimant {
        return Err(NovaError::UnauthorizedValidator);
    }
    if user_coverage.pool != pool.pool_id {
        return Err(NovaError::InactiveCoverage);
    }
    if amount_requested == 0 {
        return Err(NovaError::InvalidCoverageAmount);
    }
    if amount_requested > user_coverage.coverage_amount {
        return Err(NovaError::ExcessiveClaimAmount);
    }
    let time_since_incident: i128 = now as i128 - incident_timestamp as i128;
    if time_since_incident < 0 || time_since_incident > pool.claim_period as i128 {
        return Err(NovaError::ClaimPeriodExpired);
    }
    if user_coverage.joined_at > incident_timestamp {
        return Err(NovaError::ClaimPeriodExpired);
    }
    if text_len(&description) > MAX_DESCRIPTION_LEN {
        return Err(NovaError::InvalidCoverageAmount);
    }
    let active: u32 = match pool.active_claims.checked_add(1) {
        Some(a) => a,
        None => {
            return Err(NovaError::MathOverflow);
        },
    };
    let claim = ClaimRequest {
        claim_id: claim_id,
        claimant: claimant,
        pool: pool.pool_id,
        amount_requested: amount_requested,
        incident_type: incident_type,
        incident_timestamp: incident_timestamp,
        description: description,
        validators_assigned: Vec::new(),
        validations: Vec::new(),
        approvals: 0,
        rejections: 0,
        status: ClaimStatus::Pending,
        vrf_result: None,
        created_at: now,
        resolved_at: None,
        payout_amount: None,
        bump: bump,
    };
    let event = ClaimSubmittedEvent {
        claim_id: claim_id,
        claimant: claimant,
        pool: pool.pool_id,
        amount_requested: amount_requested,
        incident_type: incident_type,
        incident_timestamp: incident_timestamp,
        timestamp: now,
    };
    pool.active_claims = active;
    proof {
        assert(claim@.validations =~= Seq::<crate::state::ValidationView>::empty());
        assert(crate::state::voters(claim@.validations) =~= Seq::<AccountId>::empty());
    }
    Ok((claim, event))
}

/// Why a committee cannot be assigned to a claim, if it cannot.
pub open spec fn assignment_error(claim: ClaimRequestView, committee_size: nat) -> Option<
    NovaError,
> {
    if claim.status != ClaimStatus::Pending {
        Some(NovaError::ClaimPeriodExpired)
    } else if claim.validators_assigned.len() > 0 {
        Some(NovaError::DuplicateAssignment)
    } else if committee_size == 0 {
        Some(NovaError::InsufficientValidators)
    } else if committee_size > MAX_COMMITTEE_SIZE {
        Some(NovaError::CapacityExceeded)
    } else {
        None
    }
}

/// The claim after `committee`, selected with `seed`, has been assigned to it.
pub open spec fn after_assignment(
    claim: ClaimRequestView,
    committee: Seq<AccountId>,
    seed: Seq<u8>,
) -> ClaimRequestView {
    ClaimRequestView {
        validators_assigned: committee,
        vrf_result: Some(seed),
        status: ClaimStatus::UnderValidation,
        ..claim
    }
}

/// Assigns a committee to a pending claim, which is then under validation.
///
/// A claim that is not pending or already has a committee is refused, and so
/// is a committee that is empty or larger than a claim can hold.
pub fn assign_committee(claim: &mut ClaimRequest, committee: Vec<AccountId>, seed: [u8; 32]) -> (r:
    Result<(), NovaError>)
    ensures
        match r {
            Ok(_) => assignment_error(old(claim)@, committee@.len()) is None && final(claim)@
                == after_assignment(old(claim)@, committee@, seed@),
            Err(e) => assignment_error(old(claim)@, committee@.len()) == Some(e) && *final(claim)
                == *old(claim),
        },
        old(claim)@.wf() && committee@.no_duplicates() ==> final(claim)@.wf(),
{
    if claim.status != ClaimStatus::Pending {
        return Err(NovaError::ClaimPeriodExpired);
    }
    if claim.validators_assigned.len() > 0 {
        return Err(NovaError::DuplicateAssignment);
    }
    if committee.len() == 0 {
        return Err(NovaError::InsufficientValidators);
    }
    if committee.len() > MAX_COMMITTEE_SIZE {
        return Err(NovaError::CapacityExceeded);
    }
    claim.validators_assigned = committee;
    claim.vrf_result = Some(seed);
    claim.status = ClaimStatus::UnderValidation;
    Ok(())
}

/// Why a claim cannot be resolved, if it cannot: only a claim under validation
/// can.
pub open spec fn finalize_error(claim: ClaimRequestView) -> Option<NovaError> {
    if claim.status != ClaimStatus::UnderValidation {
        Some(NovaError::ClaimPeriodExpired)
    } else {
        None
    }
}

/// The claim after it has been resolved at `now`: approved with its full
/// amount granted, or rejected.
pub open spec fn after_finalize(claim: ClaimRequestView, approved: bool, now: i64) -> ClaimRequestView {
    if approved {
        ClaimRequestView {
            status: ClaimStatus::Approved,
            resolved_at: Some(now),
            payout_amount: Some(claim.amount_requested),
            ..claim
        }
    } else {
        ClaimRequestView { status: ClaimStatus::Rejected, resolved_at: Some(now), ..claim }
    }
}

/// Resolves a claim under validation: approved, with the requested amount
/// granted, or rejected.
///
/// This is the bare transition. `validate_claim` makes it when the last member
/// of the committee has voted, with the decision of the majority; made earlier
/// or with another decision, it leaves a claim that breaks its invariant.
pub fn finalize_claim(claim: &mut ClaimRequest, approved: bool, now: i64) -> (r: Result<
    (),
    NovaError,
>)
    ensures
        match r {
            Ok(_) => finalize_error(old(claim)@) is None && final(claim)@ == after_finalize(
                old(claim)@,
                approved,
                now,
            ),
            Err(e) => finalize_error(old(claim)@) == Some(e) && *final(claim) == *old(claim),
        },
{
    if claim.status != ClaimStatus::UnderValidation {
        return Err(NovaError::ClaimPeriodExpired);
    }
    claim.resolved_at = Some(now);
    if approved {
        claim.status = ClaimStatus::Approved;
        claim.payout_amount = Some(claim.amount_requested);
    } else {
        claim.status = ClaimStatus::Rejected;
    }
    Ok(())
}

} // verus!
