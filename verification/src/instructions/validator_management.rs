//! Validators: staking, voting on claims, and the reward or slashing that
//! follows the outcome of a claim.

use vstd::prelude::*;
use vstd::seq_lib::seq_to_set_is_finite;
use vstd::set_lib::lemma_subset_equality;
use crate::errors::NovaError;
use crate::instructions::claims_management::{after_finalize, finalize_claim};
use crate::keys::{contains_id, AccountId};
use crate::state::{
    count_votes,
    has_voted,
    majority_threshold,
    text_len,
    utf8_len,
    voters,
    votes_view,
    ClaimRequest,
    ClaimRequestView,
    ClaimStatus,
    InsurancePool,
    Validation,
    ValidationView,
    ValidatorRegistry,
    ValidatorRegistryView,
    ValidatorStake,
    MAX_REASON_LEN,
    MAX_REGISTERED_VALIDATORS,
};

verus! {

/// Smallest stake that makes a validator.
pub const MIN_STAKE: u64 = 100_000_000;

/// Reputation gained by a vote with the majority.
pub const REPUTATION_REWARD: u32 = 100;

/// Reputation lost by a vote against the majority.
pub const REPUTATION_PENALTY: u32 = 200;

/// Record of a validator having staked.
#[derive(Clone, Copy, Debug, PartialEq, Eq)]
pub struct ValidatorStakedEvent {
    pub validator: AccountId,
    pub pool: AccountId,
    pub stake_amount: u64,
    pub reputation_score: u32,
    pub timestamp: i64,
}

/// Record of a vote, with the state of the claim after it.
#[derive(Clone, Copy, Debug, PartialEq, Eq)]
pub struct ClaimValidatedEvent {
    pub claim_id: AccountId,
    pub validator: AccountId,
    pub approved: bool,
    pub claim_status: ClaimStatus,
    pub approvals: u8,
    pub rejections: u8,
    pub timestamp: i64,
}

/// Why a stake cannot be accepted, if it cannot.
pub open spec fn stake_error(
    registry: ValidatorRegistryView,
    validator: AccountId,
    stake_amount: u64,
) -> Option<NovaError> {
    if stake_amount < MIN_STAKE {
        Some(NovaError::InsufficientValidators)
    } else if registry.validators.contains(validator) {
        None
    } else if registry.validators.len() >= MAX_REGISTERED_VALIDATORS {
        Some(NovaError::InsufficientValidators)
    } else if registry.total_validators == u32::MAX {
        Some(NovaError::MathOverflow)
    } else {
        None
    }
}

/// The registry after `validator` has staked: registered at the end, unless
/// registered already.
pub open spec fn after_stake(
    registry: ValidatorRegistryView,
    validator: AccountId,
) -> ValidatorRegistryView {
    if registry.validators.contains(validator) {
        registry
    } else {
        ValidatorRegistryView {
            validators: registry.validators.push(validator),
            total_validators: (registry.total_validators + 1) as u32,
            ..registry
        }
    }
}

/// The record of a validator that has just staked.
pub open spec fn fresh_stake(validator: AccountId, stake_amount: u64, bump: u8) -> ValidatorStake {
    ValidatorStake {
        validator: validator,
        stake_amount: stake_amount,
        validations_completed: 0,
        successful_validations: 0,
        reputation_score: ValidatorStake::INITIAL_REPUTATION,
        last_validation: 0,
        bump: bump,
    }
}

/// Makes `validator` a validator of the pool with the given stake.
///
/// The stake must reach `MIN_STAKE`. The validator starts with the initial
/// reputation and is entered at the end of the registry, unless it is there
/// already. The returned record names the amount to move into the stake.
pub fn stake_as_validator(
    registry: &mut ValidatorRegistry,
    pool: &InsurancePool,
    validator: AccountId,
    stake_amount: u64,
    now: i64,
    bump: u8,
) -> (r: Result<(ValidatorStake, ValidatorStakedEvent), NovaError>)
    ensures
        match r {
            Ok((stake, event)) => {
                &&& stake_error(old(registry)@, validator, stake_amount) is None
                &&& final(registry)@ == after_stake(old(registry)@, validator)
                &&& stake == fresh_stake(validator, stake_amount, bump)
                &&& stake.wf()
                &&& event == (ValidatorStakedEvent {
                    validator: validator,
                    pool: pool.pool_id,
                    stake_amount: stake_amount,
                    reputation_score: ValidatorStake::INITIAL_REPUTATION,
                    timestamp: now,
                })
            },
            Err(e) => stake_error(old(registry)@, validator, stake_amount) == Some(e) && *final(registry) == *old(registry),
        },
        old(registry)@.wf() ==> final(registry)@.wf(),
{
    if stake_amount < MIN_STAKE {
        return Err(NovaError::InsufficientValidators);
    }
    if !contains_id(&registry.validators, &validator) {
        if registry.validators.len() >= MAX_REGISTERED_VALIDATORS {
            return Err(NovaError::InsufficientValidators);
        }
        let count: u32 = match registry.total_validators.checked_add(1) {
            Some(c) => c,
            None => {
                return Err(NovaError::MathOverflow);
            },
        };
        registry.validators.push(validator);
        registry.total_validators = count;
    }
    let stake = ValidatorStake {
        validator: validator,
        stake_amount: stake_amount,
        validations_completed: 0,
        successful_validations: 0,
        reputation_score: ValidatorStake::INITIAL_REPUTATION,
        last_validation: 0,
        bump: bump,
    };
    let event = ValidatorStakedEvent {
        validator: validator,
        pool: pool.pool_id,
        stake_amount: stake_amount,
        reputation_score: ValidatorStake::INITIAL_REPUTATION,
        timestamp: now,
    };
    Ok((stake, event))
}

/// Share of the stake that a vote against the majority costs, in percent: two
/// for each member that the pool wants in a committee.
pub open spec fn slash_percentage(min_validators: u8) -> int {
    2 * min_validators
}

/// The amount that a vote against the majority takes off a stake.
pub open spec fn slash_amount(stake_amount: u64, min_validators: u8) -> int {
    stake_amount * slash_percentage(min_validators) / 100
}

/// A validator record after slashing: the stake reduced by the slash amount
/// and the reputation by the penalty, neither below zero.
pub open spec fn slashed(stake: ValidatorStake, min_validators: u8) -> ValidatorStake {
    ValidatorStake {
        stake_amount: if slash_amount(stake.stake_amount, min_validators) >= stake.stake_amount {
            0u64
        } else {
            (stake.stake_amount - slash_amount(stake.stake_amount, min_validators)) as u64
        },
        reputation_score: if stake.reputation_score < REPUTATION_PENALTY {
            0u32
        } else {
            (stake.reputation_score - REPUTATION_PENALTY) as u32
        },
        ..stake
    }
}

/// A validator record after a reward: one more successful validation, and the
/// reputation raised by the reward, up to the maximum.
pub open spec fn rewarded(stake: ValidatorStake) -> ValidatorStake {
    ValidatorStake {
        successful_validations: (stake.successful_validations + 1) as u32,
        reputation_score: if stake.reputation_score + REPUTATION_REWARD
            > ValidatorStake::MAX_REPUTATION {
            ValidatorStake::MAX_REPUTATION
        } else {
            (stake.reputation_score + REPUTATION_REWARD) as u32
        },
        ..stake
    }
}

/// A validator record after one more validation at `now`, before any reward
/// or slashing.
pub open spec fn counted(stake: ValidatorStake, now: i64) -> ValidatorStake {
    ValidatorStake {
        validations_completed: (stake.validations_completed + 1) as u32,
        last_validation: now,
        ..stake
    }
}

/// Tells whether applying an outcome to `stake` would overflow a counter.
pub open spec fn outcome_overflows(stake: ValidatorStake, voted_with_majority: bool) -> bool {
    stake.validations_completed == u32::MAX || (voted_with_majority
        && stake.successful_validations == u32::MAX)
}

/// A validator record after the outcome of a claim has been applied to it.
pub open spec fn after_outcome(
    stake: ValidatorStake,
    voted_with_majority: bool,
    min_validators: u8,
    now: i64,
) -> ValidatorStake {
    if voted_with_majority {
        rewarded(counted(stake, now))
    } else {
        slashed(counted(stake, now), min_validators)
    }
}

/// A validator record after a series of outcomes, each with the committee size
/// of its pool and its time.
pub open spec fn after_outcomes(stake: ValidatorStake, outcomes: Seq<(bool, u8, i64)>) -> ValidatorStake
    decreases outcomes.len(),
{
    if outcomes.len() == 0 {
        stake
    } else {
        let last = outcomes.last();
        after_outcome(after_outcomes(stake, outcomes.drop_last()), last.0, last.1, last.2)
    }
}

/// Whatever outcomes are applied to a validator, in whatever order, its
/// reputation stays between zero and the maximum.
pub proof fn lemma_reputation_stays_in_range(stake: ValidatorStake, outcomes: Seq<(bool, u8, i64)>)
    requires
        stake.wf(),
    ensures
        0 <= after_outcomes(stake, outcomes).reputation_score <= ValidatorStake::MAX_REPUTATION,
        after_outcomes(stake, outcomes).wf(),
    decreases outcomes.len(),
{
    if outcomes.len() > 0 {
        lemma_reputation_stays_in_range(stake, outcomes.drop_last());
    }
}

/// Slashes a validator for a vote against the majority: takes the slash amount
/// off the stake and the penalty off the reputation.
pub fn slash_validator(validator_stake: &mut ValidatorStake, pool: &InsurancePool)
    ensures
        *final(validator_stake) == slashed(*old(validator_stake), pool.min_validators),
        final(validator_stake).stake_amount <= old(validator_stake).stake_amount,
        old(validator_stake).wf() ==> final(validator_stake).wf(),
{
    let percentage: u128 = pool.min_validators as u128 * 2;
    assert(validator_stake.stake_amount * percentage <= 0xffff_ffff_ffff_ffff * 510)
        by (nonlinear_arith)
        requires
            0 <= validator_stake.stake_amount <= 0xffff_ffff_ffff_ffff,
            0 <= percentage <= 510,
    ;
    let product: u128 = validator_stake.stake_amount as u128 * percentage;
    let amount: u128 = product / 100;
    validator_stake.reputation_score = validator_stake.reputation_score.saturating_sub(
        REPUTATION_PENALTY,
    );
    if amount >= validator_stake.stake_amount as u128 {
        validator_stake.stake_amount = 0;
    } else {
        validator_stake.stake_amount = validator_stake.stake_amount - amount as u64;
    }
}

/// Applies the outcome of a claim to a validator that voted on it.
///
/// The validation is counted and timed. A vote with the majority is rewarded;
/// a vote against it is slashed. Nothing changes if a counter would overflow.
pub fn update_validator_reputation(
    validator_stake: &mut ValidatorStake,
    voted_with_majority: bool,
    pool: &InsurancePool,
    now: i64,
) -> (r: Result<(), NovaError>)
    ensures
        match r {
            Ok(_) => !outcome_overflows(*old(validator_stake), voted_with_majority) && *final(validator_stake) == after_outcome(*old(validator_stake), voted_with_majority, pool.min_validators, now),
            Err(e) => e == NovaError::MathOverflow && outcome_overflows(
                *old(validator_stake),
                voted_with_majority,
            ) && *final(validator_stake) == *old(validator_stake),
        },
        old(validator_stake).wf() ==> final(validator_stake).wf(),
{
    let completed: u32 = match validator_stake.validations_completed.checked_add(1) {
        Some(c) => c,
        None => {
            return Err(NovaError::MathOverflow);
        },
    };
    if voted_with_majority {
        let successful: u32 = match validator_stake.successful_validations.checked_add(1) {
            Some(s) => s,
            None => {
                return Err(NovaError::MathOverflow);
            },
        };
        let raised: u32 = validator_stake.reputation_score.saturating_add(REPUTATION_REWARD);
        validator_stake.validations_completed = completed;
        validator_stake.last_validation = now;
        validator_stake.successful_validations = successful;
        validator_stake.reputation_score = if raised > ValidatorStake::MAX_REPUTATION {
            ValidatorStake::MAX_REPUTATION
        } else {
            raised
        };
    } else {
        validator_stake.validations_completed = completed;
        validator_stake.last_validation = now;
        slash_validator(validator_stake, pool);
    }
    Ok(())
}

/// The verdict of the latest vote of `validator` among `votes`, if it has voted.
pub open spec fn vote_of(votes: Seq<ValidationView>, validator: AccountId) -> Option<bool>
    decreases votes.len(),
{
    if votes.len() == 0 {
        None
    } else if votes.last().validator == validator {
        Some(votes.last().approved)
    } else {
        vote_of(votes.drop_last(), validator)
    }
}

/// The stake records are those of the committee, member by member.
pub open spec fn stakes_match(committee: Seq<AccountId>, stakes: Seq<ValidatorStake>) -> bool {
    &&& stakes.len() == committee.len()
    &&& forall|i: int|
        0 <= i < committee.len() ==> (#[trigger] stakes[i]).validator == committee[i]
}

/// The claim with one more vote recorded and counted, its status unchanged.
pub open spec fn with_vote(claim: ClaimRequestView, vote: ValidationView) -> ClaimRequestView {
    ClaimRequestView {
        validations: claim.validations.push(vote),
        approvals: if vote.approved {
            (claim.approvals + 1) as u8
        } else {
            claim.approvals
        },
        rejections: if vote.approved {
            claim.rejections
        } else {
            (claim.rejections + 1) as u8
        },
        ..claim
    }
}

/// Quorum: the whole committee has voted.
pub open spec fn quorum_reached(claim: ClaimRequestView) -> bool {
    claim.approvals + claim.rejections >= claim.validators_assigned.len()
}

/// Majority: more than half of the committee approves.
pub open spec fn majority_approves(claim: ClaimRequestView) -> bool {
    claim.approvals >= majority_threshold(claim.validators_assigned.len() as int)
}

/// The claim after a vote: the vote is recorded and counted, and the claim is
/// under validation; with the quorum reached it is then resolved at the time
/// of the vote, approved if the majority approves and rejected if not.
pub open spec fn after_vote(claim: ClaimRequestView, vote: ValidationView) -> ClaimRequestView {
    let voted = ClaimRequestView { status: ClaimStatus::UnderValidation, ..with_vote(claim, vote) };
    if quorum_reached(voted) {
        after_finalize(voted, majority_approves(voted), vote.timestamp)
    } else {
        voted
    }
}

/// Tells whether the vote that left the claim as `decided` would overflow a
/// counter of `stake`.
pub open spec fn record_overflows(
    decided: ClaimRequestView,
    stake: ValidatorStake,
    voter: AccountId,
) -> bool {
    if decided.status == ClaimStatus::UnderValidation {
        stake.validator == voter && stake.validations_completed == u32::MAX
    } else {
        match vote_of(decided.validations, stake.validator) {
            Some(verdict) => outcome_overflows(
                stake,
                verdict == (decided.status == ClaimStatus::Approved),
            ),
            None => false,
        }
    }
}

/// A stake record after the vote of `voter` at `now` that left the claim as
/// `decided`.
///
/// While the claim stays under validation, the voter's validation is counted
/// and timed, and nobody else's record changes. When the vote resolves the
/// claim, every validator with a vote on it receives the outcome: rewarded if
/// its vote agrees with the decision, slashed if not.
pub open spec fn record_after_vote(
    decided: ClaimRequestView,
    stake: ValidatorStake,
    min_validators: u8,
    voter: AccountId,
    now: i64,
) -> ValidatorStake {
    if decided.status == ClaimStatus::UnderValidation {
        if stake.validator == voter {
            counted(stake, now)
        } else {
            stake
        }
    } else {
        match vote_of(decided.validations, stake.validator) {
            Some(verdict) => after_outcome(
                stake,
                verdict == (decided.status == ClaimStatus::Approved),
                min_validators,
                now,
            ),
            None => stake,
        }
    }
}

/// The stake records of a committee after a vote.
pub open spec fn stakes_after_vote(
    decided: ClaimRequestView,
    stakes: Seq<ValidatorStake>,
    min_validators: u8,
    voter: AccountId,
    now: i64,
) -> Seq<ValidatorStake> {
    stakes.map_values(
        |stake: ValidatorStake| record_after_vote(decided, stake, min_validators, voter, now),
    )
}

/// Why a vote cannot be cast, if it cannot.
pub open spec fn vote_error(
    claim: ClaimRequestView,
    stakes: Seq<ValidatorStake>,
    vote: ValidationView,
) -> Option<NovaError> {
    if claim.status != ClaimStatus::UnderValidation && claim.status != ClaimStatus::Pending {
        Some(NovaError::ClaimPeriodExpired)
    } else if !claim.validators_assigned.contains(vote.validator) {
        Some(NovaError::UnauthorizedValidator)
    } else if has_voted(claim.validations, vote.validator) {
        Some(NovaError::DuplicateVote)
    } else if utf8_len(vote.reason) > MAX_REASON_LEN {
        Some(NovaError::InvalidCoverageAmount)
    } else if !stakes_match(claim.validators_assigned, stakes) {
        Some(NovaError::UnauthorizedValidator)
    } else if vote.approved && claim.approvals == u8::MAX {
        Some(NovaError::MathOverflow)
    } else if !vote.approved && claim.rejections == u8::MAX {
        Some(NovaError::MathOverflow)
    } else if exists|i: int|
        0 <= i < stakes.len() && record_overflows(
            after_vote(claim, vote),
            #[trigger] stakes[i],
            vote.validator,
        ) {
        Some(NovaError::MathOverflow)
    } else {
        None
    }
}

/// Approvals and rejections together are all the votes.
pub proof fn lemma_count_votes_total(votes: Seq<ValidationView>)
    ensures
        count_votes(votes, true) + count_votes(votes, false) == votes.len(),
    decreases votes.len(),
{
    if votes.len() > 0 {
        lemma_count_votes_total(votes.drop_last());
    }
}

/// A validator with a vote has a latest vote.
pub proof fn lemma_voted_has_vote(votes: Seq<ValidationView>, validator: AccountId)
    ensures
        has_voted(votes, validator) <==> vote_of(votes, validator) is Some,
    decreases votes.len(),
{
    if votes.len() > 0 {
        lemma_voted_has_vote(votes.drop_last(), validator);
        if votes.last().validator != validator {
            if has_voted(votes, validator) {
                let i = choose|i: int| 0 <= i < votes.len() && votes[i].validator == validator;
                assert(votes.drop_last()[i].validator == validator);
            }
            if has_voted(votes.drop_last(), validator) {
                let i = choose|i: int|
                    0 <= i < votes.drop_last().len() && votes.drop_last()[i].validator
                        == validator;
                assert(votes[i].validator == validator);
            }
        } else {
            assert(votes[votes.len() - 1].validator == validator);
        }
    }
}

/// For every claim, the votes counted never outnumber the committee, and when
/// they are as many as the committee the claim is no longer under validation.
pub proof fn lemma_votes_within_committee(claim: ClaimRequestView)
    requires
        claim.wf(),
    ensures
        claim.approvals + claim.rejections <= claim.validators_assigned.len(),
        claim.approvals + claim.rejections == claim.validators_assigned.len() ==> claim.status
            != ClaimStatus::UnderValidation,
{
    lemma_count_votes_total(claim.validations);
}

/// Once the whole committee has voted, every member has a vote: a decision
/// leaves no member of the committee without its reward or its slashing.
pub proof fn lemma_quorum_covers_committee(claim: ClaimRequestView)
    requires
        claim.wf(),
        claim.validations.len() == claim.validators_assigned.len(),
    ensures
        forall|i: int|
            0 <= i < claim.validators_assigned.len() ==> vote_of(
                claim.validations,
                #[trigger] claim.validators_assigned[i],
            ) is Some,
{
    let committee = claim.validators_assigned;
    let cast = voters(claim.validations);
    cast.unique_seq_to_set();
    committee.unique_seq_to_set();
    seq_to_set_is_finite(cast);
    seq_to_set_is_finite(committee);
    assert forall|v: AccountId| cast.to_set().contains(v) implies committee.to_set().contains(
        v,
    ) by {
        let i = choose|i: int| 0 <= i < cast.len() && cast[i] == v;
        assert(committee.contains(claim.validations[i].validator));
    }
    lemma_subset_equality(cast.to_set(), committee.to_set());
    assert forall|i: int| 0 <= i < committee.len() implies vote_of(
        claim.validations,
        #[trigger] committee[i],
    ) is Some by {
        assert(committee.to_set().contains(committee[i]));
        assert(cast.to_set().contains(committee[i]));
        let k = choose|k: int| 0 <= k < cast.len() && cast[k] == committee[i];
        assert(claim.validations[k].validator == committee[i]);
        lemma_voted_has_vote(claim.validations, committee[i]);
    }
}

/// A vote that is accepted keeps the invariant of the claim.
pub proof fn lemma_vote_keeps_claim(claim: ClaimRequestView, vote: ValidationView)
    requires
        claim.wf(),
        claim.status == ClaimStatus::UnderValidation || claim.status == ClaimStatus::Pending,
        claim.validators_assigned.contains(vote.validator),
        !has_voted(claim.validations, vote.validator),
        utf8_len(vote.reason) <= MAX_REASON_LEN,
    ensures
        after_vote(claim, vote).wf(),
        claim.approvals < u8::MAX,
        claim.rejections < u8::MAX,
{
    let voted = with_vote(claim, vote);
    let decided = after_vote(claim, vote);
    lemma_count_votes_total(claim.validations);
    lemma_count_votes_total(voted.validations);
    assert(voted.validations.drop_last() =~= claim.validations);
    assert(voters(voted.validations) =~= voters(claim.validations).push(vote.validator));
    assert(!voters(claim.validations).contains(vote.validator)) by {
        if voters(claim.validations).contains(vote.validator) {
            let i = choose|i: int|
                0 <= i < voters(claim.validations).len() && voters(claim.validations)[i]
                    == vote.validator;
            assert(claim.validations[i].validator == vote.validator);
        }
    }
    assert(voters(voted.validations).no_duplicates());
    assert(decided.validations == voted.validations);
}

/// Tells whether `validator` has a vote among `votes`.
fn already_voted(votes: &Vec<Validation>, validator: &AccountId) -> (found: bool)
    ensures
        found == has_voted(votes_view(votes@), *validator),
{
    let mut i: usize = 0;
    while i < votes.len()
        invariant
            i <= votes.len(),
            forall|j: int| 0 <= j < i ==> (#[trigger] votes_view(votes@)[j]).validator != *validator,
        decreases votes.len() - i,
    {
        if votes[i].validator == *validator {
            assert(votes_view(votes@)[i as int].validator == *validator);
            return true;
        }
        i = i + 1;
    }
    false
}

/// The verdict of the latest vote of `member` among `votes`, if it has voted.
fn latest_vote(votes: &Vec<Validation>, member: &AccountId) -> (verdict: Option<bool>)
    ensures
        verdict == vote_of(votes_view(votes@), *member),
{
    let ghost all = votes_view(votes@);
    let mut verdict: Option<bool> = None;
    let mut i: usize = 0;
    while i < votes.len()
        invariant
            i <= votes.len(),
            all == votes_view(votes@),
            verdict == vote_of(all.take(i as int), *member),
        decreases votes.len() - i,
    {
        if votes[i].validator == *member {
            verdict = Some(votes[i].approved);
        }
        proof {
            assert(all.take(i + 1).drop_last() =~= all.take(i as int));
            assert(all.take(i + 1).last() == all[i as int]);
        }
        i = i + 1;
    }
    proof {
        assert(all.take(votes.len() as int) =~= all);
    }
    verdict
}

/// Tells whether `stakes` are the records of `committee`, member by member.
fn stakes_belong(committee: &Vec<AccountId>, stakes: &Vec<ValidatorStake>) -> (matching: bool)
    ensures
        matching == stakes_match(committee@, stakes@),
{
    if stakes.len() != committee.len() {
        return false;
    }
    let mut i: usize = 0;
    while i < committee.len()
        invariant
            i <= committee.len(),
            stakes.len() == committee.len(),
            forall|j: int| 0 <= j < i ==> (#[trigger] stakes@[j]).validator == committee@[j],
        decreases committee.len() - i,
    {
        if stakes[i].validator != committee[i] {
            return false;
        }
        i = i + 1;
    }
    true
}

/// Casts the vote of a committee member on a claim.
///
/// `committee_stakes` holds the stake records of the committee, in committee
/// order. The vote is refused unless the claim is open for votes, the
/// validator is a member of the committee that has not voted yet, and the
/// reason is within its bound.
///
/// The vote is recorded and counted. While the committee is not complete the
/// claim stays under validation, and the validation is counted for the voter.
/// The vote that completes the committee resolves the claim: approved if more
/// than half of the committee approves, rejected otherwise; and every member
/// is rewarded or slashed by whether its vote agrees with the decision.
pub fn validate_claim(
    claim: &mut ClaimRequest,
    committee_stakes: &mut Vec<ValidatorStake>,
    pool: &InsurancePool,
    validator: AccountId,
    approve: bool,
    reason: String,
    now: i64,
) -> (r: Result<ClaimValidatedEvent, NovaError>)
    ensures
        match r {
            Ok(event) => {
                let vote = ValidationView {
                    validator: validator,
                    approved: approve,
                    reason: reason@,
                    timestamp: now,
                };
                &&& vote_error(old(claim)@, old(committee_stakes)@, vote) is None
                &&& final(claim)@ == after_vote(old(claim)@, vote)
                &&& final(committee_stakes)@ == stakes_after_vote(
                    final(claim)@,
                    old(committee_stakes)@,
                    pool.min_validators,
                    validator,
                    now,
                )
                &&& event == (ClaimValidatedEvent {
                    claim_id: old(claim).claim_id,
                    validator: validator,
                    approved: approve,
                    claim_status: final(claim).status,
                    approvals: final(claim).approvals,
                    rejections: final(claim).rejections,
                    timestamp: now,
                })
            },
            Err(e) => {
                &&& vote_error(
                    old(claim)@,
                    old(committee_stakes)@,
                    ValidationView {
                        validator: validator,
                        approved: approve,
                        reason: reason@,
                        timestamp: now,
                    },
                ) == Some(e)
                &&& *final(claim) == *old(claim)
                &&& *final(committee_stakes) == *old(committee_stakes)
            },
        },
        old(claim)@.wf() ==> final(claim)@.wf(),
        (forall|i: int| 0 <= i < old(committee_stakes)@.len() ==> old(committee_stakes)@[i].wf())
            ==> (forall|i: int|
            0 <= i < final(committee_stakes)@.len() ==> final(committee_stakes)@[i].wf()),
{
    let ghost vote = ValidationView {
        validator: validator,
        approved: approve,
        reason: reason@,
        timestamp: now,
    };
    let ghost before = claim@;
    let ghost decided = after_vote(before, vote);
    if claim.status != ClaimStatus::UnderValidation && claim.status != ClaimStatus::Pending {
        return Err(NovaError::ClaimPeriodExpired);
    }
    if !contains_id(&claim.validators_assigned, &validator) {
        return Err(NovaError::UnauthorizedValidator);
    }
    if already_voted(&claim.validations, &validator) {
        return Err(NovaError::DuplicateVote);
    }
    if text_len(&reason) > MAX_REASON_LEN {
        return Err(NovaError::InvalidCoverageAmount);
    }
    if !stakes_belong(&claim.validators_assigned, committee_stakes) {
        return Err(NovaError::UnauthorizedValidator);
    }
    let approvals: u8 = if approve {
        match claim.approvals.checked_add(1) {
            Some(a) => a,
            None => {
                return Err(NovaError::MathOverflow);
            },
        }
    } else {
        claim.approvals
    };
    let rejections: u8 = if approve {
        claim.rejections
    } else {
        match claim.rejections.checked_add(1) {
            Some(a) => a,
            None => {
                return Err(NovaError::MathOverflow);
            },
        }
    };
    let size: usize = claim.validators_assigned.len();
    let finalized: bool = approvals as usize + rejections as usize >= size;
    let approved: bool = approvals as usize >= size / 2 + 1;
    let status: ClaimStatus = if finalized {
        if approved {
            ClaimStatus::Approved
        } else {
            ClaimStatus::Rejected
        }
    } else {
        ClaimStatus::UnderValidation
    };
    assert(decided.status == status);
    assert(decided.validations == before.validations.push(vote));

    let mut updated: Vec<ValidatorStake> = Vec::new();
    let mut i: usize = 0;
    while i < committee_stakes.len()
        invariant
            i <= committee_stakes.len(),
            *committee_stakes == *old(committee_stakes),
            *claim == *old(claim),
            before == claim@,
            decided == after_vote(before, vote),
            before.status == ClaimStatus::UnderValidation || before.status
                == ClaimStatus::Pending,
            before.validators_assigned.contains(vote.validator),
            !has_voted(before.validations, vote.validator),
            utf8_len(vote.reason) <= MAX_REASON_LEN,
            stakes_match(before.validators_assigned, committee_stakes@),
            !(vote.approved && before.approvals == u8::MAX),
            !(!vote.approved && before.rejections == u8::MAX),
            decided.status == status,
            decided.validations == before.validations.push(vote),
            vote == (ValidationView {
                validator: validator,
                approved: approve,
                reason: reason@,
                timestamp: now,
            }),
            finalized == (status != ClaimStatus::UnderValidation),
            finalized ==> approved == (status == ClaimStatus::Approved),
            updated.len() == i,
            forall|j: int|
                0 <= j < i ==> !record_overflows(decided, #[trigger] committee_stakes@[j], validator),
            forall|j: int|
                0 <= j < i ==> #[trigger] updated@[j] == record_after_vote(
                    decided,
                    committee_stakes@[j],
                    pool.min_validators,
                    validator,
                    now,
                ),
            forall|j: int|
                0 <= j < i ==> (committee_stakes@[j].wf() ==> (#[trigger] updated@[j]).wf()),
        decreases committee_stakes.len() - i,
    {
        let mut record: ValidatorStake = committee_stakes[i];
        proof {
            assert(decided.validations.drop_last() =~= before.validations);
        }
        if finalized {
            let verdict: Option<bool> = if record.validator == validator {
                Some(approve)
            } else {
                latest_vote(&claim.validations, &record.validator)
            };
            match verdict {
                Some(v) => {
                    match update_validator_reputation(&mut record, v == approved, pool, now) {
                        Ok(_) => {},
                        Err(e) => {
                            assert(record_overflows(decided, committee_stakes@[i as int], validator));
                            return Err(e);
                        },
                    }
                },
                None => {},
            }
        } else if record.validator == validator {
            match record.validations_completed.checked_add(1) {
                Some(c) => {
                    record.validations_completed = c;
                    record.last_validation = now;
                },
                None => {
                    assert(record_overflows(decided, committee_stakes@[i as int], validator));
                    return Err(NovaError::MathOverflow);
                },
            }
        }
        updated.push(record);
        i = i + 1;
    }
    proof {
        assert(updated@ =~= stakes_after_vote(
            decided,
            committee_stakes@,
            pool.min_validators,
            validator,
            now,
        ));
        if before.wf() {
            lemma_vote_keeps_claim(before, vote);
        }
    }
    let claim_id: AccountId = claim.claim_id;
    let ghost recorded = claim.validations@;
    let cast = Validation { validator: validator, approved: approve, reason: reason, timestamp: now };
    claim.validations.push(cast);
    claim.approvals = approvals;
    claim.rejections = rejections;
    claim.status = ClaimStatus::UnderValidation;
    if finalized {
        let resolved = finalize_claim(claim, approved, now);
        assert(resolved is Ok);
    }
    *committee_stakes = updated;
    proof {
        assert(votes_view(claim.validations@) =~= votes_view(recorded).push(vote));
        assert(claim@ == decided);
    }
    Ok(
        ClaimValidatedEvent {
            claim_id: claim_id,
            validator: validator,
            approved: approve,
            claim_status: status,
            approvals: approvals,
            rejections: rejections,
            timestamp: now,
        },
    )
}

} // verus!
