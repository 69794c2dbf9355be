use nova_insurance::instructions::{
    initialize_pool, slash_validator, stake_as_validator, submit_claim,
    update_validator_reputation, validate_claim, assign_committee, ClaimValidatedEvent,
    ValidatorStakedEvent,
};
use nova_insurance::{
    AccountId, ClaimRequest, ClaimStatus, IncidentType, InsurancePool, NovaError, PoolType,
    UserCoverage, ValidatorRegistry, ValidatorStake,
};

fn member(n: u8) -> AccountId {
    AccountId::new([n; 32])
}

fn voting_pool(min_validators: u8) -> InsurancePool {
    initialize_pool(
        member(100),
        member(101),
        member(102),
        PoolType::General,
        50,
        1000,
        min_validators,
        3600,
        0,
        255,
    )
    .unwrap()
    .0
}

fn stake_of(validator: AccountId, amount: u64, reputation: u32) -> ValidatorStake {
    ValidatorStake {
        validator,
        stake_amount: amount,
        validations_completed: 0,
        successful_validations: 0,
        reputation_score: reputation,
        last_validation: 0,
        bump: 0,
    }
}

fn claim_under_validation(pool: &mut InsurancePool, committee: &[AccountId]) -> ClaimRequest {
    let coverage = UserCoverage {
        user: member(50),
        pool: pool.pool_id,
        premiums_paid: 50,
        last_payment: 0,
        coverage_active: true,
        coverage_amount: 1000,
        claims_made: 0,
        joined_at: 0,
        bump: 0,
    };
    let (mut claim, _) = submit_claim(
        pool,
        &coverage,
        member(60),
        member(50),
        IncidentType::Accident,
        500,
        990,
        String::from("QmHash"),
        1000,
        0,
    )
    .unwrap();
    assign_committee(&mut claim, committee.to_vec(), [3u8; 32]).unwrap();
    claim
}

fn committee_stakes(committee: &[AccountId], amount: u64, reputation: u32) -> Vec<ValidatorStake> {
    committee.iter().map(|v| stake_of(*v, amount, reputation)).collect()
}

#[test]
fn two_approvals_and_a_rejection_approve_the_claim() {
    let mut pool = voting_pool(3);
    let committee = [member(1), member(2), member(3)];
    let mut claim = claim_under_validation(&mut pool, &committee);
    let mut stakes = committee_stakes(&committee, 1_000_000_000, 5000);

    let first =
        validate_claim(&mut claim, &mut stakes, &pool, member(1), true, String::from("ok"), 2000)
            .unwrap();
    assert_eq!(first.claim_status, ClaimStatus::UnderValidation);
    assert_eq!((first.approvals, first.rejections), (1, 0));
    let second =
        validate_claim(&mut claim, &mut stakes, &pool, member(2), true, String::from("ok"), 2001)
            .unwrap();
    assert_eq!(second.claim_status, ClaimStatus::UnderValidation);
    assert_eq!(claim.resolved_at, None);
    assert_eq!(claim.payout_amount, None);
    let third =
        validate_claim(&mut claim, &mut stakes, &pool, member(3), false, String::from("no"), 2002)
            .unwrap();
    assert_eq!(
        third,
        ClaimValidatedEvent {
            claim_id: member(60),
            validator: member(3),
            approved: false,
            claim_status: ClaimStatus::Approved,
            approvals: 2,
            rejections: 1,
            timestamp: 2002,
        }
    );
    assert_eq!(claim.status, ClaimStatus::Approved);
    assert_eq!(claim.payout_amount, Some(500));
    assert_eq!(claim.resolved_at, Some(2002));
    assert_eq!(claim.approvals, 2);
    assert_eq!(claim.rejections, 1);
    assert_eq!(claim.validations.len(), 3);
    assert_eq!(claim.validations[2].validator, member(3));
    assert!(!claim.validations[2].approved);
    assert_eq!(claim.validations[2].reason, "no");
    assert_eq!(claim.validations[2].timestamp, 2002);

    for approver in 0..2 {
        assert_eq!(stakes[approver].reputation_score, 5100);
        assert_eq!(stakes[approver].stake_amount, 1_000_000_000);
        assert_eq!(stakes[approver].successful_validations, 1);
        assert_eq!(stakes[approver].validations_completed, 2);
        assert_eq!(stakes[approver].last_validation, 2002);
    }
    assert_eq!(stakes[2].reputation_score, 4800);
    assert_eq!(stakes[2].stake_amount, 940_000_000);
    assert_eq!(stakes[2].successful_validations, 0);
    assert_eq!(stakes[2].validations_completed, 1);
    assert_eq!(stakes[2].last_validation, 2002);
}

#[test]
fn vote_before_quorum_only_counts_for_the_voter() {
    let mut pool = voting_pool(3);
    let committee = [member(1), member(2), member(3)];
    let mut claim = claim_under_validation(&mut pool, &committee);
    let mut stakes = committee_stakes(&committee, 1_000_000_000, 5000);
    validate_claim(&mut claim, &mut stakes, &pool, member(2), false, String::new(), 2000).unwrap();
    assert_eq!(claim.status, ClaimStatus::UnderValidation);
    assert_eq!(stakes[0], stake_of(member(1), 1_000_000_000, 5000));
    assert_eq!(stakes[2], stake_of(member(3), 1_000_000_000, 5000));
    let mut voted = stake_of(member(2), 1_000_000_000, 5000);
    voted.validations_completed = 1;
    voted.last_validation = 2000;
    assert_eq!(stakes[1], voted);
}

#[test]
fn majority_of_rejections_rejects_the_claim() {
    let mut pool = voting_pool(3);
    let committee = [member(1), member(2), member(3)];
    let mut claim = claim_under_validation(&mut pool, &committee);
    let mut stakes = committee_stakes(&committee, 1000, 150);
    validate_claim(&mut claim, &mut stakes, &pool, member(3), false, String::new(), 1).unwrap();
    validate_claim(&mut claim, &mut stakes, &pool, member(1), true, String::new(), 2).unwrap();
    let last =
        validate_claim(&mut claim, &mut stakes, &pool, member(2), false, String::new(), 3).unwrap();
    assert_eq!(last.claim_status, ClaimStatus::Rejected);
    assert_eq!(claim.status, ClaimStatus::Rejected);
    assert_eq!(claim.payout_amount, None);
    assert_eq!(claim.resolved_at, Some(3));
    assert_eq!((stakes[0].reputation_score, stakes[0].stake_amount), (0, 940));
    assert_eq!((stakes[1].reputation_score, stakes[1].stake_amount), (250, 1000));
    assert_eq!((stakes[2].reputation_score, stakes[2].stake_amount), (250, 1000));
    assert_eq!(stakes[0].successful_validations, 0);
    assert_eq!(stakes[1].successful_validations, 1);
}

#[test]
fn even_committee_needs_more_than_half() {
    let mut pool = voting_pool(4);
    let committee = [member(1), member(2), member(3), member(4)];
    let mut claim = claim_under_validation(&mut pool, &committee);
    let mut stakes = committee_stakes(&committee, 1000, 5000);
    validate_claim(&mut claim, &mut stakes, &pool, member(1), true, String::new(), 1).unwrap();
    validate_claim(&mut claim, &mut stakes, &pool, member(2), true, String::new(), 2).unwrap();
    validate_claim(&mut claim, &mut stakes, &pool, member(3), false, String::new(), 3).unwrap();
    assert_eq!(claim.status, ClaimStatus::UnderValidation);
    validate_claim(&mut claim, &mut stakes, &pool, member(4), false, String::new(), 4).unwrap();
    assert_eq!(claim.status, ClaimStatus::Rejected);
    assert_eq!(stakes[0].stake_amount, 920);
    assert_eq!(stakes[3].stake_amount, 1000);
}

#[test]
fn votes_never_outnumber_the_committee() {
    let mut pool = voting_pool(3);
    let committee = [member(1), member(2), member(3), member(4), member(5)];
    let mut claim = claim_under_validation(&mut pool, &committee);
    let mut stakes = committee_stakes(&committee, 1000, 5000);
    for (i, v) in committee.iter().enumerate() {
        assert_eq!(claim.status, ClaimStatus::UnderValidation);
        assert!((claim.approvals + claim.rejections) < 5);
        validate_claim(&mut claim, &mut stakes, &pool, *v, i % 2 == 0, String::new(), 5).unwrap();
        assert_eq!((claim.approvals + claim.rejections) as usize, i + 1);
    }
    assert_eq!(claim.approvals + claim.rejections, 5);
    assert_ne!(claim.status, ClaimStatus::UnderValidation);
    assert_eq!(claim.status, ClaimStatus::Approved);
    for v in committee.iter() {
        assert_eq!(
            validate_claim(&mut claim, &mut stakes, &pool, *v, true, String::new(), 6).err(),
            Some(NovaError::ClaimPeriodExpired)
        );
    }
    assert_eq!(claim.approvals + claim.rejections, 5);
    assert_eq!(claim.validations.len(), 5);
}

#[test]
fn vote_is_refused_for_outsiders_and_repeaters() {
    let mut pool = voting_pool(3);
    let committee = [member(1), member(2), member(3)];
    let mut claim = claim_under_validation(&mut pool, &committee);
    let mut stakes = committee_stakes(&committee, 1000, 5000);
    assert_eq!(
        validate_claim(&mut claim, &mut stakes, &pool, member(9), true, String::new(), 1).err(),
        Some(NovaError::UnauthorizedValidator)
    );
    validate_claim(&mut claim, &mut stakes, &pool, member(1), true, String::new(), 1).unwrap();
    let snapshot = stakes.clone();
    assert_eq!(
        validate_claim(&mut claim, &mut stakes, &pool, member(1), false, String::new(), 2).err(),
        Some(NovaError::DuplicateVote)
    );
    assert_eq!(claim.approvals, 1);
    assert_eq!(claim.rejections, 0);
    assert_eq!(claim.validations.len(), 1);
    assert_eq!(stakes, snapshot);
}

#[test]
fn vote_on_a_pending_claim_has_no_committee_to_belong_to() {
    let mut pool = voting_pool(3);
    let coverage = UserCoverage {
        user: member(50),
        pool: pool.pool_id,
        premiums_paid: 0,
        last_payment: 0,
        coverage_active: true,
        coverage_amount: 1000,
        claims_made: 0,
        joined_at: 0,
        bump: 0,
    };
    let (mut claim, _) = submit_claim(
        &mut pool,
        &coverage,
        member(60),
        member(50),
        IncidentType::Other,
        5,
        10,
        String::new(),
        20,
        0,
    )
    .unwrap();
    let mut stakes = Vec::new();
    assert_eq!(
        validate_claim(&mut claim, &mut stakes, &pool, member(1), true, String::new(), 30).err(),
        Some(NovaError::UnauthorizedValidator)
    );
    assert_eq!(claim.status, ClaimStatus::Pending);
}

#[test]
fn vote_bounds_the_reason_in_bytes() {
    let mut pool = voting_pool(3);
    let committee = [member(1), member(2), member(3)];
    let mut claim = claim_under_validation(&mut pool, &committee);
    let mut stakes = committee_stakes(&committee, 1000, 5000);
    assert_eq!(
        validate_claim(&mut claim, &mut stakes, &pool, member(1), true, "r".repeat(201), 1).err(),
        Some(NovaError::InvalidCoverageAmount)
    );
    assert!(validate_claim(&mut claim, &mut stakes, &pool, member(1), true, "r".repeat(200), 1)
        .is_ok());
}

#[test]
fn vote_needs_the_stakes_of_the_committee() {
    let mut pool = voting_pool(3);
    let committee = [member(1), member(2), member(3)];
    let mut claim = claim_under_validation(&mut pool, &committee);
    let mut short = committee_stakes(&committee[0..2], 1000, 5000);
    assert_eq!(
        validate_claim(&mut claim, &mut short, &pool, member(1), true, String::new(), 1).err(),
        Some(NovaError::UnauthorizedValidator)
    );
    let mut shuffled = committee_stakes(&[member(2), member(1), member(3)], 1000, 5000);
    assert_eq!(
        validate_claim(&mut claim, &mut shuffled, &pool, member(1), true, String::new(), 1).err(),
        Some(NovaError::UnauthorizedValidator)
    );
    assert!(claim.validations.is_empty());
}

#[test]
fn vote_that_would_overflow_a_counter_changes_nothing() {
    let mut pool = voting_pool(3);
    let committee = [member(1), member(2), member(3)];
    let mut claim = claim_under_validation(&mut pool, &committee);
    let mut stakes = committee_stakes(&committee, 1000, 5000);
    stakes[0].validations_completed = u32::MAX;
    assert_eq!(
        validate_claim(&mut claim, &mut stakes, &pool, member(1), true, String::new(), 1).err(),
        Some(NovaError::MathOverflow)
    );
    assert!(claim.validations.is_empty());
    stakes[0].validations_completed = u32::MAX - 1;
    validate_claim(&mut claim, &mut stakes, &pool, member(1), true, String::new(), 1).unwrap();
    validate_claim(&mut claim, &mut stakes, &pool, member(2), true, String::new(), 2).unwrap();
    let snapshot = stakes.clone();
    assert_eq!(
        validate_claim(&mut claim, &mut stakes, &pool, member(3), true, String::new(), 3).err(),
        Some(NovaError::MathOverflow)
    );
    assert_eq!(stakes, snapshot);
    assert_eq!(claim.status, ClaimStatus::UnderValidation);
    assert_eq!(claim.validations.len(), 2);
    assert_eq!(claim.approvals, 2);
}

#[test]
fn reward_is_capped_at_the_maximum_reputation() {
    let pool = voting_pool(3);
    let mut stake = stake_of(member(1), 1000, 9950);
    assert_eq!(update_validator_reputation(&mut stake, true, &pool, 77), Ok(()));
    assert_eq!(stake.reputation_score, 10000);
    assert_eq!(stake.successful_validations, 1);
    assert_eq!(stake.validations_completed, 1);
    assert_eq!(stake.last_validation, 77);
    assert_eq!(stake.stake_amount, 1000);
    assert_eq!(update_validator_reputation(&mut stake, true, &pool, 78), Ok(()));
    assert_eq!(stake.reputation_score, 10000);
    let mut exact = stake_of(member(1), 1000, 9900);
    update_validator_reputation(&mut exact, true, &pool, 1).unwrap();
    assert_eq!(exact.reputation_score, 10000);
    let mut below = stake_of(member(1), 1000, 9899);
    update_validator_reputation(&mut below, true, &pool, 1).unwrap();
    assert_eq!(below.reputation_score, 9999);
}

#[test]
fn reputation_stays_in_range_over_many_outcomes() {
    let pool = voting_pool(3);
    let mut stake = stake_of(member(1), 1_000_000, ValidatorStake::INITIAL_REPUTATION);
    let pattern = [true, true, false, true, false, false, false, true, true, true, true];
    for round in 0..400usize {
        let aligned = pattern[(round * 7 + round / 11) % pattern.len()];
        update_validator_reputation(&mut stake, aligned, &pool, round as i64).unwrap();
        assert!(stake.reputation_score <= ValidatorStake::MAX_REPUTATION);
    }
    for _ in 0..60 {
        update_validator_reputation(&mut stake, false, &pool, 0).unwrap();
    }
    assert_eq!(stake.reputation_score, 0);
    for _ in 0..120 {
        update_validator_reputation(&mut stake, true, &pool, 0).unwrap();
    }
    assert_eq!(stake.reputation_score, 10000);
}

#[test]
fn slash_takes_two_percent_per_committee_member() {
    let pool = voting_pool(3);
    let mut stake = stake_of(member(1), 1_000_000_000, 5000);
    slash_validator(&mut stake, &pool);
    assert_eq!(stake.stake_amount, 940_000_000);
    assert_eq!(stake.reputation_score, 4800);
    let mut small = stake_of(member(1), 99, 100);
    slash_validator(&mut small, &pool);
    assert_eq!(small.stake_amount, 94);
    assert_eq!(small.reputation_score, 0);
    let seven = voting_pool(7);
    let mut other = stake_of(member(1), 1000, 200);
    slash_validator(&mut other, &seven);
    assert_eq!(other.stake_amount, 860);
    assert_eq!(other.reputation_score, 0);
}

#[test]
fn slash_never_takes_more_than_the_stake() {
    let mut pool = voting_pool(50);
    let mut stake = stake_of(member(1), u64::MAX, 5000);
    slash_validator(&mut stake, &pool);
    assert_eq!(stake.stake_amount, 0);
    pool.min_validators = 255;
    let mut large = stake_of(member(1), u64::MAX, 5000);
    slash_validator(&mut large, &pool);
    assert_eq!(large.stake_amount, 0);
    pool.min_validators = 49;
    let mut most = stake_of(member(1), 1000, 5000);
    slash_validator(&mut most, &pool);
    assert_eq!(most.stake_amount, 20);
}

#[test]
fn outcome_reports_counter_overflow() {
    let pool = voting_pool(3);
    let mut full = stake_of(member(1), 1000, 5000);
    full.validations_completed = u32::MAX;
    let before = full;
    assert_eq!(
        update_validator_reputation(&mut full, false, &pool, 1),
        Err(NovaError::MathOverflow)
    );
    assert_eq!(full, before);
    let mut lucky = stake_of(member(1), 1000, 5000);
    lucky.successful_validations = u32::MAX;
    let kept = lucky;
    assert_eq!(
        update_validator_reputation(&mut lucky, true, &pool, 1),
        Err(NovaError::MathOverflow)
    );
    assert_eq!(lucky, kept);
    assert_eq!(update_validator_reputation(&mut lucky, false, &pool, 1), Ok(()));
}

#[test]
fn staking_registers_a_new_validator_once() {
    let pool = voting_pool(3);
    let mut registry =
        ValidatorRegistry { pool: pool.pool_id, validators: Vec::new(), total_validators: 0, bump: 0 };
    let (stake, event) =
        stake_as_validator(&mut registry, &pool, member(1), 100_000_000, 500, 9).unwrap();
    assert_eq!(
        stake,
        ValidatorStake {
            validator: member(1),
            stake_amount: 100_000_000,
            validations_completed: 0,
            successful_validations: 0,
            reputation_score: 5000,
            last_validation: 0,
            bump: 9,
        }
    );
    assert_eq!(
        event,
        ValidatorStakedEvent {
            validator: member(1),
            pool: member(100),
            stake_amount: 100_000_000,
            reputation_score: 5000,
            timestamp: 500,
        }
    );
    assert_eq!(registry.validators, vec![member(1)]);
    assert_eq!(registry.total_validators, 1);
    stake_as_validator(&mut registry, &pool, member(2), 200_000_000, 501, 9).unwrap();
    stake_as_validator(&mut registry, &pool, member(1), 300_000_000, 502, 9).unwrap();
    assert_eq!(registry.validators, vec![member(1), member(2)]);
    assert_eq!(registry.total_validators, 2);
}

#[test]
fn staking_needs_the_minimum_stake_and_room() {
    let pool = voting_pool(3);
    let mut registry =
        ValidatorRegistry { pool: pool.pool_id, validators: Vec::new(), total_validators: 0, bump: 0 };
    assert_eq!(
        stake_as_validator(&mut registry, &pool, member(1), 99_999_999, 0, 0).err(),
        Some(NovaError::InsufficientValidators)
    );
    assert!(registry.validators.is_empty());
    for n in 0..100u8 {
        stake_as_validator(&mut registry, &pool, member(n), 100_000_000, 0, 0).unwrap();
    }
    assert_eq!(registry.total_validators, 100);
    assert_eq!(
        stake_as_validator(&mut registry, &pool, member(200), 100_000_000, 0, 0).err(),
        Some(NovaError::InsufficientValidators)
    );
    assert!(stake_as_validator(&mut registry, &pool, member(7), 100_000_000, 0, 0).is_ok());
    assert_eq!(registry.validators.len(), 100);
    let mut odd = ValidatorRegistry {
        pool: pool.pool_id,
        validators: Vec::new(),
        total_validators: u32::MAX,
        bump: 0,
    };
    assert_eq!(
        stake_as_validator(&mut odd, &pool, member(1), 100_000_000, 0, 0).err(),
        Some(NovaError::MathOverflow)
    );
    assert!(odd.validators.is_empty());
}

#[test]
fn new_registry_is_empty() {
    let registry = ValidatorRegistry::new(member(100), 6);
    assert_eq!(registry.pool, member(100));
    assert!(registry.validators.is_empty());
    assert_eq!(registry.total_validators, 0);
    assert_eq!(registry.bump, 6);
}
