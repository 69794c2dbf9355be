use nova_insurance::instructions::{
    assign_committee, finalize_claim, fulfill_validator_selection, generate_randomness,
    initialize_pool,
    initialize_vrf_state, join_pool, request_validator_selection, select_random_validators,
    submit_claim, ClaimSubmittedEvent,
};
use nova_insurance::{
    AccountId, ClaimRequest, ClaimStatus, IncidentType, InsurancePool, NovaError, PoolType,
    UserCoverage, ValidatorRegistry, VrfState,
};

fn account(n: u8) -> AccountId {
    AccountId::new([n; 32])
}

fn test_pool(min_validators: u8) -> InsurancePool {
    initialize_pool(
        account(100),
        account(101),
        account(102),
        PoolType::Medical,
        50,
        1000,
        min_validators,
        3600,
        0,
        255,
    )
    .unwrap()
    .0
}

fn coverage_of(pool: &InsurancePool, user: AccountId, limit: u64, joined_at: i64) -> UserCoverage {
    UserCoverage {
        user,
        pool: pool.pool_id,
        premiums_paid: 50,
        last_payment: joined_at,
        coverage_active: true,
        coverage_amount: limit,
        claims_made: 0,
        joined_at,
        bump: 1,
    }
}

fn registry_of(pool: &InsurancePool, count: u8) -> ValidatorRegistry {
    let mut validators = Vec::new();
    for n in 0..count {
        validators.push(account(n + 1));
    }
    ValidatorRegistry { pool: pool.pool_id, validators, total_validators: count as u32, bump: 2 }
}

fn pending_claim(pool: &mut InsurancePool, amount: u64) -> ClaimRequest {
    let coverage = coverage_of(pool, account(50), 1000, 100);
    submit_claim(
        pool,
        &coverage,
        account(60),
        account(50),
        IncidentType::Accident,
        amount,
        990,
        String::from("QmHash"),
        1000,
        7,
    )
    .unwrap()
    .0
}

fn vrf_of(pool: &InsurancePool) -> VrfState {
    initialize_vrf_state(pool, account(101), 0, 3).0
}

#[test]
fn claim_within_coverage_and_period_is_pending() {
    let mut pool = test_pool(3);
    let coverage = coverage_of(&pool, account(50), 1000, 100);
    let now = 100_000;
    let (claim, event) = submit_claim(
        &mut pool,
        &coverage,
        account(60),
        account(50),
        IncidentType::MedicalEmergency,
        500,
        now - 10,
        String::from("QmDocument"),
        now,
        9,
    )
    .unwrap();
    assert_eq!(claim.status, ClaimStatus::Pending);
    assert_eq!(claim.claim_id, account(60));
    assert_eq!(claim.claimant, account(50));
    assert_eq!(claim.pool, account(100));
    assert_eq!(claim.amount_requested, 500);
    assert_eq!(claim.incident_type, IncidentType::MedicalEmergency);
    assert_eq!(claim.incident_timestamp, now - 10);
    assert_eq!(claim.description, "QmDocument");
    assert!(claim.validators_assigned.is_empty());
    assert!(claim.validations.is_empty());
    assert_eq!(claim.approvals, 0);
    assert_eq!(claim.rejections, 0);
    assert_eq!(claim.vrf_result, None);
    assert_eq!(claim.created_at, now);
    assert_eq!(claim.resolved_at, None);
    assert_eq!(claim.payout_amount, None);
    assert_eq!(claim.bump, 9);
    assert_eq!(pool.active_claims, 1);
    assert_eq!(
        event,
        ClaimSubmittedEvent {
            claim_id: account(60),
            claimant: account(50),
            pool: account(100),
            amount_requested: 500,
            incident_type: IncidentType::MedicalEmergency,
            incident_timestamp: now - 10,
            timestamp: now,
        }
    );
}

fn try_submit(
    pool: &mut InsurancePool,
    coverage: &UserCoverage,
    claimant: AccountId,
    amount: u64,
    incident: i64,
    description: &str,
    now: i64,
) -> Result<ClaimRequest, NovaError> {
    submit_claim(
        pool,
        coverage,
        account(60),
        claimant,
        IncidentType::Other,
        amount,
        incident,
        String::from(description),
        now,
        0,
    )
    .map(|r| r.0)
}

#[test]
fn submit_rejects_inactive_or_foreign_coverage() {
    let mut pool = test_pool(3);
    let before = pool;
    let mut coverage = coverage_of(&pool, account(50), 1000, 100);
    coverage.coverage_active = false;
    assert_eq!(
        try_submit(&mut pool, &coverage, account(50), 500, 990, "d", 1000).err(),
        Some(NovaError::InactiveCoverage)
    );
    coverage.coverage_active = true;
    assert_eq!(
        try_submit(&mut pool, &coverage, account(51), 500, 990, "d", 1000).err(),
        Some(NovaError::UnauthorizedValidator)
    );
    coverage.pool = account(99);
    assert_eq!(
        try_submit(&mut pool, &coverage, account(50), 500, 990, "d", 1000).err(),
        Some(NovaError::InactiveCoverage)
    );
    assert_eq!(pool, before);
}

#[test]
fn submit_rejects_bad_amounts() {
    let mut pool = test_pool(3);
    let coverage = coverage_of(&pool, account(50), 1000, 100);
    assert_eq!(
        try_submit(&mut pool, &coverage, account(50), 0, 990, "d", 1000).err(),
        Some(NovaError::InvalidCoverageAmount)
    );
    assert_eq!(
        try_submit(&mut pool, &coverage, account(50), 1001, 990, "d", 1000).err(),
        Some(NovaError::ExcessiveClaimAmount)
    );
    assert!(try_submit(&mut pool, &coverage, account(50), 1000, 990, "d", 1000).is_ok());
    assert_eq!(pool.active_claims, 1);
}

#[test]
fn submit_rejects_incidents_outside_the_claim_window() {
    let mut pool = test_pool(3);
    let coverage = coverage_of(&pool, account(50), 1000, 100);
    let now = 10_000;
    assert_eq!(
        try_submit(&mut pool, &coverage, account(50), 5, now + 1, "d", now).err(),
        Some(NovaError::ClaimPeriodExpired)
    );
    assert_eq!(
        try_submit(&mut pool, &coverage, account(50), 5, now - 3601, "d", now).err(),
        Some(NovaError::ClaimPeriodExpired)
    );
    assert!(try_submit(&mut pool, &coverage, account(50), 5, now - 3600, "d", now).is_ok());
    assert!(try_submit(&mut pool, &coverage, account(50), 5, now, "d", now).is_ok());
    assert_eq!(pool.active_claims, 2);
}

#[test]
fn submit_rejects_incidents_before_joining() {
    let mut pool = test_pool(3);
    let coverage = coverage_of(&pool, account(50), 1000, 9_000);
    assert_eq!(
        try_submit(&mut pool, &coverage, account(50), 5, 8_999, "d", 10_000).err(),
        Some(NovaError::ClaimPeriodExpired)
    );
    assert!(try_submit(&mut pool, &coverage, account(50), 5, 9_000, "d", 10_000).is_ok());
}

#[test]
fn submit_does_not_wrap_on_extreme_times() {
    let mut pool = test_pool(3);
    pool.claim_period = i64::MAX;
    let coverage = coverage_of(&pool, account(50), 1000, i64::MIN);
    assert_eq!(
        try_submit(&mut pool, &coverage, account(50), 5, i64::MIN, "d", i64::MAX).err(),
        Some(NovaError::ClaimPeriodExpired)
    );
    assert_eq!(
        try_submit(&mut pool, &coverage, account(50), 5, i64::MAX, "d", i64::MIN).err(),
        Some(NovaError::ClaimPeriodExpired)
    );
    assert!(try_submit(&mut pool, &coverage, account(50), 5, 0, "d", i64::MAX).is_ok());
}

#[test]
fn submit_bounds_the_description_in_bytes() {
    let mut pool = test_pool(3);
    let coverage = coverage_of(&pool, account(50), 1000, 100);
    let exact = "a".repeat(100);
    let long = "a".repeat(101);
    let wide = "\u{e9}".repeat(51);
    assert!(try_submit(&mut pool, &coverage, account(50), 5, 990, &exact, 1000).is_ok());
    assert_eq!(
        try_submit(&mut pool, &coverage, account(50), 5, 990, &long, 1000).err(),
        Some(NovaError::InvalidCoverageAmount)
    );
    assert_eq!(
        try_submit(&mut pool, &coverage, account(50), 5, 990, &wide, 1000).err(),
        Some(NovaError::InvalidCoverageAmount)
    );
    assert!(try_submit(&mut pool, &coverage, account(50), 5, 990, &"\u{e9}".repeat(50), 1000)
        .is_ok());
}

#[test]
fn submit_reports_overflow_of_the_claim_counter() {
    let mut pool = test_pool(3);
    pool.active_claims = u32::MAX;
    let coverage = coverage_of(&pool, account(50), 1000, 100);
    assert_eq!(
        try_submit(&mut pool, &coverage, account(50), 5, 990, "d", 1000).err(),
        Some(NovaError::MathOverflow)
    );
    assert_eq!(pool.active_claims, u32::MAX);
}

#[test]
fn request_assigns_the_seeded_committee() {
    let mut pool = test_pool(3);
    let registry = registry_of(&pool, 5);
    let mut claim = pending_claim(&mut pool, 500);
    let mut vrf = vrf_of(&pool);
    let event =
        request_validator_selection(&mut vrf, &mut claim, &pool, &registry, account(60), 2000, 77)
            .unwrap();
    let seed = generate_randomness(&account(60), &pool.pool_id, 2000, 77);
    let expected = select_random_validators(&seed, &registry.validators, 3).unwrap();
    assert_eq!(claim.validators_assigned, expected);
    assert_eq!(claim.validators_assigned.len(), 3);
    assert_eq!(claim.status, ClaimStatus::UnderValidation);
    assert_eq!(claim.vrf_result, Some(seed));
    assert_eq!(vrf.last_randomness, Some(seed));
    assert_eq!(vrf.last_timestamp, 2000);
    assert_eq!(vrf.requests_completed, 1);
    assert_eq!(event.pool, pool.pool_id);
    assert_eq!(event.claim_id, account(60));
    assert_eq!(event.validators, expected);
    assert_eq!(event.randomness, seed);
    assert_eq!(event.timestamp, 2000);
}

#[test]
fn request_refuses_a_claim_that_is_not_pending() {
    let mut pool = test_pool(3);
    let registry = registry_of(&pool, 5);
    let mut claim = pending_claim(&mut pool, 500);
    let mut vrf = vrf_of(&pool);
    request_validator_selection(&mut vrf, &mut claim, &pool, &registry, account(60), 2000, 77)
        .unwrap();
    let committee = claim.validators_assigned.clone();
    assert_eq!(
        request_validator_selection(&mut vrf, &mut claim, &pool, &registry, account(60), 2001, 78)
            .err(),
        Some(NovaError::ClaimPeriodExpired)
    );
    assert_eq!(claim.validators_assigned, committee);
    assert_eq!(vrf.requests_completed, 1);
}

#[test]
fn request_refuses_a_claim_of_another_pool() {
    let mut pool = test_pool(3);
    let registry = registry_of(&pool, 5);
    let mut claim = pending_claim(&mut pool, 500);
    claim.pool = account(99);
    let mut vrf = vrf_of(&pool);
    assert_eq!(
        request_validator_selection(&mut vrf, &mut claim, &pool, &registry, account(60), 2000, 77)
            .err(),
        Some(NovaError::InactiveCoverage)
    );
}

#[test]
fn request_refuses_a_second_committee() {
    let mut pool = test_pool(3);
    let registry = registry_of(&pool, 5);
    let mut claim = pending_claim(&mut pool, 500);
    claim.validators_assigned = vec![account(1)];
    let mut vrf = vrf_of(&pool);
    assert_eq!(
        request_validator_selection(&mut vrf, &mut claim, &pool, &registry, account(60), 2000, 77)
            .err(),
        Some(NovaError::DuplicateAssignment)
    );
}

#[test]
fn request_needs_enough_validators() {
    let mut pool = test_pool(3);
    let registry = registry_of(&pool, 2);
    let mut claim = pending_claim(&mut pool, 500);
    let mut vrf = vrf_of(&pool);
    assert_eq!(
        request_validator_selection(&mut vrf, &mut claim, &pool, &registry, account(60), 2000, 77)
            .err(),
        Some(NovaError::InsufficientCandidates)
    );
    assert_eq!(claim.status, ClaimStatus::Pending);
    assert!(claim.validators_assigned.is_empty());
}

#[test]
fn request_refuses_committees_beyond_the_bound() {
    let mut pool = test_pool(11);
    let registry = registry_of(&pool, 20);
    let mut claim = pending_claim(&mut pool, 500);
    let mut vrf = vrf_of(&pool);
    assert_eq!(
        request_validator_selection(&mut vrf, &mut claim, &pool, &registry, account(60), 2000, 77)
            .err(),
        Some(NovaError::CapacityExceeded)
    );
    let mut ten = test_pool(10);
    let mut other = pending_claim(&mut ten, 500);
    assert!(request_validator_selection(
        &mut vrf,
        &mut other,
        &ten,
        &registry,
        account(60),
        2000,
        77
    )
    .is_ok());
    assert_eq!(other.validators_assigned.len(), 10);
}

#[test]
fn request_refuses_an_empty_committee() {
    let mut pool = test_pool(3);
    let registry = registry_of(&pool, 5);
    let mut claim = pending_claim(&mut pool, 500);
    pool.min_validators = 0;
    let mut vrf = vrf_of(&pool);
    assert_eq!(
        request_validator_selection(&mut vrf, &mut claim, &pool, &registry, account(60), 2000, 77)
            .err(),
        Some(NovaError::InsufficientValidators)
    );
}

#[test]
fn request_reports_overflow_of_the_request_counter() {
    let mut pool = test_pool(3);
    let registry = registry_of(&pool, 5);
    let mut claim = pending_claim(&mut pool, 500);
    let mut vrf = vrf_of(&pool);
    vrf.requests_completed = u64::MAX;
    assert_eq!(
        request_validator_selection(&mut vrf, &mut claim, &pool, &registry, account(60), 2000, 77)
            .err(),
        Some(NovaError::MathOverflow)
    );
    assert_eq!(claim.status, ClaimStatus::Pending);
}

#[test]
fn fulfil_assigns_with_the_supplied_seed() {
    let mut pool = test_pool(3);
    let registry = registry_of(&pool, 5);
    let mut claim = pending_claim(&mut pool, 500);
    let mut vrf = vrf_of(&pool);
    vrf.pending_claims = vec![account(59), account(60), account(61)];
    let mut seed = [0u8; 32];
    seed[0] = 2;
    seed[4] = 4;
    seed[8] = 5;
    let event =
        fulfill_validator_selection(&mut vrf, &mut claim, &registry, &pool, seed, 3000).unwrap();
    let expected = vec![account(3), account(5), account(1)];
    assert_eq!(claim.validators_assigned, expected);
    assert_eq!(claim.status, ClaimStatus::UnderValidation);
    assert_eq!(claim.vrf_result, Some(seed));
    assert_eq!(vrf.last_randomness, Some(seed));
    assert_eq!(vrf.last_timestamp, 3000);
    assert_eq!(vrf.requests_completed, 1);
    assert_eq!(vrf.pending_claims, vec![account(59), account(61)]);
    assert_eq!(event.claim_id, account(60));
    assert_eq!(event.validators, expected);
    assert_eq!(event.randomness, seed);
    assert_eq!(event.timestamp, 3000);
}

#[test]
fn fulfil_checks_pool_state_and_claim() {
    let mut pool = test_pool(3);
    let registry = registry_of(&pool, 5);
    let mut claim = pending_claim(&mut pool, 500);
    let mut foreign = vrf_of(&pool);
    foreign.pool = account(99);
    assert_eq!(
        fulfill_validator_selection(&mut foreign, &mut claim, &registry, &pool, [1u8; 32], 3000)
            .err(),
        Some(NovaError::InvalidPoolType)
    );
    let mut vrf = vrf_of(&pool);
    fulfill_validator_selection(&mut vrf, &mut claim, &registry, &pool, [1u8; 32], 3000).unwrap();
    let committee = claim.validators_assigned.clone();
    assert_eq!(
        fulfill_validator_selection(&mut vrf, &mut claim, &registry, &pool, [2u8; 32], 3001).err(),
        Some(NovaError::ClaimPeriodExpired)
    );
    assert_eq!(claim.validators_assigned, committee);
    assert_eq!(vrf.requests_completed, 1);
    let mut assigned = pending_claim(&mut pool, 500);
    assigned.validators_assigned = vec![account(1)];
    assert_eq!(
        fulfill_validator_selection(&mut vrf, &mut assigned, &registry, &pool, [2u8; 32], 3001)
            .err(),
        Some(NovaError::DuplicateAssignment)
    );
}

#[test]
fn fulfil_reports_shortage_bounds_and_overflow() {
    let mut pool = test_pool(3);
    let mut claim = pending_claim(&mut pool, 500);
    let mut vrf = vrf_of(&pool);
    assert_eq!(
        fulfill_validator_selection(
            &mut vrf,
            &mut claim,
            &registry_of(&pool, 2),
            &pool,
            [1u8; 32],
            3000
        )
        .err(),
        Some(NovaError::InsufficientCandidates)
    );
    let big = test_pool(11);
    assert_eq!(
        fulfill_validator_selection(
            &mut vrf,
            &mut claim,
            &registry_of(&pool, 20),
            &big,
            [1u8; 32],
            3000
        )
        .err(),
        Some(NovaError::CapacityExceeded)
    );
    let mut none = test_pool(3);
    none.min_validators = 0;
    assert_eq!(
        fulfill_validator_selection(
            &mut vrf,
            &mut claim,
            &registry_of(&pool, 5),
            &none,
            [1u8; 32],
            3000
        )
        .err(),
        Some(NovaError::InsufficientValidators)
    );
    vrf.requests_completed = u64::MAX;
    assert_eq!(
        fulfill_validator_selection(
            &mut vrf,
            &mut claim,
            &registry_of(&pool, 5),
            &pool,
            [1u8; 32],
            3000
        )
        .err(),
        Some(NovaError::MathOverflow)
    );
    assert_eq!(claim.status, ClaimStatus::Pending);
}

#[test]
fn committee_is_assigned_only_once() {
    let mut pool = test_pool(3);
    let mut claim = pending_claim(&mut pool, 500);
    let committee = vec![account(1), account(2), account(3)];
    assert_eq!(assign_committee(&mut claim, Vec::new(), [0u8; 32]), Err(NovaError::InsufficientValidators));
    let eleven: Vec<AccountId> = (1u8..=11).map(account).collect();
    assert_eq!(assign_committee(&mut claim, eleven, [0u8; 32]), Err(NovaError::CapacityExceeded));
    assert_eq!(claim.status, ClaimStatus::Pending);
    assert_eq!(assign_committee(&mut claim, committee.clone(), [4u8; 32]), Ok(()));
    assert_eq!(claim.status, ClaimStatus::UnderValidation);
    assert_eq!(claim.validators_assigned, committee);
    assert_eq!(claim.vrf_result, Some([4u8; 32]));
    assert_eq!(
        assign_committee(&mut claim, vec![account(9)], [5u8; 32]),
        Err(NovaError::ClaimPeriodExpired)
    );
    assert_eq!(claim.validators_assigned, committee);
    let mut odd = pending_claim(&mut pool, 500);
    odd.validators_assigned = vec![account(1)];
    assert_eq!(
        assign_committee(&mut odd, vec![account(9)], [5u8; 32]),
        Err(NovaError::DuplicateAssignment)
    );
}

#[test]
fn joining_member_can_claim_after_joining() {
    let mut pool = test_pool(3);
    let (coverage, _) = join_pool(&mut pool, account(50), 800, 5_000, 4).unwrap();
    assert_eq!(
        try_submit(&mut pool, &coverage, account(50), 801, 5_500, "d", 6_000).err(),
        Some(NovaError::ExcessiveClaimAmount)
    );
    let claim = try_submit(&mut pool, &coverage, account(50), 800, 5_500, "d", 6_000).unwrap();
    assert_eq!(claim.status, ClaimStatus::Pending);
    assert_eq!(claim.amount_requested, 800);
}

#[test]
fn only_a_claim_under_validation_is_resolved() {
    let mut pool = test_pool(3);
    let mut claim = pending_claim(&mut pool, 500);
    assert_eq!(finalize_claim(&mut claim, true, 10), Err(NovaError::ClaimPeriodExpired));
    assert_eq!(claim.status, ClaimStatus::Pending);
    assert_eq!(claim.resolved_at, None);
    assign_committee(&mut claim, vec![account(1), account(2), account(3)], [0u8; 32]).unwrap();
    assert_eq!(finalize_claim(&mut claim, true, 11), Ok(()));
    assert_eq!(claim.status, ClaimStatus::Approved);
    assert_eq!(claim.resolved_at, Some(11));
    assert_eq!(claim.payout_amount, Some(500));
    assert_eq!(finalize_claim(&mut claim, false, 12), Err(NovaError::ClaimPeriodExpired));
    assert_eq!(claim.status, ClaimStatus::Approved);
    assert_eq!(claim.resolved_at, Some(11));

    let mut other = pending_claim(&mut pool, 500);
    assign_committee(&mut other, vec![account(1), account(2), account(3)], [0u8; 32]).unwrap();
    assert_eq!(finalize_claim(&mut other, false, 13), Ok(()));
    assert_eq!(other.status, ClaimStatus::Rejected);
    assert_eq!(other.resolved_at, Some(13));
    assert_eq!(other.payout_amount, None);
    assert_eq!(finalize_claim(&mut other, true, 14), Err(NovaError::ClaimPeriodExpired));
}
