//! Randomness for committee selection: deriving a seed, selecting a committee
//! with it and assigning the committee to a claim.

use vstd::prelude::*;
use crate::errors::NovaError;
use crate::instructions::claims_management::{after_assignment, assign_committee};
use crate::keys::{copy_ids, remove_id, AccountId};
use crate::selection::{indices_view, lemma_picks_distinct, picks, select_next, selection};
use crate::state::{
    ClaimRequest,
    ClaimRequestView,
    ClaimStatus,
    InsurancePool,
    ValidatorRegistry,
    ValidatorRegistryView,
    VrfState,
    VrfStateView,
    MAX_COMMITTEE_SIZE,
};

verus! {

/// Record of the randomness state of a pool having been set up.
#[derive(Clone, Copy, Debug, PartialEq, Eq)]
pub struct VrfStateInitializedEvent {
    pub pool: AccountId,
    pub timestamp: i64,
}

/// Record of a committee having been assigned to a claim.
#[derive(Clone, Debug, PartialEq, Eq)]
pub struct ValidatorsAssignedEvent {
    pub pool: AccountId,
    pub claim_id: AccountId,
    pub validators: Vec<AccountId>,
    pub randomness: [u8; 32],
    pub timestamp: i64,
}

/// An assignment record, with its lists as sequences.
pub struct ValidatorsAssignedEventView {
    pub pool: AccountId,
    pub claim_id: AccountId,
    pub validators: Seq<AccountId>,
    pub randomness: Seq<u8>,
    pub timestamp: i64,
}

impl View for ValidatorsAssignedEvent {
    type V = ValidatorsAssignedEventView;

    open spec fn view(&self) -> ValidatorsAssignedEventView {
        ValidatorsAssignedEventView {
            pool: self.pool,
            claim_id: self.claim_id,
            validators: self.validators@,
            randomness: self.randomness@,
            timestamp: self.timestamp,
        }
    }
}

/// Record of a committee having been selected with a seed supplied from outside.
#[derive(Clone, Debug, PartialEq, Eq)]
pub struct ValidatorSelectionFulfilledEvent {
    pub claim_id: AccountId,
    pub validators: Vec<AccountId>,
    pub randomness: [u8; 32],
    pub timestamp: i64,
}

/// A fulfilment record, with its lists as sequences.
pub struct ValidatorSelectionFulfilledEventView {
    pub claim_id: AccountId,
    pub validators: Seq<AccountId>,
    pub randomness: Seq<u8>,
    pub timestamp: i64,
}

impl View for ValidatorSelectionFulfilledEvent {
    type V = ValidatorSelectionFulfilledEventView;

    open spec fn view(&self) -> ValidatorSelectionFulfilledEventView {
        ValidatorSelectionFulfilledEventView {
            claim_id: self.claim_id,
            validators: self.validators@,
            randomness: self.randomness@,
            timestamp: self.timestamp,
        }
    }
}

/// The fresh randomness state of a pool.
pub open spec fn initial_vrf_state(
    pool: AccountId,
    authority: AccountId,
    now: i64,
    bump: u8,
    state: VrfStateView,
) -> bool {
    &&& state.pool == pool
    &&& state.switchboard_vrf.is_zero()
    &&& state.authority == authority
    &&& state.last_randomness is None
    &&& state.last_timestamp == now
    &&& state.pending_claims == Seq::<AccountId>::empty()
    &&& state.requests_completed == 0
    &&& state.bump == bump
}

/// Creates the randomness state of a pool: no oracle account yet, no seed, no
/// claim waiting, no request completed.
pub fn initialize_vrf_state(pool: &InsurancePool, authority: AccountId, now: i64, bump: u8) -> (r: (
    VrfState,
    VrfStateInitializedEvent,
))
    ensures
        initial_vrf_state(pool.pool_id, authority, now, bump, r.0@),
        r.1 == (VrfStateInitializedEvent { pool: pool.pool_id, timestamp: now }),
{
    let state = VrfState {
        pool: pool.pool_id,
        switchboard_vrf: AccountId::zero(),
        authority: authority,
        last_randomness: None,
        last_timestamp: now,
        pending_claims: Vec::new(),
        requests_completed: 0,
        bump: bump,
    };
    (state, VrfStateInitializedEvent { pool: pool.pool_id, timestamp: now })
}

/// The first `len` bytes of `x` in little-endian order.
pub open spec fn le_bytes(x: nat, len: nat) -> Seq<u8>
    decreases len,
{
    if len == 0 {
        Seq::empty()
    } else {
        seq![(x % 256) as u8] + le_bytes(x / 256, (len - 1) as nat)
    }
}

/// The 64-bit two's complement of `t`.
pub open spec fn twos_complement(t: i64) -> nat {
    if t >= 0 {
        t as nat
    } else {
        (t + 0x1_0000_0000_0000_0000) as nat
    }
}

/// The bytes from which the seed of a claim's committee is derived: the claim
/// identifier, the pool identifier, the time and the slot, the two numbers as
/// eight little-endian bytes each.
pub open spec fn randomness_material(
    claim_id: AccountId,
    pool_id: AccountId,
    timestamp: i64,
    slot: u64,
) -> Seq<u8> {
    claim_id.bytes@ + pool_id.bytes@ + le_bytes(twos_complement(timestamp), 8) + le_bytes(
        slot as nat,
        8,
    )
}

/// Appends the 32 bytes of `bytes` to `out`.
fn push_bytes(out: &mut Vec<u8>, bytes: &[u8; 32])
    ensures
        final(out)@ == old(out)@ + bytes@,
{
    let mut i: usize = 0;
    while i < 32
        invariant
            i <= 32,
            out@ == old(out)@ + bytes@.take(i as int),
        decreases 32 - i,
    {
        out.push(bytes[i]);
        assert(bytes@.take(i + 1) =~= bytes@.take(i as int).push(bytes@[i as int]));
        assert(out@ =~= old(out)@ + bytes@.take(i + 1));
        i = i + 1;
    }
    assert(bytes@.take(32) =~= bytes@);
}

/// Appends the eight little-endian bytes of `x` to `out`.
fn push_le_u64(out: &mut Vec<u8>, x: u64)
    ensures
        final(out)@ == old(out)@ + le_bytes(x as nat, 8),
{
    let mut rest: u64 = x;
    let mut k: usize = 0;
    while k < 8
        invariant
            k <= 8,
            out@ + le_bytes(rest as nat, (8 - k) as nat) == old(out)@ + le_bytes(x as nat, 8),
        decreases 8 - k,
    {
        let ghost before = out@;
        out.push((rest % 256) as u8);
        proof {
            assert(before + le_bytes(rest as nat, (8 - k) as nat) =~= before.push(
                (rest % 256) as u8,
            ) + le_bytes((rest / 256) as nat, (8 - k - 1) as nat));
        }
        rest = rest / 256;
        k = k + 1;
    }
    assert(out@ + le_bytes(rest as nat, 0) =~= out@);
}

/// The bytes that `generate_randomness` hashes.
pub fn randomness_input(claim_id: &AccountId, pool_id: &AccountId, timestamp: i64, slot: u64) -> (data:
    Vec<u8>)
    ensures
        data@ == randomness_material(*claim_id, *pool_id, timestamp, slot),
{
    let mut data: Vec<u8> = Vec::new();
    push_bytes(&mut data, &claim_id.bytes);
    push_bytes(&mut data, &pool_id.bytes);
    let time_bits: u64 = if timestamp >= 0 {
        timestamp as u64
    } else {
        let low: u64 = (timestamp - i64::MIN) as u64;
        low + 0x8000_0000_0000_0000
    };
    push_le_u64(&mut data, time_bits);
    push_le_u64(&mut data, slot);
    assert(data@ =~= randomness_material(*claim_id, *pool_id, timestamp, slot));
    data
}

/// The SHA-256 digest of a byte string.
pub uninterp spec fn sha256(data: Seq<u8>) -> Seq<u8>;

/// Calls `solana_sha256_hasher::hash` and takes the bytes of the `Hash` it
/// returns. The contract claims that these 32 bytes are the SHA-256 digest of
/// `data`; nothing in this crate proves it.
#[verifier::external_body]
fn sha256_digest(data: &Vec<u8>) -> (digest: [u8; 32])
    ensures
        digest@ == sha256(data@),
{
    solana_sha256_hasher::hash(data.as_slice()).to_bytes()
}

/// Derives the seed for the committee of a claim: the SHA-256 digest of the
/// claim identifier, the pool identifier, the time and the slot. The same
/// inputs always give the same seed.
pub fn generate_randomness(claim_id: &AccountId, pool_id: &AccountId, timestamp: i64, slot: u64) -> (seed:
    [u8; 32])
    ensures
        seed@ == sha256(randomness_material(*claim_id, *pool_id, timestamp, slot)),
{
    let data: Vec<u8> = randomness_input(claim_id, pool_id, timestamp, slot);
    sha256_digest(&data)
}

/// Selects `num_required` different validators from `available_validators`.
///
/// The selection is the seeded sampling of `crate::selection`: it depends on
/// the seed and on the order of the validators only. Asking for more
/// validators than there are fails.
pub fn select_random_validators(
    randomness: &[u8; 32],
    available_validators: &Vec<AccountId>,
    num_required: usize,
) -> (r: Result<Vec<AccountId>, NovaError>)
    ensures
        match r {
            Ok(selected) => {
                &&& num_required <= available_validators.len()
                &&& selected@ == picks(randomness@, available_validators@, num_required as nat)
                &&& selected.len() == num_required
            },
            Err(e) => e == NovaError::InsufficientCandidates && available_validators.len()
                < num_required,
        },
        r is Ok && available_validators@.no_duplicates() ==> r->Ok_0@.no_duplicates(),
{
    let n: usize = available_validators.len();
    if n < num_required {
        return Err(NovaError::InsufficientCandidates);
    }
    let mut selected: Vec<AccountId> = Vec::new();
    let mut used: Vec<usize> = Vec::new();
    let mut i: usize = 0;
    assert(selected@ =~= picks(randomness@, available_validators@, 0));
    while i < num_required
        invariant
            i <= num_required <= n,
            n == available_validators.len(),
            used.len() == i,
            selected.len() == i,
            indices_view(used@) == selection(randomness@, n as int, i as nat),
            selected@ == picks(randomness@, available_validators@, i as nat),
        decreases num_required - i,
    {
        let ghost earlier = indices_view(used@);
        let index: usize = select_next(randomness, &mut used, n);
        selected.push(available_validators[index]);
        proof {
            assert(indices_view(used@) =~= earlier.push(index as int));
            assert(selected@ =~= picks(randomness@, available_validators@, (i + 1) as nat));
        }
        i = i + 1;
    }
    proof {
        if available_validators@.no_duplicates() {
            lemma_picks_distinct(randomness@, available_validators@, num_required as nat);
        }
    }
    Ok(selected)
}

/// Why a committee cannot be selected for a claim on request, if it cannot.
pub open spec fn request_error(
    vrf_state: VrfStateView,
    claim: ClaimRequestView,
    pool: InsurancePool,
    registry: ValidatorRegistryView,
) -> Option<NovaError> {
    if claim.status != ClaimStatus::Pending {
        Some(NovaError::ClaimPeriodExpired)
    } else if claim.pool != pool.pool_id {
        Some(NovaError::InactiveCoverage)
    } else if claim.validators_assigned.len() > 0 {
        Some(NovaError::DuplicateAssignment)
    } else if registry.validators.len() < pool.min_validators {
        Some(NovaError::InsufficientCandidates)
    } else if pool.min_validators == 0 {
        Some(NovaError::InsufficientValidators)
    } else if pool.min_validators > MAX_COMMITTEE_SIZE {
        Some(NovaError::CapacityExceeded)
    } else if vrf_state.requests_completed == u64::MAX {
        Some(NovaError::MathOverflow)
    } else {
        None
    }
}

/// The randomness state after one more request, served with `seed` at `now`.
pub open spec fn after_request(vrf_state: VrfStateView, seed: Seq<u8>, now: i64) -> VrfStateView {
    VrfStateView {
        last_randomness: Some(seed),
        last_timestamp: now,
        requests_completed: (vrf_state.requests_completed + 1) as u64,
        ..vrf_state
    }
}

/// Selects and assigns the committee of a pending claim in one step, with a
/// seed derived from the claim, the pool, the time and the slot.
///
/// The committee has as many members as the pool prescribes, selected from the
/// registry in its registration order.
pub fn request_validator_selection(
    vrf_state: &mut VrfState,
    claim: &mut ClaimRequest,
    pool: &InsurancePool,
    registry: &ValidatorRegistry,
    claim_id: AccountId,
    now: i64,
    slot: u64,
) -> (r: Result<ValidatorsAssignedEvent, NovaError>)
    ensures
        match r {
            Ok(event) => {
                let seed = sha256(randomness_material(claim_id, pool.pool_id, now, slot));
                let committee = picks(seed, registry@.validators, pool.min_validators as nat);
                &&& request_error(old(vrf_state)@, old(claim)@, *pool, registry@) is None
                &&& final(claim)@ == after_assignment(old(claim)@, committee, seed)
                &&& final(vrf_state)@ == after_request(old(vrf_state)@, seed, now)
                &&& event@ == (ValidatorsAssignedEventView {
                    pool: pool.pool_id,
                    claim_id: claim_id,
                    validators: committee,
                    randomness: seed,
                    timestamp: now,
                })
            },
            Err(e) => {
                &&& request_error(old(vrf_state)@, old(claim)@, *pool, registry@) == Some(e)
                &&& *final(claim) == *old(claim)
                &&& *final(vrf_state) == *old(vrf_state)
            },
        },
        old(claim)@.wf() && registry@.validators.no_duplicates() ==> final(claim)@.wf(),
{
    if claim.status != ClaimStatus::Pending {
        return Err(NovaError::ClaimPeriodExpired);
    }
    if claim.pool != pool.pool_id {
        return Err(NovaError::InactiveCoverage);
    }
    if claim.validators_assigned.len() > 0 {
        return Err(NovaError::DuplicateAssignment);
    }
    let size: usize = pool.min_validators as usize;
    if registry.validators.len() < size {
        return Err(NovaError::InsufficientCandidates);
    }
    if size == 0 {
        return Err(NovaError::InsufficientValidators);
    }
    if size > MAX_COMMITTEE_SIZE {
        return Err(NovaError::CapacityExceeded);
    }
    let completed: u64 = match vrf_state.requests_completed.checked_add(1) {
        Some(c) => c,
        None => {
            return Err(NovaError::MathOverflow);
        },
    };
    let randomness: [u8; 32] = generate_randomness(&claim_id, &pool.pool_id, now, slot);
    let selected: Vec<AccountId> = match select_random_validators(
        &randomness,
        &registry.validators,
        size,
    ) {
        Ok(selected) => selected,
        Err(e) => {
            return Err(e);
        },
    };
    let announced: Vec<AccountId> = copy_ids(&selected);
    let assigned = assign_committee(claim, selected, randomness);
    assert(assigned is Ok);
    vrf_state.last_randomness = Some(randomness);
    vrf_state.last_timestamp = now;
    vrf_state.requests_completed = completed;
    Ok(
        ValidatorsAssignedEvent {
            pool: pool.pool_id,
            claim_id: claim_id,
            validators: announced,
            randomness: randomness,
            timestamp: now,
        },
    )
}

/// Why a supplied seed cannot give a claim its committee, if it cannot.
pub open spec fn fulfill_error(
    vrf_state: VrfStateView,
    claim: ClaimRequestView,
    pool: InsurancePool,
    registry: ValidatorRegistryView,
) -> Option<NovaError> {
    if vrf_state.pool != pool.pool_id {
        Some(NovaError::InvalidPoolType)
    } else if claim.status != ClaimStatus::Pending {
        Some(NovaError::ClaimPeriodExpired)
    } else if claim.validators_assigned.len() > 0 {
        Some(NovaError::DuplicateAssignment)
    } else if vrf_state.requests_completed == u64::MAX {
        Some(NovaError::MathOverflow)
    } else if registry.validators.len() < pool.min_validators {
        Some(NovaError::InsufficientCandidates)
    } else if pool.min_validators == 0 {
        Some(NovaError::InsufficientValidators)
    } else if pool.min_validators > MAX_COMMITTEE_SIZE {
        Some(NovaError::CapacityExceeded)
    } else {
        None
    }
}

/// The randomness state after `seed` has served the claim `claim_id` at `now`.
pub open spec fn after_fulfill(
    vrf_state: VrfStateView,
    claim_id: AccountId,
    seed: Seq<u8>,
    now: i64,
) -> VrfStateView {
    VrfStateView {
        last_randomness: Some(seed),
        last_timestamp: now,
        requests_completed: (vrf_state.requests_completed + 1) as u64,
        pending_claims: vrf_state.pending_claims.remove_value(claim_id),
        ..vrf_state
    }
}

/// Gives a pending claim its committee, selected with a seed that the
/// randomness source supplied.
///
/// The committee has as many members as the pool prescribes, selected from the
/// registry in its registration order. The claim leaves the list of claims
/// that wait for randomness.
pub fn fulfill_validator_selection(
    vrf_state: &mut VrfState,
    claim: &mut ClaimRequest,
    registry: &ValidatorRegistry,
    pool: &InsurancePool,
    randomness: [u8; 32],
    now: i64,
) -> (r: Result<ValidatorSelectionFulfilledEvent, NovaError>)
    ensures
        match r {
            Ok(event) => {
                let committee = picks(
                    randomness@,
                    registry@.validators,
                    pool.min_validators as nat,
                );
                &&& fulfill_error(old(vrf_state)@, old(claim)@, *pool, registry@) is None
                &&& final(claim)@ == after_assignment(old(claim)@, committee, randomness@)
                &&& final(vrf_state)@ == after_fulfill(
                    old(vrf_state)@,
                    old(claim).claim_id,
                    randomness@,
                    now,
                )
                &&& event@ == (ValidatorSelectionFulfilledEventView {
                    claim_id: old(claim).claim_id,
                    validators: committee,
                    randomness: randomness@,
                    timestamp: now,
                })
            },
            Err(e) => {
                &&& fulfill_error(old(vrf_state)@, old(claim)@, *pool, registry@) == Some(e)
                &&& *final(claim) == *old(claim)
                &&& *final(vrf_state) == *old(vrf_state)
            },
        },
        old(claim)@.wf() && registry@.validators.no_duplicates() ==> final(claim)@.wf(),
{
    if vrf_state.pool != pool.pool_id {
        return Err(NovaError::InvalidPoolType);
    }
    if claim.status != ClaimStatus::Pending {
        return Err(NovaError::ClaimPeriodExpired);
    }
    if claim.validators_assigned.len() > 0 {
        return Err(NovaError::DuplicateAssignment);
    }
    let completed: u64 = match vrf_state.requests_completed.checked_add(1) {
        Some(c) => c,
        None => {
            return Err(NovaError::MathOverflow);
        },
    };
    let size: usize = pool.min_validators as usize;
    if registry.validators.len() < size {
        return Err(NovaError::InsufficientCandidates);
    }
    if size == 0 {
        return Err(NovaError::InsufficientValidators);
    }
    if size > MAX_COMMITTEE_SIZE {
        return Err(NovaError::CapacityExceeded);
    }
    let selected: Vec<AccountId> = match select_random_validators(
        &randomness,
        &registry.validators,
        size,
    ) {
        Ok(selected) => selected,
        Err(e) => {
            return Err(e);
        },
    };
    let announced: Vec<AccountId> = copy_ids(&selected);
    let claim_id: AccountId = claim.claim_id;
    let assigned = assign_committee(claim, selected, randomness);
    assert(assigned is Ok);
    vrf_state.last_randomness = Some(randomness);
    vrf_state.last_timestamp = now;
    vrf_state.requests_completed = completed;
    remove_id(&mut vrf_state.pending_claims, &claim_id);
    Ok(
        ValidatorSelectionFulfilledEvent {
            claim_id: claim_id,
            validators: announced,
            randomness: randomness,
            timestamp: now,
        },
    )
}

} // verus!
