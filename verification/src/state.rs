//! The entities of the system, their mathematical views and the invariants
//! that every operation keeps.

use vstd::prelude::*;
use crate::keys::AccountId;

verus! {

/// Longest claim description, in bytes of its UTF-8 encoding.
pub const MAX_DESCRIPTION_LEN: usize = 100;

/// Longest reason given with a vote, in bytes of its UTF-8 encoding.
pub const MAX_REASON_LEN: usize = 200;

/// Largest committee a claim can hold.
pub const MAX_COMMITTEE_SIZE: usize = 10;

/// Largest number of validators a registry can hold.
pub const MAX_REGISTERED_VALIDATORS: usize = 100;

/// Largest number of claims that can wait in a distribution queue.
pub const MAX_PENDING_CLAIMS: usize = 100;

/// Length in bytes of the UTF-8 encoding of a text.
pub open spec fn utf8_len(text: Seq<char>) -> nat {
    vstd::utf8::encode_utf8(text).len()
}

/// Length in bytes of the UTF-8 encoding of `text`.
pub fn text_len(text: &String) -> (len: usize)
    ensures
        len == utf8_len(text@),
{
    text.as_str().as_bytes().len()
}

/// The view of an optional 32-byte seed: its bytes as a sequence.
pub open spec fn seed_view(seed: Option<[u8; 32]>) -> Option<Seq<u8>> {
    match seed {
        Some(bytes) => Some(bytes@),
        None => None,
    }
}

/// Pool types for different insurance categories.
#[derive(Clone, Copy, Debug, PartialEq, Eq, Structural)]
pub enum PoolType {
    Medical,
    Weather,
    Crop,
    General,
}

/// Incident types for claims.
#[derive(Clone, Copy, Debug, PartialEq, Eq, Structural)]
pub enum IncidentType {
    MedicalEmergency,
    NaturalDisaster,
    Accident,
    CropFailure,
    PropertyDamage,
    Other,
}

/// Where a claim stands in its lifecycle.
///
/// A claim starts `Pending`, is `UnderValidation` once it has a committee, and
/// becomes `Approved` or `Rejected` when the whole committee has voted. An
/// approved claim becomes `Distributed` when it is paid. `Rejected` and
/// `Distributed` are final.
#[derive(Clone, Copy, Debug, PartialEq, Eq, Structural)]
pub enum ClaimStatus {
    Pending,
    UnderValidation,
    Approved,
    Rejected,
    Distributed,
    Queued,
}

impl ClaimStatus {
    /// The committee has decided: the claim is neither pending nor under validation.
    pub open spec fn is_resolved(self) -> bool {
        self != ClaimStatus::Pending && self != ClaimStatus::UnderValidation
    }

    /// The committee has decided in favour of the claim.
    pub open spec fn is_accepted(self) -> bool {
        self == ClaimStatus::Approved || self == ClaimStatus::Distributed || self
            == ClaimStatus::Queued
    }
}

/// One vote of a committee member on a claim.
#[derive(Clone, Debug)]
pub struct Validation {
    pub validator: AccountId,
    pub approved: bool,
    pub reason: String,
    pub timestamp: i64,
}

/// A vote, with its reason as a sequence of characters.
pub struct ValidationView {
    pub validator: AccountId,
    pub approved: bool,
    pub reason: Seq<char>,
    pub timestamp: i64,
}

impl View for Validation {
    type V = ValidationView;

    open spec fn view(&self) -> ValidationView {
        ValidationView {
            validator: self.validator,
            approved: self.approved,
            reason: self.reason@,
            timestamp: self.timestamp,
        }
    }
}

/// The views of a list of votes, in the same order.
pub open spec fn votes_view(votes: Seq<Validation>) -> Seq<ValidationView> {
    votes.map_values(|v: Validation| v@)
}

/// Number of votes in `votes` whose verdict is `approved`.
pub open spec fn count_votes(votes: Seq<ValidationView>, approved: bool) -> nat
    decreases votes.len(),
{
    if votes.len() == 0 {
        0
    } else {
        count_votes(votes.drop_last(), approved) + if votes.last().approved == approved {
            1nat
        } else {
            0nat
        }
    }
}

/// Tells whether `validator` has a vote in `votes`.
pub open spec fn has_voted(votes: Seq<ValidationView>, validator: AccountId) -> bool {
    exists|i: int| 0 <= i < votes.len() && (#[trigger] votes[i]).validator == validator
}

/// The validators of `votes`, in voting order.
pub open spec fn voters(votes: Seq<ValidationView>) -> Seq<AccountId> {
    votes.map_values(|v: ValidationView| v.validator)
}

/// Main insurance pool: configuration and balances of one risk category.
#[derive(Clone, Copy, Debug, PartialEq, Eq)]
pub struct InsurancePool {
    /// Unique identifier for this pool.
    pub pool_id: AccountId,
    /// Type of insurance coverage this pool provides.
    pub pool_type: PoolType,
    /// Authority that can manage this pool.
    pub authority: AccountId,
    /// Vault where premiums are stored.
    pub vault: AccountId,
    /// Premium amount per period.
    pub premium_amount: u64,
    /// Maximum coverage amount per member.
    pub coverage_amount: u64,
    /// Total currently pooled.
    pub total_pooled: u64,
    /// Number of active members in the pool.
    pub total_members: u32,
    /// Number of claims being processed.
    pub active_claims: u32,
    /// Time window for claims, in seconds.
    pub claim_period: i64,
    /// Size of the committee that decides a claim.
    pub min_validators: u8,
    /// Timestamp when the pool was created.
    pub created_at: i64,
    /// Amount currently placed in the yield vault.
    pub yield_deposited: u64,
    /// Yield earned so far.
    pub yield_earned: u64,
    /// Timestamp of the last yield operation.
    pub last_yield_update: i64,
    /// Address derivation seed of the account that stores the pool.
    pub bump: u8,
}

impl InsurancePool {
    /// The coverage exceeds the premium, the premium and the claim window are
    /// positive, and a committee has at least three members.
    pub open spec fn wf(self) -> bool {
        &&& self.premium_amount > 0
        &&& self.coverage_amount > self.premium_amount
        &&& self.min_validators >= 3
        &&& self.claim_period > 0
    }
}

/// A member's right to claim against a pool.
#[derive(Clone, Copy, Debug, PartialEq, Eq)]
pub struct UserCoverage {
    /// The member.
    pub user: AccountId,
    /// Insurance pool this coverage belongs to.
    pub pool: AccountId,
    /// Total premiums paid by this member.
    pub premiums_paid: u64,
    /// Timestamp of last premium payment.
    pub last_payment: i64,
    /// Whether coverage is currently active.
    pub coverage_active: bool,
    /// Most that a claim of this member can ask for.
    pub coverage_amount: u64,
    /// Number of claims made by this member.
    pub claims_made: u8,
    /// Timestamp when the member joined the pool.
    pub joined_at: i64,
    /// Address derivation seed of the account that stores the coverage.
    pub bump: u8,
}

/// Stake and standing of one validator.
#[derive(Clone, Copy, Debug, PartialEq, Eq)]
pub struct ValidatorStake {
    /// The validator.
    pub validator: AccountId,
    /// Amount staked by the validator.
    pub stake_amount: u64,
    /// Total number of validations completed.
    pub validations_completed: u32,
    /// Number of validations in which the validator voted with the majority.
    pub successful_validations: u32,
    /// Reputation score, from 0 to `MAX_REPUTATION`.
    pub reputation_score: u32,
    /// Timestamp of last validation.
    pub last_validation: i64,
    /// Address derivation seed of the account that stores the stake.
    pub bump: u8,
}

impl ValidatorStake {
    /// Initial reputation score for new validators.
    pub const INITIAL_REPUTATION: u32 = 5000;

    /// Maximum reputation score.
    pub const MAX_REPUTATION: u32 = 10000;

    /// The reputation is within its scale.
    pub open spec fn wf(self) -> bool {
        self.reputation_score <= Self::MAX_REPUTATION
    }
}

/// The validators registered for a pool, in registration order.
#[derive(Clone, Debug)]
pub struct ValidatorRegistry {
    /// The pool this registry belongs to.
    pub pool: AccountId,
    /// Registered validators, oldest first.
    pub validators: Vec<AccountId>,
    /// Total number of validators.
    pub total_validators: u32,
    /// Address derivation seed of the account that stores the registry.
    pub bump: u8,
}

/// A registry, with its validators as a sequence.
pub struct ValidatorRegistryView {
    pub pool: AccountId,
    pub validators: Seq<AccountId>,
    pub total_validators: u32,
    pub bump: u8,
}

impl View for ValidatorRegistry {
    type V = ValidatorRegistryView;

    open spec fn view(&self) -> ValidatorRegistryView {
        ValidatorRegistryView {
            pool: self.pool,
            validators: self.validators@,
            total_validators: self.total_validators,
            bump: self.bump,
        }
    }
}

impl ValidatorRegistry {
    /// The empty registry of a pool.
    pub fn new(pool: AccountId, bump: u8) -> (registry: ValidatorRegistry)
        ensures
            registry@ == (ValidatorRegistryView {
                pool: pool,
                validators: Seq::empty(),
                total_validators: 0,
                bump: bump,
            }),
            registry@.wf(),
    {
        ValidatorRegistry { pool: pool, validators: Vec::new(), total_validators: 0, bump: bump }
    }
}

impl ValidatorRegistryView {
    /// No validator is registered twice, the registry is within its capacity
    /// and the counter agrees with the list.
    pub open spec fn wf(self) -> bool {
        &&& self.validators.no_duplicates()
        &&& self.validators.len() <= MAX_REGISTERED_VALIDATORS
        &&& self.total_validators == self.validators.len()
    }
}

/// Randomness bookkeeping of a pool.
#[derive(Clone, Debug)]
pub struct VrfState {
    /// The pool this state belongs to.
    pub pool: AccountId,
    /// Account of the randomness oracle.
    pub switchboard_vrf: AccountId,
    /// Authority for randomness requests.
    pub authority: AccountId,
    /// Last seed used.
    pub last_randomness: Option<[u8; 32]>,
    /// Timestamp of the last request or fulfilment.
    pub last_timestamp: i64,
    /// Claims awaiting a committee.
    pub pending_claims: Vec<AccountId>,
    /// Number of requests completed.
    pub requests_completed: u64,
    /// Address derivation seed of the account that stores the state.
    pub bump: u8,
}

/// Randomness bookkeeping, with its lists as sequences.
pub struct VrfStateView {
    pub pool: AccountId,
    pub switchboard_vrf: AccountId,
    pub authority: AccountId,
    pub last_randomness: Option<Seq<u8>>,
    pub last_timestamp: i64,
    pub pending_claims: Seq<AccountId>,
    pub requests_completed: u64,
    pub bump: u8,
}

impl View for VrfState {
    type V = VrfStateView;

    open spec fn view(&self) -> VrfStateView {
        VrfStateView {
            pool: self.pool,
            switchboard_vrf: self.switchboard_vrf,
            authority: self.authority,
            last_randomness: seed_view(self.last_randomness),
            last_timestamp: self.last_timestamp,
            pending_claims: self.pending_claims@,
            requests_completed: self.requests_completed,
            bump: self.bump,
        }
    }
}

/// A claim against a pool: the unit of adjudication.
#[derive(Clone, Debug)]
pub struct ClaimRequest {
    /// Unique claim identifier.
    pub claim_id: AccountId,
    /// Member making the claim.
    pub claimant: AccountId,
    /// Insurance pool for this claim.
    pub pool: AccountId,
    /// Amount requested.
    pub amount_requested: u64,
    /// Type of incident.
    pub incident_type: IncidentType,
    /// Timestamp of the incident.
    pub incident_timestamp: i64,
    /// Reference to the claim documentation.
    pub description: String,
    /// The committee, in selection order.
    pub validators_assigned: Vec<AccountId>,
    /// The votes cast so far, in voting order.
    pub validations: Vec<Validation>,
    /// Number of approvals received.
    pub approvals: u8,
    /// Number of rejections received.
    pub rejections: u8,
    /// Current status of the claim.
    pub status: ClaimStatus,
    /// Seed used to select the committee.
    pub vrf_result: Option<[u8; 32]>,
    /// Timestamp when the claim was created.
    pub created_at: i64,
    /// Timestamp when the claim was last resolved or paid.
    pub resolved_at: Option<i64>,
    /// Amount granted, and after payment the amount paid.
    pub payout_amount: Option<u64>,
    /// Address derivation seed of the account that stores the claim.
    pub bump: u8,
}

/// A claim, with its texts and lists as sequences.
pub struct ClaimRequestView {
    pub claim_id: AccountId,
    pub claimant: AccountId,
    pub pool: AccountId,
    pub amount_requested: u64,
    pub incident_type: IncidentType,
    pub incident_timestamp: i64,
    pub description: Seq<char>,
    pub validators_assigned: Seq<AccountId>,
    pub validations: Seq<ValidationView>,
    pub approvals: u8,
    pub rejections: u8,
    pub status: ClaimStatus,
    pub vrf_result: Option<Seq<u8>>,
    pub created_at: i64,
    pub resolved_at: Option<i64>,
    pub payout_amount: Option<u64>,
    pub bump: u8,
}

impl View for ClaimRequest {
    type V = ClaimRequestView;

    open spec fn view(&self) -> ClaimRequestView {
        ClaimRequestView {
            claim_id: self.claim_id,
            claimant: self.claimant,
            pool: self.pool,
            amount_requested: self.amount_requested,
            incident_type: self.incident_type,
            incident_timestamp: self.incident_timestamp,
            description: self.description@,
            validators_assigned: self.validators_assigned@,
            validations: votes_view(self.validations@),
            approvals: self.approvals,
            rejections: self.rejections,
            status: self.status,
            vrf_result: seed_view(self.vrf_result),
            created_at: self.created_at,
            resolved_at: self.resolved_at,
            payout_amount: self.payout_amount,
            bump: self.bump,
        }
    }
}

/// Number of approvals that a committee of `committee_size` members needs to
/// approve a claim: more than half of it.
pub open spec fn majority_threshold(committee_size: int) -> int {
    committee_size / 2 + 1
}

impl ClaimRequestView {
    /// The invariant of a claim.
    ///
    /// The committee is duplicate-free and within its bound; every vote comes
    /// from a committee member, no member votes twice, and the two counters
    /// count the votes. There are never more votes than members. A pending
    /// claim has no committee; a claim under validation still waits for a
    /// vote; a resolved claim has the votes of its whole committee, and it is
    /// accepted exactly when the approvals reach the majority.
    pub open spec fn wf(self) -> bool {
        let size = self.validators_assigned.len();
        &&& self.amount_requested > 0
        &&& utf8_len(self.description) <= MAX_DESCRIPTION_LEN
        &&& size <= MAX_COMMITTEE_SIZE
        &&& self.validators_assigned.no_duplicates()
        &&& self.validations.len() <= size
        &&& voters(self.validations).no_duplicates()
        &&& forall|i: int|
            0 <= i < self.validations.len() ==> self.validators_assigned.contains(
                (#[trigger] self.validations[i]).validator,
            )
        &&& forall|i: int|
            0 <= i < self.validations.len() ==> utf8_len((#[trigger] self.validations[i]).reason)
                <= MAX_REASON_LEN
        &&& self.approvals == count_votes(self.validations, true)
        &&& self.rejections == count_votes(self.validations, false)
        &&& self.status == ClaimStatus::Pending ==> size == 0 && self.vrf_result is None
        &&& self.status == ClaimStatus::UnderValidation ==> self.validations.len() < size
        &&& self.status.is_resolved() ==> self.validations.len() == size && size > 0
        &&& self.status != ClaimStatus::Pending ==> self.vrf_result is Some
        &&& self.status.is_accepted() ==> self.approvals >= majority_threshold(size as int)
        &&& self.status == ClaimStatus::Rejected ==> self.approvals < majority_threshold(
            size as int,
        )
        &&& self.resolved_at is Some <==> self.status.is_resolved()
        &&& self.status == ClaimStatus::Approved ==> self.payout_amount == Some(
            self.amount_requested,
        )
        &&& self.status == ClaimStatus::Distributed ==> self.payout_amount is Some
            && self.payout_amount->0 <= self.amount_requested
        &&& (self.status == ClaimStatus::Pending || self.status == ClaimStatus::UnderValidation
            || self.status == ClaimStatus::Rejected) ==> self.payout_amount is None
    }
}

/// The approved claims of a pool that await payment, and the state of its
/// distribution rounds.
#[derive(Clone, Debug)]
pub struct DistributionQueue {
    /// The pool this queue belongs to.
    pub pool: AccountId,
    /// Number of approved claims awaiting distribution.
    pub total_approved_claims: u32,
    /// Total amount requested by the waiting claims.
    pub total_requested_amount: u64,
    /// Funds of the pool at the start of the last round.
    pub available_funds: u64,
    /// Approved claims pending payout, in order of arrival.
    pub pending_claims: Vec<AccountId>,
    /// Claims selected for payout in the last round.
    pub selected_claims: Vec<AccountId>,
    /// Seed of the last oversubscribed round.
    pub vrf_result: Option<[u8; 32]>,
    /// Whether the last round was oversubscribed.
    pub is_oversubscribed: bool,
    /// Number of rounds run so far.
    pub distribution_round: u64,
    /// Timestamp of the last round.
    pub last_distribution: i64,
    /// Address derivation seed of the account that stores the queue.
    pub bump: u8,
}

/// A distribution queue, with its lists as sequences.
pub struct DistributionQueueView {
    pub pool: AccountId,
    pub total_approved_claims: u32,
    pub total_requested_amount: u64,
    pub available_funds: u64,
    pub pending_claims: Seq<AccountId>,
    pub selected_claims: Seq<AccountId>,
    pub vrf_result: Option<Seq<u8>>,
    pub is_oversubscribed: bool,
    pub distribution_round: u64,
    pub last_distribution: i64,
    pub bump: u8,
}

impl View for DistributionQueue {
    type V = DistributionQueueView;

    open spec fn view(&self) -> DistributionQueueView {
        DistributionQueueView {
            pool: self.pool,
            total_approved_claims: self.total_approved_claims,
            total_requested_amount: self.total_requested_amount,
            available_funds: self.available_funds,
            pending_claims: self.pending_claims@,
            selected_claims: self.selected_claims@,
            vrf_result: seed_view(self.vrf_result),
            is_oversubscribed: self.is_oversubscribed,
            distribution_round: self.distribution_round,
            last_distribution: self.last_distribution,
            bump: self.bump,
        }
    }
}

impl DistributionQueueView {
    /// No claim waits twice, the selected claims are waiting claims with none
    /// selected twice, the queue is within its capacity and the counter agrees
    /// with the list.
    pub open spec fn wf(self) -> bool {
        &&& self.pending_claims.no_duplicates()
        &&& self.selected_claims.no_duplicates()
        &&& forall|i: int|
            0 <= i < self.selected_claims.len() ==> self.pending_claims.contains(
                #[trigger] self.selected_claims[i],
            )
        &&& self.pending_claims.len() <= MAX_PENDING_CLAIMS
        &&& self.total_approved_claims == self.pending_claims.len()
    }
}

/// Priority of a claim in a distribution, from its incident, the member's
/// payment history and the time the claim has waited.
#[derive(Clone, Copy, Debug, PartialEq, Eq)]
pub struct PriorityScore {
    /// Base priority score.
    pub base_score: u32,
    /// Payment history score.
    pub payment_history_score: u32,
    /// Claim urgency factor.
    pub urgency_score: u32,
    /// Time in queue factor.
    pub time_in_queue_score: u32,
    /// Total calculated priority.
    pub total_score: u32,
}

impl PriorityScore {
    /// Score of the incident itself: the more urgent its kind, the higher.
    pub open spec fn base_score_of(incident_type: IncidentType) -> u32 {
        match incident_type {
            IncidentType::MedicalEmergency => 1000,
            IncidentType::NaturalDisaster => 800,
            IncidentType::Accident => 600,
            IncidentType::CropFailure => 500,
            IncidentType::PropertyDamage => 400,
            IncidentType::Other => 300,
        }
    }

    /// Score of the payment history: one point for each million paid in
    /// premiums, up to 500.
    pub open spec fn payment_score_of(premiums_paid: u64) -> u32 {
        if premiums_paid / 1_000_000 > 500 {
            500
        } else {
            (premiums_paid / 1_000_000) as u32
        }
    }

    /// Score of the time in the queue: one point for each full day waited, up
    /// to 200. A claim that has not waited scores nothing.
    pub open spec fn waiting_score_of(time_in_queue: i64) -> u32 {
        if time_in_queue <= 0 {
            0
        } else if time_in_queue / 86400 > 200 {
            200
        } else {
            (time_in_queue / 86400) as u32
        }
    }

    /// The priority of a claim: the urgency is half the base score, and the
    /// total is the sum of the four parts.
    pub open spec fn priority_of(
        premiums_paid: u64,
        time_in_queue: i64,
        incident_type: IncidentType,
    ) -> PriorityScore {
        let base = Self::base_score_of(incident_type);
        let payment = Self::payment_score_of(premiums_paid);
        let waiting = Self::waiting_score_of(time_in_queue);
        PriorityScore {
            base_score: base,
            payment_history_score: payment,
            urgency_score: base / 2,
            time_in_queue_score: waiting,
            total_score: (base + payment + waiting + base / 2) as u32,
        }
    }

    /// Calculates the priority of a claim from the premiums its claimant has
    /// paid, the seconds it has waited and the kind of its incident.
    pub fn calculate(premiums_paid: u64, time_in_queue: i64, incident_type: IncidentType) -> (score:
        PriorityScore)
        ensures
            score == Self::priority_of(premiums_paid, time_in_queue, incident_type),
            score.total_score <= 2200,
    {
        let base_score: u32 = match incident_type {
            IncidentType::MedicalEmergency => 1000,
            IncidentType::NaturalDisaster => 800,
            IncidentType::Accident => 600,
            IncidentType::CropFailure => 500,
            IncidentType::PropertyDamage => 400,
            IncidentType::Other => 300,
        };
        let millions: u64 = premiums_paid / 1_000_000;
        let payment_history_score: u32 = if millions > 500 {
            500
        } else {
            millions as u32
        };
        let days: i64 = if time_in_queue <= 0 {
            0
        } else {
            time_in_queue / 86400
        };
        let time_in_queue_score: u32 = if days > 200 {
            200
        } else {
            days as u32
        };
        let urgency_score: u32 = base_score / 2;
        let total_score: u32 = base_score + payment_history_score + time_in_queue_score
            + urgency_score;
        PriorityScore {
            base_score,
            payment_history_score,
            urgency_score,
            time_in_queue_score,
            total_score,
        }
    }
}

} // verus!
