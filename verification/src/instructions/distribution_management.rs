//! Distribution rounds: queueing approved claims, choosing which of them a
//! round pays, and paying them.

use vstd::prelude::*;
use crate::errors::NovaError;
use crate::keys::{contains_id, copy_ids, lemma_remove_value_distinct, remove_id, AccountId};
use crate::selection::{indices_view, lemma_picks_distinct, picks, select_next, selection};
use crate::state::{
    seed_view,
    ClaimRequest,
    ClaimRequestView,
    ClaimStatus,
    DistributionQueue,
    DistributionQueueView,
    InsurancePool,
    MAX_PENDING_CLAIMS,
};

verus! {

/// Record of a queue having been set up for a pool.
#[derive(Clone, Copy, Debug, PartialEq, Eq)]
pub struct DistributionQueueInitializedEvent {
    pub pool: AccountId,
    pub timestamp: i64,
}

/// Record of a completed distribution round.
#[derive(Clone, Copy, Debug, PartialEq, Eq)]
pub struct ClaimsDistributedEvent {
    pub pool: AccountId,
    pub round: u64,
    pub total_claims: u32,
    pub selected_claims: u32,
    pub oversubscribed: bool,
    pub available_funds: u64,
    pub timestamp: i64,
}

/// Record of a claim having been paid.
#[derive(Clone, Copy, Debug, PartialEq, Eq)]
pub struct ClaimPaidOutEvent {
    pub claim_id: AccountId,
    pub claimant: AccountId,
    pub pool: AccountId,
    pub amount: u64,
    pub timestamp: i64,
}

/// The empty queue of a pool, as `initialize_distribution_queue` creates it.
pub open spec fn initial_queue(pool: InsurancePool, now: i64, bump: u8) -> DistributionQueueView {
    DistributionQueueView {
        pool: pool.pool_id,
        total_approved_claims: 0,
        total_requested_amount: 0,
        available_funds: pool.total_pooled,
        pending_claims: Seq::empty(),
        selected_claims: Seq::empty(),
        vrf_result: None,
        is_oversubscribed: false,
        distribution_round: 0,
        last_distribution: now,
        bump: bump,
    }
}

/// Creates the distribution queue of a pool: empty, at round zero.
pub fn initialize_distribution_queue(pool: &InsurancePool, now: i64, bump: u8) -> (r: (
    DistributionQueue,
    DistributionQueueInitializedEvent,
))
    ensures
        r.0@ == initial_queue(*pool, now, bump),
        r.0@.wf(),
        r.1 == (DistributionQueueInitializedEvent { pool: pool.pool_id, timestamp: now }),
{
    let queue = DistributionQueue {
        pool: pool.pool_id,
        total_approved_claims: 0,
        total_requested_amount: 0,
        available_funds: pool.total_pooled,
        pending_claims: Vec::new(),
        selected_claims: Vec::new(),
        vrf_result: None,
        is_oversubscribed: false,
        distribution_round: 0,
        last_distribution: now,
        bump: bump,
    };
    (queue, DistributionQueueInitializedEvent { pool: pool.pool_id, timestamp: now })
}

/// Why a claim cannot enter a queue, if it cannot.
pub open spec fn enqueue_error(queue: DistributionQueueView, claim: ClaimRequestView) -> Option<
    NovaError,
> {
    if claim.status != ClaimStatus::Approved {
        Some(NovaError::InactiveCoverage)
    } else if queue.pending_claims.contains(claim.claim_id) {
        Some(NovaError::DuplicateEntry)
    } else if queue.pending_claims.len() >= MAX_PENDING_CLAIMS {
        Some(NovaError::CapacityExceeded)
    } else if queue.total_approved_claims == u32::MAX {
        Some(NovaError::MathOverflow)
    } else if queue.total_requested_amount + claim.amount_requested > u64::MAX {
        Some(NovaError::MathOverflow)
    } else {
        None
    }
}

/// The queue after `claim` has entered it.
pub open spec fn after_enqueue(
    queue: DistributionQueueView,
    claim: ClaimRequestView,
) -> DistributionQueueView {
    DistributionQueueView {
        pending_claims: queue.pending_claims.push(claim.claim_id),
        total_approved_claims: (queue.total_approved_claims + 1) as u32,
        total_requested_amount: (queue.total_requested_amount + claim.amount_requested) as u64,
        ..queue
    }
}

/// Puts an approved claim at the end of the queue and adds its amount to the
/// requested total. A claim that is not approved, that already waits, or that
/// the queue has no room for is refused.
pub fn add_to_distribution_queue(queue: &mut DistributionQueue, claim: &ClaimRequest) -> (r:
    Result<(), NovaError>)
    ensures
        match r {
            Ok(_) => enqueue_error(old(queue)@, claim@) is None && final(queue)@ == after_enqueue(
                old(queue)@,
                claim@,
            ),
            Err(e) => enqueue_error(old(queue)@, claim@) == Some(e) && *final(queue) == *old(
                queue,
            ),
        },
        old(queue)@.wf() ==> final(queue)@.wf(),
{
    if claim.status != ClaimStatus::Approved {
        return Err(NovaError::InactiveCoverage);
    }
    if contains_id(&queue.pending_claims, &claim.claim_id) {
        return Err(NovaError::DuplicateEntry);
    }
    if queue.pending_claims.len() >= MAX_PENDING_CLAIMS {
        return Err(NovaError::CapacityExceeded);
    }
    let count: u32 = match queue.total_approved_claims.checked_add(1) {
        Some(c) => c,
        None => {
            return Err(NovaError::MathOverflow);
        },
    };
    let total: u64 = match queue.total_requested_amount.checked_add(claim.amount_requested) {
        Some(t) => t,
        None => {
            return Err(NovaError::MathOverflow);
        },
    };
    queue.pending_claims.push(claim.claim_id);
    queue.total_approved_claims = count;
    queue.total_requested_amount = total;
    proof {
        let before = old(queue)@;
        let after = queue@;
        if before.wf() {
            assert forall|i: int| 0 <= i < after.selected_claims.len() implies after.pending_claims.contains(
            #[trigger] after.selected_claims[i]) by {
                let x = before.selected_claims[i];
                let k = choose|k: int|
                    0 <= k < before.pending_claims.len() && before.pending_claims[k] == x;
                assert(after.pending_claims[k] == x);
            }
        }
    }
    Ok(())
}

/// What a round charges for each claim it admits when it is oversubscribed:
/// the requested total divided by the number of waiting claims.
pub open spec fn avg_claim_size(total_requested: int, claims: int) -> int {
    total_requested / claims
}

/// Number of claims an oversubscribed round admits.
///
/// Each admitted claim is charged the average claim size, and claims are
/// admitted as long as the funds left cover that charge. With an average of
/// zero nothing is charged: then every claim is admitted, unless there are no
/// funds at all.
pub open spec fn admitted_count(available: int, total_requested: int, claims: int) -> int {
    if claims <= 0 {
        0
    } else {
        let avg = avg_claim_size(total_requested, claims);
        if avg == 0 {
            if available == 0 {
                0
            } else {
                claims
            }
        } else if available / avg < claims {
            available / avg
        } else {
            claims
        }
    }
}

/// What an oversubscribed round charges in total never exceeds the funds it
/// started with.
pub proof fn lemma_admitted_within_funds(available: int, total_requested: int, claims: int)
    requires
        0 <= available,
        0 <= total_requested,
        0 < claims,
    ensures
        0 <= admitted_count(available, total_requested, claims) <= claims,
        admitted_count(available, total_requested, claims) * avg_claim_size(
            total_requested,
            claims,
        ) <= available,
{
    let avg = avg_claim_size(total_requested, claims);
    let m = admitted_count(available, total_requested, claims);
    assert(0 <= avg) by (nonlinear_arith)
        requires
            avg == total_requested / claims,
            0 <= total_requested,
            0 < claims,
    ;
    if avg == 0 {
        assert(m * avg == 0) by (nonlinear_arith)
            requires
                avg == 0,
        ;
    } else {
        assert(0 <= available / avg && (available / avg) * avg <= available) by (nonlinear_arith)
            requires
                0 <= available,
                0 < avg,
        ;
        assert(m * avg <= (available / avg) * avg) by (nonlinear_arith)
            requires
                0 <= m <= available / avg,
                0 < avg,
        ;
    }
}

/// Chooses the claims that an oversubscribed round pays.
///
/// The waiting claims are visited in the order that the seed gives. A visited
/// claim is admitted while the funds left cover the average claim size, which
/// is then taken off the funds left; the claim's own amount plays no part.
pub fn select_within_funds(
    pending: &Vec<AccountId>,
    total_requested: u64,
    funds: u64,
    seed: &[u8; 32],
) -> (selected: Vec<AccountId>)
    ensures
        selected@ == picks(
            seed@,
            pending@,
            admitted_count(funds as int, total_requested as int, pending.len() as int) as nat,
        ),
        selected.len() == admitted_count(
            funds as int,
            total_requested as int,
            pending.len() as int,
        ),
{
    let n: usize = pending.len();
    let mut selected: Vec<AccountId> = Vec::new();
    if n == 0 {
        assert(selected@ =~= picks(seed@, pending@, 0));
        return selected;
    }
    let avg: u64 = total_requested / (n as u64);
    let ghost m: int = admitted_count(funds as int, total_requested as int, n as int);
    proof {
        lemma_admitted_within_funds(funds as int, total_requested as int, n as int);
        assert(selected@ =~= picks(seed@, pending@, 0));
    }
    let mut visited: Vec<usize> = Vec::new();
    let mut remaining: u64 = funds;
    let mut i: usize = 0;
    while i < n && remaining != 0
        invariant
            0 < n,
            n == pending.len(),
            i <= n,
            avg as int == avg_claim_size(total_requested as int, n as int),
            m == admitted_count(funds as int, total_requested as int, n as int),
            0 <= m <= n,
            visited.len() == i,
            indices_view(visited@) == selection(seed@, n as int, i as nat),
            selected.len() <= i,
            selected.len() == if i < m {
                i as int
            } else {
                m
            },
            selected@ == picks(seed@, pending@, selected.len() as nat),
            remaining as int == funds - selected.len() * avg,
        decreases n - i,
    {
        let ghost a: int = selected.len() as int;
        let ghost earlier = indices_view(visited@);
        let index: usize = select_next(seed, &mut visited, n);
        proof {
            assert(indices_view(visited@) =~= earlier.push(index as int));
        }
        proof {
            assert((a + 1) * avg == a * avg + avg) by (nonlinear_arith);
            if avg == 0 {
                assert(a * avg == 0) by (nonlinear_arith)
                    requires
                        avg == 0,
                ;
            }
        }
        if remaining >= avg {
            proof {
                if avg > 0 {
                    assert(a + 1 <= funds as int / avg as int) by (nonlinear_arith)
                        requires
                            (a + 1) * avg <= funds,
                            0 < avg,
                            0 <= a,
                    ;
                }
                assert(a == i);
            }
            selected.push(pending[index]);
            remaining = remaining - avg;
            proof {
                assert(selected@ =~= picks(seed@, pending@, (i + 1) as nat));
            }
        } else {
            proof {
                assert(funds as int / avg as int <= a) by (nonlinear_arith)
                    requires
                        funds < (a + 1) * avg,
                        0 < avg,
                        0 <= a,
                        0 <= funds,
                ;
            }
        }
        i = i + 1;
    }
    proof {
        let a: int = selected.len() as int;
        if i < n {
            if avg > 0 {
                assert(funds as int / avg as int == a) by (nonlinear_arith)
                    requires
                        funds == a * avg,
                        0 < avg,
                        0 <= a,
                ;
            } else {
                assert(a * avg == 0) by (nonlinear_arith)
                    requires
                        avg == 0,
                ;
            }
        }
    }
    selected
}

/// Why a round cannot run, if it cannot.
pub open spec fn round_error(queue: DistributionQueueView, funds: u64, seed_given: bool) -> Option<
    NovaError,
> {
    if queue.total_requested_amount > funds && !seed_given {
        Some(NovaError::MissingRandomness)
    } else if queue.distribution_round == u64::MAX {
        Some(NovaError::MathOverflow)
    } else if queue.pending_claims.len() > u32::MAX {
        Some(NovaError::MathOverflow)
    } else {
        None
    }
}

/// The claims that a round selects for payment: all waiting claims when the
/// funds cover the requested total, else the seeded choice among them.
pub open spec fn round_selection(queue: DistributionQueueView, funds: u64, seed: Option<Seq<u8>>) -> Seq<
    AccountId,
> {
    if queue.total_requested_amount > funds {
        picks(
            seed->0,
            queue.pending_claims,
            admitted_count(
                funds as int,
                queue.total_requested_amount as int,
                queue.pending_claims.len() as int,
            ) as nat,
        )
    } else {
        queue.pending_claims
    }
}

/// The queue after a round with the given funds and seed.
pub open spec fn after_round(
    queue: DistributionQueueView,
    funds: u64,
    seed: Option<Seq<u8>>,
    now: i64,
) -> DistributionQueueView {
    DistributionQueueView {
        available_funds: funds,
        is_oversubscribed: queue.total_requested_amount > funds,
        selected_claims: round_selection(queue, funds, seed),
        vrf_result: if queue.total_requested_amount > funds {
            seed
        } else {
            queue.vrf_result
        },
        distribution_round: (queue.distribution_round + 1) as u64,
        last_distribution: now,
        ..queue
    }
}

/// The record of the round that left the queue as `queue`.
pub open spec fn round_event(queue: DistributionQueueView, pool: AccountId) -> ClaimsDistributedEvent {
    ClaimsDistributedEvent {
        pool: pool,
        round: queue.distribution_round,
        total_claims: queue.pending_claims.len() as u32,
        selected_claims: queue.selected_claims.len() as u32,
        oversubscribed: queue.is_oversubscribed,
        available_funds: queue.available_funds,
        timestamp: queue.last_distribution,
    }
}

/// Runs one distribution round on the funds of `pool`.
///
/// When the funds cover the requested total, every waiting claim is selected.
/// Otherwise the round is oversubscribed: it needs a seed, and selects as
/// `select_within_funds` says. A round that runs raises the round number by
/// one; a round that cannot run changes nothing.
pub fn distribute_claims(
    queue: &mut DistributionQueue,
    pool: &InsurancePool,
    randomness: Option<[u8; 32]>,
    now: i64,
) -> (r: Result<ClaimsDistributedEvent, NovaError>)
    ensures
        match r {
            Ok(event) => {
                &&& round_error(old(queue)@, pool.total_pooled, randomness is Some) is None
                &&& final(queue)@ == after_round(
                    old(queue)@,
                    pool.total_pooled,
                    seed_view(randomness),
                    now,
                )
                &&& event == round_event(final(queue)@, pool.pool_id)
            },
            Err(e) => round_error(old(queue)@, pool.total_pooled, randomness is Some) == Some(e)
                && *final(queue) == *old(queue),
        },
        r is Ok ==> final(queue).distribution_round == old(queue).distribution_round + 1,
        r is Ok && final(queue).is_oversubscribed ==> final(queue).selected_claims.len()
            == admitted_count(
            pool.total_pooled as int,
            old(queue).total_requested_amount as int,
            old(queue).pending_claims.len() as int,
        ),
        r is Ok && final(queue).is_oversubscribed && old(queue).pending_claims.len() > 0
            ==> final(queue).selected_claims.len() * avg_claim_size(
            old(queue).total_requested_amount as int,
            old(queue).pending_claims.len() as int,
        ) <= pool.total_pooled,
        old(queue)@.wf() ==> final(queue)@.wf(),
{
    let funds: u64 = pool.total_pooled;
    let oversubscribed: bool = queue.total_requested_amount > funds;
    if oversubscribed && randomness.is_none() {
        return Err(NovaError::MissingRandomness);
    }
    let round: u64 = match queue.distribution_round.checked_add(1) {
        Some(next) => next,
        None => {
            return Err(NovaError::MathOverflow);
        },
    };
    let total: usize = queue.pending_claims.len();
    if total > u32::MAX as usize {
        return Err(NovaError::MathOverflow);
    }
    let ghost before = queue@;
    match randomness {
        Some(seed) => {
            if oversubscribed {
                let selected: Vec<AccountId> = select_within_funds(
                    &queue.pending_claims,
                    queue.total_requested_amount,
                    funds,
                    &seed,
                );
                proof {
                    if total > 0 {
                        lemma_admitted_within_funds(
                            funds as int,
                            before.total_requested_amount as int,
                            total as int,
                        );
                        if before.wf() {
                            lemma_picks_distinct(
                                seed@,
                                before.pending_claims,
                                selected.len() as nat,
                            );
                        }
                    }
                }
                queue.selected_claims = selected;
                queue.vrf_result = Some(seed);
            } else {
                queue.selected_claims = copy_ids(&queue.pending_claims);
            }
        },
        None => {
            queue.selected_claims = copy_ids(&queue.pending_claims);
        },
    }
    queue.available_funds = funds;
    queue.is_oversubscribed = oversubscribed;
    queue.distribution_round = round;
    queue.last_distribution = now;
    let event = ClaimsDistributedEvent {
        pool: pool.pool_id,
        round: round,
        total_claims: total as u32,
        selected_claims: queue.selected_claims.len() as u32,
        oversubscribed: oversubscribed,
        available_funds: funds,
        timestamp: now,
    };
    Ok(event)
}

/// The amount that paying `claim` moves: the amount granted, and never more
/// than the amount requested.
pub open spec fn payout_amount_of(claim: ClaimRequestView) -> u64 {
    match claim.payout_amount {
        Some(granted) => if granted < claim.amount_requested {
            granted
        } else {
            claim.amount_requested
        },
        None => claim.amount_requested,
    }
}

/// Why a claim cannot be paid, if it cannot.
pub open spec fn payout_error(
    claim: ClaimRequestView,
    pool: InsurancePool,
    queue: DistributionQueueView,
) -> Option<NovaError> {
    if claim.status != ClaimStatus::Approved {
        Some(NovaError::InactiveCoverage)
    } else if !queue.selected_claims.contains(claim.claim_id) {
        Some(NovaError::UnauthorizedValidator)
    } else if pool.total_pooled < payout_amount_of(claim) {
        Some(NovaError::InsufficientPoolFunds)
    } else {
        None
    }
}

/// The claim after it has been paid at time `now`.
pub open spec fn claim_after_payout(claim: ClaimRequestView, now: i64) -> ClaimRequestView {
    ClaimRequestView {
        status: ClaimStatus::Distributed,
        resolved_at: Some(now),
        payout_amount: Some(payout_amount_of(claim)),
        ..claim
    }
}

/// The pool after `amount` has been paid out of it for one claim.
pub open spec fn pool_after_payout(pool: InsurancePool, amount: u64) -> InsurancePool {
    InsurancePool {
        total_pooled: (pool.total_pooled - amount) as u64,
        active_claims: if pool.active_claims == 0 {
            0u32
        } else {
            (pool.active_claims - 1) as u32
        },
        ..pool
    }
}

/// The queue after the claim `claim_id` has been paid `amount`.
pub open spec fn queue_after_payout(
    queue: DistributionQueueView,
    claim_id: AccountId,
    amount: u64,
) -> DistributionQueueView {
    DistributionQueueView {
        pending_claims: queue.pending_claims.remove_value(claim_id),
        selected_claims: queue.selected_claims.remove_value(claim_id),
        total_approved_claims: if queue.total_approved_claims == 0 {
            0u32
        } else {
            (queue.total_approved_claims - 1) as u32
        },
        total_requested_amount: if queue.total_requested_amount < amount {
            0u64
        } else {
            (queue.total_requested_amount - amount) as u64
        },
        ..queue
    }
}

/// The pool after claims with the given amounts have asked for their payout
/// one after another: a claim is paid if the pool holds its amount, and
/// refused if not.
pub open spec fn pool_after_payouts(pool: InsurancePool, amounts: Seq<u64>) -> InsurancePool
    decreases amounts.len(),
{
    if amounts.len() == 0 {
        pool
    } else {
        let before = pool_after_payouts(pool, amounts.drop_last());
        if before.total_pooled >= amounts.last() {
            pool_after_payout(before, amounts.last())
        } else {
            before
        }
    }
}

/// What the pool has paid after claims with the given amounts have asked for
/// their payout one after another.
pub open spec fn paid_out(pool: InsurancePool, amounts: Seq<u64>) -> int
    decreases amounts.len(),
{
    if amounts.len() == 0 {
        0
    } else {
        let before = pool_after_payouts(pool, amounts.drop_last());
        paid_out(pool, amounts.drop_last()) + if before.total_pooled >= amounts.last() {
            amounts.last() as int
        } else {
            0
        }
    }
}

/// Whatever claims are paid after a round, and in whatever order, the payouts
/// together never exceed the funds that the pool held: what is paid and what
/// is left add up to what was there.
pub proof fn lemma_payouts_within_funds(pool: InsurancePool, amounts: Seq<u64>)
    ensures
        paid_out(pool, amounts) + pool_after_payouts(pool, amounts).total_pooled
            == pool.total_pooled,
        0 <= paid_out(pool, amounts) <= pool.total_pooled,
    decreases amounts.len(),
{
    if amounts.len() > 0 {
        lemma_payouts_within_funds(pool, amounts.drop_last());
    }
}

/// A claim is paid at most once: after a payout, every further payout of the
/// same claim is refused, whatever the pool and the queue hold.
pub proof fn lemma_payout_once(
    claim: ClaimRequestView,
    pool: InsurancePool,
    queue: DistributionQueueView,
    now: i64,
    later_pool: InsurancePool,
    later_queue: DistributionQueueView,
)
    requires
        payout_error(claim, pool, queue) is None,
    ensures
        payout_error(claim_after_payout(claim, now), later_pool, later_queue) == Some(
            NovaError::InactiveCoverage,
        ),
{
}

/// Pays an approved claim that the last round selected.
///
/// The amount is the amount granted, capped by the amount requested, and the
/// pool must hold it. The payout takes it off the pool and off the requested
/// total, closes the claim as `Distributed` and takes it out of the queue. The
/// returned record names the amount to transfer to the claimant.
pub fn payout_claim(
    claim: &mut ClaimRequest,
    pool: &mut InsurancePool,
    queue: &mut DistributionQueue,
    now: i64,
) -> (r: Result<ClaimPaidOutEvent, NovaError>)
    ensures
        match r {
            Ok(event) => {
                &&& payout_error(old(claim)@, *old(pool), old(queue)@) is None
                &&& final(claim)@ == claim_after_payout(old(claim)@, now)
                &&& *final(pool) == pool_after_payout(*old(pool), event.amount)
                &&& final(queue)@ == queue_after_payout(
                    old(queue)@,
                    old(claim).claim_id,
                    event.amount,
                )
                &&& event == (ClaimPaidOutEvent {
                    claim_id: old(claim).claim_id,
                    claimant: old(claim).claimant,
                    pool: old(pool).pool_id,
                    amount: payout_amount_of(old(claim)@),
                    timestamp: now,
                })
                &&& event.amount <= old(pool).total_pooled
            },
            Err(e) => {
                &&& payout_error(old(claim)@, *old(pool), old(queue)@) == Some(e)
                &&& *final(claim) == *old(claim)
                &&& *final(pool) == *old(pool)
                &&& *final(queue) == *old(queue)
            },
        },
        old(claim)@.wf() ==> final(claim)@.wf(),
        old(pool).wf() ==> final(pool).wf(),
        old(queue)@.wf() ==> final(queue)@.wf(),
{
    if claim.status != ClaimStatus::Approved {
        return Err(NovaError::InactiveCoverage);
    }
    if !contains_id(&queue.selected_claims, &claim.claim_id) {
        return Err(NovaError::UnauthorizedValidator);
    }
    let amount: u64 = match claim.payout_amount {
        Some(granted) => if granted < claim.amount_requested {
            granted
        } else {
            claim.amount_requested
        },
        None => claim.amount_requested,
    };
    if pool.total_pooled < amount {
        return Err(NovaError::InsufficientPoolFunds);
    }
    proof {
        let before = old(queue)@;
        if before.wf() {
            let id = claim.claim_id;
            lemma_remove_value_distinct(before.pending_claims, id);
            lemma_remove_value_distinct(before.selected_claims, id);
            let k = choose|k: int|
                0 <= k < before.selected_claims.len() && before.selected_claims[k] == id;
            assert(before.pending_claims.contains(before.selected_claims[k]));
            let after_selected = before.selected_claims.remove_value(id);
            let after_pending = before.pending_claims.remove_value(id);
            assert forall|i: int| 0 <= i < after_selected.len() implies after_pending.contains(
                #[trigger] after_selected[i],
            ) by {
                let x = after_selected[i];
                assert(after_selected.contains(x));
                assert(before.selected_claims.contains(x));
                let j = choose|j: int|
                    0 <= j < before.selected_claims.len() && before.selected_claims[j] == x;
                assert(before.pending_claims.contains(before.selected_claims[j]));
            }
        }
    }
    pool.total_pooled = pool.total_pooled - amount;
    pool.active_claims = pool.active_claims.saturating_sub(1);
    claim.status = ClaimStatus::Distributed;
    claim.resolved_at = Some(now);
    claim.payout_amount = Some(amount);
    remove_id(&mut queue.pending_claims, &claim.claim_id);
    remove_id(&mut queue.selected_claims, &claim.claim_id);
    queue.total_approved_claims = queue.total_approved_claims.saturating_sub(1);
    queue.total_requested_amount = queue.total_requested_amount.saturating_sub(amount);
    Ok(
        ClaimPaidOutEvent {
            claim_id: claim.claim_id,
            claimant: claim.claimant,
            pool: pool.pool_id,
            amount: amount,
            timestamp: now,
        },
    )
}

} // verus!
