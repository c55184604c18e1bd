//! The global reward-round accountant: the live round, the round
//! accruing stakes too recent to share it, and a bounded history of
//! resolved rounds.

use vstd::prelude::*;
use crate::errors::StakeError;
use crate::math::checked_add_u64;

verus! {

/// A round must accrue for at least this long before it can resolve.
pub const ROUND_MIN_DURATION_SECONDS: i64 = 21_600;

/// Capacity of the resolved-round history; pushing onto a full history
/// evicts the oldest entry.
pub const MAX_RESOLVED_ROUNDS: usize = 32;

/// One accrual epoch. While a round is current or next its rates are
/// zero; resolution fixes them and archives the round.
#[derive(Clone, Copy, Debug, PartialEq, Eq, Structural)]
pub struct StakingRound {
    /// Sum of the effective (multiplier-weighted) stakes sharing the
    /// reward pool of this round.
    pub total_stake: u64,
    /// Sum of the effective stakes sharing the LM-token pool.
    pub lm_total_stake: u64,
    /// Reward units owed per unit of effective stake; fixed at
    /// resolution.
    pub rate: u64,
    /// LM-token units owed per unit of LM effective stake; fixed at
    /// resolution.
    pub lm_rate: u64,
    /// When this round began accruing as the current round.
    pub start_time: i64,
}

impl StakingRound {
    /// A round with no stake and no rate, starting at `start_time`.
    pub open spec fn spec_zeroed(start_time: i64) -> StakingRound {
        StakingRound { total_stake: 0, lm_total_stake: 0, rate: 0, lm_rate: 0, start_time }
    }

    /// A round with no stake and no rate, starting at `start_time`.
    pub fn zeroed(start_time: i64) -> (r: StakingRound)
        ensures
            r == StakingRound::spec_zeroed(start_time),
    {
        StakingRound { total_stake: 0, lm_total_stake: 0, rate: 0, lm_rate: 0, start_time }
    }
}

/// The payout rate a pool fixes over a stake total: the integer quotient,
/// or zero for an empty round (the explicit guard against division by
/// zero).
pub open spec fn round_rate(pool: u64, total_stake: u64) -> u64 {
    if total_stake == 0 {
        0
    } else {
        (pool as int / total_stake as int) as u64
    }
}

/// The global accountant. The current round accrues the live pool; the
/// next round accrues stakes too recent to share it; resolved rounds are
/// archived in a bounded ring, oldest first.
#[derive(Clone, Debug)]
pub struct RewardRoundAccountant {
    /// The round now accruing the live reward pool.
    pub current_round: StakingRound,
    /// The round accruing stakes staked since the current round began.
    pub next_round: StakingRound,
    /// The retained resolved rounds, oldest first, at most
    /// `MAX_RESOLVED_ROUNDS` of them.
    pub resolved_rounds: Vec<StakingRound>,
    /// How many rounds have ever been resolved; the retained ones are
    /// the latest `resolved_rounds.len()` of these.
    pub resolved_count: u64,
}

impl RewardRoundAccountant {
    /// The history respects its capacity and its count.
    pub open spec fn wf(self) -> bool {
        &&& self.resolved_rounds@.len() <= MAX_RESOLVED_ROUNDS
        &&& self.resolved_rounds@.len() <= self.resolved_count
    }

    /// A fresh accountant, created once at protocol initialization.
    pub fn new(now: i64) -> (a: RewardRoundAccountant)
        ensures
            a.current_round == StakingRound::spec_zeroed(now),
            a.next_round == StakingRound::spec_zeroed(now),
            a.resolved_rounds@ == Seq::<StakingRound>::empty(),
            a.resolved_count == 0,
            a.wf(),
    {
        RewardRoundAccountant {
            current_round: StakingRound::zeroed(now),
            next_round: StakingRound::zeroed(now),
            resolved_rounds: Vec::new(),
            resolved_count: 0,
        }
    }
}

/// What the archive of the current round will hold: its accrued totals
/// and the rates the two pools fix over them.
pub open spec fn spec_archived_round(
    current: StakingRound,
    reward_pool: u64,
    lm_reward_pool: u64,
) -> StakingRound {
    StakingRound {
        total_stake: current.total_stake,
        lm_total_stake: current.lm_total_stake,
        rate: round_rate(reward_pool, current.total_stake),
        lm_rate: round_rate(lm_reward_pool, current.lm_total_stake),
        start_time: current.start_time,
    }
}

/// Resolves the current round once its minimum duration has elapsed:
/// fixes its rates from the collected pools, archives it (evicting the
/// oldest entry if the history is full), promotes the next round — which
/// keeps every already-accrued stake — and starts a fresh next round.
///
/// Premature calls fail `RoundNotReady` and change nothing, so retriers
/// are safe; a resolved round with no stake archives a zero rate.
pub fn resolve_staking_round(
    a: &mut RewardRoundAccountant,
    now: i64,
    reward_pool: u64,
    lm_reward_pool: u64,
) -> (r: Result<(), StakeError>)
    ensures
        ({
            let ready = now >= old(a).current_round.start_time + ROUND_MIN_DURATION_SECONDS;
            let overflows = old(a).current_round.total_stake + old(a).next_round.total_stake
                > u64::MAX || old(a).current_round.lm_total_stake
                + old(a).next_round.lm_total_stake > u64::MAX || old(a).resolved_count + 1
                > u64::MAX;
            let archived = spec_archived_round(old(a).current_round, reward_pool, lm_reward_pool);
            &&& (r == Err::<(), StakeError>(StakeError::RoundNotReady) <==> !ready)
            &&& (r == Err::<(), StakeError>(StakeError::ArithmeticOverflow) <==> ready
                && overflows)
            &&& (r == Ok::<(), StakeError>(()) <==> ready && !overflows)
            &&& r is Err ==> *final(a) == *old(a)
            &&& r is Ok ==> {
                &&& final(a).resolved_rounds@ == (
                    if old(a).resolved_rounds@.len() >= MAX_RESOLVED_ROUNDS {
                        old(a).resolved_rounds@.skip(1)
                    } else {
                        old(a).resolved_rounds@
                    }
                ).push(archived)
                &&& final(a).current_round == (StakingRound {
                    total_stake: (old(a).current_round.total_stake
                        + old(a).next_round.total_stake) as u64,
                    lm_total_stake: (old(a).current_round.lm_total_stake
                        + old(a).next_round.lm_total_stake) as u64,
                    rate: 0,
                    lm_rate: 0,
                    start_time: now,
                })
                &&& final(a).next_round == StakingRound::spec_zeroed(now)
                &&& final(a).resolved_count == old(a).resolved_count + 1
                &&& archived.rate * archived.total_stake <= reward_pool
                &&& archived.lm_rate * archived.lm_total_stake <= lm_reward_pool
            }
            &&& old(a).wf() ==> final(a).wf()
        }),
{
    let ready = (now as i128) >= (a.current_round.start_time as i128) + (
    ROUND_MIN_DURATION_SECONDS as i128);
    if !ready {
        return Err(StakeError::RoundNotReady);
    }
    let rate = fix_rate(reward_pool, a.current_round.total_stake);
    let lm_rate = fix_rate(lm_reward_pool, a.current_round.lm_total_stake);
    let new_total = match checked_add_u64(a.current_round.total_stake, a.next_round.total_stake) {
        Ok(v) => v,
        Err(e) => { return Err(e); },
    };
    let new_lm_total = match checked_add_u64(
        a.current_round.lm_total_stake,
        a.next_round.lm_total_stake,
    ) {
        Ok(v) => v,
        Err(e) => { return Err(e); },
    };
    let new_count = match checked_add_u64(a.resolved_count, 1) {
        Ok(v) => v,
        Err(e) => { return Err(e); },
    };
    let archived = StakingRound {
        total_stake: a.current_round.total_stake,
        lm_total_stake: a.current_round.lm_total_stake,
        rate,
        lm_rate,
        start_time: a.current_round.start_time,
    };
    let ghost old_history = a.resolved_rounds@;
    if a.resolved_rounds.len() >= MAX_RESOLVED_ROUNDS {
        a.resolved_rounds.remove(0);
        proof {
            assert(a.resolved_rounds@ =~= old_history.skip(1));
        }
    }
    a.resolved_rounds.push(archived);
    a.current_round = StakingRound {
        total_stake: new_total,
        lm_total_stake: new_lm_total,
        rate: 0,
        lm_rate: 0,
        start_time: now,
    };
    a.next_round = StakingRound::zeroed(now);
    a.resolved_count = new_count;
    Ok(())
}

/// The integer payout rate, with the zero-stake guard; also shows the
/// payout ceiling `rate * total_stake <= pool` that conservation rests
/// on.
fn fix_rate(pool: u64, total_stake: u64) -> (rate: u64)
    ensures
        rate == round_rate(pool, total_stake),
        rate * total_stake <= pool,
{
    if total_stake == 0 {
        0
    } else {
        let rate = pool / total_stake;
        proof {
            vstd::arithmetic::div_mod::lemma_fundamental_div_mod(pool as int, total_stake as int);
            vstd::arithmetic::div_mod::lemma_mod_bound(pool as int, total_stake as int);
            vstd::arithmetic::mul::lemma_mul_is_commutative(
                rate as int,
                total_stake as int,
            );
        }
        rate
    }
}

} // verus!
