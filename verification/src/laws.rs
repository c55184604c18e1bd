//! The conservation law of the reward pool.
//!
//! A resolved round records the effective stake total it accrued and
//! the rate its pool fixed over that total. Claims are paid per
//! participant as rate times qualifying weight, bounded by a monotonic
//! watermark rather than a shared decrementing pool; these lemmas show
//! that however the claimants are interleaved, what they draw against
//! one resolved round never exceeds what the round collected.

use vstd::prelude::*;
use crate::engine::{ledger_round_reward, locked_seq_round_reward};
use crate::ledger::{LockedStake, StakeLedger};
use crate::round::{round_rate, StakingRound};
use vstd::arithmetic::div_mod::lemma_remainder_lower;
use vstd::arithmetic::mul::{
    lemma_mul_is_commutative, lemma_mul_is_distributive_add, lemma_mul_inequality,
};

verus! {

/// The sum of a list of claimant weights.
pub open spec fn seq_sum_u64(ws: Seq<u64>) -> int
    decreases ws.len(),
{
    if ws.len() == 0 {
        0
    } else {
        seq_sum_u64(ws.drop_last()) + ws.last()
    }
}

/// The total paid when each claimant weight is paid at `rate`.
pub open spec fn seq_claims_total(ws: Seq<u64>, rate: u64) -> int
    decreases ws.len(),
{
    if ws.len() == 0 {
        0
    } else {
        seq_claims_total(ws.drop_last(), rate) + ws.last() * rate
    }
}

/// A sum of weights is never negative.
proof fn lemma_seq_sum_nonneg(ws: Seq<u64>)
    ensures
        seq_sum_u64(ws) >= 0,
    decreases ws.len(),
{
    if ws.len() > 0 {
        lemma_seq_sum_nonneg(ws.drop_last());
    }
}

/// Paying every weight at one rate pays the rate times the summed
/// weight.
proof fn lemma_claims_factor(ws: Seq<u64>, rate: u64)
    ensures
        seq_claims_total(ws, rate) == rate * seq_sum_u64(ws),
    decreases ws.len(),
{
    if ws.len() == 0 {
        assert(rate * 0 == 0);
    } else {
        lemma_claims_factor(ws.drop_last(), rate);
        lemma_mul_is_distributive_add(
            rate as int,
            seq_sum_u64(ws.drop_last()),
            ws.last() as int,
        );
        lemma_mul_is_commutative(ws.last() as int, rate as int);
    }
}

/// Law: per-round payout conservation. Take any resolved round that
/// accrued `total_stake` and fixed its rate over a collected pool of
/// `reward_pool`, and any claimants whose qualifying weights sum to at
/// most that recorded total. Then the claims paid against the round —
/// each weight times the rate — never exceed `rate * total_stake`, and
/// that ceiling itself never exceeds the collected pool; the only slack
/// is the integer-truncation loss of fixing the rate.
pub proof fn lemma_round_claim_conservation(ws: Seq<u64>, total_stake: u64, reward_pool: u64)
    requires
        seq_sum_u64(ws) <= total_stake,
    ensures
        seq_claims_total(ws, round_rate(reward_pool, total_stake)) == round_rate(
            reward_pool,
            total_stake,
        ) * seq_sum_u64(ws),
        seq_claims_total(ws, round_rate(reward_pool, total_stake)) <= round_rate(
            reward_pool,
            total_stake,
        ) * total_stake,
        round_rate(reward_pool, total_stake) * total_stake <= reward_pool,
{
    let rate = round_rate(reward_pool, total_stake);
    lemma_claims_factor(ws, rate);
    lemma_seq_sum_nonneg(ws);
    lemma_mul_inequality(seq_sum_u64(ws), total_stake as int, rate as int);
    lemma_mul_is_commutative(seq_sum_u64(ws), rate as int);
    lemma_mul_is_commutative(total_stake as int, rate as int);
    if total_stake == 0 {
        assert(rate * total_stake == 0);
    } else {
        lemma_remainder_lower(reward_pool as int, total_stake as int);
        lemma_mul_is_commutative(rate as int, total_stake as int);
    }
}

/// The effective weight of a list of locked positions that qualifies
/// for one round: each position staked before the round began counts
/// its stored reward-multiplied amount.
pub open spec fn locked_seq_round_weight(ss: Seq<LockedStake>, r: StakingRound) -> int
    decreases ss.len(),
{
    if ss.len() == 0 {
        0
    } else {
        locked_seq_round_weight(ss.drop_last(), r) + (
        if ss.last().stake_time < r.start_time {
            ss.last().amount_with_reward_multiplier as int
        } else {
            0
        })
    }
}

/// The effective weight of a whole ledger that qualifies for one
/// round: the liquid amount 1:1 plus the locked weights.
pub open spec fn ledger_round_weight(l: StakeLedger, r: StakingRound) -> int {
    (if l.liquid.amount > 0 && l.liquid.stake_time < r.start_time {
        l.liquid.amount as int
    } else {
        0
    }) + locked_seq_round_weight(l.locked@, r)
}

/// The locked positions' earnings from one round factor into the
/// round's rate times their qualifying weight.
proof fn lemma_locked_seq_reward_factors(ss: Seq<LockedStake>, r: StakingRound)
    ensures
        locked_seq_round_reward(ss, r) == r.rate * locked_seq_round_weight(ss, r),
    decreases ss.len(),
{
    if ss.len() == 0 {
        assert(r.rate * 0 == 0);
    } else {
        lemma_locked_seq_reward_factors(ss.drop_last(), r);
        let s = ss.last();
        let tail_weight = locked_seq_round_weight(ss.drop_last(), r);
        let own_weight: int = if s.stake_time < r.start_time {
            s.amount_with_reward_multiplier as int
        } else {
            0
        };
        lemma_mul_is_distributive_add(r.rate as int, tail_weight, own_weight);
        lemma_mul_is_commutative(s.amount_with_reward_multiplier as int, r.rate as int);
        assert(r.rate * 0 == 0);
    }
}

/// Law: what one ledger's claim draws against one resolved round is
/// exactly the round's rate times the ledger's qualifying effective
/// weight — the per-claimant form that `lemma_round_claim_conservation`
/// sums over all claimants.
pub proof fn lemma_ledger_round_reward_factors(l: StakeLedger, r: StakingRound)
    ensures
        ledger_round_reward(l, r) == r.rate * ledger_round_weight(l, r),
{
    lemma_locked_seq_reward_factors(l.locked@, r);
    let liquid_weight: int = if l.liquid.amount > 0 && l.liquid.stake_time < r.start_time {
        l.liquid.amount as int
    } else {
        0
    };
    lemma_mul_is_distributive_add(
        r.rate as int,
        liquid_weight,
        locked_seq_round_weight(l.locked@, r),
    );
    lemma_mul_is_commutative(l.liquid.amount as int, r.rate as int);
    assert(r.rate * 0 == 0);
}

} // verus!
