//! The entry points of the engine.
//!
//! Each operates on a participant's ledger and the global accountant,
//! both passed as plain values, and returns the external actions the
//! caller must perform on success. Every operation is all-or-nothing:
//! on any error both the ledger and the accountant are unchanged.

use vstd::prelude::*;
use crate::errors::StakeError;
use crate::ledger::{LiquidStake, LockedStake, StakeLedger};
use crate::math::{accumulate_payout, apply_bps, checked_add_u64, scaled_bps};
use crate::options::{get_locked_staking_option, spec_staking_option, SECONDS_PER_DAY};
use crate::round::{RewardRoundAccountant, StakingRound};

verus! {

/// A one-shot timed callback the caller must register with its
/// scheduler.
#[derive(Clone, Copy, Debug, PartialEq, Eq, Structural)]
pub struct TriggerRequest {
    /// The caller-chosen handle under which the trigger is registered.
    pub trigger_id: u64,
    /// When the trigger must fire (at or after; late and duplicate
    /// delivery are tolerated by the resolution paths).
    pub fire_at: i64,
}

/// The in-transaction side effects a successful entry point instructs
/// its caller to perform against the external collaborators.
#[derive(Clone, Copy, Debug, PartialEq, Eq)]
pub struct EngineEffects {
    /// Stake tokens to move from the participant into escrow.
    pub transfer_to_escrow: u64,
    /// Stake tokens to return from escrow to the participant.
    pub transfer_to_owner: u64,
    /// Reward tokens to pay from the reward escrow.
    pub reward_payout: u64,
    /// LM tokens to pay from the reward escrow.
    pub lm_reward_payout: u64,
    /// Voting power to credit to the participant.
    pub governance_credit: u64,
    /// Voting power to debit from the participant.
    pub governance_debit: u64,
    /// A resolution trigger to register, if any.
    pub schedule_resolution: Option<TriggerRequest>,
    /// Whether the recurring auto-claim schedule must be resumed if it
    /// was found paused.
    pub resume_auto_claim: bool,
}

impl EngineEffects {
    /// No external action at all.
    pub open spec fn spec_none() -> EngineEffects {
        EngineEffects {
            transfer_to_escrow: 0,
            transfer_to_owner: 0,
            reward_payout: 0,
            lm_reward_payout: 0,
            governance_credit: 0,
            governance_debit: 0,
            schedule_resolution: None,
            resume_auto_claim: false,
        }
    }

    /// No external action at all.
    pub fn none() -> (e: EngineEffects)
        ensures
            e == EngineEffects::spec_none(),
    {
        EngineEffects {
            transfer_to_escrow: 0,
            transfer_to_owner: 0,
            reward_payout: 0,
            lm_reward_payout: 0,
            governance_credit: 0,
            governance_debit: 0,
            schedule_resolution: None,
            resume_auto_claim: false,
        }
    }
}

/// Acknowledges maturity of the locked position at `index`: at or after
/// `stake_time + lock_duration` it sets `resolved` and records the
/// claim time, flipping withdrawal eligibility and moving no funds.
///
/// Callable by any caller, typically the scheduler; a premature call is
/// an invalid state, and a repeated call on a resolved position is an
/// idempotent no-op.
pub fn resolve_locked_stake(l: &mut StakeLedger, index: usize, now: i64) -> (r: Result<
    (),
    StakeError,
>)
    ensures
        ({
            let n = old(l).locked@.len();
            &&& (r == Err::<(), StakeError>(StakeError::InvalidArgument) <==> index >= n)
            &&& index >= n ==> *final(l) == *old(l)
            &&& index < n ==> {
                let s = old(l).locked@[index as int];
                &&& s.resolved ==> r == Ok::<(), StakeError>(()) && *final(l) == *old(l)
                &&& !s.resolved && now < s.end_time() ==> r == Err::<(), StakeError>(
                    StakeError::InvalidState,
                ) && *final(l) == *old(l)
                &&& !s.resolved && now >= s.end_time() ==> {
                    &&& r == Ok::<(), StakeError>(())
                    &&& final(l).locked@ == old(l).locked@.update(
                        index as int,
                        LockedStake {
                            claim_time: now,
                            resolved: true,
                            ..s
                        },
                    )
                    &&& final(l).liquid == old(l).liquid
                    &&& final(l).claim_watermark == old(l).claim_watermark
                }
            }
            &&& old(l).wf() ==> final(l).wf()
        }),
{
    if index >= l.locked.len() {
        return Err(StakeError::InvalidArgument);
    }
    let s = l.locked[index];
    if s.resolved {
        return Ok(());
    }
    if (now as i128) < (s.stake_time as i128) + (s.lock_duration as i128) {
        return Err(StakeError::InvalidState);
    }
    let mut updated = s;
    updated.claim_time = now;
    updated.resolved = true;
    l.locked.set(index, updated);
    proof {
        if old(l).wf() {
            assert forall|i: int| 0 <= i < l.locked@.len() implies (#[trigger] l.locked@[i]).wf()
            by {
                assert(old(l).locked@[i].wf());
            }
        }
    }
    Ok(())
}

/// Withdraws `amount` from the liquid position and returns the funds,
/// debiting voting power 1:1. The removed portion stops accruing in the
/// round that was counting it; no reward claim is forced first, so the
/// in-flight share of the current round is forfeited.
pub fn remove_liquid_stake(
    l: &mut StakeLedger,
    a: &mut RewardRoundAccountant,
    amount: u64,
) -> (r: Result<EngineEffects, StakeError>)
    ensures
        ({
            let liq = old(l).liquid;
            let arg_bad = amount == 0 || amount > liq.amount;
            let from_current = liq.stake_time < old(a).current_round.start_time;
            let bucket_total = if from_current {
                old(a).current_round.total_stake
            } else {
                old(a).next_round.total_stake
            };
            &&& (r == Err::<EngineEffects, StakeError>(StakeError::InvalidArgument) <==> arg_bad)
            &&& (r == Err::<EngineEffects, StakeError>(StakeError::ArithmeticUnderflow) <==> !arg_bad
                && bucket_total < amount)
            &&& (r is Ok <==> !arg_bad && bucket_total >= amount)
            &&& r is Err ==> *final(l) == *old(l) && *final(a) == *old(a)
            &&& r is Ok ==> {
                &&& r == Ok::<EngineEffects, StakeError>(
                    EngineEffects {
                        transfer_to_owner: amount,
                        governance_debit: amount,
                        ..EngineEffects::spec_none()
                    },
                )
                &&& final(l).liquid.amount == liq.amount - amount
                &&& final(l).liquid.stake_time == (if liq.amount == amount {
                    0
                } else {
                    liq.stake_time
                })
                &&& final(l).locked@ == old(l).locked@
                &&& final(l).claim_watermark == old(l).claim_watermark
                &&& final(a).current_round == (if from_current {
                    StakingRound {
                        total_stake: (bucket_total - amount) as u64,
                        ..old(a).current_round
                    }
                } else {
                    old(a).current_round
                })
                &&& final(a).next_round == (if from_current {
                    old(a).next_round
                } else {
                    StakingRound { total_stake: (bucket_total - amount) as u64, ..old(a).next_round }
                })
                &&& final(a).resolved_rounds@ == old(a).resolved_rounds@
                &&& final(a).resolved_count == old(a).resolved_count
            }
            &&& old(l).wf() ==> final(l).wf()
            &&& old(a).wf() ==> final(a).wf()
        }),
{
    if amount == 0 || amount > l.liquid.amount {
        return Err(StakeError::InvalidArgument);
    }
    let from_current = l.liquid.stake_time < a.current_round.start_time;
    let bucket_total = if from_current {
        a.current_round.total_stake
    } else {
        a.next_round.total_stake
    };
    if bucket_total < amount {
        return Err(StakeError::ArithmeticUnderflow);
    }
    if from_current {
        a.current_round.total_stake = bucket_total - amount;
    } else {
        a.next_round.total_stake = bucket_total - amount;
    }
    l.liquid.amount = l.liquid.amount - amount;
    if l.liquid.amount == 0 {
        l.liquid.stake_time = 0;
    }
    let mut effects = EngineEffects::none();
    effects.transfer_to_owner = amount;
    effects.governance_debit = amount;
    Ok(effects)
}

/// Removes the locked position at `index` once it is resolved, returns
/// its funds and debits the voting power that was credited for it. A
/// position that is not yet resolved cannot be removed; a removed
/// position is gone and cannot be removed again. The position's
/// effective stake stops accruing in the round that was counting it.
pub fn remove_locked_stake(
    l: &mut StakeLedger,
    a: &mut RewardRoundAccountant,
    index: usize,
) -> (r: Result<EngineEffects, StakeError>)
    ensures
        ({
            let n = old(l).locked@.len();
            &&& (r == Err::<EngineEffects, StakeError>(StakeError::InvalidArgument) <==> index >= n)
            &&& index < n ==> {
                let s = old(l).locked@[index as int];
                let vote_power = scaled_bps(s.amount, s.vote_multiplier);
                let from_current = s.stake_time < old(a).current_round.start_time;
                let bucket = if from_current {
                    old(a).current_round
                } else {
                    old(a).next_round
                };
                let under = bucket.total_stake < s.amount_with_reward_multiplier
                    || bucket.lm_total_stake < s.amount_with_lm_reward_multiplier;
                &&& (r == Err::<EngineEffects, StakeError>(StakeError::InvalidState) <==> !s.resolved)
                &&& (r == Err::<EngineEffects, StakeError>(StakeError::ArithmeticOverflow) <==> s.resolved
                    && vote_power > u64::MAX)
                &&& (r == Err::<EngineEffects, StakeError>(StakeError::ArithmeticUnderflow) <==> s.resolved
                    && vote_power <= u64::MAX && under)
                &&& (r is Ok <==> s.resolved && vote_power <= u64::MAX && !under)
                &&& r is Ok ==> {
                    &&& r == Ok::<EngineEffects, StakeError>(
                        EngineEffects {
                            transfer_to_owner: s.amount,
                            governance_debit: vote_power as u64,
                            ..EngineEffects::spec_none()
                        },
                    )
                    &&& final(l).locked@ == old(l).locked@.remove(index as int)
                    &&& final(l).liquid == old(l).liquid
                    &&& final(l).claim_watermark == old(l).claim_watermark
                    &&& final(a).current_round == (if from_current {
                        StakingRound {
                            total_stake: (bucket.total_stake - s.amount_with_reward_multiplier) as u64,
                            lm_total_stake: (bucket.lm_total_stake
                                - s.amount_with_lm_reward_multiplier) as u64,
                            ..old(a).current_round
                        }
                    } else {
                        old(a).current_round
                    })
                    &&& final(a).next_round == (if from_current {
                        old(a).next_round
                    } else {
                        StakingRound {
                            total_stake: (bucket.total_stake - s.amount_with_reward_multiplier) as u64,
                            lm_total_stake: (bucket.lm_total_stake
                                - s.amount_with_lm_reward_multiplier) as u64,
                            ..old(a).next_round
                        }
                    })
                    &&& final(a).resolved_rounds@ == old(a).resolved_rounds@
                    &&& final(a).resolved_count == old(a).resolved_count
                }
            }
            &&& r is Err ==> *final(l) == *old(l) && *final(a) == *old(a)
            &&& old(l).wf() ==> final(l).wf()
            &&& old(a).wf() ==> final(a).wf()
        }),
{
    if index >= l.locked.len() {
        return Err(StakeError::InvalidArgument);
    }
    let s = l.locked[index];
    if !s.resolved {
        return Err(StakeError::InvalidState);
    }
    let vote_power = match apply_bps(s.amount, s.vote_multiplier) {
        Ok(v) => v,
        Err(e) => { return Err(e); },
    };
    let from_current = s.stake_time < a.current_round.start_time;
    let bucket = if from_current {
        a.current_round
    } else {
        a.next_round
    };
    if bucket.total_stake < s.amount_with_reward_multiplier || bucket.lm_total_stake
        < s.amount_with_lm_reward_multiplier {
        return Err(StakeError::ArithmeticUnderflow);
    }
    let updated = StakingRound {
        total_stake: bucket.total_stake - s.amount_with_reward_multiplier,
        lm_total_stake: bucket.lm_total_stake - s.amount_with_lm_reward_multiplier,
        ..bucket
    };
    if from_current {
        a.current_round = updated;
    } else {
        a.next_round = updated;
    }
    l.locked.remove(index);
    proof {
        if old(l).wf() {
            assert forall|i: int| 0 <= i < l.locked@.len() implies (#[trigger] l.locked@[i]).wf()
            by {
                if i < index {
                    assert(old(l).locked@[i].wf());
                } else {
                    assert(old(l).locked@[i + 1].wf());
                }
            }
        }
    }
    let mut effects = EngineEffects::none();
    effects.transfer_to_owner = s.amount;
    effects.governance_debit = vote_power;
    Ok(effects)
}

/// What a locked position earns from one resolved round: its stored
/// effective weight times the round's rate, provided it was staked
/// before the round began.
pub open spec fn locked_round_reward(s: LockedStake, r: StakingRound) -> int {
    if s.stake_time < r.start_time {
        s.amount_with_reward_multiplier * r.rate
    } else {
        0
    }
}

/// What a locked position earns from one resolved round's LM pool.
pub open spec fn locked_round_lm_reward(s: LockedStake, r: StakingRound) -> int {
    if s.stake_time < r.start_time {
        s.amount_with_lm_reward_multiplier * r.lm_rate
    } else {
        0
    }
}

/// What the liquid position earns from one resolved round: its amount
/// (weighted 1:1) times the round's rate, provided it was staked before
/// the round began.
pub open spec fn liquid_round_reward(liq: LiquidStake, r: StakingRound) -> int {
    if liq.amount > 0 && liq.stake_time < r.start_time {
        liq.amount * r.rate
    } else {
        0
    }
}

/// The reward a list of locked positions earns from one resolved round.
pub open spec fn locked_seq_round_reward(ss: Seq<LockedStake>, r: StakingRound) -> int
    decreases ss.len(),
{
    if ss.len() == 0 {
        0
    } else {
        locked_seq_round_reward(ss.drop_last(), r) + locked_round_reward(ss.last(), r)
    }
}

/// The LM reward a list of locked positions earns from one resolved
/// round.
pub open spec fn locked_seq_round_lm_reward(ss: Seq<LockedStake>, r: StakingRound) -> int
    decreases ss.len(),
{
    if ss.len() == 0 {
        0
    } else {
        locked_seq_round_lm_reward(ss.drop_last(), r) + locked_round_lm_reward(ss.last(), r)
    }
}

/// The reward a whole ledger earns from one resolved round.
pub open spec fn ledger_round_reward(l: StakeLedger, r: StakingRound) -> int {
    liquid_round_reward(l.liquid, r) + locked_seq_round_reward(l.locked@, r)
}

/// The LM reward a whole ledger earns from one resolved round; only
/// locked positions carry an LM weight.
pub open spec fn ledger_round_lm_reward(l: StakeLedger, r: StakingRound) -> int {
    locked_seq_round_lm_reward(l.locked@, r)
}

/// The reward a ledger earns over a list of resolved rounds.
pub open spec fn rounds_reward(l: StakeLedger, rs: Seq<StakingRound>) -> int
    decreases rs.len(),
{
    if rs.len() == 0 {
        0
    } else {
        rounds_reward(l, rs.drop_last()) + ledger_round_reward(l, rs.last())
    }
}

/// The LM reward a ledger earns over a list of resolved rounds.
pub open spec fn rounds_lm_reward(l: StakeLedger, rs: Seq<StakingRound>) -> int
    decreases rs.len(),
{
    if rs.len() == 0 {
        0
    } else {
        rounds_lm_reward(l, rs.drop_last()) + ledger_round_lm_reward(l, rs.last())
    }
}

/// How many of the retained resolved rounds this ledger has already
/// claimed: rounds older than the watermark (or evicted from the
/// history altogether) are skipped.
pub open spec fn claim_skip(l: StakeLedger, a: RewardRoundAccountant) -> int {
    let len = a.resolved_rounds@.len() as int;
    let oldest = if a.resolved_count >= len {
        a.resolved_count - len
    } else {
        0
    };
    let pos = if l.claim_watermark <= oldest {
        0int
    } else {
        l.claim_watermark - oldest
    };
    if pos > len {
        len
    } else {
        pos
    }
}

/// The retained resolved rounds this ledger has not yet claimed, oldest
/// first.
pub open spec fn claimable_rounds(l: StakeLedger, a: RewardRoundAccountant) -> Seq<StakingRound> {
    a.resolved_rounds@.skip(claim_skip(l, a))
}

/// What a claim owes the ledger from the reward pool.
pub open spec fn owed_reward(l: StakeLedger, a: RewardRoundAccountant) -> int {
    rounds_reward(l, claimable_rounds(l, a))
}

/// What a claim owes the ledger from the LM pool.
pub open spec fn owed_lm_reward(l: StakeLedger, a: RewardRoundAccountant) -> int {
    rounds_lm_reward(l, claimable_rounds(l, a))
}

/// A position's per-round earnings are never negative.
proof fn lemma_locked_round_reward_nonneg(s: LockedStake, r: StakingRound)
    ensures
        locked_round_reward(s, r) >= 0,
        locked_round_lm_reward(s, r) >= 0,
{
    vstd::arithmetic::mul::lemma_mul_nonnegative(
        s.amount_with_reward_multiplier as int,
        r.rate as int,
    );
    vstd::arithmetic::mul::lemma_mul_nonnegative(
        s.amount_with_lm_reward_multiplier as int,
        r.lm_rate as int,
    );
}

/// A list of positions' per-round earnings are never negative.
proof fn lemma_locked_seq_round_reward_nonneg(ss: Seq<LockedStake>, r: StakingRound)
    ensures
        locked_seq_round_reward(ss, r) >= 0,
        locked_seq_round_lm_reward(ss, r) >= 0,
    decreases ss.len(),
{
    if ss.len() > 0 {
        lemma_locked_seq_round_reward_nonneg(ss.drop_last(), r);
        lemma_locked_round_reward_nonneg(ss.last(), r);
    }
}

/// A ledger's per-round earnings are never negative.
proof fn lemma_ledger_round_reward_nonneg(l: StakeLedger, r: StakingRound)
    ensures
        ledger_round_reward(l, r) >= 0,
        ledger_round_lm_reward(l, r) >= 0,
{
    vstd::arithmetic::mul::lemma_mul_nonnegative(l.liquid.amount as int, r.rate as int);
    lemma_locked_seq_round_reward_nonneg(l.locked@, r);
}

/// Extending a prefix of positions by one adds exactly that position's
/// earnings.
proof fn lemma_locked_seq_take_succ(ss: Seq<LockedStake>, r: StakingRound, j: int)
    requires
        0 <= j < ss.len(),
    ensures
        locked_seq_round_reward(ss.take(j + 1), r) == locked_seq_round_reward(ss.take(j), r)
            + locked_round_reward(ss[j], r),
        locked_seq_round_lm_reward(ss.take(j + 1), r) == locked_seq_round_lm_reward(ss.take(j), r)
            + locked_round_lm_reward(ss[j], r),
{
    assert(ss.take(j + 1).drop_last() =~= ss.take(j));
    assert(ss.take(j + 1).last() == ss[j]);
}

/// A prefix of positions earns no more than the whole list.
proof fn lemma_locked_seq_take_le(ss: Seq<LockedStake>, r: StakingRound, j: int)
    requires
        0 <= j <= ss.len(),
    ensures
        locked_seq_round_reward(ss.take(j), r) <= locked_seq_round_reward(ss, r),
        locked_seq_round_lm_reward(ss.take(j), r) <= locked_seq_round_lm_reward(ss, r),
    decreases ss.len() - j,
{
    if j == ss.len() {
        assert(ss.take(j) =~= ss);
    } else {
        lemma_locked_seq_take_succ(ss, r, j);
        lemma_locked_round_reward_nonneg(ss[j], r);
        lemma_locked_seq_take_le(ss, r, j + 1);
    }
}

/// Extending a prefix of rounds by one adds exactly that round's
/// earnings.
proof fn lemma_rounds_take_succ(l: StakeLedger, rs: Seq<StakingRound>, k: int)
    requires
        0 <= k < rs.len(),
    ensures
        rounds_reward(l, rs.take(k + 1)) == rounds_reward(l, rs.take(k)) + ledger_round_reward(
            l,
            rs[k],
        ),
        rounds_lm_reward(l, rs.take(k + 1)) == rounds_lm_reward(l, rs.take(k))
            + ledger_round_lm_reward(l, rs[k]),
{
    assert(rs.take(k + 1).drop_last() =~= rs.take(k));
    assert(rs.take(k + 1).last() == rs[k]);
}

/// A prefix of rounds earns no more than the whole list.
proof fn lemma_rounds_take_le(l: StakeLedger, rs: Seq<StakingRound>, k: int)
    requires
        0 <= k <= rs.len(),
    ensures
        rounds_reward(l, rs.take(k)) <= rounds_reward(l, rs),
        rounds_lm_reward(l, rs.take(k)) <= rounds_lm_reward(l, rs),
    decreases rs.len() - k,
{
    if k == rs.len() {
        assert(rs.take(k) =~= rs);
    } else {
        lemma_rounds_take_succ(l, rs, k);
        lemma_ledger_round_reward_nonneg(l, rs[k]);
        lemma_rounds_take_le(l, rs, k + 1);
    }
}

/// Adds one resolved round's earnings of the ledger onto the two
/// accumulators, or reports that the running total cannot fit.
fn add_round_payouts(l: &StakeLedger, round: &StakingRound, acc_reward: u64, acc_lm: u64) -> (r:
    Result<(u64, u64), StakeError>)
    ensures
        ({
            let target_r = acc_reward + ledger_round_reward(*l, *round);
            let target_lm = acc_lm + ledger_round_lm_reward(*l, *round);
            &&& target_r <= u64::MAX && target_lm <= u64::MAX ==> r == Ok::<
                (u64, u64),
                StakeError,
            >((target_r as u64, target_lm as u64))
            &&& target_r > u64::MAX || target_lm > u64::MAX ==> r == Err::<
                (u64, u64),
                StakeError,
            >(StakeError::ArithmeticOverflow)
        }),
{
    let ghost ss = l.locked@;
    let ghost liq_part = liquid_round_reward(l.liquid, *round);
    let mut acc_r: u64 = acc_reward;
    if l.liquid.amount > 0 && l.liquid.stake_time < round.start_time {
        match accumulate_payout(acc_r, l.liquid.amount, round.rate) {
            Ok(v) => { acc_r = v; },
            Err(e) => {
                proof {
                    lemma_locked_seq_round_reward_nonneg(ss, *round);
                }
                return Err(e);
            },
        }
    }
    let mut acc_l: u64 = acc_lm;
    let n = l.locked.len();
    let mut j: usize = 0;
    while j < n
        invariant
            n == ss.len(),
            ss == l.locked@,
            j <= n,
            liq_part == liquid_round_reward(l.liquid, *round),
            acc_r == acc_reward + liq_part + locked_seq_round_reward(ss.take(j as int), *round),
            acc_l == acc_lm + locked_seq_round_lm_reward(ss.take(j as int), *round),
        decreases n - j,
    {
        let s = l.locked[j];
        if s.stake_time < round.start_time {
            match accumulate_payout(acc_r, s.amount_with_reward_multiplier, round.rate) {
                Ok(v) => { acc_r = v; },
                Err(e) => {
                    proof {
                        lemma_locked_seq_take_succ(ss, *round, j as int);
                        lemma_locked_seq_take_le(ss, *round, j as int + 1);
                        lemma_locked_seq_round_reward_nonneg(ss.take(j as int), *round);
                    }
                    return Err(e);
                },
            }
            match accumulate_payout(acc_l, s.amount_with_lm_reward_multiplier, round.lm_rate) {
                Ok(v) => { acc_l = v; },
                Err(e) => {
                    proof {
                        lemma_locked_seq_take_succ(ss, *round, j as int);
                        lemma_locked_seq_take_le(ss, *round, j as int + 1);
                    }
                    return Err(e);
                },
            }
        }
        proof {
            lemma_locked_seq_take_succ(ss, *round, j as int);
        }
        j += 1;
    }
    proof {
        assert(ss.take(n as int) =~= ss);
    }
    Ok((acc_r, acc_l))
}

/// Computes what a claim would pay the ledger, without mutating
/// anything; the total owed from either pool must fit in a `u64`.
fn compute_claim_amounts(l: &StakeLedger, a: &RewardRoundAccountant) -> (r: Result<
    (u64, u64),
    StakeError,
>)
    ensures
        ({
            let owed_r = owed_reward(*l, *a);
            let owed_lm = owed_lm_reward(*l, *a);
            &&& owed_r <= u64::MAX && owed_lm <= u64::MAX ==> r == Ok::<(u64, u64), StakeError>(
                (owed_r as u64, owed_lm as u64),
            )
            &&& owed_r > u64::MAX || owed_lm > u64::MAX ==> r == Err::<(u64, u64), StakeError>(
                StakeError::ArithmeticOverflow,
            )
        }),
{
    let len: usize = a.resolved_rounds.len();
    let len64: u64 = len as u64;
    let oldest: u64 = if a.resolved_count >= len64 {
        a.resolved_count - len64
    } else {
        0
    };
    let pos: u64 = if l.claim_watermark <= oldest {
        0
    } else {
        l.claim_watermark - oldest
    };
    let start: usize = if pos >= len64 {
        len
    } else {
        pos as usize
    };
    let ghost cs = claimable_rounds(*l, *a);
    proof {
        assert(start as int == claim_skip(*l, *a));
    }
    let mut acc_r: u64 = 0;
    let mut acc_l: u64 = 0;
    let mut i: usize = start;
    while i < len
        invariant
            len == a.resolved_rounds@.len(),
            start as int == claim_skip(*l, *a),
            cs == claimable_rounds(*l, *a),
            start <= i <= len,
            acc_r == rounds_reward(*l, cs.take(i - start)),
            acc_l == rounds_lm_reward(*l, cs.take(i - start)),
        decreases len - i,
    {
        let ghost k: int = i - start;
        let round = a.resolved_rounds[i];
        proof {
            assert(round == cs[k]);
        }
        match add_round_payouts(l, &round, acc_r, acc_l) {
            Ok(v) => {
                acc_r = v.0;
                acc_l = v.1;
                proof {
                    lemma_ledger_round_reward_nonneg(*l, cs[k]);
                    lemma_rounds_take_succ(*l, cs, k);
                }
            },
            Err(e) => {
                proof {
                    lemma_rounds_take_succ(*l, cs, k);
                    lemma_rounds_take_le(*l, cs, k + 1);
                }
                return Err(e);
            },
        }
        i += 1;
    }
    proof {
        assert(cs.take(len - start) =~= cs);
    }
    Ok((acc_r, acc_l))
}

/// Pays out every retained resolved round past the participant's claim
/// watermark — for each, the stored effective weight of every position
/// staked before that round began, times the round's rates — and
/// advances the watermark to the accountant's resolved-round count.
///
/// Claiming when nothing is owed is a no-op success, not an error, so
/// duplicate scheduler deliveries are harmless: right after a
/// successful claim nothing further is owed.
pub fn claim_stakes(l: &mut StakeLedger, a: &RewardRoundAccountant) -> (r: Result<
    EngineEffects,
    StakeError,
>)
    ensures
        ({
            let owed_r = owed_reward(*old(l), *a);
            let owed_lm = owed_lm_reward(*old(l), *a);
            &&& (r is Ok <==> owed_r <= u64::MAX && owed_lm <= u64::MAX)
            &&& (r is Err <==> r == Err::<EngineEffects, StakeError>(
                StakeError::ArithmeticOverflow,
            ) && (owed_r > u64::MAX || owed_lm > u64::MAX))
            &&& r is Err ==> *final(l) == *old(l)
            &&& r is Ok ==> {
                &&& r == Ok::<EngineEffects, StakeError>(
                    EngineEffects {
                        reward_payout: owed_r as u64,
                        lm_reward_payout: owed_lm as u64,
                        ..EngineEffects::spec_none()
                    },
                )
                &&& final(l).claim_watermark == a.resolved_count
                &&& final(l).liquid == old(l).liquid
                &&& final(l).locked@ == old(l).locked@
                &&& a.wf() ==> owed_reward(*final(l), *a) == 0 && owed_lm_reward(*final(l), *a)
                    == 0
            }
            &&& old(l).wf() ==> final(l).wf()
        }),
{
    let (reward_payout, lm_reward_payout) = match compute_claim_amounts(l, a) {
        Ok(v) => v,
        Err(e) => { return Err(e); },
    };
    l.claim_watermark = a.resolved_count;
    proof {
        if a.wf() {
            assert(claim_skip(*l, *a) == a.resolved_rounds@.len());
            assert(claimable_rounds(*l, *a).len() == 0);
        }
    }
    let mut effects = EngineEffects::none();
    effects.reward_payout = reward_payout;
    effects.lm_reward_payout = lm_reward_payout;
    Ok(effects)
}

/// Deposits `amount` into the liquid position and credits voting power
/// 1:1. If liquid staking is already ongoing, pending rewards are
/// claimed first and the old position's contribution leaves the current
/// round, forfeiting its in-flight credit; the merged position restarts
/// at `now` and accrues from the next round on. A zero amount is an
/// invalid argument and changes nothing.
pub fn add_liquid_stake(
    l: &mut StakeLedger,
    a: &mut RewardRoundAccountant,
    amount: u64,
    now: i64,
) -> (r: Result<EngineEffects, StakeError>)
    ensures
        ({
            let had = old(l).liquid.amount > 0;
            let owed_r = owed_reward(*old(l), *old(a));
            let owed_lm = owed_lm_reward(*old(l), *old(a));
            let claim_blocked = had && (owed_r > u64::MAX || owed_lm > u64::MAX);
            let sub_blocked = had && old(a).current_round.total_stake < old(l).liquid.amount;
            let liq_overflow = old(l).liquid.amount + amount > u64::MAX;
            let next_overflow = old(a).next_round.total_stake + amount > u64::MAX;
            &&& (r == Err::<EngineEffects, StakeError>(StakeError::InvalidArgument) <==> amount
                == 0)
            &&& (r == Err::<EngineEffects, StakeError>(StakeError::ArithmeticUnderflow) <==> amount
                != 0 && !claim_blocked && sub_blocked)
            &&& (r == Err::<EngineEffects, StakeError>(StakeError::ArithmeticOverflow) <==> amount
                != 0 && (claim_blocked || (!sub_blocked && (liq_overflow || next_overflow))))
            &&& (r is Ok <==> amount != 0 && !claim_blocked && !sub_blocked && !liq_overflow
                && !next_overflow)
            &&& r is Err ==> *final(l) == *old(l) && *final(a) == *old(a)
            &&& r is Ok ==> {
                &&& r == Ok::<EngineEffects, StakeError>(
                    EngineEffects {
                        transfer_to_escrow: amount,
                        reward_payout: (if had {
                            owed_r
                        } else {
                            0
                        }) as u64,
                        lm_reward_payout: (if had {
                            owed_lm
                        } else {
                            0
                        }) as u64,
                        governance_credit: amount,
                        resume_auto_claim: true,
                        ..EngineEffects::spec_none()
                    },
                )
                &&& final(l).liquid.amount == old(l).liquid.amount + amount
                &&& final(l).liquid.stake_time == now
                &&& final(l).locked@ == old(l).locked@
                &&& final(l).claim_watermark == (if had {
                    old(a).resolved_count
                } else {
                    old(l).claim_watermark
                })
                &&& final(a).current_round == (if had {
                    StakingRound {
                        total_stake: (old(a).current_round.total_stake
                            - old(l).liquid.amount) as u64,
                        ..old(a).current_round
                    }
                } else {
                    old(a).current_round
                })
                &&& final(a).next_round == (StakingRound {
                    total_stake: (old(a).next_round.total_stake + amount) as u64,
                    ..old(a).next_round
                })
                &&& final(a).resolved_rounds@ == old(a).resolved_rounds@
                &&& final(a).resolved_count == old(a).resolved_count
            }
            &&& old(l).wf() ==> final(l).wf()
            &&& old(a).wf() ==> final(a).wf()
        }),
{
    if amount == 0 {
        return Err(StakeError::InvalidArgument);
    }
    let had = l.liquid.amount > 0;
    let mut reward_payout: u64 = 0;
    let mut lm_reward_payout: u64 = 0;
    let mut new_current_total = a.current_round.total_stake;
    if had {
        match compute_claim_amounts(&*l, &*a) {
            Ok(v) => {
                reward_payout = v.0;
                lm_reward_payout = v.1;
            },
            Err(e) => { return Err(e); },
        }
        match crate::math::checked_sub_u64(a.current_round.total_stake, l.liquid.amount) {
            Ok(v) => { new_current_total = v; },
            Err(e) => { return Err(e); },
        }
    }
    let new_liquid_amount = match checked_add_u64(l.liquid.amount, amount) {
        Ok(v) => v,
        Err(e) => { return Err(e); },
    };
    let new_next_total = match checked_add_u64(a.next_round.total_stake, amount) {
        Ok(v) => v,
        Err(e) => { return Err(e); },
    };
    if had {
        l.claim_watermark = a.resolved_count;
        a.current_round.total_stake = new_current_total;
    }
    l.liquid.amount = new_liquid_amount;
    l.liquid.stake_time = now;
    a.next_round.total_stake = new_next_total;
    let mut effects = EngineEffects::none();
    effects.transfer_to_escrow = amount;
    effects.reward_payout = reward_payout;
    effects.lm_reward_payout = lm_reward_payout;
    effects.governance_credit = amount;
    effects.resume_auto_claim = true;
    Ok(effects)
}

/// The position `add_locked_stake` appends for a deposit of `amount`
/// at `now` under the table row `o`.
pub open spec fn spec_new_locked_stake(
    amount: u64,
    o: crate::options::LockedStakingOption,
    resolution_trigger_id: u64,
    now: i64,
) -> LockedStake {
    LockedStake {
        amount,
        stake_time: now,
        claim_time: 0,
        lock_duration: (o.locked_days * SECONDS_PER_DAY) as u64,
        base_reward_multiplier: o.base_reward_multiplier,
        lm_reward_multiplier: o.lm_reward_multiplier,
        vote_multiplier: o.vote_multiplier,
        amount_with_reward_multiplier: scaled_bps(amount, o.base_reward_multiplier) as u64,
        amount_with_lm_reward_multiplier: scaled_bps(amount, o.lm_reward_multiplier) as u64,
        resolved: false,
        resolution_trigger_id,
    }
}

/// Deposits `amount` as a new locked position for `locked_days` days —
/// which must match a row of the staking-option table — weighting its
/// reward shares by the row's multipliers (integer truncation is
/// accepted rounding loss). The weighted amounts accrue into the next
/// round, voting power is credited at the row's vote multiplier, and
/// the caller must register a trigger firing at maturity that targets
/// `resolve_locked_stake` for this position. A zero amount or an
/// unsupported lock length is an invalid argument and changes nothing.
pub fn add_locked_stake(
    l: &mut StakeLedger,
    a: &mut RewardRoundAccountant,
    amount: u64,
    locked_days: u32,
    resolution_trigger_id: u64,
    now: i64,
) -> (r: Result<EngineEffects, StakeError>)
    ensures
        ({
            let opt = spec_staking_option(locked_days);
            let arg_bad = amount == 0 || opt is None;
            let o = opt.unwrap();
            let weighted = scaled_bps(amount, o.base_reward_multiplier);
            let weighted_lm = scaled_bps(amount, o.lm_reward_multiplier);
            let vote_power = scaled_bps(amount, o.vote_multiplier);
            let end_time = now + o.locked_days * SECONDS_PER_DAY;
            let overflows = weighted > u64::MAX || weighted_lm > u64::MAX || vote_power > u64::MAX
                || end_time > i64::MAX || old(a).next_round.total_stake + weighted > u64::MAX
                || old(a).next_round.lm_total_stake + weighted_lm > u64::MAX;
            &&& (r == Err::<EngineEffects, StakeError>(StakeError::InvalidArgument) <==> arg_bad)
            &&& (r == Err::<EngineEffects, StakeError>(StakeError::ArithmeticOverflow) <==> !arg_bad
                && overflows)
            &&& (r is Ok <==> !arg_bad && !overflows)
            &&& r is Err ==> *final(l) == *old(l) && *final(a) == *old(a)
            &&& r is Ok ==> {
                &&& r == Ok::<EngineEffects, StakeError>(
                    EngineEffects {
                        transfer_to_escrow: amount,
                        governance_credit: vote_power as u64,
                        schedule_resolution: Some(
                            TriggerRequest {
                                trigger_id: resolution_trigger_id,
                                fire_at: end_time as i64,
                            },
                        ),
                        resume_auto_claim: true,
                        ..EngineEffects::spec_none()
                    },
                )
                &&& final(l).locked@ == old(l).locked@.push(
                    spec_new_locked_stake(amount, o, resolution_trigger_id, now),
                )
                &&& final(l).liquid == old(l).liquid
                &&& final(l).claim_watermark == old(l).claim_watermark
                &&& final(a).next_round == (StakingRound {
                    total_stake: (old(a).next_round.total_stake + weighted) as u64,
                    lm_total_stake: (old(a).next_round.lm_total_stake + weighted_lm) as u64,
                    ..old(a).next_round
                })
                &&& final(a).current_round == old(a).current_round
                &&& final(a).resolved_rounds@ == old(a).resolved_rounds@
                &&& final(a).resolved_count == old(a).resolved_count
            }
            &&& old(l).wf() ==> final(l).wf()
            &&& old(a).wf() ==> final(a).wf()
        }),
{
    if amount == 0 {
        return Err(StakeError::InvalidArgument);
    }
    let o = match get_locked_staking_option(locked_days) {
        Ok(o) => o,
        Err(e) => { return Err(e); },
    };
    let weighted = match apply_bps(amount, o.base_reward_multiplier) {
        Ok(v) => v,
        Err(e) => { return Err(e); },
    };
    let weighted_lm = match apply_bps(amount, o.lm_reward_multiplier) {
        Ok(v) => v,
        Err(e) => { return Err(e); },
    };
    let vote_power = match apply_bps(amount, o.vote_multiplier) {
        Ok(v) => v,
        Err(e) => { return Err(e); },
    };
    let lock_duration: u64 = (o.locked_days as u64) * SECONDS_PER_DAY;
    if (now as i128) + (lock_duration as i128) > i64::MAX as i128 {
        return Err(StakeError::ArithmeticOverflow);
    }
    let fire_at: i64 = now + lock_duration as i64;
    let new_next_total = match checked_add_u64(a.next_round.total_stake, weighted) {
        Ok(v) => v,
        Err(e) => { return Err(e); },
    };
    let new_next_lm_total = match checked_add_u64(a.next_round.lm_total_stake, weighted_lm) {
        Ok(v) => v,
        Err(e) => { return Err(e); },
    };
    let entry = LockedStake {
        amount,
        stake_time: now,
        claim_time: 0,
        lock_duration,
        base_reward_multiplier: o.base_reward_multiplier,
        lm_reward_multiplier: o.lm_reward_multiplier,
        vote_multiplier: o.vote_multiplier,
        amount_with_reward_multiplier: weighted,
        amount_with_lm_reward_multiplier: weighted_lm,
        resolved: false,
        resolution_trigger_id,
    };
    l.locked.push(entry);
    a.next_round.total_stake = new_next_total;
    a.next_round.lm_total_stake = new_next_lm_total;
    proof {
        if old(l).wf() {
            assert forall|i: int| 0 <= i < l.locked@.len() implies (#[trigger] l.locked@[i]).wf()
            by {
                if i < old(l).locked@.len() {
                    assert(old(l).locked@[i].wf());
                }
            }
        }
    }
    let mut effects = EngineEffects::none();
    effects.transfer_to_escrow = amount;
    effects.governance_credit = vote_power;
    effects.schedule_resolution = Some(
        TriggerRequest { trigger_id: resolution_trigger_id, fire_at },
    );
    effects.resume_auto_claim = true;
    Ok(effects)
}

} // verus!
