//! Round resolution, claims, and conservation of the reward pool.

use staking_engine::engine::{
    add_liquid_stake, add_locked_stake, claim_stakes, remove_locked_stake, resolve_locked_stake,
};
use staking_engine::errors::StakeError;
use staking_engine::ledger::StakeLedger;
use staking_engine::round::{
    resolve_staking_round, RewardRoundAccountant, MAX_RESOLVED_ROUNDS,
    ROUND_MIN_DURATION_SECONDS,
};

const DAY: i64 = 86_400;

#[test]
fn premature_round_resolution_fails_round_not_ready() {
    let mut a = RewardRoundAccountant::new(1_000);
    let r = resolve_staking_round(&mut a, 1_000 + ROUND_MIN_DURATION_SECONDS - 1, 50, 50);
    assert_eq!(r, Err(StakeError::RoundNotReady));
    assert_eq!(a.resolved_count, 0);
    assert!(a.resolved_rounds.is_empty());
}

#[test]
fn empty_round_resolves_to_zero_rate_without_error() {
    let mut a = RewardRoundAccountant::new(1_000);
    let t1 = 1_000 + ROUND_MIN_DURATION_SECONDS;
    resolve_staking_round(&mut a, t1, 12_345, 777).unwrap();
    assert_eq!(a.resolved_rounds.len(), 1);
    let archived = a.resolved_rounds[0];
    assert_eq!(archived.total_stake, 0);
    assert_eq!(archived.rate, 0);
    assert_eq!(archived.lm_rate, 0);
    assert_eq!(archived.start_time, 1_000);
    assert_eq!(a.current_round.start_time, t1);
    assert_eq!(a.next_round.total_stake, 0);
    assert_eq!(a.resolved_count, 1);
}

#[test]
fn promotion_carries_accrued_stake_forward() {
    let mut l = StakeLedger::new();
    let mut a = RewardRoundAccountant::new(1_000);
    add_liquid_stake(&mut l, &mut a, 250, 1_000).unwrap();
    assert_eq!(a.next_round.total_stake, 250);
    let t1 = 1_000 + ROUND_MIN_DURATION_SECONDS;
    resolve_staking_round(&mut a, t1, 0, 0).unwrap();
    assert_eq!(a.current_round.total_stake, 250);
    assert_eq!(a.next_round.total_stake, 0);
    let t2 = t1 + ROUND_MIN_DURATION_SECONDS;
    resolve_staking_round(&mut a, t2, 0, 0).unwrap();
    assert_eq!(a.current_round.total_stake, 250);
}

#[test]
fn history_evicts_oldest_when_full() {
    let mut a = RewardRoundAccountant::new(0);
    let mut now: i64 = 0;
    for i in 0..(MAX_RESOLVED_ROUNDS + 3) {
        now += ROUND_MIN_DURATION_SECONDS;
        resolve_staking_round(&mut a, now, i as u64, 0).unwrap();
    }
    assert_eq!(a.resolved_rounds.len(), MAX_RESOLVED_ROUNDS);
    assert_eq!(a.resolved_count, (MAX_RESOLVED_ROUNDS + 3) as u64);
    // The oldest retained round started when the third round was
    // promoted.
    assert_eq!(a.resolved_rounds[0].start_time, 3 * ROUND_MIN_DURATION_SECONDS);
}

#[test]
fn claim_with_nothing_owed_is_a_no_op_success() {
    let mut l = StakeLedger::new();
    let a = RewardRoundAccountant::new(1_000);
    let eff = claim_stakes(&mut l, &a).unwrap();
    assert_eq!(eff.reward_payout, 0);
    assert_eq!(eff.lm_reward_payout, 0);
    assert_eq!(l.claim_watermark, 0);
}

/// The reference scenario: 1,000,000 units locked for 30 days, one
/// empty round, then one reward-funded round; the claim pays a fixed,
/// reproducible vector.
#[test]
fn locked_stake_thirty_days_reference_scenario() {
    let mut l = StakeLedger::new();
    let mut a = RewardRoundAccountant::new(1_000);

    let eff = add_locked_stake(&mut l, &mut a, 1_000_000, 30, 7, 1_000).unwrap();
    assert_eq!(eff.schedule_resolution.unwrap().fire_at, 1_000 + 30 * DAY);
    assert_eq!(a.next_round.total_stake, 1_000_000);
    assert_eq!(a.next_round.lm_total_stake, 1_000_000);

    // One empty round elapses: the position was staked during it, so
    // it earns nothing there.
    let t1 = 1_000 + ROUND_MIN_DURATION_SECONDS;
    resolve_staking_round(&mut a, t1, 0, 0).unwrap();
    assert_eq!(a.current_round.total_stake, 1_000_000);

    // A reward-funded round: 2,500,000 reward units over 1,000,000
    // effective stake fixes rate 2 (500,000 truncation loss stays in
    // escrow); 1,999,999 LM units fix LM rate 1.
    let t2 = t1 + ROUND_MIN_DURATION_SECONDS;
    resolve_staking_round(&mut a, t2, 2_500_000, 1_999_999).unwrap();
    let funded = a.resolved_rounds[1];
    assert_eq!(funded.rate, 2);
    assert_eq!(funded.lm_rate, 1);

    let eff = claim_stakes(&mut l, &a).unwrap();
    assert_eq!(eff.reward_payout, 2_000_000);
    assert_eq!(eff.lm_reward_payout, 1_000_000);
    assert_eq!(l.claim_watermark, 2);

    // A second claim right away owes nothing more.
    let eff2 = claim_stakes(&mut l, &a).unwrap();
    assert_eq!(eff2.reward_payout, 0);
    assert_eq!(eff2.lm_reward_payout, 0);

    // The scheduler fires at maturity; the position resolves and can
    // be withdrawn exactly once.
    let maturity = 1_000 + 30 * DAY;
    resolve_locked_stake(&mut l, 0, maturity).unwrap();
    let out = remove_locked_stake(&mut l, &mut a, 0).unwrap();
    assert_eq!(out.transfer_to_owner, 1_000_000);
    assert!(l.locked.is_empty());
}

/// Conservation on concrete values: two claimants' payouts against one
/// resolved round sum to no more than `rate * total_stake`, which in
/// turn never exceeds the collected pool.
#[test]
fn claims_of_two_participants_never_exceed_the_round_pool() {
    let mut alice = StakeLedger::new();
    let mut bob = StakeLedger::new();
    let mut a = RewardRoundAccountant::new(1_000);

    add_locked_stake(&mut alice, &mut a, 600_000, 30, 1, 1_000).unwrap();
    add_locked_stake(&mut bob, &mut a, 400_000, 30, 2, 1_000).unwrap();
    assert_eq!(a.next_round.total_stake, 1_000_000);

    let t1 = 1_000 + ROUND_MIN_DURATION_SECONDS;
    resolve_staking_round(&mut a, t1, 0, 0).unwrap();
    let t2 = t1 + ROUND_MIN_DURATION_SECONDS;
    let pool: u64 = 2_500_000;
    resolve_staking_round(&mut a, t2, pool, 0).unwrap();
    let round = a.resolved_rounds[1];
    assert_eq!(round.total_stake, 1_000_000);
    assert_eq!(round.rate, 2);

    let paid_alice = claim_stakes(&mut alice, &a).unwrap().reward_payout;
    let paid_bob = claim_stakes(&mut bob, &a).unwrap().reward_payout;
    assert_eq!(paid_alice, 1_200_000);
    assert_eq!(paid_bob, 800_000);
    assert!(paid_alice + paid_bob <= round.rate * round.total_stake);
    assert!(round.rate * round.total_stake <= pool);
}

#[test]
fn restaking_liquid_claims_pending_rewards_and_forfeits_current_round() {
    let mut l = StakeLedger::new();
    let mut a = RewardRoundAccountant::new(1_000);
    add_liquid_stake(&mut l, &mut a, 1_000, 1_000).unwrap();

    let t1 = 1_000 + ROUND_MIN_DURATION_SECONDS;
    resolve_staking_round(&mut a, t1, 0, 0).unwrap();
    let t2 = t1 + ROUND_MIN_DURATION_SECONDS;
    resolve_staking_round(&mut a, t2, 3_000, 0).unwrap();
    assert_eq!(a.resolved_rounds[1].rate, 3);
    assert_eq!(a.current_round.total_stake, 1_000);

    // Adding to the ongoing liquid position pays the pending claim in
    // the same transaction and restarts accrual from the next round.
    let eff = add_liquid_stake(&mut l, &mut a, 500, t2 + 10).unwrap();
    assert_eq!(eff.reward_payout, 3_000);
    assert_eq!(eff.governance_credit, 500);
    assert_eq!(l.liquid.amount, 1_500);
    assert_eq!(l.liquid.stake_time, t2 + 10);
    assert_eq!(l.claim_watermark, 2);
    // The old contribution left the current round; only the new
    // amount entered the next round.
    assert_eq!(a.current_round.total_stake, 0);
    assert_eq!(a.next_round.total_stake, 500);
}
