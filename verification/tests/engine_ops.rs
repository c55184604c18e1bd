//! Stake lifecycle: adding, resolving and removing positions.

use staking_engine::engine::{
    add_liquid_stake, add_locked_stake, remove_liquid_stake, remove_locked_stake,
    resolve_locked_stake, EngineEffects, TriggerRequest,
};
use staking_engine::errors::StakeError;
use staking_engine::ledger::{LiquidStake, StakeLedger};
use staking_engine::options::get_locked_staking_option;
use staking_engine::round::RewardRoundAccountant;

const DAY: i64 = 86_400;

#[test]
fn zero_amount_liquid_is_invalid_argument_and_changes_nothing() {
    let mut l = StakeLedger::new();
    let mut a = RewardRoundAccountant::new(1_000);
    let before_liquid = l.liquid;
    let before_locked = l.locked.clone();
    let r = add_liquid_stake(&mut l, &mut a, 0, 2_000);
    assert_eq!(r, Err(StakeError::InvalidArgument));
    assert_eq!(l.liquid, before_liquid);
    assert_eq!(l.locked, before_locked);
    assert_eq!(l.claim_watermark, 0);
    assert_eq!(a.current_round.total_stake, 0);
    assert_eq!(a.next_round.total_stake, 0);
    assert_eq!(a.resolved_count, 0);
}

#[test]
fn zero_amount_locked_is_invalid_argument_and_changes_nothing() {
    let mut l = StakeLedger::new();
    let mut a = RewardRoundAccountant::new(1_000);
    let r = add_locked_stake(&mut l, &mut a, 0, 30, 1, 2_000);
    assert_eq!(r, Err(StakeError::InvalidArgument));
    assert!(l.locked.is_empty());
    assert_eq!(a.next_round.total_stake, 0);
    assert_eq!(a.next_round.lm_total_stake, 0);
}

#[test]
fn unsupported_lock_days_is_invalid_argument() {
    let mut l = StakeLedger::new();
    let mut a = RewardRoundAccountant::new(1_000);
    let r = add_locked_stake(&mut l, &mut a, 500, 45, 1, 2_000);
    assert_eq!(r, Err(StakeError::InvalidArgument));
    assert!(l.locked.is_empty());
    assert_eq!(get_locked_staking_option(45), Err(StakeError::InvalidArgument));
}

#[test]
fn add_liquid_accrues_into_next_round_and_credits_power() {
    let mut l = StakeLedger::new();
    let mut a = RewardRoundAccountant::new(1_000);
    let r = add_liquid_stake(&mut l, &mut a, 700, 2_000).unwrap();
    assert_eq!(
        r,
        EngineEffects {
            transfer_to_escrow: 700,
            transfer_to_owner: 0,
            reward_payout: 0,
            lm_reward_payout: 0,
            governance_credit: 700,
            governance_debit: 0,
            schedule_resolution: None,
            resume_auto_claim: true,
        }
    );
    assert_eq!(l.liquid, LiquidStake { amount: 700, stake_time: 2_000 });
    assert_eq!(a.current_round.total_stake, 0);
    assert_eq!(a.next_round.total_stake, 700);
}

#[test]
fn add_locked_schedules_resolution_at_maturity() {
    let mut l = StakeLedger::new();
    let mut a = RewardRoundAccountant::new(1_000);
    let r = add_locked_stake(&mut l, &mut a, 1_000_000, 30, 42, 1_000).unwrap();
    assert_eq!(
        r.schedule_resolution,
        Some(TriggerRequest { trigger_id: 42, fire_at: 1_000 + 30 * DAY })
    );
    assert!(r.resume_auto_claim);
    assert_eq!(r.transfer_to_escrow, 1_000_000);
    assert_eq!(r.governance_credit, 1_000_000);
    let s = l.locked[0];
    assert_eq!(s.amount, 1_000_000);
    assert_eq!(s.stake_time, 1_000);
    assert_eq!(s.lock_duration, 30 * DAY as u64);
    assert!(!s.resolved);
    assert_eq!(s.resolution_trigger_id, 42);
    assert_eq!(a.next_round.total_stake, 1_000_000);
    assert_eq!(a.next_round.lm_total_stake, 1_000_000);
}

#[test]
fn multiplier_one_to_one_keeps_amount() {
    // 10_000 bps is 1.0x: the 30-day row.
    let mut l = StakeLedger::new();
    let mut a = RewardRoundAccountant::new(0);
    add_locked_stake(&mut l, &mut a, 1_000_000, 30, 1, 0).unwrap();
    assert_eq!(l.locked[0].base_reward_multiplier, 10_000);
    assert_eq!(l.locked[0].amount_with_reward_multiplier, 1_000_000);
}

#[test]
fn multiplier_one_and_a_half_scales_amount() {
    // 15_000 bps is 1.5x: the 90-day row.
    let mut l = StakeLedger::new();
    let mut a = RewardRoundAccountant::new(0);
    add_locked_stake(&mut l, &mut a, 1_000_000, 90, 1, 0).unwrap();
    assert_eq!(l.locked[0].base_reward_multiplier, 15_000);
    assert_eq!(l.locked[0].amount_with_reward_multiplier, 1_500_000);
}

#[test]
fn multiplier_truncates_fractional_remainder() {
    let mut l = StakeLedger::new();
    let mut a = RewardRoundAccountant::new(0);
    add_locked_stake(&mut l, &mut a, 999_999, 90, 1, 0).unwrap();
    // 999_999 * 15_000 / 10_000 = 1_499_998.5, truncated.
    assert_eq!(l.locked[0].amount_with_reward_multiplier, 1_499_998);
}

#[test]
fn resolve_locked_before_maturity_fails_then_succeeds_idempotently() {
    let mut l = StakeLedger::new();
    let mut a = RewardRoundAccountant::new(1_000);
    add_locked_stake(&mut l, &mut a, 500, 30, 9, 1_000).unwrap();
    let maturity: i64 = 1_000 + 30 * DAY;

    assert_eq!(resolve_locked_stake(&mut l, 0, maturity - 1), Err(StakeError::InvalidState));
    assert!(!l.locked[0].resolved);

    assert_eq!(resolve_locked_stake(&mut l, 0, maturity), Ok(()));
    assert!(l.locked[0].resolved);
    assert_eq!(l.locked[0].claim_time, maturity);

    // A duplicate delivery is an idempotent no-op.
    assert_eq!(resolve_locked_stake(&mut l, 0, maturity + 500), Ok(()));
    assert!(l.locked[0].resolved);
    assert_eq!(l.locked[0].claim_time, maturity);
}

#[test]
fn resolve_locked_out_of_range_is_invalid_argument() {
    let mut l = StakeLedger::new();
    assert_eq!(resolve_locked_stake(&mut l, 0, 5), Err(StakeError::InvalidArgument));
}

#[test]
fn remove_locked_before_resolved_fails_then_succeeds_exactly_once() {
    let mut l = StakeLedger::new();
    let mut a = RewardRoundAccountant::new(1_000);
    add_locked_stake(&mut l, &mut a, 1_000_000, 30, 9, 1_000).unwrap();

    assert_eq!(remove_locked_stake(&mut l, &mut a, 0), Err(StakeError::InvalidState));
    assert_eq!(l.locked.len(), 1);

    let maturity: i64 = 1_000 + 30 * DAY;
    resolve_locked_stake(&mut l, 0, maturity).unwrap();
    let eff = remove_locked_stake(&mut l, &mut a, 0).unwrap();
    assert_eq!(eff.transfer_to_owner, 1_000_000);
    assert_eq!(eff.governance_debit, 1_000_000);
    assert!(l.locked.is_empty());
    assert_eq!(a.next_round.total_stake, 0);
    assert_eq!(a.next_round.lm_total_stake, 0);

    // The entry is gone and cannot be removed again.
    assert_eq!(remove_locked_stake(&mut l, &mut a, 0), Err(StakeError::InvalidArgument));
}

#[test]
fn remove_liquid_returns_funds_and_clears_stake_time_at_zero() {
    let mut l = StakeLedger::new();
    let mut a = RewardRoundAccountant::new(1_000);
    add_liquid_stake(&mut l, &mut a, 900, 2_000).unwrap();

    let eff = remove_liquid_stake(&mut l, &mut a, 400).unwrap();
    assert_eq!(eff.transfer_to_owner, 400);
    assert_eq!(eff.governance_debit, 400);
    assert_eq!(l.liquid, LiquidStake { amount: 500, stake_time: 2_000 });
    assert_eq!(a.next_round.total_stake, 500);

    let eff2 = remove_liquid_stake(&mut l, &mut a, 500).unwrap();
    assert_eq!(eff2.transfer_to_owner, 500);
    assert_eq!(l.liquid, LiquidStake { amount: 0, stake_time: 0 });
    assert_eq!(a.next_round.total_stake, 0);
}

#[test]
fn remove_liquid_more_than_staked_is_invalid_argument() {
    let mut l = StakeLedger::new();
    let mut a = RewardRoundAccountant::new(1_000);
    add_liquid_stake(&mut l, &mut a, 100, 2_000).unwrap();
    assert_eq!(remove_liquid_stake(&mut l, &mut a, 101), Err(StakeError::InvalidArgument));
    assert_eq!(remove_liquid_stake(&mut l, &mut a, 0), Err(StakeError::InvalidArgument));
    assert_eq!(l.liquid.amount, 100);
}

#[test]
fn oversized_locked_stake_overflows() {
    let mut l = StakeLedger::new();
    let mut a = RewardRoundAccountant::new(0);
    // 2.5x of u64::MAX cannot be represented.
    let r = add_locked_stake(&mut l, &mut a, u64::MAX, 360, 1, 0);
    assert_eq!(r, Err(StakeError::ArithmeticOverflow));
    assert!(l.locked.is_empty());
}

#[test]
fn liquid_merge_overflow_is_reported() {
    let mut l = StakeLedger::new();
    l.liquid = LiquidStake { amount: u64::MAX, stake_time: 5 };
    let mut a = RewardRoundAccountant::new(0);
    a.current_round.total_stake = u64::MAX;
    let r = add_liquid_stake(&mut l, &mut a, 1, 10);
    assert_eq!(r, Err(StakeError::ArithmeticOverflow));
    assert_eq!(l.liquid.amount, u64::MAX);
    assert_eq!(a.current_round.total_stake, u64::MAX);
}

#[test]
fn liquid_merge_underflow_is_reported() {
    // A current round that no longer counts the old position cannot
    // give its contribution back.
    let mut l = StakeLedger::new();
    l.liquid = LiquidStake { amount: 600, stake_time: 5 };
    let mut a = RewardRoundAccountant::new(0);
    a.current_round.total_stake = 599;
    let r = add_liquid_stake(&mut l, &mut a, 1, 10);
    assert_eq!(r, Err(StakeError::ArithmeticUnderflow));
    assert_eq!(l.liquid.amount, 600);
}

#[test]
fn external_call_failure_is_its_own_kind() {
    // The engine never produces this kind; embedders report
    // collaborator failures with it.
    let e = StakeError::ExternalCallFailure;
    assert_ne!(e, StakeError::InvalidArgument);
    assert_ne!(e, StakeError::ArithmeticOverflow);
    assert_eq!(e, StakeError::ExternalCallFailure);
}
