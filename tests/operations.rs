use larix_lending::error::LendingError;
use larix_lending::last_update::LastUpdate;
use larix_lending::math::{Decimal, Rate, WAD};
use larix_lending::obligation::{Obligation, ObligationCollateral, ObligationLiquidity};
use larix_lending::operations::{
    borrow_obligation_liquidity, deposit_obligation_collateral, liquidate_obligation, refresh_obligation,
    repay_obligation_liquidity, withdraw_obligation_collateral,
};
use larix_lending::pubkey::Pubkey;
use larix_lending::reserve::{FeeCalculation, Reserve, ReserveConfig};

const MAX_COMPOUNDED_INTEREST: u64 = 100;

fn key(b: u8) -> Pubkey {
    Pubkey::new_from_array([b; 32])
}

fn fresh_reserve(slot: u64) -> Reserve {
    let mut r = Reserve::default();
    r.version = 1;
    r.last_update = LastUpdate { slot, stale: false };
    r.liquidity.cumulative_borrow_rate_wads = Decimal::one();
    r.liquidity.market_price = Decimal::one();
    r.config = ReserveConfig {
        optimal_utilization_rate: 80,
        loan_to_value_ratio: 50,
        liquidation_bonus: 5,
        liquidation_threshold: 55,
        min_borrow_rate: 0,
        optimal_borrow_rate: 10,
        max_borrow_rate: 100,
        ..ReserveConfig::default()
    };
    r
}

fn fresh_obligation(slot: u64) -> Obligation {
    let mut o = Obligation::default();
    o.version = 1;
    o.last_update = LastUpdate { slot, stale: false };
    o
}

#[test]
fn obligation_accrue_interest_failure() {
    assert_eq!(
        ObligationLiquidity { cumulative_borrow_rate_wads: Decimal::zero(), ..ObligationLiquidity::default() }
            .accrue_interest(Decimal::one()),
        Err(LendingError::MathOverflow)
    );

    assert_eq!(
        ObligationLiquidity { cumulative_borrow_rate_wads: Decimal::from(2u64), ..ObligationLiquidity::default() }
            .accrue_interest(Decimal::one()),
        Err(LendingError::NegativeInterestRate)
    );

    assert_eq!(
        ObligationLiquidity {
            cumulative_borrow_rate_wads: Decimal::one(),
            borrowed_amount_wads: Decimal::from(u64::MAX),
            ..ObligationLiquidity::default()
        }
        .accrue_interest(Decimal::from(10 * MAX_COMPOUNDED_INTEREST)),
        Err(LendingError::MathOverflow)
    );
}

#[test]
fn accrue_interest_equal_and_larger_rates() {
    let start = ObligationLiquidity {
        cumulative_borrow_rate_wads: Decimal::from_scaled_val(1_500_000_000_000_000_000),
        borrowed_amount_wads: Decimal::from(1000u64),
        ..ObligationLiquidity::default()
    };
    let mut same = start;
    assert_eq!(same.accrue_interest(start.cumulative_borrow_rate_wads), Ok(()));
    assert_eq!(same, start);
    let mut grown = start;
    assert_eq!(grown.accrue_interest(Decimal::from(3u64)), Ok(()));
    assert_eq!(grown.borrowed_amount_wads, Decimal::from(2000u64));
    assert_eq!(grown.cumulative_borrow_rate_wads, Decimal::from(3u64));
    assert!(grown.borrowed_amount_wads > start.borrowed_amount_wads);
}

#[test]
fn repay_partial() {
    let borrowed_amount_wads = Decimal::from_scaled_val(3 * WAD + 7);
    let mut obligation = Obligation {
        borrows: vec![ObligationLiquidity { borrowed_amount_wads, ..ObligationLiquidity::default() }],
        ..Obligation::default()
    };
    obligation.repay(Decimal::from_scaled_val(3 * WAD), 0).unwrap();
    assert!(obligation.borrows[0].borrowed_amount_wads < borrowed_amount_wads);
    assert!(obligation.borrows[0].borrowed_amount_wads > Decimal::zero());
    assert_eq!(obligation.borrows[0].borrowed_amount_wads, Decimal::from_scaled_val(7));
}

#[test]
fn repay_full() {
    let borrowed_amount_wads = Decimal::from_scaled_val(5 * WAD);
    let mut obligation = Obligation {
        borrows: vec![ObligationLiquidity { borrowed_amount_wads, ..ObligationLiquidity::default() }],
        ..Obligation::default()
    };
    obligation.repay(Decimal::from_scaled_val(5 * WAD), 0).unwrap();
    assert_eq!(obligation.borrows.len(), 0);
}

#[test]
fn interest_curve_at_half_utilization() {
    let mut reserve = fresh_reserve(1);
    assert_eq!(reserve.deposit_liquidity(1_000_000), Ok(1_000_000));
    assert_eq!(reserve.liquidity.available_amount, 1_000_000);
    assert_eq!(reserve.collateral.mint_total_supply, 1_000_000);
    reserve.liquidity.borrow(Decimal::from(500_000u64)).unwrap();
    assert_eq!(reserve.liquidity.available_amount, 500_000);
    assert_eq!(reserve.liquidity.utilization_rate(), Ok(Rate::from_percent(50)));
    assert_eq!(reserve.current_borrow_rate(), Ok(Rate::from_scaled_val(62_500_000_000_000_000)));
}

#[test]
fn borrow_rate_curve_points() {
    let config = fresh_reserve(0).config;
    assert_eq!(config.borrow_rate_at(Rate::zero()), Ok(Rate::zero()));
    assert_eq!(config.borrow_rate_at(Rate::from_percent(80)), Ok(Rate::from_percent(10)));
    assert_eq!(config.borrow_rate_at(Rate::from_percent(90)), Ok(Rate::from_scaled_val(550_000_000_000_000_000)));
    assert_eq!(config.borrow_rate_at(Rate::one()), Ok(Rate::from_percent(100)));
    let bad = ReserveConfig { min_borrow_rate: 20, optimal_borrow_rate: 10, ..config.clone() };
    assert_eq!(bad.borrow_rate_at(Rate::zero()), Err(LendingError::InvalidConfig));
    assert_eq!(bad.validate(), Err(LendingError::InvalidConfig));
    assert_eq!(config.validate(), Ok(()));
}

fn unhealthy_setup(borrowed_value: u64) -> (Obligation, Reserve, Reserve) {
    let slot = 10;
    let mut obligation = fresh_obligation(slot);
    obligation.deposits.push(ObligationCollateral {
        deposit_reserve: key(2),
        deposited_amount: 1000,
        market_value: Decimal::from(200u64),
        ..ObligationCollateral::default()
    });
    obligation.borrows.push(ObligationLiquidity {
        borrow_reserve: key(1),
        cumulative_borrow_rate_wads: Decimal::one(),
        borrowed_amount_wads: Decimal::from(100u64),
        market_value: Decimal::from(110u64),
        ..ObligationLiquidity::default()
    });
    obligation.borrowed_value = Decimal::from(borrowed_value);
    obligation.unhealthy_borrow_value = Decimal::from(100u64);
    let mut repay_reserve = fresh_reserve(slot);
    repay_reserve.liquidity.borrowed_amount_wads = Decimal::from(100u64);
    let withdraw_reserve = fresh_reserve(slot);
    (obligation, repay_reserve, withdraw_reserve)
}

#[test]
fn liquidation_of_unhealthy_obligation() {
    let (mut obligation, mut repay_reserve, withdraw_reserve) = unhealthy_setup(110);
    let result = liquidate_obligation(&mut obligation, &mut repay_reserve, &key(1), &withdraw_reserve, &key(2), u64::MAX, 10).unwrap();
    assert_eq!(result.settle_amount, Decimal::from(50u64));
    assert_eq!(result.repay_amount, 50);
    assert_eq!(result.withdraw_amount, 288);
    assert_eq!(obligation.borrows[0].borrowed_amount_wads, Decimal::from(50u64));
    assert_eq!(obligation.deposits[0].deposited_amount, 712);
    assert!(obligation.last_update.stale);
    assert_eq!(repay_reserve.liquidity.available_amount, 50);
    assert_eq!(repay_reserve.liquidity.borrowed_amount_wads, Decimal::from(50u64));
}

#[test]
fn liquidation_of_healthy_obligation_fails() {
    let (mut obligation, mut repay_reserve, withdraw_reserve) = unhealthy_setup(90);
    let before = obligation.clone();
    assert_eq!(
        liquidate_obligation(&mut obligation, &mut repay_reserve, &key(1), &withdraw_reserve, &key(2), u64::MAX, 10),
        Err(LendingError::ObligationHealthy)
    );
    assert_eq!(obligation, before);
}

#[test]
fn liquidation_takes_whole_deposit_when_collateral_runs_short() {
    let (mut obligation, mut repay_reserve, withdraw_reserve) = unhealthy_setup(110);
    obligation.deposits[0].market_value = Decimal::from_scaled_val(28_875_000_000_000_000_000);
    let result = liquidate_obligation(&mut obligation, &mut repay_reserve, &key(1), &withdraw_reserve, &key(2), u64::MAX, 10).unwrap();
    assert_eq!(result.withdraw_amount, 1000);
    assert_eq!(result.settle_amount, Decimal::from(25u64));
    assert_eq!(obligation.deposits.len(), 0);
}

#[test]
fn liquidation_needs_fresh_state() {
    let (mut obligation, mut repay_reserve, withdraw_reserve) = unhealthy_setup(110);
    assert_eq!(
        liquidate_obligation(&mut obligation, &mut repay_reserve, &key(1), &withdraw_reserve, &key(2), 1, 11),
        Err(LendingError::ObligationStale)
    );
    repay_reserve.last_update.stale = true;
    assert_eq!(
        liquidate_obligation(&mut obligation, &mut repay_reserve, &key(1), &withdraw_reserve, &key(2), 1, 10),
        Err(LendingError::ReserveStale)
    );
}

#[test]
fn withdraw_more_than_deposited_or_all() {
    let slot = 3;
    let reserve = fresh_reserve(slot);
    let mut obligation = fresh_obligation(slot);
    obligation.deposits.push(ObligationCollateral { deposit_reserve: key(7), deposited_amount: 100, ..ObligationCollateral::default() });
    assert_eq!(
        withdraw_obligation_collateral(&mut obligation, &reserve, &key(7), 101, slot),
        Err(LendingError::WithdrawTooLarge)
    );
    assert_eq!(obligation.deposits[0].deposited_amount, 100);
    assert_eq!(withdraw_obligation_collateral(&mut obligation, &reserve, &key(7), u64::MAX, slot), Ok(100));
    assert_eq!(obligation.deposits.len(), 0);
    assert!(obligation.last_update.stale);
}

#[test]
fn withdraw_keeps_borrows_covered() {
    let slot = 3;
    let reserve = fresh_reserve(slot);
    let mut obligation = fresh_obligation(slot);
    obligation.deposits.push(ObligationCollateral {
        deposit_reserve: key(7),
        deposited_amount: 100,
        market_value: Decimal::from(100u64),
        ..ObligationCollateral::default()
    });
    obligation.borrows.push(ObligationLiquidity { borrow_reserve: key(8), ..ObligationLiquidity::default() });
    obligation.allowed_borrow_value = Decimal::from(50u64);
    obligation.borrowed_value = Decimal::from(40u64);
    assert_eq!(
        withdraw_obligation_collateral(&mut obligation, &reserve, &key(7), 30, slot),
        Err(LendingError::WithdrawTooLarge)
    );
    assert_eq!(withdraw_obligation_collateral(&mut obligation, &reserve, &key(7), 20, slot), Ok(20));
    assert_eq!(obligation.deposits[0].deposited_amount, 80);
}

#[test]
fn deposit_collateral_adds_then_grows_entry() {
    let slot = 4;
    let reserve = fresh_reserve(slot);
    let mut obligation = fresh_obligation(slot);
    assert_eq!(deposit_obligation_collateral(&mut obligation, &reserve, &key(1), 10, slot), Ok(()));
    assert_eq!(deposit_obligation_collateral(&mut obligation, &reserve, &key(1), 5, slot), Ok(()));
    assert_eq!(obligation.deposits.len(), 1);
    assert_eq!(obligation.deposits[0].deposited_amount, 15);
    let mut stale = reserve.clone();
    stale.last_update.slot = 3;
    assert_eq!(deposit_obligation_collateral(&mut obligation, &stale, &key(2), 5, slot), Err(LendingError::ReserveStale));
}

#[test]
fn obligation_entry_capacity() {
    let mut obligation = fresh_obligation(0);
    for i in 0..10u8 {
        assert_eq!(obligation.add_collateral(key(i)), Ok(i as usize));
    }
    assert_eq!(obligation.add_collateral(key(3)), Err(LendingError::DuplicateReserveEntry));
    assert_eq!(obligation.add_collateral(key(50)), Err(LendingError::CapacityExceeded));
    assert_eq!(obligation.add_liquidity(key(51), Decimal::one()), Err(LendingError::CapacityExceeded));
}

#[test]
fn borrow_and_repay_through_obligation() {
    let slot = 9;
    let mut reserve = fresh_reserve(slot);
    reserve.liquidity.available_amount = 1000;
    reserve.config.fees.borrow_fee_wad = 10_000_000_000_000_000;
    reserve.config.fees.host_fee_percentage = 20;
    let mut obligation = fresh_obligation(slot);
    obligation.allowed_borrow_value = Decimal::from(500u64);
    let result = borrow_obligation_liquidity(&mut obligation, &mut reserve, &key(4), 100, slot).unwrap();
    assert_eq!(result.receive_amount, 100);
    assert_eq!(result.borrow_fee, 1);
    assert_eq!(result.host_fee, 0);
    assert_eq!(result.borrow_amount, Decimal::from(101u64));
    assert_eq!(reserve.liquidity.available_amount, 899);
    assert_eq!(obligation.borrows[0].borrowed_amount_wads, Decimal::from(101u64));
    assert_eq!(
        borrow_obligation_liquidity(&mut obligation, &mut reserve, &key(4), 100, slot),
        Err(LendingError::ObligationStale)
    );
    obligation.last_update = LastUpdate { slot, stale: false };
    reserve.last_update = LastUpdate { slot, stale: false };
    assert_eq!(
        borrow_obligation_liquidity(&mut obligation, &mut reserve, &key(4), 600, slot),
        Err(LendingError::InsufficientCollateral)
    );
    let repaid = repay_obligation_liquidity(&mut obligation, &mut reserve, &key(4), u64::MAX, slot).unwrap();
    assert_eq!(repaid.settle_amount, Decimal::from(101u64));
    assert_eq!(repaid.repay_amount, 101);
    assert_eq!(obligation.borrows.len(), 0);
    assert_eq!(reserve.liquidity.available_amount, 1000);
    assert_eq!(reserve.liquidity.borrowed_amount_wads, Decimal::zero());
}

#[test]
fn repay_sizing_closes_dust() {
    let reserve = fresh_reserve(0);
    let r = reserve.calculate_repay(10, Decimal::from(100u64)).unwrap();
    assert_eq!(r.settle_amount, Decimal::from(10u64));
    assert_eq!(r.repay_amount, 10);
    let r = reserve.calculate_repay(99, Decimal::from(100u64)).unwrap();
    assert_eq!(r.settle_amount, Decimal::from(100u64));
    let r = reserve.calculate_repay(5, Decimal::from_scaled_val(5 * WAD + 1)).unwrap();
    assert_eq!(r.settle_amount, Decimal::from_scaled_val(5 * WAD + 1));
    assert_eq!(r.repay_amount, 6);
}

#[test]
fn fees_exclusive_and_inclusive() {
    let mut reserve = fresh_reserve(0);
    reserve.config.fees.borrow_fee_wad = 100_000_000_000_000_000;
    reserve.config.fees.flash_loan_fee_wad = 3_000_000_000_000_000;
    reserve.config.fees.host_fee_percentage = 50;
    let fees = &reserve.config.fees;
    assert_eq!(fees.calculate_borrow_fees(Decimal::from(1000u64), FeeCalculation::Exclusive), Ok((100, 50)));
    assert_eq!(fees.calculate_borrow_fees(Decimal::from(1100u64), FeeCalculation::Inclusive), Ok((100, 50)));
    assert_eq!(fees.calculate_flash_loan_fees(Decimal::from(1000u64)), Ok((3, 1)));
}

#[test]
fn max_borrow_uses_remaining_capacity() {
    let mut reserve = fresh_reserve(0);
    reserve.liquidity.available_amount = 1_000_000;
    reserve.liquidity.market_price = Decimal::from(2u64);
    let r = reserve.calculate_borrow(u64::MAX, Decimal::from(100u64)).unwrap();
    assert_eq!(r.borrow_amount, Decimal::from(50u64));
    assert_eq!(r.receive_amount, 50);
    assert_eq!(r.borrow_fee, 0);
}

#[test]
fn refresh_reserve_accrues_and_moves_slot() {
    let mut reserve = fresh_reserve(100);
    reserve.liquidity.available_amount = 500_000;
    reserve.liquidity.borrowed_amount_wads = Decimal::from(500_000u64);
    reserve.collateral.mint_total_supply = 1_000_000;
    reserve.bonus.total_mining_speed = 10;
    reserve.bonus.supply_rate = 500_000_000_000_000_000;
    let before = reserve.clone();
    reserve.refresh(100, Decimal::from(7u64)).unwrap();
    assert_eq!(reserve.liquidity, before.liquidity);
    reserve.last_update.stale = true;
    reserve.refresh(200, Decimal::from(7u64)).unwrap();
    assert_eq!(reserve.last_update, LastUpdate { slot: 200, stale: false });
    assert_eq!(reserve.liquidity.market_price, Decimal::from(7u64));
    let c = reserve.liquidity.cumulative_borrow_rate_wads;
    assert!(c > Decimal::one());
    assert_eq!(reserve.liquidity.borrowed_amount_wads.to_scaled_val(), 500_000 * c.to_scaled_val());
    // 1000 mine tokens, half to the 1,000,000 collateral tokens and half to the 500,000 borrowed
    assert_eq!(reserve.bonus.l_token_mining_index, Decimal::from_scaled_val(500_000_000_000_000));
    assert_eq!(reserve.bonus.borrow_mining_index, Decimal::from_scaled_val(1_000_000_000_000_000));
    assert_eq!(reserve.refresh(150, Decimal::one()), Err(LendingError::MathOverflow));
    reserve.reentry_lock = true;
    assert_eq!(reserve.refresh(300, Decimal::one()), Err(LendingError::ReentrancyDetected));
}

#[test]
fn redeem_collateral_pays_out_liquidity() {
    let mut reserve = fresh_reserve(0);
    assert_eq!(reserve.deposit_liquidity(1000), Ok(1000));
    assert_eq!(reserve.redeem_collateral(400), Ok(400));
    assert_eq!(reserve.liquidity.available_amount, 600);
    assert_eq!(reserve.collateral.mint_total_supply, 600);
    assert_eq!(reserve.acquire_lock(), Ok(()));
    assert_eq!(reserve.acquire_lock(), Err(LendingError::ReentrancyDetected));
    assert_eq!(reserve.redeem_collateral(1), Err(LendingError::ReentrancyDetected));
    reserve.release_lock();
    assert_eq!(reserve.redeem_collateral(601), Err(LendingError::InsufficientLiquidity));
}

#[test]
fn refresh_obligation_values_entries() {
    let slot = 20;
    let mut deposit_reserve = fresh_reserve(slot);
    deposit_reserve.liquidity.available_amount = 1000;
    deposit_reserve.collateral.mint_total_supply = 1000;
    deposit_reserve.liquidity.market_price = Decimal::from(2u64);
    let mut borrow_reserve = fresh_reserve(slot);
    borrow_reserve.liquidity.market_price = Decimal::from(3u64);
    borrow_reserve.liquidity.cumulative_borrow_rate_wads = Decimal::from_scaled_val(1_100_000_000_000_000_000);
    let mut obligation = fresh_obligation(slot - 1);
    obligation.deposits.push(ObligationCollateral { deposit_reserve: key(1), deposited_amount: 100, ..ObligationCollateral::default() });
    obligation.borrows.push(ObligationLiquidity {
        borrow_reserve: key(2),
        cumulative_borrow_rate_wads: Decimal::one(),
        borrowed_amount_wads: Decimal::from(10u64),
        ..ObligationLiquidity::default()
    });
    refresh_obligation(&mut obligation, &vec![deposit_reserve.clone()], &vec![borrow_reserve.clone()], slot).unwrap();
    assert_eq!(obligation.deposits[0].market_value, Decimal::from(200u64));
    assert_eq!(obligation.deposited_value, Decimal::from(200u64));
    assert_eq!(obligation.allowed_borrow_value, Decimal::from(100u64));
    assert_eq!(obligation.unhealthy_borrow_value, Decimal::from(110u64));
    assert_eq!(obligation.borrows[0].borrowed_amount_wads, Decimal::from(11u64));
    assert_eq!(obligation.borrowed_value, Decimal::from(33u64));
    assert_eq!(obligation.last_update, LastUpdate { slot, stale: false });
    borrow_reserve.last_update.slot = slot - 1;
    let before = obligation.clone();
    assert_eq!(
        refresh_obligation(&mut obligation, &vec![deposit_reserve], &vec![borrow_reserve], slot),
        Err(LendingError::ReserveStale)
    );
    assert_eq!(obligation, before);
}
