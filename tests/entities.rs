use larix_lending::error::LendingError;
use larix_lending::last_update::LastUpdate;
use larix_lending::lending_market::{InitLendingMarketParams, LendingMarket};
use larix_lending::math::{Decimal, Rate};
use larix_lending::obligation::{InitObligationParams, Obligation, ObligationCollateral};
use larix_lending::pubkey::Pubkey;
use larix_lending::reserve::{
    Bonus, CollateralExchangeRate, InitBonusParams, InitReserveParams, NewReserveCollateralParams, NewReserveLiquidityParams,
    Reserve, ReserveCollateral, ReserveConfig, ReserveLiquidity,
};
use larix_lending::state::PROGRAM_VERSION;

fn key(b: u8) -> Pubkey {
    Pubkey::new_from_array([b; 32])
}

#[test]
fn new_lending_market_and_owner_hand_over() {
    let mut m = LendingMarket::new(InitLendingMarketParams {
        bump_seed: 3,
        owner: key(1),
        quote_currency: [9u8; 32],
        token_program_id: key(2),
        oracle_program_id: key(3),
        larix_oracle_program_id: key(4),
        larix_oracle_id: key(5),
        mine_mint: key(6),
        mine_supply_account: key(7),
        mine_lock_program: key(8),
    });
    assert_eq!(m.version, PROGRAM_VERSION);
    assert!(m.is_initialized());
    assert_eq!(m.owner, key(1));
    assert_eq!(m.pending_owner, Pubkey::default());
    m.set_pending_owner(key(42));
    assert_eq!(m.owner, key(1));
    m.accept_pending_owner();
    assert_eq!(m.owner, key(42));
    assert_eq!(m.pending_owner, Pubkey::default());
    assert!(!LendingMarket::default().is_initialized());
}

#[test]
fn new_obligation() {
    let deposits = vec![ObligationCollateral::new(key(1))];
    let o = Obligation::new(InitObligationParams {
        current_slot: 12,
        lending_market: key(2),
        owner: key(3),
        deposits,
        borrows: vec![],
    });
    assert_eq!(o.version, PROGRAM_VERSION);
    assert_eq!(o.last_update, LastUpdate { slot: 12, stale: true });
    assert_eq!(o.deposits.len(), 1);
    assert!(o.is_initialized());
}

#[test]
fn new_reserve_checks_config() {
    let liquidity = ReserveLiquidity::new(NewReserveLiquidityParams {
        is_lp: false,
        mint_pubkey: key(1),
        mint_decimals: 9,
        supply_pubkey: key(2),
        fee_receiver: key(3),
        use_pyth_oracle: true,
        params_1: key(4),
        params_2: key(5),
        market_price: Decimal::from(20u64),
    });
    assert_eq!(liquidity.cumulative_borrow_rate_wads, Decimal::one());
    assert_eq!(liquidity.available_amount, 0);
    let collateral = ReserveCollateral::new(NewReserveCollateralParams { mint_pubkey: key(6), supply_pubkey: key(7) });
    assert_eq!(collateral.mint_total_supply, 0);
    let bonus = Bonus::new(InitBonusParams { un_coll_supply_account: key(8), total_mining_speed: 5, supply_rate: 6 });
    assert_eq!(bonus.l_token_mining_index, Decimal::zero());
    let config = ReserveConfig {
        optimal_utilization_rate: 80,
        loan_to_value_ratio: 50,
        liquidation_bonus: 5,
        liquidation_threshold: 55,
        min_borrow_rate: 0,
        optimal_borrow_rate: 10,
        max_borrow_rate: 100,
        ..ReserveConfig::default()
    };
    let reserve = Reserve::new(InitReserveParams {
        current_slot: 4,
        lending_market: key(9),
        liquidity,
        collateral,
        config: config.clone(),
        bonus,
    })
    .unwrap();
    assert_eq!(reserve.last_update, LastUpdate { slot: 4, stale: true });
    assert!(!reserve.reentry_lock);
    assert!(reserve.is_initialized());
    let bad = ReserveConfig { loan_to_value_ratio: 60, ..config };
    assert_eq!(
        Reserve::new(InitReserveParams { current_slot: 4, lending_market: key(9), liquidity, collateral, config: bad, bonus }),
        Err(LendingError::InvalidConfig)
    );
}

#[test]
fn flash_loan_balance_check() {
    let mut reserve = Reserve::default();
    reserve.liquidity.available_amount = 1003;
    assert_eq!(reserve.check_flash_loan_repaid(1000, 3), Ok(()));
    assert_eq!(reserve.check_flash_loan_repaid(1000, 4), Err(LendingError::InsufficientLiquidity));
    assert_eq!(reserve.check_flash_loan_repaid(u64::MAX, u64::MAX), Err(LendingError::InsufficientLiquidity));
}

#[test]
fn exchange_rate_conversions() {
    let mut reserve = Reserve::default();
    reserve.liquidity.available_amount = 2000;
    reserve.collateral.mint_total_supply = 1000;
    let rate = reserve.collateral_exchange_rate().unwrap();
    assert_eq!(Rate::from(rate), Rate::from_percent(50));
    assert_eq!(rate.liquidity_to_collateral(300), Ok(150));
    assert_eq!(rate.collateral_to_liquidity(150), Ok(300));
    assert_eq!(rate.decimal_collateral_to_liquidity(Decimal::from(1u64)), Ok(Decimal::from(2u64)));
    let zero = CollateralExchangeRate(Rate::zero());
    assert_eq!(zero.collateral_to_liquidity(1), Err(LendingError::MathOverflow));
}

#[test]
fn last_update_tracking() {
    let mut u = LastUpdate::new(5);
    assert!(u.is_stale(5));
    u.update_slot(6);
    assert!(!u.is_stale(6));
    assert!(u.is_stale(7));
    assert_eq!(u.slots_elapsed(10), Ok(4));
    assert_eq!(u.slots_elapsed(5), Err(LendingError::MathOverflow));
    u.mark_stale();
    assert_eq!(u, LastUpdate { slot: 6, stale: true });
}

#[test]
fn pubkey_equality() {
    assert!(key(1).key_eq(&key(1)));
    assert!(!key(1).key_eq(&key(2)));
    let mut a = [1u8; 32];
    a[31] = 2;
    assert_ne!(Pubkey::new_from_array(a), key(1));
}
