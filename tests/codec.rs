use larix_lending::error::LendingError;
use larix_lending::lending_market::{LendingMarket, LENDING_MARKET_LEN};
use larix_lending::last_update::LastUpdate;
use larix_lending::math::Decimal;
use larix_lending::obligation::{Obligation, ObligationCollateral, ObligationLiquidity, OBLIGATION_LEN};
use larix_lending::pubkey::Pubkey;
use larix_lending::reserve::{Reserve, RESERVE_LEN};
use larix_lending::state::{pack_bool, pack_decimal, unpack_bool, unpack_decimal};

fn key(b: u8) -> Pubkey {
    let mut a = [0u8; 32];
    for (i, x) in a.iter_mut().enumerate() {
        *x = b.wrapping_add(i as u8);
    }
    Pubkey::new_from_array(a)
}

fn sample_market() -> LendingMarket {
    LendingMarket {
        version: 1,
        bump_seed: 254,
        pending_owner: key(1),
        owner: key(2),
        quote_currency: *b"USD\0\0\0\0\0\0\0\0\0\0\0\0\0\0\0\0\0\0\0\0\0\0\0\0\0\0\0\0\0",
        token_program_id: key(3),
        oracle_program_id: key(4),
        larix_oracle_program_id: key(5),
        larix_oracle_id: key(6),
        mine_mint: key(7),
        mine_supply_account: key(8),
        mine_lock_program: key(9),
        lock_larix_times_to_time: 0x0102_0304_0506_0708,
        max_claim_times: 200,
    }
}

fn sample_reserve() -> Reserve {
    let mut r = Reserve::default();
    r.version = 1;
    r.last_update = LastUpdate { slot: 77, stale: true };
    r.lending_market = key(10);
    r.liquidity.is_lp = true;
    r.liquidity.mint_pubkey = key(11);
    r.liquidity.mint_decimals = 6;
    r.liquidity.supply_pubkey = key(12);
    r.liquidity.fee_receiver = key(13);
    r.liquidity.use_pyth_oracle = true;
    r.liquidity.params_1 = key(14);
    r.liquidity.params_2 = key(15);
    r.liquidity.available_amount = 123_456;
    r.liquidity.borrowed_amount_wads = Decimal::from_scaled_val(987_654_321);
    r.liquidity.cumulative_borrow_rate_wads = Decimal::from_scaled_val(1_100_000_000_000_000_000);
    r.liquidity.market_price = Decimal::from(42u64);
    r.liquidity.owner_unclaimed = Decimal::from_scaled_val(5);
    r.collateral.mint_pubkey = key(16);
    r.collateral.mint_total_supply = 999;
    r.collateral.supply_pubkey = key(17);
    r.config.optimal_utilization_rate = 80;
    r.config.loan_to_value_ratio = 50;
    r.config.liquidation_bonus = 5;
    r.config.liquidation_threshold = 55;
    r.config.min_borrow_rate = 1;
    r.config.optimal_borrow_rate = 10;
    r.config.max_borrow_rate = 100;
    r.config.fees.borrow_fee_wad = 1_000_000_000_000_000;
    r.config.fees.reserve_owner_fee_wad = 2;
    r.config.fees.flash_loan_fee_wad = 3_000_000_000_000_000;
    r.config.fees.host_fee_percentage = 20;
    r.config.fees.host_fee_receivers = vec![key(18), key(19), key(20)];
    r.config.deposit_paused = true;
    r.config.borrow_paused = false;
    r.config.liquidation_paused = true;
    r.config.deposit_limit = 1 << 40;
    r.bonus.un_coll_supply_account = key(21);
    r.bonus.l_token_mining_index = Decimal::from_scaled_val(7);
    r.bonus.borrow_mining_index = Decimal::from_scaled_val(8);
    r.bonus.total_mining_speed = 9;
    r.bonus.supply_rate = 10;
    r.reentry_lock = true;
    r
}

fn sample_obligation() -> Obligation {
    Obligation {
        version: 1,
        last_update: LastUpdate { slot: 5, stale: false },
        lending_market: key(30),
        owner: key(31),
        deposits: vec![
            ObligationCollateral { index: Decimal::from_scaled_val(1), deposit_reserve: key(32), deposited_amount: 100, market_value: Decimal::from(3u64) },
            ObligationCollateral { index: Decimal::from_scaled_val(2), deposit_reserve: key(33), deposited_amount: 200, market_value: Decimal::from(4u64) },
        ],
        borrows: vec![ObligationLiquidity {
            index: Decimal::from_scaled_val(3),
            borrow_reserve: key(34),
            cumulative_borrow_rate_wads: Decimal::one(),
            borrowed_amount_wads: Decimal::from(50u64),
            market_value: Decimal::from(51u64),
        }],
        deposited_value: Decimal::from(7u64),
        borrowed_value: Decimal::from(51u64),
        allowed_borrow_value: Decimal::from(3u64),
        unhealthy_borrow_value: Decimal::from(4u64),
        unclaimed_mine: Decimal::from_scaled_val(99),
    }
}

#[test]
fn lending_market_round_trip() {
    let m = sample_market();
    let bytes = m.pack();
    assert_eq!(bytes.len(), LENDING_MARKET_LEN);
    assert_eq!(bytes[0], 1);
    assert_eq!(bytes[1], 254);
    assert_eq!(&bytes[2..34], &key(1).to_bytes()[..]);
    assert_eq!(&bytes[322..330], &0x0102_0304_0506_0708u64.to_le_bytes()[..]);
    assert!(bytes[332..].iter().all(|b| *b == 0));
    assert_eq!(LendingMarket::unpack_from_slice(&bytes), Ok(m));
}

#[test]
fn lending_market_rejects_bad_input() {
    let mut bytes = sample_market().pack();
    assert_eq!(LendingMarket::unpack_from_slice(&bytes[..417]), Err(LendingError::DecodeError));
    bytes[0] = 2;
    assert_eq!(LendingMarket::unpack_from_slice(&bytes), Err(LendingError::VersionMismatch));
    bytes[0] = 0;
    assert!(LendingMarket::unpack_from_slice(&bytes).is_ok());
}

#[test]
fn reserve_round_trip() {
    let r = sample_reserve();
    let bytes = r.pack();
    assert_eq!(bytes.len(), RESERVE_LEN);
    assert_eq!(bytes[380], 3);
    assert_eq!(&bytes[381 + 64..381 + 96], &key(20).to_bytes()[..]);
    assert!(bytes[381 + 96..541].iter().all(|b| *b == 0));
    assert_eq!(Reserve::unpack_from_slice(&bytes), Ok(r.clone()));
    let mut out = vec![0xffu8; RESERVE_LEN];
    r.pack_into_slice(&mut out);
    assert_eq!(out, bytes);
}

#[test]
fn reserve_rejects_bad_input() {
    let bytes = sample_reserve().pack();
    assert_eq!(Reserve::unpack_from_slice(&bytes[..RESERVE_LEN - 1]), Err(LendingError::DecodeError));
    let mut b = bytes.clone();
    b[0] = 9;
    assert_eq!(Reserve::unpack_from_slice(&b), Err(LendingError::VersionMismatch));
    let mut b = bytes.clone();
    b[9] = 2;
    assert_eq!(Reserve::unpack_from_slice(&b), Err(LendingError::DecodeError));
    let mut b = bytes.clone();
    b[380] = 6;
    assert_eq!(Reserve::unpack_from_slice(&b), Err(LendingError::DecodeError));
}

#[test]
fn obligation_round_trip() {
    let o = sample_obligation();
    let bytes = o.pack();
    assert_eq!(bytes.len(), OBLIGATION_LEN);
    assert_eq!(bytes[138], 2);
    assert_eq!(bytes[139], 1);
    assert_eq!(&bytes[156 + 144..156 + 144 + 32], &key(34).to_bytes()[..]);
    assert_eq!(Obligation::unpack_from_slice(&bytes), Ok(o.clone()));
    let mut out = vec![1u8; OBLIGATION_LEN];
    o.pack_into_slice(&mut out);
    assert_eq!(out, bytes);
}

#[test]
fn obligation_rejects_bad_input() {
    let bytes = sample_obligation().pack();
    assert_eq!(Obligation::unpack_from_slice(&bytes[..10]), Err(LendingError::DecodeError));
    let mut b = bytes.clone();
    b[0] = 2;
    assert_eq!(Obligation::unpack_from_slice(&b), Err(LendingError::VersionMismatch));
    let mut b = bytes.clone();
    b[9] = 7;
    assert_eq!(Obligation::unpack_from_slice(&b), Err(LendingError::DecodeError));
    let mut b = bytes.clone();
    b[138] = 0;
    b[139] = 10;
    assert_eq!(Obligation::unpack_from_slice(&b), Err(LendingError::DecodeError));
}

#[test]
fn empty_obligation_round_trip() {
    let o = Obligation::default();
    let bytes = o.pack();
    assert!(bytes.iter().all(|b| *b == 0));
    assert_eq!(Obligation::unpack_from_slice(&bytes), Ok(o));
}

#[test]
fn bool_and_decimal_fields() {
    let mut one = [9u8; 1];
    pack_bool(true, &mut one);
    assert_eq!(one, [1]);
    pack_bool(false, &mut one);
    assert_eq!(one, [0]);
    assert_eq!(unpack_bool(&[1]), Ok(true));
    assert_eq!(unpack_bool(&[0]), Ok(false));
    assert_eq!(unpack_bool(&[2]), Err(LendingError::DecodeError));
    let mut sixteen = [0u8; 16];
    let d = Decimal::from_scaled_val(0x0102_0304_0506_0708_090a_0b0c_0d0e_0f10);
    pack_decimal(d, &mut sixteen);
    assert_eq!(sixteen, 0x0102_0304_0506_0708_090a_0b0c_0d0e_0f10u128.to_le_bytes());
    assert_eq!(unpack_decimal(&sixteen), d);
}
