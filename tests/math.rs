use larix_lending::error::LendingError;
use larix_lending::math::{Decimal, Rate, WAD};

#[test]
fn integer_round_trip() {
    for x in [0u64, 1, 2, 1_000_000, u64::MAX] {
        assert_eq!(Decimal::from(x).try_floor_u64(), Ok(x));
    }
}

#[test]
fn scaled_round_trip() {
    for raw in [0u128, 1, WAD - 1, WAD, u128::MAX] {
        let d = Decimal::from_scaled_val(raw);
        assert_eq!(Decimal::from_scaled_val(d.to_scaled_val()), d);
    }
}

#[test]
fn add_and_sub_overflow() {
    assert_eq!(Decimal::from_scaled_val(u128::MAX).try_add(Decimal::from_scaled_val(1)), Err(LendingError::MathOverflow));
    assert_eq!(Decimal::zero().try_sub(Decimal::from_scaled_val(1)), Err(LendingError::MathOverflow));
    assert_eq!(Decimal::from(3u64).try_sub(Decimal::from(1u64)), Ok(Decimal::from(2u64)));
}

#[test]
fn mul_is_exact_beyond_raw_product_range() {
    // 1e10 * 2e10: the raw product exceeds u128, the result does not.
    let a = Decimal::from(10_000_000_000u64);
    let b = Decimal::from(20_000_000_000u64);
    assert_eq!(a.try_mul(b), Ok(Decimal::from_scaled_val(200_000_000_000_000_000_000u128 * WAD)));
    // 1.5 * 2.5 = 3.75
    let x = Decimal::from_scaled_val(1_500_000_000_000_000_000);
    let y = Decimal::from_scaled_val(2_500_000_000_000_000_000);
    assert_eq!(x.try_mul(y), Ok(Decimal::from_scaled_val(3_750_000_000_000_000_000)));
    // rounded down
    assert_eq!(Decimal::from_scaled_val(1).try_mul(Decimal::from_scaled_val(1)), Ok(Decimal::zero()));
}

#[test]
fn mul_overflow() {
    let big = Decimal::from(u64::MAX);
    assert_eq!(big.try_mul(Decimal::from(1000u64)), Err(LendingError::MathOverflow));
    assert_eq!(Decimal::from_scaled_val(u128::MAX).try_mul(Decimal::one()), Ok(Decimal::from_scaled_val(u128::MAX)));
    assert_eq!(Decimal::from_scaled_val(u128::MAX).try_mul_u64(2), Err(LendingError::MathOverflow));
}

#[test]
fn div_is_exact() {
    // 1000 / 10 = 100: the raw dividend times WAD exceeds u128.
    assert_eq!(Decimal::from(1000u64).try_div(Decimal::from(10u64)), Ok(Decimal::from(100u64)));
    // 1 / 3 = 0.333...
    assert_eq!(Decimal::one().try_div(Decimal::from(3u64)), Ok(Decimal::from_scaled_val(333_333_333_333_333_333)));
    // 2 / 3 rounded down
    assert_eq!(Decimal::from(2u64).try_div(Decimal::from(3u64)), Ok(Decimal::from_scaled_val(666_666_666_666_666_666)));
    // a huge divisor
    let n = Decimal::from_scaled_val(u128::MAX - 1);
    let d = Decimal::from_scaled_val(u128::MAX);
    assert_eq!(n.try_div(d), Ok(Decimal::from_scaled_val(WAD - 1)));
    assert_eq!(Decimal::one().try_div(Decimal::zero()), Err(LendingError::MathOverflow));
    assert_eq!(Decimal::from_scaled_val(u128::MAX).try_div(Decimal::from_scaled_val(1)), Err(LendingError::MathOverflow));
}

#[test]
fn floor_and_ceil() {
    let d = Decimal::from_scaled_val(2 * WAD + 1);
    assert_eq!(d.try_floor_u64(), Ok(2));
    assert_eq!(d.try_ceil_u64(), Ok(3));
    assert_eq!(Decimal::from(5u64).try_ceil_u64(), Ok(5));
    assert_eq!(Decimal::from_scaled_val(u128::MAX).try_floor_u64(), Err(LendingError::MathOverflow));
}

#[test]
fn pow_by_squaring() {
    assert_eq!(Decimal::from(2u64).try_pow(10), Ok(Decimal::from(1024u64)));
    assert_eq!(Decimal::from(7u64).try_pow(0), Ok(Decimal::one()));
    assert_eq!(Decimal::from(10u64).try_pow(40), Err(LendingError::MathOverflow));
}

#[test]
fn rate_operations() {
    assert_eq!(Rate::from_percent(50).to_scaled_val(), 500_000_000_000_000_000);
    assert_eq!(Rate::from_percent(50).try_mul(Rate::from_percent(50)), Ok(Rate::from_percent(25)));
    assert_eq!(Rate::from_percent(50).try_div(Rate::from_percent(80)), Ok(Rate::from_scaled_val(625_000_000_000_000_000)));
    assert_eq!(Rate::from_scaled_val(u64::MAX).try_add(Rate::one()), Err(LendingError::MathOverflow));
    assert_eq!(Decimal::from(100u64).try_to_rate(), Err(LendingError::MathOverflow));
    assert_eq!(Decimal::from_rate(Rate::one()), Decimal::one());
}
