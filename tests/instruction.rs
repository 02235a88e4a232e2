use larix_lending::error::LendingError;
use larix_lending::instruction::LendingInstruction;
use larix_lending::math::Decimal;
use larix_lending::pubkey::Pubkey;
use larix_lending::unpack_util::{unpack_bool, unpack_bytes32, unpack_decimal, unpack_pubkey, unpack_u64, unpack_u8};

#[test]
fn unpack_init_lending_market() {
    let mut data = vec![0u8];
    data.extend_from_slice(&[7u8; 32]);
    data.extend_from_slice(b"USD\0\0\0\0\0\0\0\0\0\0\0\0\0\0\0\0\0\0\0\0\0\0\0\0\0\0\0\0\0");
    assert_eq!(
        LendingInstruction::unpack(&data),
        Ok(LendingInstruction::InitLendingMarket {
            owner: Pubkey::new_from_array([7u8; 32]),
            quote_currency: *b"USD\0\0\0\0\0\0\0\0\0\0\0\0\0\0\0\0\0\0\0\0\0\0\0\0\0\0\0\0\0",
        })
    );
    assert_eq!(LendingInstruction::unpack(&data[..64]), Err(LendingError::DecodeError));
}

#[test]
fn unpack_init_reserve() {
    let mut data = vec![2u8, 80, 50, 5, 55, 0, 10, 100];
    data.extend_from_slice(&1u64.to_le_bytes());
    data.extend_from_slice(&2u64.to_le_bytes());
    data.extend_from_slice(&3u64.to_le_bytes());
    data.push(20);
    data.extend_from_slice(&1000u64.to_le_bytes());
    data.extend_from_slice(&800u64.to_le_bytes());
    data.push(1);
    data.push(0);
    assert_eq!(
        LendingInstruction::unpack(&data),
        Ok(LendingInstruction::InitReserve { total_mining_speed: 1000, kink_util_rate: 800, use_pyth_oracle: true, is_lp: false })
    );
    let mut bad = data.clone();
    bad[50] = 2;
    assert_eq!(LendingInstruction::unpack(&bad), Err(LendingError::DecodeError));
    assert_eq!(LendingInstruction::unpack(&data[..50]), Err(LendingError::DecodeError));
}

#[test]
fn unpack_amount_operations() {
    let amount = 0x1122_3344_5566_7788u64;
    let cases: Vec<(u8, LendingInstruction)> = vec![
        (4, LendingInstruction::DepositReserveLiquidity { liquidity_amount: amount }),
        (5, LendingInstruction::RedeemReserveCollateral { collateral_amount: amount }),
        (8, LendingInstruction::DepositObligationCollateral { collateral_amount: amount }),
        (9, LendingInstruction::WithdrawObligationCollateral { collateral_amount: amount }),
        (10, LendingInstruction::BorrowObligationLiquidity { liquidity_amount: amount }),
        (11, LendingInstruction::RepayObligationLiquidity { liquidity_amount: amount }),
        (12, LendingInstruction::LiquidateObligation { liquidity_amount: amount }),
        (18, LendingInstruction::DepositMining { amount }),
        (19, LendingInstruction::WithdrawMining { amount }),
        (25, LendingInstruction::LiquidateObligation2 { liquidity_amount: amount }),
    ];
    for (tag, expected) in cases {
        let mut data = vec![tag];
        data.extend_from_slice(&amount.to_le_bytes());
        assert_eq!(LendingInstruction::unpack(&data), Ok(expected));
        assert_eq!(LendingInstruction::unpack(&data[..8]), Err(LendingError::DecodeError));
    }
}

#[test]
fn unpack_flash_loan_keeps_callback_data() {
    let mut data = vec![13u8];
    data.extend_from_slice(&500u64.to_le_bytes());
    data.extend_from_slice(&[9, 8, 7]);
    assert_eq!(
        LendingInstruction::unpack(&data),
        Ok(LendingInstruction::FlashLoan { amount: 500, call_back_data: vec![9, 8, 7] })
    );
}

#[test]
fn unpack_tag_only_operations() {
    assert_eq!(LendingInstruction::unpack(&[3]), Ok(LendingInstruction::RefreshReserve));
    assert_eq!(LendingInstruction::unpack(&[6]), Ok(LendingInstruction::InitObligation));
    assert_eq!(LendingInstruction::unpack(&[7]), Ok(LendingInstruction::RefreshObligation));
    assert_eq!(LendingInstruction::unpack(&[14]), Ok(LendingInstruction::SetConfig));
    assert_eq!(LendingInstruction::unpack(&[16]), Ok(LendingInstruction::InitMining));
    assert_eq!(LendingInstruction::unpack(&[20]), Ok(LendingInstruction::ClaimMiningMine));
    assert_eq!(LendingInstruction::unpack(&[21]), Ok(LendingInstruction::ClaimObligationMine));
    assert_eq!(LendingInstruction::unpack(&[22]), Ok(LendingInstruction::ClaimOwnerFee));
    assert_eq!(LendingInstruction::unpack(&[23]), Ok(LendingInstruction::ReceivePendingOwner));
    assert_eq!(LendingInstruction::unpack(&[24, 1, 2]), Ok(LendingInstruction::RefreshReserves));
    let mut data = vec![1u8];
    data.extend_from_slice(&[3u8; 32]);
    assert_eq!(
        LendingInstruction::unpack(&data),
        Ok(LendingInstruction::SetLendingMarketOwner { new_owner: Pubkey::new_from_array([3u8; 32]) })
    );
}

#[test]
fn unpack_rejects_empty_and_unknown() {
    assert_eq!(LendingInstruction::unpack(&[]), Err(LendingError::DecodeError));
    assert_eq!(LendingInstruction::unpack(&[15]), Err(LendingError::DecodeError));
    assert_eq!(LendingInstruction::unpack(&[17, 0, 0, 0, 0, 0, 0, 0, 0]), Err(LendingError::DecodeError));
    assert_eq!(LendingInstruction::unpack(&[200]), Err(LendingError::DecodeError));
}

#[test]
fn field_readers() {
    let data = [1u8, 2, 3];
    let (b, rest) = unpack_bool(&data).unwrap();
    assert!(b);
    assert_eq!(rest, &[2, 3]);
    assert_eq!(unpack_bool(&rest[..]), Err(LendingError::DecodeError));
    assert_eq!(unpack_bool(&[]), Err(LendingError::DecodeError));
    assert_eq!(unpack_u8(&data), Ok((1, &data[1..])));
    assert_eq!(unpack_u8(&[]), Err(LendingError::DecodeError));
    let mut long = 77u64.to_le_bytes().to_vec();
    long.push(5);
    assert_eq!(unpack_u64(&long), Ok((77, &long[8..])));
    assert_eq!(unpack_u64(&long[..7]), Err(LendingError::DecodeError));
    let raw = 12345u128.to_le_bytes();
    assert_eq!(unpack_decimal(&raw), Ok((Decimal::from_scaled_val(12345), &raw[16..])));
    assert_eq!(unpack_decimal(&raw[..15]), Err(LendingError::DecodeError));
    let mut key = [4u8; 33];
    key[32] = 6;
    assert_eq!(unpack_bytes32(&key), Ok(([4u8; 32], &key[32..])));
    assert_eq!(unpack_pubkey(&key), Ok((Pubkey::new_from_array([4u8; 32]), &key[32..])));
    assert_eq!(unpack_pubkey(&key[..31]), Err(LendingError::DecodeError));
}
