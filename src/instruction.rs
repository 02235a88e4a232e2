use vstd::prelude::*;
use vstd::bytes::spec_u64_from_le_bytes;
use crate::codec::{get_bool, get_bytes32, get_key, get_u64, get_u8};
use crate::error::LendingError;
use crate::pubkey::Pubkey;
use crate::state::bool_byte;

verus! {

broadcast use vstd::array::group_array_axioms;

/// Operations of the lending program, each selected by a leading tag byte.
#[derive(Clone, Debug, PartialEq)]
pub enum LendingInstruction {
    /// Tag 0: initializes a new lending market.
    InitLendingMarket {
        /// Owner authority which can add new reserves
        owner: Pubkey,
        /// Currency market prices are quoted in
        quote_currency: [u8; 32],
    },
    /// Tag 1: sets the new owner of a lending market.
    SetLendingMarketOwner {
        /// The new owner
        new_owner: Pubkey,
    },
    /// Tag 2: initializes a new reserve. The configuration fields in front
    /// of these are read and checked for length only.
    InitReserve {
        /// Mine token paid out to the reserve per slot
        total_mining_speed: u64,
        /// Utilization rate at which the mine distribution curve turns
        kink_util_rate: u64,
        /// Whether the price comes from the Pyth oracle
        use_pyth_oracle: bool,
        /// Whether the liquidity mint is an LP token
        is_lp: bool,
    },
    /// Tag 3: accrues interest and updates the market price of a reserve.
    RefreshReserve,
    /// Tag 4: deposits liquidity into a reserve in exchange for collateral.
    DepositReserveLiquidity {
        /// Amount of liquidity to deposit
        liquidity_amount: u64,
    },
    /// Tag 5: redeems collateral from a reserve in exchange for liquidity.
    RedeemReserveCollateral {
        /// Amount of collateral to redeem
        collateral_amount: u64,
    },
    /// Tag 6: initializes a new obligation.
    InitObligation,
    /// Tag 7: refreshes an obligation's interest and values.
    RefreshObligation,
    /// Tag 8: deposits collateral into an obligation.
    DepositObligationCollateral {
        /// Amount of collateral to deposit
        collateral_amount: u64,
    },
    /// Tag 9: withdraws collateral from an obligation.
    WithdrawObligationCollateral {
        /// Amount of collateral to withdraw; `u64::MAX` for all of it
        collateral_amount: u64,
    },
    /// Tag 10: borrows liquidity against an obligation's collateral.
    BorrowObligationLiquidity {
        /// Amount of liquidity to borrow; `u64::MAX` for the full capacity
        liquidity_amount: u64,
    },
    /// Tag 11: repays borrowed liquidity.
    RepayObligationLiquidity {
        /// Amount of liquidity to repay; `u64::MAX` for the whole debt
        liquidity_amount: u64,
    },
    /// Tag 12: repays part of an unhealthy obligation for its collateral at a discount.
    LiquidateObligation {
        /// Amount of liquidity to repay; `u64::MAX` for as much as is eligible
        liquidity_amount: u64,
    },
    /// Tag 13: makes a flash loan.
    FlashLoan {
        /// Amount to borrow
        amount: u64,
        /// Data handed on to the receiving program
        call_back_data: Vec<u8>,
    },
    /// Tag 14: changes a reserve's configuration.
    SetConfig,
    /// Tag 16: initializes a mining account.
    InitMining,
    /// Tag 18: deposits into a mining account.
    DepositMining {
        /// Amount to deposit
        amount: u64,
    },
    /// Tag 19: withdraws from a mining account.
    WithdrawMining {
        /// Amount to withdraw
        amount: u64,
    },
    /// Tag 20: claims the mine token of a mining account.
    ClaimMiningMine,
    /// Tag 21: claims the mine token of an obligation.
    ClaimObligationMine,
    /// Tag 22: claims the reserve owner's fees.
    ClaimOwnerFee,
    /// Tag 23: the pending owner takes ownership of the lending market.
    ReceivePendingOwner,
    /// Tag 24: refreshes several reserves.
    RefreshReserves,
    /// Tag 25: liquidation with the account list that omits the clock.
    LiquidateObligation2 {
        /// Amount of liquidity to repay; `u64::MAX` for as much as is eligible
        liquidity_amount: u64,
    },
}

/// Payload bytes that the operation with tag `tag` needs, or `None` for a tag
/// that names no operation.
pub open spec fn payload_len(tag: u8) -> Option<nat> {
    if tag == 0 {
        Some(64)
    } else if tag == 1 {
        Some(32)
    } else if tag == 2 {
        Some(50)
    } else if tag == 3 || tag == 6 || tag == 7 || tag == 14 || tag == 16 || (20 <= tag && tag <= 24) {
        Some(0)
    } else if (4 <= tag && tag <= 5) || (8 <= tag && tag <= 13) || tag == 18 || tag == 19 || tag == 25 {
        Some(8)
    } else {
        None
    }
}

/// Bytes that can be read as an operation: a known tag, a payload at least as
/// long as it needs, and, for tag 2, only 0 or 1 in its two boolean bytes.
pub open spec fn instruction_bytes_valid(b: Seq<u8>) -> bool {
    &&& b.len() >= 1
    &&& payload_len(b[0]) is Some
    &&& b.len() >= 1 + payload_len(b[0])->Some_0
    &&& b[0] == 2 ==> (b[49] == 0 || b[49] == 1) && (b[50] == 0 || b[50] == 1)
}

/// The amount that follows the tag.
pub open spec fn amount_of(b: Seq<u8>) -> u64 {
    spec_u64_from_le_bytes(b.subrange(1, 9))
}

/// `ins` is the operation that the bytes `b` encode.
pub open spec fn instruction_read_from(ins: LendingInstruction, b: Seq<u8>) -> bool {
    match ins {
        LendingInstruction::InitLendingMarket { owner, quote_currency } => b[0] == 0
            && owner.0@ == b.subrange(1, 33) && quote_currency@ == b.subrange(33, 65),
        LendingInstruction::SetLendingMarketOwner { new_owner } => b[0] == 1
            && new_owner.0@ == b.subrange(1, 33),
        LendingInstruction::InitReserve { total_mining_speed, kink_util_rate, use_pyth_oracle, is_lp } => b[0] == 2
            && total_mining_speed == spec_u64_from_le_bytes(b.subrange(33, 41))
            && kink_util_rate == spec_u64_from_le_bytes(b.subrange(41, 49))
            && b[49] == bool_byte(use_pyth_oracle) && b[50] == bool_byte(is_lp),
        LendingInstruction::RefreshReserve => b[0] == 3,
        LendingInstruction::DepositReserveLiquidity { liquidity_amount } => b[0] == 4 && liquidity_amount == amount_of(b),
        LendingInstruction::RedeemReserveCollateral { collateral_amount } => b[0] == 5 && collateral_amount == amount_of(b),
        LendingInstruction::InitObligation => b[0] == 6,
        LendingInstruction::RefreshObligation => b[0] == 7,
        LendingInstruction::DepositObligationCollateral { collateral_amount } => b[0] == 8 && collateral_amount == amount_of(b),
        LendingInstruction::WithdrawObligationCollateral { collateral_amount } => b[0] == 9 && collateral_amount == amount_of(b),
        LendingInstruction::BorrowObligationLiquidity { liquidity_amount } => b[0] == 10 && liquidity_amount == amount_of(b),
        LendingInstruction::RepayObligationLiquidity { liquidity_amount } => b[0] == 11 && liquidity_amount == amount_of(b),
        LendingInstruction::LiquidateObligation { liquidity_amount } => b[0] == 12 && liquidity_amount == amount_of(b),
        LendingInstruction::FlashLoan { amount, call_back_data } => b[0] == 13 && amount == amount_of(b)
            && call_back_data@ == b.subrange(9, b.len() as int),
        LendingInstruction::SetConfig => b[0] == 14,
        LendingInstruction::InitMining => b[0] == 16,
        LendingInstruction::DepositMining { amount } => b[0] == 18 && amount == amount_of(b),
        LendingInstruction::WithdrawMining { amount } => b[0] == 19 && amount == amount_of(b),
        LendingInstruction::ClaimMiningMine => b[0] == 20,
        LendingInstruction::ClaimObligationMine => b[0] == 21,
        LendingInstruction::ClaimOwnerFee => b[0] == 22,
        LendingInstruction::ReceivePendingOwner => b[0] == 23,
        LendingInstruction::RefreshReserves => b[0] == 24,
        LendingInstruction::LiquidateObligation2 { liquidity_amount } => b[0] == 25 && liquidity_amount == amount_of(b),
    }
}

impl LendingInstruction {
    /// Reads an operation from its tag byte and little-endian payload. An
    /// empty buffer, an unknown tag, a short payload or a boolean byte other
    /// than 0 or 1 is `DecodeError`; bytes past the payload are ignored, except
    /// for a flash loan, which hands them on.
    pub fn unpack(input: &[u8]) -> (r: Result<LendingInstruction, LendingError>)
        ensures
            r is Ok <==> instruction_bytes_valid(input@),
            !instruction_bytes_valid(input@) ==> r == Err::<LendingInstruction, LendingError>(LendingError::DecodeError),
            r is Ok ==> instruction_read_from(r->Ok_0, input@),
    {
        let len = input.len();
        if len == 0 {
            return Err(LendingError::DecodeError);
        }
        let tag = get_u8(input, 0);
        if tag == 0 {
            if len < 65 {
                return Err(LendingError::DecodeError);
            }
            Ok(LendingInstruction::InitLendingMarket { owner: get_key(input, 1), quote_currency: get_bytes32(input, 33) })
        } else if tag == 1 {
            if len < 33 {
                return Err(LendingError::DecodeError);
            }
            Ok(LendingInstruction::SetLendingMarketOwner { new_owner: get_key(input, 1) })
        } else if tag == 2 {
            if len < 51 {
                return Err(LendingError::DecodeError);
            }
            let total_mining_speed = get_u64(input, 33);
            let kink_util_rate = get_u64(input, 41);
            let use_pyth_oracle = match get_bool(input, 49) {
                Ok(v) => v,
                Err(e) => return Err(e),
            };
            let is_lp = match get_bool(input, 50) {
                Ok(v) => v,
                Err(e) => return Err(e),
            };
            Ok(LendingInstruction::InitReserve { total_mining_speed, kink_util_rate, use_pyth_oracle, is_lp })
        } else if tag == 3 {
            Ok(LendingInstruction::RefreshReserve)
        } else if tag == 6 {
            Ok(LendingInstruction::InitObligation)
        } else if tag == 7 {
            Ok(LendingInstruction::RefreshObligation)
        } else if tag == 14 {
            Ok(LendingInstruction::SetConfig)
        } else if tag == 16 {
            Ok(LendingInstruction::InitMining)
        } else if tag == 20 {
            Ok(LendingInstruction::ClaimMiningMine)
        } else if tag == 21 {
            Ok(LendingInstruction::ClaimObligationMine)
        } else if tag == 22 {
            Ok(LendingInstruction::ClaimOwnerFee)
        } else if tag == 23 {
            Ok(LendingInstruction::ReceivePendingOwner)
        } else if tag == 24 {
            Ok(LendingInstruction::RefreshReserves)
        } else if (4 <= tag && tag <= 5) || (8 <= tag && tag <= 13) || tag == 18 || tag == 19 || tag == 25 {
            if len < 9 {
                return Err(LendingError::DecodeError);
            }
            let amount = get_u64(input, 1);
            if tag == 4 {
                Ok(LendingInstruction::DepositReserveLiquidity { liquidity_amount: amount })
            } else if tag == 5 {
                Ok(LendingInstruction::RedeemReserveCollateral { collateral_amount: amount })
            } else if tag == 8 {
                Ok(LendingInstruction::DepositObligationCollateral { collateral_amount: amount })
            } else if tag == 9 {
                Ok(LendingInstruction::WithdrawObligationCollateral { collateral_amount: amount })
            } else if tag == 10 {
                Ok(LendingInstruction::BorrowObligationLiquidity { liquidity_amount: amount })
            } else if tag == 11 {
                Ok(LendingInstruction::RepayObligationLiquidity { liquidity_amount: amount })
            } else if tag == 12 {
                Ok(LendingInstruction::LiquidateObligation { liquidity_amount: amount })
            } else if tag == 13 {
                let rest = vstd::slice::slice_subrange(input, 9, len);
                let call_back_data = vstd::slice::slice_to_vec(rest);
                Ok(LendingInstruction::FlashLoan { amount, call_back_data })
            } else if tag == 18 {
                Ok(LendingInstruction::DepositMining { amount })
            } else if tag == 19 {
                Ok(LendingInstruction::WithdrawMining { amount })
            } else {
                Ok(LendingInstruction::LiquidateObligation2 { liquidity_amount: amount })
            }
        } else {
            Err(LendingError::DecodeError)
        }
    }
}

} // verus!
