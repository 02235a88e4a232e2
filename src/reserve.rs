use vstd::prelude::*;
use vstd::bytes::{spec_u64_from_le_bytes, spec_u64_to_le_bytes};
use crate::codec::{append_all, copy_into, lemma_keys_bytes, decimal_bytes, decimal_from, get_bool, get_decimal, get_key, get_keys, get_u64, get_u8, keys_bytes, put_bool, put_decimal, put_key, put_keys, put_u64, put_u8, put_zeros, zeros};
use crate::error::LendingError;
use crate::last_update::LastUpdate;
use crate::obligation::{ObligationCollateral, ObligationLiquidity};
use crate::math::{lemma_mul_at_least_one, lemma_pow_at_least_one, pow10, rate_of, u64_of, Decimal, Rate, PERCENT_SCALER, WAD, WAD_U64};
use crate::pubkey::Pubkey;
use crate::state::{bool_byte, HOST_FEE_RECEIVER_COUNT, INITIAL_COLLATERAL_RATIO, PROGRAM_VERSION, SLOTS_PER_YEAR, UNINITIALIZED_VERSION};

verus! {

broadcast use vstd::array::group_array_axioms;

/// Length of a stored reserve.
pub const RESERVE_LEN: usize = 873;

/// Percentage of a borrow that one liquidation may repay.
pub const LIQUIDATION_CLOSE_FACTOR: u8 = 50;

/// Debt small enough, in whole tokens, that a repay closes it out.
pub const LIQUIDATION_CLOSE_AMOUNT: u64 = 2;

/// Lending market reserve state.
#[derive(Clone, Debug, Default, PartialEq)]
pub struct Reserve {
    /// Version of the record
    pub version: u8,
    /// Last slot when supply and rates were updated
    pub last_update: LastUpdate,
    /// Lending market address
    pub lending_market: Pubkey,
    /// Reserve liquidity
    pub liquidity: ReserveLiquidity,
    /// Reserve collateral
    pub collateral: ReserveCollateral,
    /// Reserve configuration values
    pub config: ReserveConfig,
    /// Mining state of the reserve
    pub bonus: Bonus,
    /// Set while an operation on the reserve is in progress
    pub reentry_lock: bool,
}

/// Reserve liquidity.
#[derive(Clone, Copy, Debug, Default, PartialEq)]
pub struct ReserveLiquidity {
    /// Whether the liquidity mint is an LP token
    pub is_lp: bool,
    /// Liquidity mint address
    pub mint_pubkey: Pubkey,
    /// Liquidity mint decimals
    pub mint_decimals: u8,
    /// Liquidity supply address
    pub supply_pubkey: Pubkey,
    /// Liquidity fee receiver address
    pub fee_receiver: Pubkey,
    /// Whether the price comes from the Pyth oracle
    pub use_pyth_oracle: bool,
    /// Pyth price account, or the bridge pool of an LP token
    pub params_1: Pubkey,
    /// Larix oracle account, or the LP price account of an LP token
    pub params_2: Pubkey,
    /// Liquidity available to borrow, in tokens
    pub available_amount: u64,
    /// Liquidity borrowed plus interest
    pub borrowed_amount_wads: Decimal,
    /// Cumulative borrow rate
    pub cumulative_borrow_rate_wads: Decimal,
    /// Market price of one token in the quote currency
    pub market_price: Decimal,
    /// Interest set aside for the reserve owner and not yet claimed
    pub owner_unclaimed: Decimal,
}

/// Parameters of new reserve liquidity.
pub struct NewReserveLiquidityParams {
    /// Whether the liquidity mint is an LP token
    pub is_lp: bool,
    /// Liquidity mint address
    pub mint_pubkey: Pubkey,
    /// Liquidity mint decimals
    pub mint_decimals: u8,
    /// Liquidity supply address
    pub supply_pubkey: Pubkey,
    /// Liquidity fee receiver address
    pub fee_receiver: Pubkey,
    /// Whether the price comes from the Pyth oracle
    pub use_pyth_oracle: bool,
    /// Pyth price account, or the bridge pool of an LP token
    pub params_1: Pubkey,
    /// Larix oracle account, or the LP price account of an LP token
    pub params_2: Pubkey,
    /// Market price of one token in the quote currency
    pub market_price: Decimal,
}

/// Reserve collateral.
#[derive(Clone, Copy, Debug, Default, PartialEq)]
pub struct ReserveCollateral {
    /// Collateral mint address
    pub mint_pubkey: Pubkey,
    /// Collateral tokens in circulation, for the exchange rate
    pub mint_total_supply: u64,
    /// Collateral supply address
    pub supply_pubkey: Pubkey,
}

/// Parameters of new reserve collateral.
pub struct NewReserveCollateralParams {
    /// Collateral mint address
    pub mint_pubkey: Pubkey,
    /// Collateral supply address
    pub supply_pubkey: Pubkey,
}

/// Collateral tokens per liquidity token.
#[derive(Clone, Copy, Debug)]
pub struct CollateralExchangeRate(pub Rate);

impl From<CollateralExchangeRate> for Rate {
    fn from(exchange_rate: CollateralExchangeRate) -> (r: Rate) {
        exchange_rate.0
    }
}

impl vstd::std_specs::convert::FromSpecImpl<CollateralExchangeRate> for Rate {
    open spec fn obeys_from_spec() -> bool {
        true
    }

    open spec fn from_spec(exchange_rate: CollateralExchangeRate) -> Rate {
        exchange_rate.0
    }
}

/// Mining state of a reserve.
#[derive(Clone, Copy, Debug, Default, PartialEq)]
pub struct Bonus {
    /// Supply address of collateral tokens that are not used as collateral
    pub un_coll_supply_account: Pubkey,
    /// Mine token earned so far per collateral token
    pub l_token_mining_index: Decimal,
    /// Mine token earned so far per borrowed token
    pub borrow_mining_index: Decimal,
    /// Mine token paid out to this reserve per slot
    pub total_mining_speed: u64,
    /// Share of the mine token that goes to suppliers, as a raw rate
    pub supply_rate: u64,
}

/// Parameters of a new mining state.
pub struct InitBonusParams {
    /// Supply address of collateral tokens that are not used as collateral
    pub un_coll_supply_account: Pubkey,
    /// Mine token paid out to this reserve per slot
    pub total_mining_speed: u64,
    /// Share of the mine token that goes to suppliers, as a raw rate
    pub supply_rate: u64,
}

impl Bonus {
    /// A mining state with both indices at zero.
    pub fn new(params: InitBonusParams) -> (r: Bonus)
        ensures
            r.un_coll_supply_account == params.un_coll_supply_account,
            r.l_token_mining_index.0 == 0,
            r.borrow_mining_index.0 == 0,
            r.total_mining_speed == params.total_mining_speed,
            r.supply_rate == params.supply_rate,
    {
        Bonus {
            un_coll_supply_account: params.un_coll_supply_account,
            l_token_mining_index: Decimal::zero(),
            borrow_mining_index: Decimal::zero(),
            total_mining_speed: params.total_mining_speed,
            supply_rate: params.supply_rate,
        }
    }
}

/// Parameters of a new reserve.
pub struct InitReserveParams {
    /// Slot of creation
    pub current_slot: u64,
    /// Lending market address
    pub lending_market: Pubkey,
    /// Reserve liquidity
    pub liquidity: ReserveLiquidity,
    /// Reserve collateral
    pub collateral: ReserveCollateral,
    /// Reserve configuration values
    pub config: ReserveConfig,
    /// Mining state
    pub bonus: Bonus,
}

/// Reserve configuration values.
#[derive(Clone, Debug, Default, PartialEq)]
pub struct ReserveConfig {
    /// Optimal utilization rate, as a percentage
    pub optimal_utilization_rate: u8,
    /// Target ratio of the value of borrows to deposits, as a percentage; 0 disables use as collateral
    pub loan_to_value_ratio: u8,
    /// Bonus a liquidator gets when repaying part of an unhealthy obligation, as a percentage
    pub liquidation_bonus: u8,
    /// Loan to value ratio at which an obligation can be liquidated, as a percentage
    pub liquidation_threshold: u8,
    /// Borrow rate at zero utilization, as a percentage
    pub min_borrow_rate: u8,
    /// Borrow rate at optimal utilization, as a percentage
    pub optimal_borrow_rate: u8,
    /// Borrow rate at full utilization, as a percentage
    pub max_borrow_rate: u8,
    /// Fees of the reserve
    pub fees: ReserveFees,
    /// Whether deposits are paused
    pub deposit_paused: bool,
    /// Whether borrows are paused
    pub borrow_paused: bool,
    /// Whether liquidations are paused
    pub liquidation_paused: bool,
    /// Largest total liquidity the reserve accepts
    pub deposit_limit: u64,
}

/// Fees of a reserve, besides interest.
#[derive(Clone, Debug, Default, PartialEq)]
pub struct ReserveFees {
    /// Fee on a borrow, as a raw rate (WAD is 100%)
    pub borrow_fee_wad: u64,
    /// Share of accrued interest that goes to the reserve owner, as a raw rate
    pub reserve_owner_fee_wad: u64,
    /// Fee on a flash loan, as a raw rate
    pub flash_loan_fee_wad: u64,
    /// Share of a fee that goes to the host, as a percentage
    pub host_fee_percentage: u8,
    /// Registered host fee receivers, at most five
    pub host_fee_receivers: Vec<Pubkey>,
}

/// Whether a fee comes on top of an amount or out of it.
#[derive(Clone, Copy, Debug, PartialEq, Eq, Structural)]
pub enum FeeCalculation {
    /// Fee added to the amount: fee = rate * amount
    Exclusive,
    /// Fee included in the amount: fee = rate / (1 + rate) * amount
    Inclusive,
}

/// Stored bytes of a reserve's version, last update, market and the liquidity's addresses.
pub open spec fn reserve_head_bytes(r: Reserve) -> Seq<u8> {
    Seq::<u8>::empty()
        + seq![r.version]
        + spec_u64_to_le_bytes(r.last_update.slot)
        + seq![bool_byte(r.last_update.stale)]
        + r.lending_market.0@
        + r.liquidity.mint_pubkey.0@
        + seq![r.liquidity.mint_decimals]
        + r.liquidity.supply_pubkey.0@
        + r.liquidity.fee_receiver.0@
        + seq![bool_byte(r.liquidity.use_pyth_oracle)]
        + r.liquidity.params_1.0@
        + r.liquidity.params_2.0@
}

/// Stored bytes of a reserve's liquidity amounts and collateral.
pub open spec fn reserve_liquidity_bytes(r: Reserve) -> Seq<u8> {
    Seq::<u8>::empty()
        + spec_u64_to_le_bytes(r.liquidity.available_amount)
        + decimal_bytes(r.liquidity.borrowed_amount_wads)
        + decimal_bytes(r.liquidity.cumulative_borrow_rate_wads)
        + decimal_bytes(r.liquidity.market_price)
        + decimal_bytes(r.liquidity.owner_unclaimed)
        + r.collateral.mint_pubkey.0@
        + spec_u64_to_le_bytes(r.collateral.mint_total_supply)
        + r.collateral.supply_pubkey.0@
}

/// Stored bytes of a reserve's configuration and fees, up to the host fee receiver count.
pub open spec fn reserve_config_bytes(r: Reserve) -> Seq<u8> {
    Seq::<u8>::empty()
        + seq![r.config.optimal_utilization_rate]
        + seq![r.config.loan_to_value_ratio]
        + seq![r.config.liquidation_bonus]
        + seq![r.config.liquidation_threshold]
        + seq![r.config.min_borrow_rate]
        + seq![r.config.optimal_borrow_rate]
        + seq![r.config.max_borrow_rate]
        + spec_u64_to_le_bytes(r.config.fees.borrow_fee_wad)
        + spec_u64_to_le_bytes(r.config.fees.reserve_owner_fee_wad)
        + spec_u64_to_le_bytes(r.config.fees.flash_loan_fee_wad)
        + seq![r.config.fees.host_fee_percentage]
        + seq![r.config.fees.host_fee_receivers@.len() as u8]
}

/// Stored bytes of a reserve's the host fee receiver slab.
pub open spec fn reserve_receivers_bytes(r: Reserve) -> Seq<u8> {
    Seq::<u8>::empty()
        + keys_bytes(r.config.fees.host_fee_receivers@) + zeros((160 - 32 * r.config.fees.host_fee_receivers@.len()) as nat)
}

/// Stored bytes of a reserve's pause flags, mining state, lock, deposit limit, LP flag and padding.
pub open spec fn reserve_tail_bytes(r: Reserve) -> Seq<u8> {
    Seq::<u8>::empty()
        + seq![bool_byte(r.config.deposit_paused)]
        + seq![bool_byte(r.config.borrow_paused)]
        + seq![bool_byte(r.config.liquidation_paused)]
        + r.bonus.un_coll_supply_account.0@
        + decimal_bytes(r.bonus.l_token_mining_index)
        + decimal_bytes(r.bonus.borrow_mining_index)
        + spec_u64_to_le_bytes(r.bonus.total_mining_speed)
        + spec_u64_to_le_bytes(r.bonus.supply_rate)
        + seq![bool_byte(r.reentry_lock)]
        + spec_u64_to_le_bytes(r.config.deposit_limit)
        + seq![bool_byte(r.liquidity.is_lp)]
        + zeros(239)
}

/// The stored form of a reserve: every field at its fixed offset,
/// little-endian, the host fee receivers in a slab of five slots, then zero
/// padding.
pub open spec fn reserve_bytes(r: Reserve) -> Seq<u8> {
    Seq::<u8>::empty() + reserve_head_bytes(r) + reserve_liquidity_bytes(r) + reserve_config_bytes(r) + reserve_receivers_bytes(r) + reserve_tail_bytes(r)
}

/// `r` is what the stored bytes `b` say, field by field.
pub open spec fn reserve_read_from(r: Reserve, b: Seq<u8>) -> bool {
    &&& r.version == b[0]
    &&& r.last_update.slot == spec_u64_from_le_bytes(b.subrange(1, 9))
    &&& b[9] == bool_byte(r.last_update.stale)
    &&& r.lending_market.0@ == b.subrange(10, 42)
    &&& r.liquidity.mint_pubkey.0@ == b.subrange(42, 74)
    &&& r.liquidity.mint_decimals == b[74]
    &&& r.liquidity.supply_pubkey.0@ == b.subrange(75, 107)
    &&& r.liquidity.fee_receiver.0@ == b.subrange(107, 139)
    &&& b[139] == bool_byte(r.liquidity.use_pyth_oracle)
    &&& r.liquidity.params_1.0@ == b.subrange(140, 172)
    &&& r.liquidity.params_2.0@ == b.subrange(172, 204)
    &&& r.liquidity.available_amount == spec_u64_from_le_bytes(b.subrange(204, 212))
    &&& r.liquidity.borrowed_amount_wads == decimal_from(b.subrange(212, 228))
    &&& r.liquidity.cumulative_borrow_rate_wads == decimal_from(b.subrange(228, 244))
    &&& r.liquidity.market_price == decimal_from(b.subrange(244, 260))
    &&& r.liquidity.owner_unclaimed == decimal_from(b.subrange(260, 276))
    &&& r.collateral.mint_pubkey.0@ == b.subrange(276, 308)
    &&& r.collateral.mint_total_supply == spec_u64_from_le_bytes(b.subrange(308, 316))
    &&& r.collateral.supply_pubkey.0@ == b.subrange(316, 348)
    &&& r.config.optimal_utilization_rate == b[348]
    &&& r.config.loan_to_value_ratio == b[349]
    &&& r.config.liquidation_bonus == b[350]
    &&& r.config.liquidation_threshold == b[351]
    &&& r.config.min_borrow_rate == b[352]
    &&& r.config.optimal_borrow_rate == b[353]
    &&& r.config.max_borrow_rate == b[354]
    &&& r.config.fees.borrow_fee_wad == spec_u64_from_le_bytes(b.subrange(355, 363))
    &&& r.config.fees.reserve_owner_fee_wad == spec_u64_from_le_bytes(b.subrange(363, 371))
    &&& r.config.fees.flash_loan_fee_wad == spec_u64_from_le_bytes(b.subrange(371, 379))
    &&& r.config.fees.host_fee_percentage == b[379]
    &&& r.config.fees.host_fee_receivers@.len() == b[380]
    &&& forall|i: int| 0 <= i < r.config.fees.host_fee_receivers@.len() ==> #[trigger] r.config.fees.host_fee_receivers@[i].0@ == b.subrange(381 + 32 * i, 381 + 32 * i + 32)
    &&& b[541] == bool_byte(r.config.deposit_paused)
    &&& b[542] == bool_byte(r.config.borrow_paused)
    &&& b[543] == bool_byte(r.config.liquidation_paused)
    &&& r.bonus.un_coll_supply_account.0@ == b.subrange(544, 576)
    &&& r.bonus.l_token_mining_index == decimal_from(b.subrange(576, 592))
    &&& r.bonus.borrow_mining_index == decimal_from(b.subrange(592, 608))
    &&& r.bonus.total_mining_speed == spec_u64_from_le_bytes(b.subrange(608, 616))
    &&& r.bonus.supply_rate == spec_u64_from_le_bytes(b.subrange(616, 624))
    &&& b[624] == bool_byte(r.reentry_lock)
    &&& r.config.deposit_limit == spec_u64_from_le_bytes(b.subrange(625, 633))
    &&& b[633] == bool_byte(r.liquidity.is_lp)
}

/// Stored bytes that can be read as a reserve: the right length, a supported
/// version, at most five host fee receivers and only 0 or 1 in boolean bytes.
pub open spec fn reserve_bytes_valid(b: Seq<u8>) -> bool {
    &&& b.len() == RESERVE_LEN
    &&& b[0] <= PROGRAM_VERSION
    &&& b[380] <= HOST_FEE_RECEIVER_COUNT
    &&& (b[9] == 0 || b[9] == 1)
    &&& (b[139] == 0 || b[139] == 1)
    &&& (b[541] == 0 || b[541] == 1)
    &&& (b[542] == 0 || b[542] == 1)
    &&& (b[543] == 0 || b[543] == 1)
    &&& (b[624] == 0 || b[624] == 1)
    &&& (b[633] == 0 || b[633] == 1)
}

impl Reserve {
    fn pack_head(&self) -> (r: Vec<u8>)
        ensures
            r@ == reserve_head_bytes(*self),
    {
        let mut out: Vec<u8> = Vec::new();
        put_u8(&mut out, self.version);
        put_u64(&mut out, self.last_update.slot);
        put_bool(&mut out, self.last_update.stale);
        put_key(&mut out, &self.lending_market);
        put_key(&mut out, &self.liquidity.mint_pubkey);
        put_u8(&mut out, self.liquidity.mint_decimals);
        put_key(&mut out, &self.liquidity.supply_pubkey);
        put_key(&mut out, &self.liquidity.fee_receiver);
        put_bool(&mut out, self.liquidity.use_pyth_oracle);
        put_key(&mut out, &self.liquidity.params_1);
        put_key(&mut out, &self.liquidity.params_2);
        out
    }

    fn pack_liquidity(&self) -> (r: Vec<u8>)
        ensures
            r@ == reserve_liquidity_bytes(*self),
    {
        let mut out: Vec<u8> = Vec::new();
        put_u64(&mut out, self.liquidity.available_amount);
        put_decimal(&mut out, self.liquidity.borrowed_amount_wads);
        put_decimal(&mut out, self.liquidity.cumulative_borrow_rate_wads);
        put_decimal(&mut out, self.liquidity.market_price);
        put_decimal(&mut out, self.liquidity.owner_unclaimed);
        put_key(&mut out, &self.collateral.mint_pubkey);
        put_u64(&mut out, self.collateral.mint_total_supply);
        put_key(&mut out, &self.collateral.supply_pubkey);
        out
    }

    fn pack_config(&self) -> (r: Vec<u8>)
        ensures
            r@ == reserve_config_bytes(*self),
    {
        let mut out: Vec<u8> = Vec::new();
        put_u8(&mut out, self.config.optimal_utilization_rate);
        put_u8(&mut out, self.config.loan_to_value_ratio);
        put_u8(&mut out, self.config.liquidation_bonus);
        put_u8(&mut out, self.config.liquidation_threshold);
        put_u8(&mut out, self.config.min_borrow_rate);
        put_u8(&mut out, self.config.optimal_borrow_rate);
        put_u8(&mut out, self.config.max_borrow_rate);
        put_u64(&mut out, self.config.fees.borrow_fee_wad);
        put_u64(&mut out, self.config.fees.reserve_owner_fee_wad);
        put_u64(&mut out, self.config.fees.flash_loan_fee_wad);
        put_u8(&mut out, self.config.fees.host_fee_percentage);
        put_u8(&mut out, self.config.fees.host_fee_receivers.len() as u8);
        out
    }

    fn pack_receivers(&self) -> (r: Vec<u8>)
        requires
            self.config.fees.host_fee_receivers@.len() <= HOST_FEE_RECEIVER_COUNT,
        ensures
            r@ == reserve_receivers_bytes(*self),
    {
        let mut out: Vec<u8> = Vec::new();
        put_keys(&mut out, &self.config.fees.host_fee_receivers, HOST_FEE_RECEIVER_COUNT);
        out
    }

    fn pack_tail(&self) -> (r: Vec<u8>)
        ensures
            r@ == reserve_tail_bytes(*self),
    {
        let mut out: Vec<u8> = Vec::new();
        put_bool(&mut out, self.config.deposit_paused);
        put_bool(&mut out, self.config.borrow_paused);
        put_bool(&mut out, self.config.liquidation_paused);
        put_key(&mut out, &self.bonus.un_coll_supply_account);
        put_decimal(&mut out, self.bonus.l_token_mining_index);
        put_decimal(&mut out, self.bonus.borrow_mining_index);
        put_u64(&mut out, self.bonus.total_mining_speed);
        put_u64(&mut out, self.bonus.supply_rate);
        put_bool(&mut out, self.reentry_lock);
        put_u64(&mut out, self.config.deposit_limit);
        put_bool(&mut out, self.liquidity.is_lp);
        put_zeros(&mut out, 239);
        out
    }

    /// The stored form of this reserve.
    pub fn pack(&self) -> (r: Vec<u8>)
        requires
            self.config.fees.host_fee_receivers@.len() <= HOST_FEE_RECEIVER_COUNT,
        ensures
            r@ == reserve_bytes(*self),
    {
        let mut out: Vec<u8> = Vec::new();
        let g = self.pack_head();
        append_all(&mut out, &g);
        let g = self.pack_liquidity();
        append_all(&mut out, &g);
        let g = self.pack_config();
        append_all(&mut out, &g);
        let g = self.pack_receivers();
        append_all(&mut out, &g);
        let g = self.pack_tail();
        append_all(&mut out, &g);
        out
    }

    /// Writes the stored form of this reserve into `output`.
    pub fn pack_into_slice(&self, output: &mut [u8])
        requires
            self.config.fees.host_fee_receivers@.len() <= HOST_FEE_RECEIVER_COUNT,
            old(output)@.len() == RESERVE_LEN,
        ensures
            final(output)@ == reserve_bytes(*self),
    {
        let v = self.pack();
        proof {
            lemma_reserve_layout(*self);
        }
        copy_into(output, &v);
    }

    /// Reads a stored reserve. The buffer must have exactly the stored length,
    /// a supported version, at most five host fee receivers and only 0 or 1
    /// in its boolean bytes.
    pub fn unpack_from_slice(input: &[u8]) -> (r: Result<Reserve, LendingError>)
        ensures
            input@.len() != RESERVE_LEN ==> r == Err::<Reserve, LendingError>(LendingError::DecodeError),
            input@.len() == RESERVE_LEN && input@[0] > PROGRAM_VERSION
                ==> r == Err::<Reserve, LendingError>(LendingError::VersionMismatch),
            input@.len() == RESERVE_LEN && input@[0] <= PROGRAM_VERSION && !reserve_bytes_valid(input@)
                ==> r == Err::<Reserve, LendingError>(LendingError::DecodeError),
            r is Ok <==> reserve_bytes_valid(input@),
            r is Ok ==> reserve_read_from(r->Ok_0, input@),
    {
        if input.len() != RESERVE_LEN {
            return Err(LendingError::DecodeError);
        }
        let version = get_u8(input, 0);
        if version > PROGRAM_VERSION {
            return Err(LendingError::VersionMismatch);
        }
        let count = get_u8(input, 380);
        if count as usize > HOST_FEE_RECEIVER_COUNT {
            return Err(LendingError::DecodeError);
        }
        let last_update_stale = match get_bool(input, 9) {
            Ok(v) => v,
            Err(e) => return Err(e),
        };
        let liquidity_use_pyth_oracle = match get_bool(input, 139) {
            Ok(v) => v,
            Err(e) => return Err(e),
        };
        let config_deposit_paused = match get_bool(input, 541) {
            Ok(v) => v,
            Err(e) => return Err(e),
        };
        let config_borrow_paused = match get_bool(input, 542) {
            Ok(v) => v,
            Err(e) => return Err(e),
        };
        let config_liquidation_paused = match get_bool(input, 543) {
            Ok(v) => v,
            Err(e) => return Err(e),
        };
        let reentry_lock = match get_bool(input, 624) {
            Ok(v) => v,
            Err(e) => return Err(e),
        };
        let liquidity_is_lp = match get_bool(input, 633) {
            Ok(v) => v,
            Err(e) => return Err(e),
        };
        let host_fee_receivers = get_keys(input, 381, count as usize);
        Ok(Reserve {
            version,
            last_update: LastUpdate { slot: get_u64(input, 1), stale: last_update_stale },
            lending_market: get_key(input, 10),
            liquidity: ReserveLiquidity {
                is_lp: liquidity_is_lp,
                mint_pubkey: get_key(input, 42),
                mint_decimals: get_u8(input, 74),
                supply_pubkey: get_key(input, 75),
                fee_receiver: get_key(input, 107),
                use_pyth_oracle: liquidity_use_pyth_oracle,
                params_1: get_key(input, 140),
                params_2: get_key(input, 172),
                available_amount: get_u64(input, 204),
                borrowed_amount_wads: get_decimal(input, 212),
                cumulative_borrow_rate_wads: get_decimal(input, 228),
                market_price: get_decimal(input, 244),
                owner_unclaimed: get_decimal(input, 260),
            },
            collateral: ReserveCollateral {
                mint_pubkey: get_key(input, 276),
                mint_total_supply: get_u64(input, 308),
                supply_pubkey: get_key(input, 316),
            },
            config: ReserveConfig {
                optimal_utilization_rate: get_u8(input, 348),
                loan_to_value_ratio: get_u8(input, 349),
                liquidation_bonus: get_u8(input, 350),
                liquidation_threshold: get_u8(input, 351),
                min_borrow_rate: get_u8(input, 352),
                optimal_borrow_rate: get_u8(input, 353),
                max_borrow_rate: get_u8(input, 354),
                fees: ReserveFees {
                    borrow_fee_wad: get_u64(input, 355),
                    reserve_owner_fee_wad: get_u64(input, 363),
                    flash_loan_fee_wad: get_u64(input, 371),
                    host_fee_percentage: get_u8(input, 379),
                    host_fee_receivers,
                },
                deposit_paused: config_deposit_paused,
                borrow_paused: config_borrow_paused,
                liquidation_paused: config_liquidation_paused,
                deposit_limit: get_u64(input, 625),
            },
            bonus: Bonus {
                un_coll_supply_account: get_key(input, 544),
                l_token_mining_index: get_decimal(input, 576),
                borrow_mining_index: get_decimal(input, 592),
                total_mining_speed: get_u64(input, 608),
                supply_rate: get_u64(input, 616),
            },
            reentry_lock,
        })
    }
}

proof fn lemma_reserve_head_bytes(r: Reserve)
    ensures
        reserve_head_bytes(r).len() == 204,
        reserve_head_bytes(r)[0] == r.version,
        reserve_head_bytes(r).subrange(1, 9) == spec_u64_to_le_bytes(r.last_update.slot),
        reserve_head_bytes(r)[9] == bool_byte(r.last_update.stale),
        reserve_head_bytes(r).subrange(10, 42) == r.lending_market.0@,
        reserve_head_bytes(r).subrange(42, 74) == r.liquidity.mint_pubkey.0@,
        reserve_head_bytes(r)[74] == r.liquidity.mint_decimals,
        reserve_head_bytes(r).subrange(75, 107) == r.liquidity.supply_pubkey.0@,
        reserve_head_bytes(r).subrange(107, 139) == r.liquidity.fee_receiver.0@,
        reserve_head_bytes(r)[139] == bool_byte(r.liquidity.use_pyth_oracle),
        reserve_head_bytes(r).subrange(140, 172) == r.liquidity.params_1.0@,
        reserve_head_bytes(r).subrange(172, 204) == r.liquidity.params_2.0@,
{
    vstd::bytes::lemma_auto_spec_u64_to_from_le_bytes();
    vstd::bytes::lemma_auto_spec_u128_to_from_le_bytes();
    let b = reserve_head_bytes(r);
    assert(b.subrange(1, 9) =~= spec_u64_to_le_bytes(r.last_update.slot));
    assert(b.subrange(10, 42) =~= r.lending_market.0@);
    assert(b.subrange(42, 74) =~= r.liquidity.mint_pubkey.0@);
    assert(b.subrange(75, 107) =~= r.liquidity.supply_pubkey.0@);
    assert(b.subrange(107, 139) =~= r.liquidity.fee_receiver.0@);
    assert(b.subrange(140, 172) =~= r.liquidity.params_1.0@);
    assert(b.subrange(172, 204) =~= r.liquidity.params_2.0@);
}

proof fn lemma_reserve_liquidity_bytes(r: Reserve)
    ensures
        reserve_liquidity_bytes(r).len() == 144,
        reserve_liquidity_bytes(r).subrange(0, 8) == spec_u64_to_le_bytes(r.liquidity.available_amount),
        reserve_liquidity_bytes(r).subrange(8, 24) == decimal_bytes(r.liquidity.borrowed_amount_wads),
        reserve_liquidity_bytes(r).subrange(24, 40) == decimal_bytes(r.liquidity.cumulative_borrow_rate_wads),
        reserve_liquidity_bytes(r).subrange(40, 56) == decimal_bytes(r.liquidity.market_price),
        reserve_liquidity_bytes(r).subrange(56, 72) == decimal_bytes(r.liquidity.owner_unclaimed),
        reserve_liquidity_bytes(r).subrange(72, 104) == r.collateral.mint_pubkey.0@,
        reserve_liquidity_bytes(r).subrange(104, 112) == spec_u64_to_le_bytes(r.collateral.mint_total_supply),
        reserve_liquidity_bytes(r).subrange(112, 144) == r.collateral.supply_pubkey.0@,
{
    vstd::bytes::lemma_auto_spec_u64_to_from_le_bytes();
    vstd::bytes::lemma_auto_spec_u128_to_from_le_bytes();
    let b = reserve_liquidity_bytes(r);
    assert(b.subrange(0, 8) =~= spec_u64_to_le_bytes(r.liquidity.available_amount));
    assert(b.subrange(8, 24) =~= decimal_bytes(r.liquidity.borrowed_amount_wads));
    assert(b.subrange(24, 40) =~= decimal_bytes(r.liquidity.cumulative_borrow_rate_wads));
    assert(b.subrange(40, 56) =~= decimal_bytes(r.liquidity.market_price));
    assert(b.subrange(56, 72) =~= decimal_bytes(r.liquidity.owner_unclaimed));
    assert(b.subrange(72, 104) =~= r.collateral.mint_pubkey.0@);
    assert(b.subrange(104, 112) =~= spec_u64_to_le_bytes(r.collateral.mint_total_supply));
    assert(b.subrange(112, 144) =~= r.collateral.supply_pubkey.0@);
}

proof fn lemma_reserve_config_bytes(r: Reserve)
    ensures
        reserve_config_bytes(r).len() == 33,
        reserve_config_bytes(r)[0] == r.config.optimal_utilization_rate,
        reserve_config_bytes(r)[1] == r.config.loan_to_value_ratio,
        reserve_config_bytes(r)[2] == r.config.liquidation_bonus,
        reserve_config_bytes(r)[3] == r.config.liquidation_threshold,
        reserve_config_bytes(r)[4] == r.config.min_borrow_rate,
        reserve_config_bytes(r)[5] == r.config.optimal_borrow_rate,
        reserve_config_bytes(r)[6] == r.config.max_borrow_rate,
        reserve_config_bytes(r).subrange(7, 15) == spec_u64_to_le_bytes(r.config.fees.borrow_fee_wad),
        reserve_config_bytes(r).subrange(15, 23) == spec_u64_to_le_bytes(r.config.fees.reserve_owner_fee_wad),
        reserve_config_bytes(r).subrange(23, 31) == spec_u64_to_le_bytes(r.config.fees.flash_loan_fee_wad),
        reserve_config_bytes(r)[31] == r.config.fees.host_fee_percentage,
        reserve_config_bytes(r)[32] == r.config.fees.host_fee_receivers@.len() as u8,
{
    vstd::bytes::lemma_auto_spec_u64_to_from_le_bytes();
    vstd::bytes::lemma_auto_spec_u128_to_from_le_bytes();
    let b = reserve_config_bytes(r);
    assert(b.subrange(7, 15) =~= spec_u64_to_le_bytes(r.config.fees.borrow_fee_wad));
    assert(b.subrange(15, 23) =~= spec_u64_to_le_bytes(r.config.fees.reserve_owner_fee_wad));
    assert(b.subrange(23, 31) =~= spec_u64_to_le_bytes(r.config.fees.flash_loan_fee_wad));
}

proof fn lemma_reserve_receivers_bytes(r: Reserve)
    requires
        r.config.fees.host_fee_receivers@.len() <= HOST_FEE_RECEIVER_COUNT,
    ensures
        reserve_receivers_bytes(r).len() == 160,
        reserve_receivers_bytes(r).subrange(0, 160) == keys_bytes(r.config.fees.host_fee_receivers@) + zeros((160 - 32 * r.config.fees.host_fee_receivers@.len()) as nat),
{
    lemma_keys_bytes(r.config.fees.host_fee_receivers@);
    vstd::bytes::lemma_auto_spec_u64_to_from_le_bytes();
    vstd::bytes::lemma_auto_spec_u128_to_from_le_bytes();
    let b = reserve_receivers_bytes(r);
    assert(b.subrange(0, 160) =~= keys_bytes(r.config.fees.host_fee_receivers@) + zeros((160 - 32 * r.config.fees.host_fee_receivers@.len()) as nat));
}

proof fn lemma_reserve_tail_bytes(r: Reserve)
    ensures
        reserve_tail_bytes(r).len() == 332,
        reserve_tail_bytes(r)[0] == bool_byte(r.config.deposit_paused),
        reserve_tail_bytes(r)[1] == bool_byte(r.config.borrow_paused),
        reserve_tail_bytes(r)[2] == bool_byte(r.config.liquidation_paused),
        reserve_tail_bytes(r).subrange(3, 35) == r.bonus.un_coll_supply_account.0@,
        reserve_tail_bytes(r).subrange(35, 51) == decimal_bytes(r.bonus.l_token_mining_index),
        reserve_tail_bytes(r).subrange(51, 67) == decimal_bytes(r.bonus.borrow_mining_index),
        reserve_tail_bytes(r).subrange(67, 75) == spec_u64_to_le_bytes(r.bonus.total_mining_speed),
        reserve_tail_bytes(r).subrange(75, 83) == spec_u64_to_le_bytes(r.bonus.supply_rate),
        reserve_tail_bytes(r)[83] == bool_byte(r.reentry_lock),
        reserve_tail_bytes(r).subrange(84, 92) == spec_u64_to_le_bytes(r.config.deposit_limit),
        reserve_tail_bytes(r)[92] == bool_byte(r.liquidity.is_lp),
{
    vstd::bytes::lemma_auto_spec_u64_to_from_le_bytes();
    vstd::bytes::lemma_auto_spec_u128_to_from_le_bytes();
    let b = reserve_tail_bytes(r);
    assert(b.subrange(3, 35) =~= r.bonus.un_coll_supply_account.0@);
    assert(b.subrange(35, 51) =~= decimal_bytes(r.bonus.l_token_mining_index));
    assert(b.subrange(51, 67) =~= decimal_bytes(r.bonus.borrow_mining_index));
    assert(b.subrange(67, 75) =~= spec_u64_to_le_bytes(r.bonus.total_mining_speed));
    assert(b.subrange(75, 83) =~= spec_u64_to_le_bytes(r.bonus.supply_rate));
    assert(b.subrange(84, 92) =~= spec_u64_to_le_bytes(r.config.deposit_limit));
}

/// Each field of a reserve sits at its offset in the stored form.
pub proof fn lemma_reserve_layout(r: Reserve)
    requires
        r.config.fees.host_fee_receivers@.len() <= HOST_FEE_RECEIVER_COUNT,
    ensures
        reserve_bytes(r).len() == RESERVE_LEN,
        reserve_bytes(r)[0] == r.version,
        reserve_bytes(r).subrange(1, 9) == spec_u64_to_le_bytes(r.last_update.slot),
        reserve_bytes(r)[9] == bool_byte(r.last_update.stale),
        reserve_bytes(r).subrange(10, 42) == r.lending_market.0@,
        reserve_bytes(r).subrange(42, 74) == r.liquidity.mint_pubkey.0@,
        reserve_bytes(r)[74] == r.liquidity.mint_decimals,
        reserve_bytes(r).subrange(75, 107) == r.liquidity.supply_pubkey.0@,
        reserve_bytes(r).subrange(107, 139) == r.liquidity.fee_receiver.0@,
        reserve_bytes(r)[139] == bool_byte(r.liquidity.use_pyth_oracle),
        reserve_bytes(r).subrange(140, 172) == r.liquidity.params_1.0@,
        reserve_bytes(r).subrange(172, 204) == r.liquidity.params_2.0@,
        reserve_bytes(r).subrange(204, 212) == spec_u64_to_le_bytes(r.liquidity.available_amount),
        reserve_bytes(r).subrange(212, 228) == decimal_bytes(r.liquidity.borrowed_amount_wads),
        reserve_bytes(r).subrange(228, 244) == decimal_bytes(r.liquidity.cumulative_borrow_rate_wads),
        reserve_bytes(r).subrange(244, 260) == decimal_bytes(r.liquidity.market_price),
        reserve_bytes(r).subrange(260, 276) == decimal_bytes(r.liquidity.owner_unclaimed),
        reserve_bytes(r).subrange(276, 308) == r.collateral.mint_pubkey.0@,
        reserve_bytes(r).subrange(308, 316) == spec_u64_to_le_bytes(r.collateral.mint_total_supply),
        reserve_bytes(r).subrange(316, 348) == r.collateral.supply_pubkey.0@,
        reserve_bytes(r)[348] == r.config.optimal_utilization_rate,
        reserve_bytes(r)[349] == r.config.loan_to_value_ratio,
        reserve_bytes(r)[350] == r.config.liquidation_bonus,
        reserve_bytes(r)[351] == r.config.liquidation_threshold,
        reserve_bytes(r)[352] == r.config.min_borrow_rate,
        reserve_bytes(r)[353] == r.config.optimal_borrow_rate,
        reserve_bytes(r)[354] == r.config.max_borrow_rate,
        reserve_bytes(r).subrange(355, 363) == spec_u64_to_le_bytes(r.config.fees.borrow_fee_wad),
        reserve_bytes(r).subrange(363, 371) == spec_u64_to_le_bytes(r.config.fees.reserve_owner_fee_wad),
        reserve_bytes(r).subrange(371, 379) == spec_u64_to_le_bytes(r.config.fees.flash_loan_fee_wad),
        reserve_bytes(r)[379] == r.config.fees.host_fee_percentage,
        reserve_bytes(r)[380] == r.config.fees.host_fee_receivers@.len() as u8,
        reserve_bytes(r).subrange(381, 541) == keys_bytes(r.config.fees.host_fee_receivers@) + zeros((160 - 32 * r.config.fees.host_fee_receivers@.len()) as nat),
        reserve_bytes(r)[541] == bool_byte(r.config.deposit_paused),
        reserve_bytes(r)[542] == bool_byte(r.config.borrow_paused),
        reserve_bytes(r)[543] == bool_byte(r.config.liquidation_paused),
        reserve_bytes(r).subrange(544, 576) == r.bonus.un_coll_supply_account.0@,
        reserve_bytes(r).subrange(576, 592) == decimal_bytes(r.bonus.l_token_mining_index),
        reserve_bytes(r).subrange(592, 608) == decimal_bytes(r.bonus.borrow_mining_index),
        reserve_bytes(r).subrange(608, 616) == spec_u64_to_le_bytes(r.bonus.total_mining_speed),
        reserve_bytes(r).subrange(616, 624) == spec_u64_to_le_bytes(r.bonus.supply_rate),
        reserve_bytes(r)[624] == bool_byte(r.reentry_lock),
        reserve_bytes(r).subrange(625, 633) == spec_u64_to_le_bytes(r.config.deposit_limit),
        reserve_bytes(r)[633] == bool_byte(r.liquidity.is_lp),
{
    let b = reserve_bytes(r);
    lemma_reserve_head_bytes(r);
    lemma_reserve_liquidity_bytes(r);
    lemma_reserve_config_bytes(r);
    lemma_reserve_receivers_bytes(r);
    lemma_reserve_tail_bytes(r);
    assert(b.subrange(0, 204) =~= reserve_head_bytes(r));
    assert(b.subrange(204, 348) =~= reserve_liquidity_bytes(r));
    assert(b.subrange(348, 381) =~= reserve_config_bytes(r));
    assert(b.subrange(381, 541) =~= reserve_receivers_bytes(r));
    assert(b.subrange(541, 873) =~= reserve_tail_bytes(r));
    assert(b[0] == b.subrange(0, 204)[0]);
    assert(b.subrange(1, 9) =~= b.subrange(0, 204).subrange(1, 9));
    assert(b[9] == b.subrange(0, 204)[9]);
    assert(b.subrange(10, 42) =~= b.subrange(0, 204).subrange(10, 42));
    assert(b.subrange(42, 74) =~= b.subrange(0, 204).subrange(42, 74));
    assert(b[74] == b.subrange(0, 204)[74]);
    assert(b.subrange(75, 107) =~= b.subrange(0, 204).subrange(75, 107));
    assert(b.subrange(107, 139) =~= b.subrange(0, 204).subrange(107, 139));
    assert(b[139] == b.subrange(0, 204)[139]);
    assert(b.subrange(140, 172) =~= b.subrange(0, 204).subrange(140, 172));
    assert(b.subrange(172, 204) =~= b.subrange(0, 204).subrange(172, 204));
    assert(b.subrange(204, 212) =~= b.subrange(204, 348).subrange(0, 8));
    assert(b.subrange(212, 228) =~= b.subrange(204, 348).subrange(8, 24));
    assert(b.subrange(228, 244) =~= b.subrange(204, 348).subrange(24, 40));
    assert(b.subrange(244, 260) =~= b.subrange(204, 348).subrange(40, 56));
    assert(b.subrange(260, 276) =~= b.subrange(204, 348).subrange(56, 72));
    assert(b.subrange(276, 308) =~= b.subrange(204, 348).subrange(72, 104));
    assert(b.subrange(308, 316) =~= b.subrange(204, 348).subrange(104, 112));
    assert(b.subrange(316, 348) =~= b.subrange(204, 348).subrange(112, 144));
    assert(b[348] == b.subrange(348, 381)[0]);
    assert(b[349] == b.subrange(348, 381)[1]);
    assert(b[350] == b.subrange(348, 381)[2]);
    assert(b[351] == b.subrange(348, 381)[3]);
    assert(b[352] == b.subrange(348, 381)[4]);
    assert(b[353] == b.subrange(348, 381)[5]);
    assert(b[354] == b.subrange(348, 381)[6]);
    assert(b.subrange(355, 363) =~= b.subrange(348, 381).subrange(7, 15));
    assert(b.subrange(363, 371) =~= b.subrange(348, 381).subrange(15, 23));
    assert(b.subrange(371, 379) =~= b.subrange(348, 381).subrange(23, 31));
    assert(b[379] == b.subrange(348, 381)[31]);
    assert(b[380] == b.subrange(348, 381)[32]);
    assert(b.subrange(381, 541) =~= b.subrange(381, 541).subrange(0, 160));
    assert(b[541] == b.subrange(541, 873)[0]);
    assert(b[542] == b.subrange(541, 873)[1]);
    assert(b[543] == b.subrange(541, 873)[2]);
    assert(b.subrange(544, 576) =~= b.subrange(541, 873).subrange(3, 35));
    assert(b.subrange(576, 592) =~= b.subrange(541, 873).subrange(35, 51));
    assert(b.subrange(592, 608) =~= b.subrange(541, 873).subrange(51, 67));
    assert(b.subrange(608, 616) =~= b.subrange(541, 873).subrange(67, 75));
    assert(b.subrange(616, 624) =~= b.subrange(541, 873).subrange(75, 83));
    assert(b[624] == b.subrange(541, 873)[83]);
    assert(b.subrange(625, 633) =~= b.subrange(541, 873).subrange(84, 92));
    assert(b[633] == b.subrange(541, 873)[92]);
}

/// Two configurations that hold the same values, host fee receivers compared
/// by their contents.
pub open spec fn config_same(a: ReserveConfig, b: ReserveConfig) -> bool {
    &&& a.optimal_utilization_rate == b.optimal_utilization_rate
    &&& a.loan_to_value_ratio == b.loan_to_value_ratio
    &&& a.liquidation_bonus == b.liquidation_bonus
    &&& a.liquidation_threshold == b.liquidation_threshold
    &&& a.min_borrow_rate == b.min_borrow_rate
    &&& a.optimal_borrow_rate == b.optimal_borrow_rate
    &&& a.max_borrow_rate == b.max_borrow_rate
    &&& a.fees.borrow_fee_wad == b.fees.borrow_fee_wad
    &&& a.fees.reserve_owner_fee_wad == b.fees.reserve_owner_fee_wad
    &&& a.fees.flash_loan_fee_wad == b.fees.flash_loan_fee_wad
    &&& a.fees.host_fee_percentage == b.fees.host_fee_percentage
    &&& a.fees.host_fee_receivers@ == b.fees.host_fee_receivers@
    &&& a.deposit_paused == b.deposit_paused
    &&& a.borrow_paused == b.borrow_paused
    &&& a.liquidation_paused == b.liquidation_paused
    &&& a.deposit_limit == b.deposit_limit
}

/// Two reserves that hold the same values.
pub open spec fn reserve_same(a: Reserve, b: Reserve) -> bool {
    &&& a.version == b.version
    &&& a.last_update == b.last_update
    &&& a.lending_market == b.lending_market
    &&& a.liquidity == b.liquidity
    &&& a.collateral == b.collateral
    &&& config_same(a.config, b.config)
    &&& a.bonus == b.bonus
    &&& a.reentry_lock == b.reentry_lock
}

/// Reading back the stored form of a reserve of a supported version with at
/// most five host fee receivers succeeds and gives the same reserve.
pub proof fn lemma_reserve_round_trip(r: Reserve, d: Reserve)
    requires
        r.version <= PROGRAM_VERSION,
        r.config.fees.host_fee_receivers@.len() <= HOST_FEE_RECEIVER_COUNT,
        reserve_read_from(d, reserve_bytes(r)),
    ensures
        reserve_bytes_valid(reserve_bytes(r)),
        reserve_same(d, r),
{
    lemma_reserve_layout(r);
    vstd::bytes::lemma_auto_spec_u64_to_from_le_bytes();
    vstd::bytes::lemma_auto_spec_u128_to_from_le_bytes();
    lemma_keys_bytes(r.config.fees.host_fee_receivers@);
    let b = reserve_bytes(r);
    assert(d.lending_market.0 =~= r.lending_market.0);
    assert(d.liquidity.mint_pubkey.0 =~= r.liquidity.mint_pubkey.0);
    assert(d.liquidity.supply_pubkey.0 =~= r.liquidity.supply_pubkey.0);
    assert(d.liquidity.fee_receiver.0 =~= r.liquidity.fee_receiver.0);
    assert(d.liquidity.params_1.0 =~= r.liquidity.params_1.0);
    assert(d.liquidity.params_2.0 =~= r.liquidity.params_2.0);
    assert(d.collateral.mint_pubkey.0 =~= r.collateral.mint_pubkey.0);
    assert(d.collateral.supply_pubkey.0 =~= r.collateral.supply_pubkey.0);
    assert(d.bonus.un_coll_supply_account.0 =~= r.bonus.un_coll_supply_account.0);
    let s = r.config.fees.host_fee_receivers@;
    let t = d.config.fees.host_fee_receivers@;
    assert forall|i: int| 0 <= i < s.len() implies t[i] == s[i] by {
        assert(b.subrange(381 + 32 * i, 381 + 32 * i + 32) =~= b.subrange(381, 541).subrange(32 * i, 32 * i + 32));
        assert(b.subrange(381, 541).subrange(32 * i, 32 * i + 32) =~= keys_bytes(s).subrange(32 * i, 32 * i + 32));
        assert(t[i].0 =~= s[i].0);
    }
    assert(t =~= s);
}

/// `(1 + rate / SLOTS_PER_YEAR)` raised to `slots`, the growth of a debt over
/// `slots` slots at the yearly `rate`.
pub open spec fn spec_compounded_rate(rate: Rate, slots: nat) -> Result<Decimal, LendingError> {
    match Decimal(rate.0 as u128).spec_div_u64(SLOTS_PER_YEAR) {
        Err(e) => Err(e),
        Ok(slot_rate) => match Decimal(WAD).spec_add(slot_rate) {
            Err(e) => Err(e),
            Ok(base) => base.spec_pow(slots),
        },
    }
}

/// The growth of a debt over `slots` slots at the yearly `rate`.
pub fn compounded_rate(rate: Rate, slots: u64) -> (r: Result<Decimal, LendingError>)
    ensures
        r == spec_compounded_rate(rate, slots as nat),
{
    let slot_rate = match Decimal::from_rate(rate).try_div_u64(SLOTS_PER_YEAR) {
        Ok(v) => v,
        Err(e) => return Err(e),
    };
    let base = match Decimal::one().try_add(slot_rate) {
        Ok(v) => v,
        Err(e) => return Err(e),
    };
    base.try_pow(slots)
}

/// Refreshing a reserve never lowers its cumulative borrow rate.
pub proof fn lemma_refresh_rate_monotonic(r: Reserve, current_slot: u64, market_price: Decimal)
    requires
        r.spec_refresh(current_slot, market_price) is Ok,
    ensures
        r.spec_refresh(current_slot, market_price)->Ok_0.liquidity.cumulative_borrow_rate_wads.0
            >= r.liquidity.cumulative_borrow_rate_wads.0,
{
    if !r.reentry_lock && current_slot > r.last_update.slot {
        let slots = (current_slot - r.last_update.slot) as u64;
        let rate = r.spec_current_borrow_rate()->Ok_0;
        let slot_rate = Decimal(rate.0 as u128).spec_div_u64(SLOTS_PER_YEAR)->Ok_0;
        let base = Decimal(WAD).spec_add(slot_rate)->Ok_0;
        lemma_pow_at_least_one(base, slots as nat);
        let c = spec_compounded_rate(rate, slots as nat)->Ok_0;
        lemma_mul_at_least_one(r.liquidity.cumulative_borrow_rate_wads, c);
    }
}

impl ReserveLiquidity {
    /// Available plus borrowed liquidity.
    pub open spec fn spec_total_supply(self) -> Result<Decimal, LendingError> {
        Decimal::spec_from_u64(self.available_amount).spec_add(self.borrowed_amount_wads)
    }

    /// Available plus borrowed liquidity.
    pub fn total_supply(&self) -> (r: Result<Decimal, LendingError>)
        ensures
            r == self.spec_total_supply(),
    {
        Decimal::from_u64(self.available_amount).try_add(self.borrowed_amount_wads)
    }

    /// Borrowed over total liquidity; zero for an empty reserve.
    pub open spec fn spec_utilization_rate(self) -> Result<Rate, LendingError> {
        match self.spec_total_supply() {
            Err(e) => Err(e),
            Ok(total) => if total.0 == 0 {
                Ok(Rate(0))
            } else {
                match self.borrowed_amount_wads.spec_div(total) {
                    Err(e) => Err(e),
                    Ok(u) => rate_of(u.0 as int),
                }
            },
        }
    }

    /// Borrowed over total liquidity; zero for an empty reserve.
    pub fn utilization_rate(&self) -> (r: Result<Rate, LendingError>)
        ensures
            r == self.spec_utilization_rate(),
    {
        let total = match self.total_supply() {
            Ok(t) => t,
            Err(e) => return Err(e),
        };
        if total.0 == 0 {
            return Ok(Rate::zero());
        }
        match self.borrowed_amount_wads.try_div(total) {
            Ok(u) => u.try_to_rate(),
            Err(e) => Err(e),
        }
    }

    /// Lends out `borrow_amount`: its whole tokens leave the available
    /// liquidity and all of it is added to the borrowed liquidity. More than
    /// is available is `InsufficientLiquidity`; on an error nothing changes.
    pub fn borrow(&mut self, borrow_amount: Decimal) -> (r: Result<(), LendingError>)
        ensures
            match old(self).spec_borrow(borrow_amount) {
                Ok(l) => r is Ok && *final(self) == l,
                Err(e) => r == Err::<(), LendingError>(e) && *final(self) == *old(self),
            },
    {
        let n = match borrow_amount.try_floor_u64() {
            Ok(n) => n,
            Err(e) => return Err(e),
        };
        if n > self.available_amount {
            return Err(LendingError::InsufficientLiquidity);
        }
        let b = match self.borrowed_amount_wads.try_add(borrow_amount) {
            Ok(b) => b,
            Err(e) => return Err(e),
        };
        self.available_amount = self.available_amount - n;
        self.borrowed_amount_wads = b;
        Ok(())
    }

    /// The liquidity after taking back `repay_amount` tokens and settling
    /// `settle_amount` of the borrowed liquidity.
    pub open spec fn spec_repay(self, repay_amount: u64, settle_amount: Decimal) -> Result<ReserveLiquidity, LendingError> {
        if self.available_amount + repay_amount > u64::MAX {
            Err(LendingError::MathOverflow)
        } else {
            match self.borrowed_amount_wads.spec_sub(settle_amount) {
                Err(e) => Err(e),
                Ok(b) => Ok(ReserveLiquidity {
                    available_amount: (self.available_amount + repay_amount) as u64,
                    borrowed_amount_wads: b,
                    ..self
                }),
            }
        }
    }

    /// Takes back `repay_amount` tokens and settles `settle_amount` of the
    /// borrowed liquidity; on an error nothing changes.
    pub fn repay(&mut self, repay_amount: u64, settle_amount: Decimal) -> (r: Result<(), LendingError>)
        ensures
            match old(self).spec_repay(repay_amount, settle_amount) {
                Ok(l) => r is Ok && *final(self) == l,
                Err(e) => r == Err::<(), LendingError>(e) && *final(self) == *old(self),
            },
    {
        let a = match self.available_amount.checked_add(repay_amount) {
            Some(a) => a,
            None => return Err(LendingError::MathOverflow),
        };
        let b = match self.borrowed_amount_wads.try_sub(settle_amount) {
            Ok(b) => b,
            Err(e) => return Err(e),
        };
        self.available_amount = a;
        self.borrowed_amount_wads = b;
        Ok(())
    }

    /// The liquidity after lending out `borrow_amount`: its whole tokens
    /// leave the available liquidity and all of it joins the borrowed.
    pub open spec fn spec_borrow(self, borrow_amount: Decimal) -> Result<ReserveLiquidity, LendingError> {
        match borrow_amount.spec_floor_u64() {
            Err(e) => Err(e),
            Ok(n) => if n > self.available_amount {
                Err(LendingError::InsufficientLiquidity)
            } else {
                match self.borrowed_amount_wads.spec_add(borrow_amount) {
                    Err(e) => Err(e),
                    Ok(b) => Ok(ReserveLiquidity {
                        available_amount: (self.available_amount - n) as u64,
                        borrowed_amount_wads: b,
                        ..self
                    }),
                }
            },
        }
    }

    /// The liquidity after `slots` slots of interest at the yearly `rate`: the
    /// cumulative rate and the debt grow by the compounded rate, and the
    /// `owner_fee_wad` share of the new interest is set aside for the owner.
    pub open spec fn spec_compound_interest(self, rate: Rate, slots: nat, owner_fee_wad: u64) -> Result<ReserveLiquidity, LendingError> {
        match spec_compounded_rate(rate, slots) {
            Err(e) => Err(e),
            Ok(c) => match self.cumulative_borrow_rate_wads.spec_mul(c) {
                Err(e) => Err(e),
                Ok(cumulative) => match self.borrowed_amount_wads.spec_mul(c) {
                    Err(e) => Err(e),
                    Ok(borrowed) => match borrowed.spec_sub(self.borrowed_amount_wads) {
                        Err(e) => Err(e),
                        Ok(interest) => match interest.spec_mul(Decimal(owner_fee_wad as u128)) {
                            Err(e) => Err(e),
                            Ok(fee) => match self.owner_unclaimed.spec_add(fee) {
                                Err(e) => Err(e),
                                Ok(unclaimed) => Ok(ReserveLiquidity {
                                    cumulative_borrow_rate_wads: cumulative,
                                    borrowed_amount_wads: borrowed,
                                    owner_unclaimed: unclaimed,
                                    ..self
                                }),
                            },
                        },
                    },
                },
            },
        }
    }

    /// Accrues `slots_elapsed` slots of interest at the yearly
    /// `current_borrow_rate`; on an error nothing changes.
    pub fn compound_interest(&mut self, current_borrow_rate: Rate, slots_elapsed: u64, reserve_owner_fee_wad: u64) -> (r: Result<(), LendingError>)
        ensures
            match old(self).spec_compound_interest(current_borrow_rate, slots_elapsed as nat, reserve_owner_fee_wad) {
                Ok(l) => r is Ok && *final(self) == l,
                Err(e) => r == Err::<(), LendingError>(e) && *final(self) == *old(self),
            },
    {
        let c = match compounded_rate(current_borrow_rate, slots_elapsed) {
            Ok(c) => c,
            Err(e) => return Err(e),
        };
        let cumulative = match self.cumulative_borrow_rate_wads.try_mul(c) {
            Ok(v) => v,
            Err(e) => return Err(e),
        };
        let borrowed = match self.borrowed_amount_wads.try_mul(c) {
            Ok(v) => v,
            Err(e) => return Err(e),
        };
        let interest = match borrowed.try_sub(self.borrowed_amount_wads) {
            Ok(v) => v,
            Err(e) => return Err(e),
        };
        let fee = match interest.try_mul(Decimal::from_scaled_val(reserve_owner_fee_wad as u128)) {
            Ok(v) => v,
            Err(e) => return Err(e),
        };
        let unclaimed = match self.owner_unclaimed.try_add(fee) {
            Ok(v) => v,
            Err(e) => return Err(e),
        };
        self.cumulative_borrow_rate_wads = cumulative;
        self.borrowed_amount_wads = borrowed;
        self.owner_unclaimed = unclaimed;
        Ok(())
    }
}

impl ReserveConfig {
    /// The borrow rate curve is consistent: the optimal utilization is a
    /// percentage and the three rates do not decrease.
    pub open spec fn spec_curve_valid(self) -> bool {
        &&& self.optimal_utilization_rate <= 100
        &&& self.min_borrow_rate <= self.optimal_borrow_rate
        &&& self.optimal_borrow_rate <= self.max_borrow_rate
    }

    /// Every percentage is at most 100, the loan to value ratio is below
    /// 100 and at most the liquidation threshold, the curve is consistent,
    /// each fee is at most 100% and there are at most five host fee receivers.
    pub open spec fn spec_valid(self) -> bool {
        &&& self.spec_curve_valid()
        &&& self.loan_to_value_ratio < 100
        &&& self.loan_to_value_ratio <= self.liquidation_threshold
        &&& self.liquidation_threshold <= 100
        &&& self.liquidation_bonus <= 100
        &&& self.fees.borrow_fee_wad <= WAD
        &&& self.fees.reserve_owner_fee_wad <= WAD
        &&& self.fees.flash_loan_fee_wad <= WAD
        &&& self.fees.host_fee_percentage <= 100
        &&& self.fees.host_fee_receivers@.len() <= HOST_FEE_RECEIVER_COUNT
    }

    /// Checks the configuration; an inconsistent one is `InvalidConfig`.
    pub fn validate(&self) -> (r: Result<(), LendingError>)
        ensures
            r is Ok <==> self.spec_valid(),
            r is Err ==> r == Err::<(), LendingError>(LendingError::InvalidConfig),
    {
        if self.optimal_utilization_rate > 100 || self.min_borrow_rate > self.optimal_borrow_rate
            || self.optimal_borrow_rate > self.max_borrow_rate || self.loan_to_value_ratio >= 100
            || self.loan_to_value_ratio > self.liquidation_threshold || self.liquidation_threshold > 100
            || self.liquidation_bonus > 100 || self.fees.borrow_fee_wad > WAD_U64
            || self.fees.reserve_owner_fee_wad > WAD_U64 || self.fees.flash_loan_fee_wad > WAD_U64
            || self.fees.host_fee_percentage > 100 || self.fees.host_fee_receivers.len() > HOST_FEE_RECEIVER_COUNT {
            Err(LendingError::InvalidConfig)
        } else {
            Ok(())
        }
    }

    /// The borrow rate at utilization `u`: below the optimal utilization it
    /// runs linearly from the minimum to the optimal rate, from there on
    /// linearly from the optimal to the maximum rate, reached at full use.
    pub open spec fn spec_borrow_rate_at(self, u: Rate) -> Result<Rate, LendingError> {
        if !self.spec_curve_valid() {
            Err(LendingError::InvalidConfig)
        } else {
            let optimal = Rate((self.optimal_utilization_rate * PERCENT_SCALER) as u64);
            if u.0 < optimal.0 || self.optimal_utilization_rate == 100 {
                let low = Rate((self.min_borrow_rate * PERCENT_SCALER) as u64);
                let range = Rate(((self.optimal_borrow_rate - self.min_borrow_rate) * PERCENT_SCALER) as u64);
                match u.spec_div(optimal) {
                    Err(e) => Err(e),
                    Ok(normalized) => match normalized.spec_mul(range) {
                        Err(e) => Err(e),
                        Ok(x) => x.spec_add(low),
                    },
                }
            } else {
                let low = Rate((self.optimal_borrow_rate * PERCENT_SCALER) as u64);
                let range = Rate(((self.max_borrow_rate - self.optimal_borrow_rate) * PERCENT_SCALER) as u64);
                let width = Rate(((100 - self.optimal_utilization_rate) * PERCENT_SCALER) as u64);
                match u.spec_sub(optimal) {
                    Err(e) => Err(e),
                    Ok(above) => match above.spec_div(width) {
                        Err(e) => Err(e),
                        Ok(normalized) => match normalized.spec_mul(range) {
                            Err(e) => Err(e),
                            Ok(x) => x.spec_add(low),
                        },
                    },
                }
            }
        }
    }

    /// The borrow rate at `utilization_rate`; an inconsistent curve is
    /// `InvalidConfig`.
    pub fn borrow_rate_at(&self, utilization_rate: Rate) -> (r: Result<Rate, LendingError>)
        ensures
            r == self.spec_borrow_rate_at(utilization_rate),
    {
        if self.optimal_utilization_rate > 100 || self.min_borrow_rate > self.optimal_borrow_rate
            || self.optimal_borrow_rate > self.max_borrow_rate {
            return Err(LendingError::InvalidConfig);
        }
        let optimal = Rate::from_percent(self.optimal_utilization_rate);
        if utilization_rate.0 < optimal.0 || self.optimal_utilization_rate == 100 {
            let low = Rate::from_percent(self.min_borrow_rate);
            let range = Rate::from_percent(self.optimal_borrow_rate - self.min_borrow_rate);
            let normalized = match utilization_rate.try_div(optimal) {
                Ok(v) => v,
                Err(e) => return Err(e),
            };
            match normalized.try_mul(range) {
                Ok(x) => x.try_add(low),
                Err(e) => Err(e),
            }
        } else {
            let low = Rate::from_percent(self.optimal_borrow_rate);
            let range = Rate::from_percent(self.max_borrow_rate - self.optimal_borrow_rate);
            let width = Rate::from_percent(100 - self.optimal_utilization_rate);
            let above = match utilization_rate.try_sub(optimal) {
                Ok(v) => v,
                Err(e) => return Err(e),
            };
            let normalized = match above.try_div(width) {
                Ok(v) => v,
                Err(e) => return Err(e),
            };
            match normalized.try_mul(range) {
                Ok(x) => x.try_add(low),
                Err(e) => Err(e),
            }
        }
    }
}

impl Bonus {
    /// The mining state after `slots` slots: `total_mining_speed * slots` mine
    /// tokens are split by `supply_rate` (a raw rate) between suppliers and
    /// borrowers, and each index grows by its share over the matching pool:
    /// the collateral supply, and the borrowed liquidity. An empty pool
    /// leaves its index as it is.
    pub open spec fn spec_accrue_mining(self, collateral_supply: u64, borrowed: Decimal, slots: u64) -> Result<Bonus, LendingError> {
        match Decimal::spec_from_u64(self.total_mining_speed).spec_mul_u64(slots) {
            Err(e) => Err(e),
            Ok(reward) => match reward.spec_mul(Decimal(self.supply_rate as u128)) {
                Err(e) => Err(e),
                Ok(supply_share) => match reward.spec_sub(supply_share) {
                    Err(e) => Err(e),
                    Ok(borrow_share) => {
                        let l = if collateral_supply == 0 {
                            Ok(self.l_token_mining_index)
                        } else {
                            match supply_share.spec_div_u64(collateral_supply) {
                                Err(e) => Err(e),
                                Ok(per) => self.l_token_mining_index.spec_add(per),
                            }
                        };
                        let b = if borrowed.0 == 0 {
                            Ok(self.borrow_mining_index)
                        } else {
                            match borrow_share.spec_div(borrowed) {
                                Err(e) => Err(e),
                                Ok(per) => self.borrow_mining_index.spec_add(per),
                            }
                        };
                        match l {
                            Err(e) => Err(e),
                            Ok(l) => match b {
                                Err(e) => Err(e),
                                Ok(b) => Ok(Bonus { l_token_mining_index: l, borrow_mining_index: b, ..self }),
                            },
                        }
                    },
                },
            },
        }
    }

    /// Advances both mining indices by `slots` slots; on an error nothing changes.
    pub fn accrue_mining(&mut self, collateral_supply: u64, borrowed: Decimal, slots: u64) -> (r: Result<(), LendingError>)
        ensures
            match old(self).spec_accrue_mining(collateral_supply, borrowed, slots) {
                Ok(b) => r is Ok && *final(self) == b,
                Err(e) => r == Err::<(), LendingError>(e) && *final(self) == *old(self),
            },
    {
        let reward = match Decimal::from_u64(self.total_mining_speed).try_mul_u64(slots) {
            Ok(v) => v,
            Err(e) => return Err(e),
        };
        let supply_share = match reward.try_mul(Decimal::from_scaled_val(self.supply_rate as u128)) {
            Ok(v) => v,
            Err(e) => return Err(e),
        };
        let borrow_share = match reward.try_sub(supply_share) {
            Ok(v) => v,
            Err(e) => return Err(e),
        };
        let l = if collateral_supply == 0 {
            self.l_token_mining_index
        } else {
            let per = match supply_share.try_div_u64(collateral_supply) {
                Ok(v) => v,
                Err(e) => return Err(e),
            };
            match self.l_token_mining_index.try_add(per) {
                Ok(v) => v,
                Err(e) => return Err(e),
            }
        };
        let b = if borrowed.0 == 0 {
            self.borrow_mining_index
        } else {
            let per = match borrow_share.try_div(borrowed) {
                Ok(v) => v,
                Err(e) => return Err(e),
            };
            match self.borrow_mining_index.try_add(per) {
                Ok(v) => v,
                Err(e) => return Err(e),
            }
        };
        self.l_token_mining_index = l;
        self.borrow_mining_index = b;
        Ok(())
    }
}

impl Reserve {
    /// The current borrow rate, from the utilization and the curve.
    pub open spec fn spec_current_borrow_rate(self) -> Result<Rate, LendingError> {
        match self.liquidity.spec_utilization_rate() {
            Err(e) => Err(e),
            Ok(u) => self.config.spec_borrow_rate_at(u),
        }
    }

    /// The current borrow rate, from the utilization and the curve.
    pub fn current_borrow_rate(&self) -> (r: Result<Rate, LendingError>)
        ensures
            r == self.spec_current_borrow_rate(),
    {
        match self.liquidity.utilization_rate() {
            Ok(u) => self.config.borrow_rate_at(u),
            Err(e) => Err(e),
        }
    }

    /// The reserve brought up to `current_slot` with the oracle price
    /// `market_price`. In the slot of the last update it is only marked
    /// fresh. Otherwise interest is compounded over the elapsed slots at the
    /// current borrow rate, the mining indices advance over the same slots,
    /// the price is taken and the update slot moves.
    pub open spec fn spec_refresh(self, current_slot: u64, market_price: Decimal) -> Result<Reserve, LendingError> {
        if self.reentry_lock {
            Err(LendingError::ReentrancyDetected)
        } else if current_slot == self.last_update.slot {
            Ok(Reserve { last_update: LastUpdate { slot: current_slot, stale: false }, ..self })
        } else if current_slot < self.last_update.slot {
            Err(LendingError::MathOverflow)
        } else {
            let slots = (current_slot - self.last_update.slot) as u64;
            match self.spec_current_borrow_rate() {
                Err(e) => Err(e),
                Ok(rate) => match self.liquidity.spec_compound_interest(rate, slots as nat, self.config.fees.reserve_owner_fee_wad) {
                    Err(e) => Err(e),
                    Ok(liquidity) => match self.bonus.spec_accrue_mining(
                        self.collateral.mint_total_supply,
                        self.liquidity.borrowed_amount_wads,
                        slots,
                    ) {
                        Err(e) => Err(e),
                        Ok(bonus) => Ok(Reserve {
                            last_update: LastUpdate { slot: current_slot, stale: false },
                            liquidity: ReserveLiquidity { market_price, ..liquidity },
                            bonus,
                            ..self
                        }),
                    },
                },
            }
        }
    }

    /// Brings the reserve up to `current_slot` with the oracle price
    /// `market_price`. All or nothing: on an error the reserve is unchanged.
    pub fn refresh(&mut self, current_slot: u64, market_price: Decimal) -> (r: Result<(), LendingError>)
        ensures
            match old(self).spec_refresh(current_slot, market_price) {
                Ok(n) => r is Ok && *final(self) == n,
                Err(e) => r == Err::<(), LendingError>(e) && *final(self) == *old(self),
            },
    {
        if self.reentry_lock {
            return Err(LendingError::ReentrancyDetected);
        }
        if current_slot == self.last_update.slot {
            self.last_update.update_slot(current_slot);
            return Ok(());
        }
        let slots = match self.last_update.slots_elapsed(current_slot) {
            Ok(s) => s,
            Err(e) => return Err(e),
        };
        let rate = match self.current_borrow_rate() {
            Ok(r) => r,
            Err(e) => return Err(e),
        };
        let mut liquidity = self.liquidity;
        match liquidity.compound_interest(rate, slots, self.config.fees.reserve_owner_fee_wad) {
            Ok(()) => {},
            Err(e) => return Err(e),
        }
        let mut bonus = self.bonus;
        match bonus.accrue_mining(self.collateral.mint_total_supply, self.liquidity.borrowed_amount_wads, slots) {
            Ok(()) => {},
            Err(e) => return Err(e),
        }
        liquidity.market_price = market_price;
        self.liquidity = liquidity;
        self.bonus = bonus;
        self.last_update.update_slot(current_slot);
        Ok(())
    }

    /// Takes the reentry lock: a lock already held is `ReentrancyDetected`.
    pub fn acquire_lock(&mut self) -> (r: Result<(), LendingError>)
        ensures
            old(self).reentry_lock ==> r == Err::<(), LendingError>(LendingError::ReentrancyDetected) && *final(self) == *old(self),
            !old(self).reentry_lock ==> r is Ok && *final(self) == (Reserve { reentry_lock: true, ..*old(self) }),
    {
        if self.reentry_lock {
            return Err(LendingError::ReentrancyDetected);
        }
        self.reentry_lock = true;
        Ok(())
    }

    /// Releases the reentry lock.
    pub fn release_lock(&mut self)
        ensures
            *final(self) == (Reserve { reentry_lock: false, ..*old(self) }),
    {
        self.reentry_lock = false;
    }
}

/// Outcome of sizing a borrow.
#[derive(Clone, Copy, Debug, PartialEq)]
pub struct CalculateBorrowResult {
    /// Total debt taken on, fees included
    pub borrow_amount: Decimal,
    /// Tokens handed to the borrower
    pub receive_amount: u64,
    /// Origination fee
    pub borrow_fee: u64,
    /// Host's part of the origination fee
    pub host_fee: u64,
}

/// Outcome of sizing a repay.
#[derive(Clone, Copy, Debug, PartialEq)]
pub struct CalculateRepayResult {
    /// Debt settled
    pub settle_amount: Decimal,
    /// Tokens to pay in
    pub repay_amount: u64,
}

/// Outcome of sizing a liquidation.
#[derive(Clone, Copy, Debug, PartialEq)]
pub struct CalculateLiquidationResult {
    /// Debt settled; less than the value repaid where the collateral ran out
    pub settle_amount: Decimal,
    /// Tokens the liquidator pays in
    pub repay_amount: u64,
    /// Collateral tokens the liquidator receives
    pub withdraw_amount: u64,
}

/// `10^d` as a `u64`, if it fits.
pub open spec fn spec_decimals_factor(d: u8) -> Result<u64, LendingError> {
    u64_of(pow10(d as nat))
}

/// `10^d`, the number of smallest units in one token of `d` decimals.
pub fn decimals_factor(d: u8) -> (r: Result<u64, LendingError>)
    ensures
        r == spec_decimals_factor(d),
{
    let mut f: u64 = 1;
    let mut i: u8 = 0;
    while i < d
        invariant
            i <= d,
            f == pow10(i as nat),
        decreases d - i,
    {
        if f > u64::MAX / 10 {
            proof {
                lemma_pow10_grows(i as nat, d as nat);
            }
            return Err(LendingError::MathOverflow);
        }
        f = f * 10;
        i = i + 1;
    }
    Ok(f)
}

/// Past a value above `u64::MAX / 10`, powers of ten stay above `u64::MAX`.
proof fn lemma_pow10_grows(i: nat, d: nat)
    requires
        i < d,
        pow10(i) > u64::MAX / 10,
    ensures
        pow10(d) > u64::MAX,
    decreases d - i,
{
    if i + 1 < d {
        lemma_pow10_grows(i, (d - 1) as nat);
    }
}

impl CollateralExchangeRate {
    /// Collateral tokens worth `amount` liquidity tokens, rounded down.
    pub open spec fn spec_liquidity_to_collateral(self, amount: u64) -> Result<u64, LendingError> {
        match Decimal::spec_from_u64(amount).spec_mul(Decimal(self.0.0 as u128)) {
            Err(e) => Err(e),
            Ok(c) => c.spec_floor_u64(),
        }
    }

    /// Liquidity tokens worth `amount` collateral tokens, rounded down.
    pub open spec fn spec_collateral_to_liquidity(self, amount: u64) -> Result<u64, LendingError> {
        match Decimal::spec_from_u64(amount).spec_div(Decimal(self.0.0 as u128)) {
            Err(e) => Err(e),
            Ok(l) => l.spec_floor_u64(),
        }
    }

    /// Liquidity worth the collateral `amount`.
    pub open spec fn spec_decimal_collateral_to_liquidity(self, amount: Decimal) -> Result<Decimal, LendingError> {
        amount.spec_div(Decimal(self.0.0 as u128))
    }

    /// Collateral tokens worth `amount` liquidity tokens, rounded down.
    pub fn liquidity_to_collateral(&self, amount: u64) -> (r: Result<u64, LendingError>)
        ensures
            r == self.spec_liquidity_to_collateral(amount),
    {
        match Decimal::from_u64(amount).try_mul(Decimal::from_rate(self.0)) {
            Ok(c) => c.try_floor_u64(),
            Err(e) => Err(e),
        }
    }

    /// Liquidity tokens worth `amount` collateral tokens, rounded down.
    pub fn collateral_to_liquidity(&self, amount: u64) -> (r: Result<u64, LendingError>)
        ensures
            r == self.spec_collateral_to_liquidity(amount),
    {
        match Decimal::from_u64(amount).try_div(Decimal::from_rate(self.0)) {
            Ok(l) => l.try_floor_u64(),
            Err(e) => Err(e),
        }
    }

    /// Liquidity worth the collateral `amount`.
    pub fn decimal_collateral_to_liquidity(&self, amount: Decimal) -> (r: Result<Decimal, LendingError>)
        ensures
            r == self.spec_decimal_collateral_to_liquidity(amount),
    {
        amount.try_div(Decimal::from_rate(self.0))
    }
}

impl ReserveFees {
    /// Fee on `amount` at the raw rate `fee_wad`, rounded up to whole tokens,
    /// and the host's `host_fee_percentage` of it, rounded down. An exclusive
    /// fee is `amount * rate`; an inclusive one is `amount * rate / (1 + rate)`.
    pub open spec fn spec_calculate_fees(self, amount: Decimal, fee_wad: u64, calculation: FeeCalculation) -> Result<(u64, u64), LendingError> {
        let fee = match calculation {
            FeeCalculation::Exclusive => amount.spec_mul(Decimal(fee_wad as u128)),
            FeeCalculation::Inclusive => match Decimal(fee_wad as u128).spec_div(Decimal((fee_wad + WAD) as u128)) {
                Err(e) => Err(e),
                Ok(share) => amount.spec_mul(share),
            },
        };
        match fee {
            Err(e) => Err(e),
            Ok(f) => match f.spec_ceil_u64() {
                Err(e) => Err(e),
                Ok(fee) => match Decimal::spec_from_u64(fee).spec_mul(Decimal((self.host_fee_percentage * PERCENT_SCALER) as u128)) {
                    Err(e) => Err(e),
                    Ok(h) => match h.spec_floor_u64() {
                        Err(e) => Err(e),
                        Ok(host) => Ok((fee, host)),
                    },
                },
            },
        }
    }

    fn calculate_fees(&self, amount: Decimal, fee_wad: u64, calculation: FeeCalculation) -> (r: Result<(u64, u64), LendingError>)
        ensures
            r == self.spec_calculate_fees(amount, fee_wad, calculation),
    {
        let rate = Decimal::from_scaled_val(fee_wad as u128);
        let fee = match calculation {
            FeeCalculation::Exclusive => amount.try_mul(rate),
            FeeCalculation::Inclusive => match rate.try_div(Decimal::from_scaled_val(fee_wad as u128 + WAD)) {
                Ok(share) => amount.try_mul(share),
                Err(e) => Err(e),
            },
        };
        let fee = match fee {
            Ok(f) => match f.try_ceil_u64() {
                Ok(v) => v,
                Err(e) => return Err(e),
            },
            Err(e) => return Err(e),
        };
        let host = match Decimal::from_u64(fee).try_mul(Decimal::from_percent(self.host_fee_percentage)) {
            Ok(h) => match h.try_floor_u64() {
                Ok(v) => v,
                Err(e) => return Err(e),
            },
            Err(e) => return Err(e),
        };
        Ok((fee, host))
    }

    /// Borrow fee on `amount` and the host's part of it.
    pub fn calculate_borrow_fees(&self, amount: Decimal, calculation: FeeCalculation) -> (r: Result<(u64, u64), LendingError>)
        ensures
            r == self.spec_calculate_fees(amount, self.borrow_fee_wad, calculation),
    {
        self.calculate_fees(amount, self.borrow_fee_wad, calculation)
    }

    /// Flash loan fee on `amount`, charged on top of it, and the host's part.
    pub fn calculate_flash_loan_fees(&self, amount: Decimal) -> (r: Result<(u64, u64), LendingError>)
        ensures
            r == self.spec_calculate_fees(amount, self.flash_loan_fee_wad, FeeCalculation::Exclusive),
    {
        self.calculate_fees(amount, self.flash_loan_fee_wad, FeeCalculation::Exclusive)
    }
}

impl Reserve {
    /// Collateral tokens per liquidity token: the initial ratio while either
    /// side is empty, else collateral supply over total liquidity.
    pub open spec fn spec_collateral_exchange_rate(self) -> Result<CollateralExchangeRate, LendingError> {
        match self.liquidity.spec_total_supply() {
            Err(e) => Err(e),
            Ok(total) => if self.collateral.mint_total_supply == 0 || total.0 == 0 {
                Ok(CollateralExchangeRate(Rate((INITIAL_COLLATERAL_RATIO * WAD) as u64)))
            } else {
                match Decimal::spec_from_u64(self.collateral.mint_total_supply).spec_div(total) {
                    Err(e) => Err(e),
                    Ok(d) => match rate_of(d.0 as int) {
                        Err(e) => Err(e),
                        Ok(r) => Ok(CollateralExchangeRate(r)),
                    },
                }
            },
        }
    }

    /// Collateral tokens per liquidity token.
    pub fn collateral_exchange_rate(&self) -> (r: Result<CollateralExchangeRate, LendingError>)
        ensures
            r == self.spec_collateral_exchange_rate(),
    {
        let total = match self.liquidity.total_supply() {
            Ok(t) => t,
            Err(e) => return Err(e),
        };
        if self.collateral.mint_total_supply == 0 || total.0 == 0 {
            return Ok(CollateralExchangeRate(Rate::from_scaled_val(INITIAL_COLLATERAL_RATIO * WAD_U64)));
        }
        match Decimal::from_u64(self.collateral.mint_total_supply).try_div(total) {
            Ok(d) => match d.try_to_rate() {
                Ok(r) => Ok(CollateralExchangeRate(r)),
                Err(e) => Err(e),
            },
            Err(e) => Err(e),
        }
    }

    /// Deposits `liquidity_amount` tokens and mints the collateral they are
    /// worth at the current exchange rate, which it returns. On an error
    /// nothing changes.
    pub fn deposit_liquidity(&mut self, liquidity_amount: u64) -> (r: Result<u64, LendingError>)
        ensures
            old(self).reentry_lock ==> r == Err::<u64, LendingError>(LendingError::ReentrancyDetected),
            !old(self).reentry_lock ==> match old(self).spec_collateral_exchange_rate() {
                Err(e) => r == Err::<u64, LendingError>(e),
                Ok(rate) => match rate.spec_liquidity_to_collateral(liquidity_amount) {
                    Err(e) => r == Err::<u64, LendingError>(e),
                    Ok(c) => if old(self).liquidity.available_amount + liquidity_amount > u64::MAX
                        || old(self).collateral.mint_total_supply + c > u64::MAX {
                        r == Err::<u64, LendingError>(LendingError::MathOverflow)
                    } else {
                        r == Ok::<u64, LendingError>(c) && *final(self) == (Reserve {
                            liquidity: ReserveLiquidity {
                                available_amount: (old(self).liquidity.available_amount + liquidity_amount) as u64,
                                ..old(self).liquidity
                            },
                            collateral: ReserveCollateral {
                                mint_total_supply: (old(self).collateral.mint_total_supply + c) as u64,
                                ..old(self).collateral
                            },
                            ..*old(self)
                        })
                    },
                },
            },
            r is Err ==> *final(self) == *old(self),
    {
        if self.reentry_lock {
            return Err(LendingError::ReentrancyDetected);
        }
        let rate = match self.collateral_exchange_rate() {
            Ok(r) => r,
            Err(e) => return Err(e),
        };
        let c = match rate.liquidity_to_collateral(liquidity_amount) {
            Ok(c) => c,
            Err(e) => return Err(e),
        };
        let available = match self.liquidity.available_amount.checked_add(liquidity_amount) {
            Some(v) => v,
            None => return Err(LendingError::MathOverflow),
        };
        let supply = match self.collateral.mint_total_supply.checked_add(c) {
            Some(v) => v,
            None => return Err(LendingError::MathOverflow),
        };
        self.liquidity.available_amount = available;
        self.collateral.mint_total_supply = supply;
        Ok(c)
    }

    /// Burns `collateral_amount` collateral tokens and pays out the liquidity
    /// they are worth at the current exchange rate, which it returns. More
    /// than is available is `InsufficientLiquidity`; on an error nothing changes.
    pub fn redeem_collateral(&mut self, collateral_amount: u64) -> (r: Result<u64, LendingError>)
        ensures
            old(self).reentry_lock ==> r == Err::<u64, LendingError>(LendingError::ReentrancyDetected),
            !old(self).reentry_lock ==> match old(self).spec_collateral_exchange_rate() {
                Err(e) => r == Err::<u64, LendingError>(e),
                Ok(rate) => match rate.spec_collateral_to_liquidity(collateral_amount) {
                    Err(e) => r == Err::<u64, LendingError>(e),
                    Ok(l) => if l > old(self).liquidity.available_amount {
                        r == Err::<u64, LendingError>(LendingError::InsufficientLiquidity)
                    } else if collateral_amount > old(self).collateral.mint_total_supply {
                        r == Err::<u64, LendingError>(LendingError::MathOverflow)
                    } else {
                        r == Ok::<u64, LendingError>(l) && *final(self) == (Reserve {
                            liquidity: ReserveLiquidity {
                                available_amount: (old(self).liquidity.available_amount - l) as u64,
                                ..old(self).liquidity
                            },
                            collateral: ReserveCollateral {
                                mint_total_supply: (old(self).collateral.mint_total_supply - collateral_amount) as u64,
                                ..old(self).collateral
                            },
                            ..*old(self)
                        })
                    },
                },
            },
            r is Err ==> *final(self) == *old(self),
    {
        if self.reentry_lock {
            return Err(LendingError::ReentrancyDetected);
        }
        let rate = match self.collateral_exchange_rate() {
            Ok(r) => r,
            Err(e) => return Err(e),
        };
        let l = match rate.collateral_to_liquidity(collateral_amount) {
            Ok(l) => l,
            Err(e) => return Err(e),
        };
        if l > self.liquidity.available_amount {
            return Err(LendingError::InsufficientLiquidity);
        }
        if collateral_amount > self.collateral.mint_total_supply {
            return Err(LendingError::MathOverflow);
        }
        self.liquidity.available_amount = self.liquidity.available_amount - l;
        self.collateral.mint_total_supply = self.collateral.mint_total_supply - collateral_amount;
        Ok(l)
    }
}

impl Reserve {
    /// Quote-currency value of `amount` liquidity tokens' worth of debt at
    /// the market price, for a mint of `factor` smallest units per token.
    pub open spec fn spec_market_value(self, amount: Decimal, factor: u64) -> Result<Decimal, LendingError> {
        match amount.spec_mul(self.liquidity.market_price) {
            Err(e) => Err(e),
            Ok(v) => v.spec_div_u64(factor),
        }
    }

    /// Quote-currency value of `amount` liquidity at the market price,
    /// adjusted for the mint's decimals.
    pub open spec fn spec_liquidity_value(self, amount: Decimal) -> Result<Decimal, LendingError> {
        match spec_decimals_factor(self.liquidity.mint_decimals) {
            Err(e) => Err(e),
            Ok(f) => self.spec_market_value(amount, f),
        }
    }

    /// Quote-currency value of `amount` liquidity at the market price,
    /// adjusted for the mint's decimals.
    pub fn liquidity_value(&self, amount: Decimal) -> (r: Result<Decimal, LendingError>)
        ensures
            r == self.spec_liquidity_value(amount),
    {
        let f = match decimals_factor(self.liquidity.mint_decimals) {
            Ok(f) => f,
            Err(e) => return Err(e),
        };
        match amount.try_mul(self.liquidity.market_price) {
            Ok(v) => v.try_div_u64(f),
            Err(e) => Err(e),
        }
    }

    /// Sizing of a borrow of `amount_to_borrow` by an obligation that may
    /// still borrow `max_borrow_value`. The largest `u64` asks for as much as
    /// that value buys at the market price, capped by the available
    /// liquidity, with the fee taken out of it. Any other amount is handed
    /// over whole with the fee added to the debt; a debt worth more than
    /// `max_borrow_value` is `InsufficientCollateral`.
    pub open spec fn spec_calculate_borrow(self, amount_to_borrow: u64, max_borrow_value: Decimal) -> Result<CalculateBorrowResult, LendingError> {
        match spec_decimals_factor(self.liquidity.mint_decimals) {
            Err(e) => Err(e),
            Ok(f) => if amount_to_borrow == u64::MAX {
                match max_borrow_value.spec_mul_u64(f) {
                    Err(e) => Err(e),
                    Ok(x) => match x.spec_div(self.liquidity.market_price) {
                        Err(e) => Err(e),
                        Ok(tokens) => {
                            let cap = Decimal::spec_from_u64(self.liquidity.available_amount);
                            let borrow_amount = if tokens.0 < cap.0 { tokens } else { cap };
                            match self.config.fees.spec_calculate_fees(borrow_amount, self.config.fees.borrow_fee_wad, FeeCalculation::Inclusive) {
                                Err(e) => Err(e),
                                Ok((fee, host)) => match borrow_amount.spec_floor_u64() {
                                    Err(e) => Err(e),
                                    Ok(whole) => if fee > whole {
                                        Err(LendingError::MathOverflow)
                                    } else {
                                        Ok(CalculateBorrowResult {
                                            borrow_amount,
                                            receive_amount: (whole - fee) as u64,
                                            borrow_fee: fee,
                                            host_fee: host,
                                        })
                                    },
                                },
                            }
                        },
                    },
                }
            } else {
                let amount = Decimal::spec_from_u64(amount_to_borrow);
                match self.config.fees.spec_calculate_fees(amount, self.config.fees.borrow_fee_wad, FeeCalculation::Exclusive) {
                    Err(e) => Err(e),
                    Ok((fee, host)) => match amount.spec_add(Decimal::spec_from_u64(fee)) {
                        Err(e) => Err(e),
                        Ok(borrow_amount) => match self.spec_market_value(borrow_amount, f) {
                            Err(e) => Err(e),
                            Ok(value) => if value.0 > max_borrow_value.0 {
                                Err(LendingError::InsufficientCollateral)
                            } else {
                                Ok(CalculateBorrowResult {
                                    borrow_amount,
                                    receive_amount: amount_to_borrow,
                                    borrow_fee: fee,
                                    host_fee: host,
                                })
                            },
                        },
                    },
                }
            },
        }
    }

    /// Sizes a borrow of `amount_to_borrow` against `max_borrow_value`.
    pub fn calculate_borrow(&self, amount_to_borrow: u64, max_borrow_value: Decimal) -> (r: Result<CalculateBorrowResult, LendingError>)
        ensures
            r == self.spec_calculate_borrow(amount_to_borrow, max_borrow_value),
    {
        let f = match decimals_factor(self.liquidity.mint_decimals) {
            Ok(f) => f,
            Err(e) => return Err(e),
        };
        if amount_to_borrow == u64::MAX {
            let x = match max_borrow_value.try_mul_u64(f) {
                Ok(v) => v,
                Err(e) => return Err(e),
            };
            let tokens = match x.try_div(self.liquidity.market_price) {
                Ok(v) => v,
                Err(e) => return Err(e),
            };
            let cap = Decimal::from_u64(self.liquidity.available_amount);
            let borrow_amount = if tokens.0 < cap.0 { tokens } else { cap };
            let (fee, host) = match self.config.fees.calculate_borrow_fees(borrow_amount, FeeCalculation::Inclusive) {
                Ok(p) => p,
                Err(e) => return Err(e),
            };
            let whole = match borrow_amount.try_floor_u64() {
                Ok(v) => v,
                Err(e) => return Err(e),
            };
            if fee > whole {
                return Err(LendingError::MathOverflow);
            }
            Ok(CalculateBorrowResult { borrow_amount, receive_amount: whole - fee, borrow_fee: fee, host_fee: host })
        } else {
            let amount = Decimal::from_u64(amount_to_borrow);
            let (fee, host) = match self.config.fees.calculate_borrow_fees(amount, FeeCalculation::Exclusive) {
                Ok(p) => p,
                Err(e) => return Err(e),
            };
            let borrow_amount = match amount.try_add(Decimal::from_u64(fee)) {
                Ok(v) => v,
                Err(e) => return Err(e),
            };
            let value = match borrow_amount.try_mul(self.liquidity.market_price) {
                Ok(v) => match v.try_div_u64(f) {
                    Ok(v) => v,
                    Err(e) => return Err(e),
                },
                Err(e) => return Err(e),
            };
            if value.0 > max_borrow_value.0 {
                return Err(LendingError::InsufficientCollateral);
            }
            Ok(CalculateBorrowResult { borrow_amount, receive_amount: amount_to_borrow, borrow_fee: fee, host_fee: host })
        }
    }

    /// Sizing of a repay of `amount_to_repay` on a debt of `borrowed_amount`.
    /// The settled debt is the request capped by the debt (all of it for the
    /// largest `u64`), or the whole debt where less than
    /// `LIQUIDATION_CLOSE_AMOUNT` tokens would be left; the tokens paid in are
    /// the settled debt rounded up.
    pub open spec fn spec_calculate_repay(amount_to_repay: u64, borrowed_amount: Decimal) -> Result<CalculateRepayResult, LendingError> {
        let requested = if amount_to_repay == u64::MAX {
            borrowed_amount
        } else if Decimal::spec_from_u64(amount_to_repay).0 < borrowed_amount.0 {
            Decimal::spec_from_u64(amount_to_repay)
        } else {
            borrowed_amount
        };
        let settle_amount = if borrowed_amount.0 - requested.0 < LIQUIDATION_CLOSE_AMOUNT * WAD {
            borrowed_amount
        } else {
            requested
        };
        match settle_amount.spec_ceil_u64() {
            Err(e) => Err(e),
            Ok(repay_amount) => Ok(CalculateRepayResult { settle_amount, repay_amount }),
        }
    }

    /// Sizes a repay of `amount_to_repay` on a debt of `borrowed_amount`.
    pub fn calculate_repay(&self, amount_to_repay: u64, borrowed_amount: Decimal) -> (r: Result<CalculateRepayResult, LendingError>)
        ensures
            r == Reserve::spec_calculate_repay(amount_to_repay, borrowed_amount),
    {
        let requested = if amount_to_repay == u64::MAX {
            borrowed_amount
        } else {
            let a = Decimal::from_u64(amount_to_repay);
            if a.0 < borrowed_amount.0 { a } else { borrowed_amount }
        };
        let settle_amount = if borrowed_amount.0 - requested.0 < LIQUIDATION_CLOSE_AMOUNT as u128 * WAD {
            borrowed_amount
        } else {
            requested
        };
        match settle_amount.try_ceil_u64() {
            Ok(repay_amount) => Ok(CalculateRepayResult { settle_amount, repay_amount }),
            Err(e) => Err(e),
        }
    }

    /// The debt that a liquidation of `amount_to_liquidate` settles before
    /// the collateral is looked at: at most `LIQUIDATION_CLOSE_FACTOR` percent
    /// of `borrowed`, capped by the request (the largest `u64` asks for all
    /// that is eligible).
    pub open spec fn spec_liquidation_amount(amount_to_liquidate: u64, borrowed: Decimal) -> Result<Decimal, LendingError> {
        match borrowed.spec_mul(Decimal((LIQUIDATION_CLOSE_FACTOR * PERCENT_SCALER) as u128)) {
            Err(e) => Err(e),
            Ok(eligible) => {
                let requested = if amount_to_liquidate == u64::MAX {
                    borrowed
                } else {
                    Decimal::spec_from_u64(amount_to_liquidate)
                };
                Ok(if requested.0 < eligible.0 { requested } else { eligible })
            },
        }
    }

    /// The value of the collateral owed for settling `amount` of the debt
    /// `liquidity`: that share of the debt's value, raised by the bonus.
    pub open spec fn spec_liquidation_value(self, amount: Decimal, liquidity: ObligationLiquidity) -> Result<Decimal, LendingError> {
        let bonus_rate = Decimal((WAD + self.config.liquidation_bonus * PERCENT_SCALER) as u128);
        match amount.spec_div(liquidity.borrowed_amount_wads) {
            Err(e) => Err(e),
            Ok(pct) => match liquidity.market_value.spec_mul(pct) {
                Err(e) => Err(e),
                Ok(v) => v.spec_mul(bonus_rate),
            },
        }
    }

    /// The settled debt and the collateral tokens taken, for settling `amount`
    /// with collateral worth `value` owed from the deposit `collateral`: all
    /// of the deposit and a proportionally smaller settlement where the
    /// deposit is worth less, else the matching share of the deposit.
    pub open spec fn spec_liquidation_split(amount: Decimal, value: Decimal, collateral: ObligationCollateral) -> Result<(Decimal, u64), LendingError> {
        if value.0 > collateral.market_value.0 {
            match collateral.market_value.spec_div(value) {
                Err(e) => Err(e),
                Ok(repay_pct) => match amount.spec_mul(repay_pct) {
                    Err(e) => Err(e),
                    Ok(settle) => Ok((settle, collateral.deposited_amount)),
                },
            }
        } else {
            match value.spec_div(collateral.market_value) {
                Err(e) => Err(e),
                Ok(withdraw_pct) => match Decimal::spec_from_u64(collateral.deposited_amount).spec_mul(withdraw_pct) {
                    Err(e) => Err(e),
                    Ok(w) => match w.spec_floor_u64() {
                        Err(e) => Err(e),
                        Ok(withdraw) => Ok((amount, withdraw)),
                    },
                },
            }
        }
    }

    /// Sizing of a liquidation of `amount_to_liquidate` of the debt
    /// `liquidity` against the deposit `collateral` of this reserve; the
    /// tokens paid in are the settled debt rounded up.
    pub open spec fn spec_calculate_liquidation(
        self,
        amount_to_liquidate: u64,
        liquidity: ObligationLiquidity,
        collateral: ObligationCollateral,
    ) -> Result<CalculateLiquidationResult, LendingError> {
        match Reserve::spec_liquidation_amount(amount_to_liquidate, liquidity.borrowed_amount_wads) {
            Err(e) => Err(e),
            Ok(amount) => match self.spec_liquidation_value(amount, liquidity) {
                Err(e) => Err(e),
                Ok(value) => match Reserve::spec_liquidation_split(amount, value, collateral) {
                    Err(e) => Err(e),
                    Ok((settle_amount, withdraw_amount)) => match settle_amount.spec_ceil_u64() {
                        Err(e) => Err(e),
                        Ok(repay_amount) => Ok(CalculateLiquidationResult { settle_amount, repay_amount, withdraw_amount }),
                    },
                },
            },
        }
    }

    fn liquidation_amount(amount_to_liquidate: u64, borrowed: Decimal) -> (r: Result<Decimal, LendingError>)
        ensures
            r == Reserve::spec_liquidation_amount(amount_to_liquidate, borrowed),
    {
        let eligible = match borrowed.try_mul(Decimal::from_percent(LIQUIDATION_CLOSE_FACTOR)) {
            Ok(v) => v,
            Err(e) => return Err(e),
        };
        let requested = if amount_to_liquidate == u64::MAX {
            borrowed
        } else {
            Decimal::from_u64(amount_to_liquidate)
        };
        Ok(if requested.0 < eligible.0 { requested } else { eligible })
    }

    fn liquidation_value(&self, amount: Decimal, liquidity: &ObligationLiquidity) -> (r: Result<Decimal, LendingError>)
        ensures
            r == self.spec_liquidation_value(amount, *liquidity),
    {
        let bonus_rate = Decimal::from_scaled_val(WAD + self.config.liquidation_bonus as u128 * PERCENT_SCALER);
        let pct = match amount.try_div(liquidity.borrowed_amount_wads) {
            Ok(v) => v,
            Err(e) => return Err(e),
        };
        match liquidity.market_value.try_mul(pct) {
            Ok(v) => v.try_mul(bonus_rate),
            Err(e) => Err(e),
        }
    }

    fn liquidation_split(amount: Decimal, value: Decimal, collateral: &ObligationCollateral) -> (r: Result<(Decimal, u64), LendingError>)
        ensures
            r == Reserve::spec_liquidation_split(amount, value, *collateral),
    {
        if value.0 > collateral.market_value.0 {
            let repay_pct = match collateral.market_value.try_div(value) {
                Ok(v) => v,
                Err(e) => return Err(e),
            };
            match amount.try_mul(repay_pct) {
                Ok(settle) => Ok((settle, collateral.deposited_amount)),
                Err(e) => Err(e),
            }
        } else {
            let withdraw_pct = match value.try_div(collateral.market_value) {
                Ok(v) => v,
                Err(e) => return Err(e),
            };
            let w = match Decimal::from_u64(collateral.deposited_amount).try_mul(withdraw_pct) {
                Ok(v) => v,
                Err(e) => return Err(e),
            };
            match w.try_floor_u64() {
                Ok(withdraw) => Ok((amount, withdraw)),
                Err(e) => Err(e),
            }
        }
    }

    /// Sizes a liquidation of `amount_to_liquidate` of `liquidity` against
    /// `collateral`, with this reserve's liquidation bonus.
    pub fn calculate_liquidation(
        &self,
        amount_to_liquidate: u64,
        liquidity: &ObligationLiquidity,
        collateral: &ObligationCollateral,
    ) -> (r: Result<CalculateLiquidationResult, LendingError>)
        ensures
            r == self.spec_calculate_liquidation(amount_to_liquidate, *liquidity, *collateral),
    {
        let amount = match Reserve::liquidation_amount(amount_to_liquidate, liquidity.borrowed_amount_wads) {
            Ok(v) => v,
            Err(e) => return Err(e),
        };
        let value = match self.liquidation_value(amount, liquidity) {
            Ok(v) => v,
            Err(e) => return Err(e),
        };
        let (settle_amount, withdraw_amount) = match Reserve::liquidation_split(amount, value, collateral) {
            Ok(p) => p,
            Err(e) => return Err(e),
        };
        match settle_amount.try_ceil_u64() {
            Ok(repay_amount) => Ok(CalculateLiquidationResult { settle_amount, repay_amount, withdraw_amount }),
            Err(e) => Err(e),
        }
    }
}

impl ReserveLiquidity {
    /// New reserve liquidity: nothing available or borrowed, a cumulative
    /// borrow rate of one, the given price and nothing owed to the owner.
    pub fn new(params: NewReserveLiquidityParams) -> (r: ReserveLiquidity)
        ensures
            r.is_lp == params.is_lp,
            r.mint_pubkey == params.mint_pubkey,
            r.mint_decimals == params.mint_decimals,
            r.supply_pubkey == params.supply_pubkey,
            r.fee_receiver == params.fee_receiver,
            r.use_pyth_oracle == params.use_pyth_oracle,
            r.params_1 == params.params_1,
            r.params_2 == params.params_2,
            r.available_amount == 0,
            r.borrowed_amount_wads.0 == 0,
            r.cumulative_borrow_rate_wads.0 == WAD,
            r.market_price == params.market_price,
            r.owner_unclaimed.0 == 0,
    {
        ReserveLiquidity {
            is_lp: params.is_lp,
            mint_pubkey: params.mint_pubkey,
            mint_decimals: params.mint_decimals,
            supply_pubkey: params.supply_pubkey,
            fee_receiver: params.fee_receiver,
            use_pyth_oracle: params.use_pyth_oracle,
            params_1: params.params_1,
            params_2: params.params_2,
            available_amount: 0,
            borrowed_amount_wads: Decimal::zero(),
            cumulative_borrow_rate_wads: Decimal::one(),
            market_price: params.market_price,
            owner_unclaimed: Decimal::zero(),
        }
    }
}

impl ReserveCollateral {
    /// New reserve collateral with nothing minted.
    pub fn new(params: NewReserveCollateralParams) -> (r: ReserveCollateral)
        ensures
            r.mint_pubkey == params.mint_pubkey,
            r.mint_total_supply == 0,
            r.supply_pubkey == params.supply_pubkey,
    {
        ReserveCollateral { mint_pubkey: params.mint_pubkey, mint_total_supply: 0, supply_pubkey: params.supply_pubkey }
    }
}

impl Reserve {
    /// A new reserve of the current version, stale until its first refresh
    /// and unlocked. A configuration that fails `ReserveConfig::validate` is
    /// `InvalidConfig`.
    pub fn new(params: InitReserveParams) -> (r: Result<Reserve, LendingError>)
        ensures
            !params.config.spec_valid() ==> r == Err::<Reserve, LendingError>(LendingError::InvalidConfig),
            params.config.spec_valid() ==> r is Ok && r->Ok_0 == (Reserve {
                version: PROGRAM_VERSION,
                last_update: LastUpdate::new_spec(params.current_slot),
                lending_market: params.lending_market,
                liquidity: params.liquidity,
                collateral: params.collateral,
                config: params.config,
                bonus: params.bonus,
                reentry_lock: false,
            }),
    {
        match params.config.validate() {
            Ok(()) => {},
            Err(e) => return Err(e),
        }
        Ok(Reserve {
            version: PROGRAM_VERSION,
            last_update: LastUpdate::new(params.current_slot),
            lending_market: params.lending_market,
            liquidity: params.liquidity,
            collateral: params.collateral,
            config: params.config,
            bonus: params.bonus,
            reentry_lock: false,
        })
    }

    /// Whether the record has been initialized.
    pub fn is_initialized(&self) -> (r: bool)
        ensures
            r == (self.version != UNINITIALIZED_VERSION),
    {
        self.version != UNINITIALIZED_VERSION
    }

    /// The balance check that closes a flash loan: the available liquidity
    /// must be back to at least what it was before the loan plus the fee,
    /// else `InsufficientLiquidity`.
    pub fn check_flash_loan_repaid(&self, available_before: u64, fee: u64) -> (r: Result<(), LendingError>)
        ensures
            r is Ok <==> self.liquidity.available_amount >= available_before + fee,
            r is Err ==> r == Err::<(), LendingError>(LendingError::InsufficientLiquidity),
    {
        if (self.liquidity.available_amount as u128) < available_before as u128 + fee as u128 {
            Err(LendingError::InsufficientLiquidity)
        } else {
            Ok(())
        }
    }
}

} // verus!
