use vstd::prelude::*;
use crate::error::LendingError;
use crate::last_update::LastUpdate;
use crate::math::{Decimal, PERCENT_SCALER};
use crate::obligation::{entries_fit, Obligation, ObligationCollateral, ObligationLiquidity};
use crate::pubkey::Pubkey;
use crate::reserve::{CalculateBorrowResult, CalculateLiquidationResult, CalculateRepayResult, Reserve};

verus! {

broadcast use vstd::array::group_array_axioms;

/// Whether a reserve must be refreshed before use at `slot`.
pub open spec fn reserve_stale(r: Reserve, slot: u64) -> bool {
    r.last_update.stale || r.last_update.slot != slot
}

/// Whether an obligation must be refreshed before use at `slot`.
pub open spec fn obligation_stale(o: Obligation, slot: u64) -> bool {
    o.last_update.stale || o.last_update.slot != slot
}

/// The obligation with only its update record marked stale.
pub open spec fn marked_stale(o: Obligation, n: Obligation) -> bool {
    &&& n.version == o.version
    &&& n.last_update == (LastUpdate { slot: o.last_update.slot, stale: true })
    &&& n.lending_market == o.lending_market
    &&& n.owner == o.owner
    &&& n.deposited_value == o.deposited_value
    &&& n.borrowed_value == o.borrowed_value
    &&& n.allowed_borrow_value == o.allowed_borrow_value
    &&& n.unhealthy_borrow_value == o.unhealthy_borrow_value
    &&& n.unclaimed_mine == o.unclaimed_mine
}

/// `i` is the first deposit entry of `reserve` in `s`.
pub open spec fn first_deposit_of(s: Seq<ObligationCollateral>, reserve: Pubkey, i: int) -> bool {
    &&& 0 <= i < s.len()
    &&& s[i].deposit_reserve == reserve
    &&& forall|k: int| 0 <= k < i ==> s[k].deposit_reserve != reserve
}

/// Index of the first deposit entry of `reserve` in `s`, if any.
pub open spec fn deposit_index(s: Seq<ObligationCollateral>, reserve: Pubkey) -> Option<int> {
    if exists|i: int| first_deposit_of(s, reserve, i) {
        Some(choose|i: int| first_deposit_of(s, reserve, i))
    } else {
        None
    }
}

/// `i` is the first borrow entry of `reserve` in `s`.
pub open spec fn first_borrow_of(s: Seq<ObligationLiquidity>, reserve: Pubkey, i: int) -> bool {
    &&& 0 <= i < s.len()
    &&& s[i].borrow_reserve == reserve
    &&& forall|k: int| 0 <= k < i ==> s[k].borrow_reserve != reserve
}

/// Index of the first borrow entry of `reserve` in `s`, if any.
pub open spec fn borrow_index(s: Seq<ObligationLiquidity>, reserve: Pubkey) -> Option<int> {
    if exists|i: int| first_borrow_of(s, reserve, i) {
        Some(choose|i: int| first_borrow_of(s, reserve, i))
    } else {
        None
    }
}

fn find_deposit(o: &Obligation, reserve: &Pubkey) -> (r: Option<usize>)
    ensures
        r is Some <==> deposit_index(o.deposits@, *reserve) is Some,
        r is Some ==> r->0 == deposit_index(o.deposits@, *reserve)->Some_0,
        r is None ==> forall|i: int| 0 <= i < o.deposits@.len() ==> o.deposits@[i].deposit_reserve != *reserve,
{
    let r = o.find_collateral_in_deposits(reserve);
    proof {
        match r {
            Some(i) => {
                assert(first_deposit_of(o.deposits@, *reserve, i as int));
                let j = choose|j: int| first_deposit_of(o.deposits@, *reserve, j);
                if j < i {
                    assert(o.deposits@[j].deposit_reserve != *reserve);
                } else if j > i {
                    assert(o.deposits@[i as int].deposit_reserve != *reserve);
                }
            },
            None => {
                if exists|j: int| first_deposit_of(o.deposits@, *reserve, j) {
                    let j = choose|j: int| first_deposit_of(o.deposits@, *reserve, j);
                    assert(o.deposits@[j].deposit_reserve != *reserve);
                }
            },
        }
    }
    r
}

fn find_borrow(o: &Obligation, reserve: &Pubkey) -> (r: Option<usize>)
    ensures
        r is Some <==> borrow_index(o.borrows@, *reserve) is Some,
        r is Some ==> r->0 == borrow_index(o.borrows@, *reserve)->Some_0,
        r is None ==> forall|i: int| 0 <= i < o.borrows@.len() ==> o.borrows@[i].borrow_reserve != *reserve,
{
    let r = o.find_liquidity_in_borrows(reserve);
    proof {
        match r {
            Some(i) => {
                assert(first_borrow_of(o.borrows@, *reserve, i as int));
                let j = choose|j: int| first_borrow_of(o.borrows@, *reserve, j);
                if j < i {
                    assert(o.borrows@[j].borrow_reserve != *reserve);
                } else if j > i {
                    assert(o.borrows@[i as int].borrow_reserve != *reserve);
                }
            },
            None => {
                if exists|j: int| first_borrow_of(o.borrows@, *reserve, j) {
                    let j = choose|j: int| first_borrow_of(o.borrows@, *reserve, j);
                    assert(o.borrows@[j].borrow_reserve != *reserve);
                }
            },
        }
    }
    r
}

/// The amount a withdrawal of `collateral_amount` asks for: the largest
/// `u64` stands for the whole deposit.
pub open spec fn withdraw_request(collateral_amount: u64, deposited: u64) -> u64 {
    if collateral_amount == u64::MAX {
        deposited
    } else {
        collateral_amount
    }
}

/// The borrow limit left after `amount` of the deposit `c` is withdrawn:
/// the withdrawn share of its value, weighted by the loan to value ratio
/// `ltv`, comes off the allowed borrow value (not below zero).
pub open spec fn allowed_after_withdraw(allowed: Decimal, c: ObligationCollateral, amount: u64, ltv: u8) -> Result<Decimal, LendingError> {
    match c.market_value.spec_mul_u64(amount) {
        Err(e) => Err(e),
        Ok(x) => match x.spec_div_u64(c.deposited_amount) {
            Err(e) => Err(e),
            Ok(withdrawn) => match withdrawn.spec_mul(Decimal((ltv * PERCENT_SCALER) as u128)) {
                Err(e) => Err(e),
                Ok(reduction) => Ok(if reduction.0 > allowed.0 { Decimal(0) } else { Decimal((allowed.0 - reduction.0) as u128) }),
            },
        },
    }
}

fn allowed_after(allowed: Decimal, c: &ObligationCollateral, amount: u64, ltv: u8) -> (r: Result<Decimal, LendingError>)
    ensures
        r == allowed_after_withdraw(allowed, *c, amount, ltv),
{
    let x = match c.market_value.try_mul_u64(amount) {
        Ok(v) => v,
        Err(e) => return Err(e),
    };
    let withdrawn = match x.try_div_u64(c.deposited_amount) {
        Ok(v) => v,
        Err(e) => return Err(e),
    };
    let reduction = match withdrawn.try_mul(Decimal::from_percent(ltv)) {
        Ok(v) => v,
        Err(e) => return Err(e),
    };
    Ok(if reduction.0 > allowed.0 { Decimal::zero() } else { Decimal(allowed.0 - reduction.0) })
}

/// Withdraws collateral of the reserve `withdraw_reserve_key` from a fresh
/// obligation and returns the amount withdrawn. The largest `u64` withdraws
/// the whole deposit. Asking for more than is deposited, or for so much that
/// the remaining borrow limit falls below the borrowed value, is
/// `WithdrawTooLarge`. The obligation is then stale; on an error it is
/// unchanged.
pub fn withdraw_obligation_collateral(
    obligation: &mut Obligation,
    withdraw_reserve: &Reserve,
    withdraw_reserve_key: &Pubkey,
    collateral_amount: u64,
    current_slot: u64,
) -> (r: Result<u64, LendingError>)
    ensures
        old(obligation).spec_wf() ==> final(obligation).spec_wf(),
        obligation_stale(*old(obligation), current_slot)
            ==> r == Err::<u64, LendingError>(LendingError::ObligationStale),
        !obligation_stale(*old(obligation), current_slot) && reserve_stale(*withdraw_reserve, current_slot)
            ==> r == Err::<u64, LendingError>(LendingError::ReserveStale),
        !obligation_stale(*old(obligation), current_slot) && !reserve_stale(*withdraw_reserve, current_slot)
            && deposit_index(old(obligation).deposits@, *withdraw_reserve_key) is None
            ==> r == Err::<u64, LendingError>(LendingError::WithdrawTooLarge),
        !obligation_stale(*old(obligation), current_slot) && !reserve_stale(*withdraw_reserve, current_slot)
            && deposit_index(old(obligation).deposits@, *withdraw_reserve_key) is Some ==> ({
            let i = deposit_index(old(obligation).deposits@, *withdraw_reserve_key)->Some_0;
            let c = old(obligation).deposits@[i];
            let amount = withdraw_request(collateral_amount, c.deposited_amount);
            if amount > c.deposited_amount {
                r == Err::<u64, LendingError>(LendingError::WithdrawTooLarge)
            } else if old(obligation).borrows@.len() == 0 {
                r == Ok::<u64, LendingError>(amount)
            } else {
                match allowed_after_withdraw(old(obligation).allowed_borrow_value, c, amount, withdraw_reserve.config.loan_to_value_ratio) {
                    Err(e) => r == Err::<u64, LendingError>(e),
                    Ok(left) => if old(obligation).borrowed_value.0 > left.0 {
                        r == Err::<u64, LendingError>(LendingError::WithdrawTooLarge)
                    } else {
                        r == Ok::<u64, LendingError>(amount)
                    },
                }
            }
        }),
        r is Err ==> *final(obligation) == *old(obligation),
        r is Ok ==> ({
            let i = deposit_index(old(obligation).deposits@, *withdraw_reserve_key)->Some_0;
            let c = old(obligation).deposits@[i];
            &&& marked_stale(*old(obligation), *final(obligation))
            &&& final(obligation).borrows@ == old(obligation).borrows@
            &&& r->Ok_0 == c.deposited_amount ==> final(obligation).deposits@ == old(obligation).deposits@.remove(i)
            &&& r->Ok_0 < c.deposited_amount ==> final(obligation).deposits@ == old(obligation).deposits@.update(i,
                ObligationCollateral { deposited_amount: (c.deposited_amount - r->Ok_0) as u64, ..c })
        }),
{
    if obligation.last_update.is_stale(current_slot) {
        return Err(LendingError::ObligationStale);
    }
    if withdraw_reserve.last_update.is_stale(current_slot) {
        return Err(LendingError::ReserveStale);
    }
    let index = match find_deposit(obligation, withdraw_reserve_key) {
        Some(i) => i,
        None => return Err(LendingError::WithdrawTooLarge),
    };
    let collateral = obligation.deposits[index];
    let amount = if collateral_amount == u64::MAX { collateral.deposited_amount } else { collateral_amount };
    if amount > collateral.deposited_amount {
        return Err(LendingError::WithdrawTooLarge);
    }
    if obligation.borrows.len() > 0 {
        let left = match allowed_after(obligation.allowed_borrow_value, &collateral, amount, withdraw_reserve.config.loan_to_value_ratio) {
            Ok(v) => v,
            Err(e) => return Err(e),
        };
        if obligation.borrowed_value.0 > left.0 {
            return Err(LendingError::WithdrawTooLarge);
        }
    }
    match obligation.withdraw(amount, index) {
        Ok(()) => {},
        Err(e) => return Err(e),
    }
    obligation.last_update.mark_stale();
    Ok(amount)
}

/// The borrow entries after settling `settle_amount` of entry `i`: a
/// settlement that covers the debt removes the entry.
pub open spec fn repaid_borrows(s: Seq<ObligationLiquidity>, i: int, settle_amount: Decimal) -> Seq<ObligationLiquidity> {
    if settle_amount.0 >= s[i].borrowed_amount_wads.0 {
        s.remove(i)
    } else {
        s.update(i, ObligationLiquidity {
            borrowed_amount_wads: Decimal((s[i].borrowed_amount_wads.0 - settle_amount.0) as u128),
            ..s[i]
        })
    }
}

/// The deposit entries after taking `amount` out of entry `i`: taking all of
/// it removes the entry.
pub open spec fn withdrawn_deposits(s: Seq<ObligationCollateral>, i: int, amount: u64) -> Seq<ObligationCollateral> {
    if amount == s[i].deposited_amount {
        s.remove(i)
    } else {
        s.update(i, ObligationCollateral { deposited_amount: (s[i].deposited_amount - amount) as u64, ..s[i] })
    }
}

/// The outcome of a liquidation, checked in this order: a stale obligation
/// or reserve, a locked repay reserve, a healthy obligation
/// (`borrowed_value <= unhealthy_borrow_value`), no debt in the repay reserve
/// (nothing to liquidate there: `ObligationHealthy`), no deposit in the
/// withdraw reserve (`InsufficientCollateral`), then the sizing and the
/// repayment into the reserve.
pub open spec fn spec_liquidate(
    o: Obligation,
    repay_reserve: Reserve,
    repay_reserve_key: Pubkey,
    withdraw_reserve: Reserve,
    withdraw_reserve_key: Pubkey,
    liquidity_amount: u64,
    current_slot: u64,
) -> Result<CalculateLiquidationResult, LendingError> {
    if obligation_stale(o, current_slot) {
        Err(LendingError::ObligationStale)
    } else if reserve_stale(repay_reserve, current_slot) || reserve_stale(withdraw_reserve, current_slot) {
        Err(LendingError::ReserveStale)
    } else if repay_reserve.reentry_lock {
        Err(LendingError::ReentrancyDetected)
    } else if o.borrowed_value.0 <= o.unhealthy_borrow_value.0 {
        Err(LendingError::ObligationHealthy)
    } else {
        match borrow_index(o.borrows@, repay_reserve_key) {
            None => Err(LendingError::ObligationHealthy),
            Some(li) => match deposit_index(o.deposits@, withdraw_reserve_key) {
                None => Err(LendingError::InsufficientCollateral),
                Some(ci) => match withdraw_reserve.spec_calculate_liquidation(liquidity_amount, o.borrows@[li], o.deposits@[ci]) {
                    Err(e) => Err(e),
                    Ok(calc) => if calc.withdraw_amount > o.deposits@[ci].deposited_amount {
                        Err(LendingError::WithdrawTooLarge)
                    } else {
                        match repay_reserve.liquidity.spec_repay(calc.repay_amount, calc.settle_amount) {
                            Err(e) => Err(e),
                            Ok(_) => Ok(calc),
                        }
                    },
                },
            },
        }
    }
}

/// Liquidates part of an unhealthy obligation: the liquidator repays debt
/// of `repay_reserve` and takes, at a bonus, collateral of
/// `withdraw_reserve`. The settled debt leaves the borrow entry, the
/// collateral taken leaves the deposit entry, each removed when it reaches
/// zero; the repayment goes into the repay reserve. The obligation and the
/// repay reserve are then stale; on an error neither changes.
pub fn liquidate_obligation(
    obligation: &mut Obligation,
    repay_reserve: &mut Reserve,
    repay_reserve_key: &Pubkey,
    withdraw_reserve: &Reserve,
    withdraw_reserve_key: &Pubkey,
    liquidity_amount: u64,
    current_slot: u64,
) -> (r: Result<CalculateLiquidationResult, LendingError>)
    ensures
        old(obligation).spec_wf() ==> final(obligation).spec_wf(),
        r == spec_liquidate(*old(obligation), *old(repay_reserve), *repay_reserve_key, *withdraw_reserve,
            *withdraw_reserve_key, liquidity_amount, current_slot),
        r is Err ==> *final(obligation) == *old(obligation) && *final(repay_reserve) == *old(repay_reserve),
        r is Ok ==> ({
            let li = borrow_index(old(obligation).borrows@, *repay_reserve_key)->Some_0;
            let ci = deposit_index(old(obligation).deposits@, *withdraw_reserve_key)->Some_0;
            let calc = r->Ok_0;
            &&& marked_stale(*old(obligation), *final(obligation))
            &&& final(obligation).borrows@ == repaid_borrows(old(obligation).borrows@, li, calc.settle_amount)
            &&& final(obligation).deposits@ == withdrawn_deposits(old(obligation).deposits@, ci, calc.withdraw_amount)
            &&& *final(repay_reserve) == (Reserve {
                liquidity: old(repay_reserve).liquidity.spec_repay(calc.repay_amount, calc.settle_amount)->Ok_0,
                last_update: LastUpdate { slot: old(repay_reserve).last_update.slot, stale: true },
                ..*old(repay_reserve)
            })
        }),
{
    if obligation.last_update.is_stale(current_slot) {
        return Err(LendingError::ObligationStale);
    }
    if repay_reserve.last_update.is_stale(current_slot) || withdraw_reserve.last_update.is_stale(current_slot) {
        return Err(LendingError::ReserveStale);
    }
    if repay_reserve.reentry_lock {
        return Err(LendingError::ReentrancyDetected);
    }
    if obligation.borrowed_value.0 <= obligation.unhealthy_borrow_value.0 {
        return Err(LendingError::ObligationHealthy);
    }
    let li = match find_borrow(obligation, repay_reserve_key) {
        Some(i) => i,
        None => return Err(LendingError::ObligationHealthy),
    };
    let ci = match find_deposit(obligation, withdraw_reserve_key) {
        Some(i) => i,
        None => return Err(LendingError::InsufficientCollateral),
    };
    let liquidity = obligation.borrows[li];
    let collateral = obligation.deposits[ci];
    let calc = match withdraw_reserve.calculate_liquidation(liquidity_amount, &liquidity, &collateral) {
        Ok(c) => c,
        Err(e) => return Err(e),
    };
    if calc.withdraw_amount > collateral.deposited_amount {
        return Err(LendingError::WithdrawTooLarge);
    }
    let mut reserve_liquidity = repay_reserve.liquidity;
    match reserve_liquidity.repay(calc.repay_amount, calc.settle_amount) {
        Ok(()) => {},
        Err(e) => return Err(e),
    }
    repay_reserve.liquidity = reserve_liquidity;
    repay_reserve.last_update.mark_stale();
    match obligation.repay(calc.settle_amount, li) {
        Ok(()) => {},
        Err(e) => return Err(e),
    }
    match obligation.withdraw(calc.withdraw_amount, ci) {
        Ok(()) => {},
        Err(e) => return Err(e),
    }
    obligation.last_update.mark_stale();
    Ok(calc)
}

/// The outcome of a repay, checked in this order: a stale obligation or
/// reserve, a locked reserve, no debt in the reserve
/// (`InsufficientLiquidity`: nothing borrowed there), then the sizing and
/// the repayment into the reserve.
pub open spec fn spec_repay_obligation(
    o: Obligation,
    repay_reserve: Reserve,
    repay_reserve_key: Pubkey,
    liquidity_amount: u64,
    current_slot: u64,
) -> Result<CalculateRepayResult, LendingError> {
    if obligation_stale(o, current_slot) {
        Err(LendingError::ObligationStale)
    } else if reserve_stale(repay_reserve, current_slot) {
        Err(LendingError::ReserveStale)
    } else if repay_reserve.reentry_lock {
        Err(LendingError::ReentrancyDetected)
    } else {
        match borrow_index(o.borrows@, repay_reserve_key) {
            None => Err(LendingError::InsufficientLiquidity),
            Some(li) => match Reserve::spec_calculate_repay(liquidity_amount, o.borrows@[li].borrowed_amount_wads) {
                Err(e) => Err(e),
                Ok(calc) => match repay_reserve.liquidity.spec_repay(calc.repay_amount, calc.settle_amount) {
                    Err(e) => Err(e),
                    Ok(_) => Ok(calc),
                },
            },
        }
    }
}

/// Repays debt of `repay_reserve`; the largest `u64` repays all of it. The
/// settled debt leaves the borrow entry, which is removed when it reaches
/// zero, and the tokens paid in go into the reserve. The obligation and the
/// reserve are then stale; on an error neither changes.
pub fn repay_obligation_liquidity(
    obligation: &mut Obligation,
    repay_reserve: &mut Reserve,
    repay_reserve_key: &Pubkey,
    liquidity_amount: u64,
    current_slot: u64,
) -> (r: Result<CalculateRepayResult, LendingError>)
    ensures
        old(obligation).spec_wf() ==> final(obligation).spec_wf(),
        r == spec_repay_obligation(*old(obligation), *old(repay_reserve), *repay_reserve_key, liquidity_amount, current_slot),
        r is Err ==> *final(obligation) == *old(obligation) && *final(repay_reserve) == *old(repay_reserve),
        r is Ok ==> ({
            let li = borrow_index(old(obligation).borrows@, *repay_reserve_key)->Some_0;
            let calc = r->Ok_0;
            &&& marked_stale(*old(obligation), *final(obligation))
            &&& final(obligation).borrows@ == repaid_borrows(old(obligation).borrows@, li, calc.settle_amount)
            &&& final(obligation).deposits@ == old(obligation).deposits@
            &&& *final(repay_reserve) == (Reserve {
                liquidity: old(repay_reserve).liquidity.spec_repay(calc.repay_amount, calc.settle_amount)->Ok_0,
                last_update: LastUpdate { slot: old(repay_reserve).last_update.slot, stale: true },
                ..*old(repay_reserve)
            })
        }),
{
    if obligation.last_update.is_stale(current_slot) {
        return Err(LendingError::ObligationStale);
    }
    if repay_reserve.last_update.is_stale(current_slot) {
        return Err(LendingError::ReserveStale);
    }
    if repay_reserve.reentry_lock {
        return Err(LendingError::ReentrancyDetected);
    }
    let li = match find_borrow(obligation, repay_reserve_key) {
        Some(i) => i,
        None => return Err(LendingError::InsufficientLiquidity),
    };
    let liquidity = obligation.borrows[li];
    let calc = match repay_reserve.calculate_repay(liquidity_amount, liquidity.borrowed_amount_wads) {
        Ok(c) => c,
        Err(e) => return Err(e),
    };
    let mut reserve_liquidity = repay_reserve.liquidity;
    match reserve_liquidity.repay(calc.repay_amount, calc.settle_amount) {
        Ok(()) => {},
        Err(e) => return Err(e),
    }
    repay_reserve.liquidity = reserve_liquidity;
    repay_reserve.last_update.mark_stale();
    match obligation.repay(calc.settle_amount, li) {
        Ok(()) => {},
        Err(e) => return Err(e),
    }
    obligation.last_update.mark_stale();
    Ok(calc)
}

/// The outcome of a borrow, checked in this order: a stale obligation or
/// reserve, a locked reserve, no borrowing capacity left
/// (`InsufficientCollateral`), then the sizing against the capacity left,
/// the liquidity taken from the reserve, and the borrow entry: the existing
/// one must not overflow, a new one must fit.
pub open spec fn spec_borrow_obligation(
    o: Obligation,
    borrow_reserve: Reserve,
    borrow_reserve_key: Pubkey,
    liquidity_amount: u64,
    current_slot: u64,
) -> Result<CalculateBorrowResult, LendingError> {
    if obligation_stale(o, current_slot) {
        Err(LendingError::ObligationStale)
    } else if reserve_stale(borrow_reserve, current_slot) {
        Err(LendingError::ReserveStale)
    } else if borrow_reserve.reentry_lock {
        Err(LendingError::ReentrancyDetected)
    } else if o.borrowed_value.0 >= o.allowed_borrow_value.0 {
        Err(LendingError::InsufficientCollateral)
    } else {
        let remaining = Decimal((o.allowed_borrow_value.0 - o.borrowed_value.0) as u128);
        match borrow_reserve.spec_calculate_borrow(liquidity_amount, remaining) {
            Err(e) => Err(e),
            Ok(calc) => match borrow_reserve.liquidity.spec_borrow(calc.borrow_amount) {
                Err(e) => Err(e),
                Ok(_) => match borrow_index(o.borrows@, borrow_reserve_key) {
                    Some(li) => match o.borrows@[li].borrowed_amount_wads.spec_add(calc.borrow_amount) {
                        Err(e) => Err(e),
                        Ok(_) => Ok(calc),
                    },
                    None => if entries_fit(o.deposits@.len(), o.borrows@.len() + 1nat) {
                        Ok(calc)
                    } else {
                        Err(LendingError::CapacityExceeded)
                    },
                },
            },
        }
    }
}

/// The borrow entries after borrowing `amount` from the reserve
/// `borrow_reserve_key`: the existing entry grows, or a new one is added at
/// the reserve's cumulative borrow rate.
pub open spec fn borrowed_borrows(
    s: Seq<ObligationLiquidity>,
    borrow_reserve_key: Pubkey,
    cumulative_borrow_rate_wads: Decimal,
    amount: Decimal,
) -> Seq<ObligationLiquidity> {
    match borrow_index(s, borrow_reserve_key) {
        Some(li) => s.update(li, ObligationLiquidity {
            borrowed_amount_wads: Decimal((s[li].borrowed_amount_wads.0 + amount.0) as u128),
            ..s[li]
        }),
        None => s.push(ObligationLiquidity {
            borrowed_amount_wads: amount,
            ..ObligationLiquidity::new_spec(borrow_reserve_key, cumulative_borrow_rate_wads)
        }),
    }
}

/// Borrows liquidity of `borrow_reserve` against the obligation's
/// collateral; the largest `u64` borrows as much as the collateral allows.
/// The debt, fees included, must stay within the allowed borrow value, else
/// `InsufficientCollateral`. The debt joins the borrow entry and leaves the
/// reserve's available liquidity. The obligation and the reserve are then
/// stale; on an error neither changes.
pub fn borrow_obligation_liquidity(
    obligation: &mut Obligation,
    borrow_reserve: &mut Reserve,
    borrow_reserve_key: &Pubkey,
    liquidity_amount: u64,
    current_slot: u64,
) -> (r: Result<CalculateBorrowResult, LendingError>)
    requires
        entries_fit(old(obligation).deposits@.len(), old(obligation).borrows@.len()),
    ensures
        old(obligation).spec_wf() ==> final(obligation).spec_wf(),
        r == spec_borrow_obligation(*old(obligation), *old(borrow_reserve), *borrow_reserve_key, liquidity_amount, current_slot),
        entries_fit(final(obligation).deposits@.len(), final(obligation).borrows@.len()),
        r is Err ==> *final(obligation) == *old(obligation) && *final(borrow_reserve) == *old(borrow_reserve),
        r is Ok ==> ({
            let calc = r->Ok_0;
            &&& marked_stale(*old(obligation), *final(obligation))
            &&& final(obligation).deposits@ == old(obligation).deposits@
            &&& final(obligation).borrows@ == borrowed_borrows(old(obligation).borrows@, *borrow_reserve_key,
                old(borrow_reserve).liquidity.cumulative_borrow_rate_wads, calc.borrow_amount)
            &&& *final(borrow_reserve) == (Reserve {
                liquidity: old(borrow_reserve).liquidity.spec_borrow(calc.borrow_amount)->Ok_0,
                last_update: LastUpdate { slot: old(borrow_reserve).last_update.slot, stale: true },
                ..*old(borrow_reserve)
            })
        }),
{
    if obligation.last_update.is_stale(current_slot) {
        return Err(LendingError::ObligationStale);
    }
    if borrow_reserve.last_update.is_stale(current_slot) {
        return Err(LendingError::ReserveStale);
    }
    if borrow_reserve.reentry_lock {
        return Err(LendingError::ReentrancyDetected);
    }
    if obligation.borrowed_value.0 >= obligation.allowed_borrow_value.0 {
        return Err(LendingError::InsufficientCollateral);
    }
    let remaining = Decimal(obligation.allowed_borrow_value.0 - obligation.borrowed_value.0);
    let calc = match borrow_reserve.calculate_borrow(liquidity_amount, remaining) {
        Ok(c) => c,
        Err(e) => return Err(e),
    };
    let mut reserve_liquidity = borrow_reserve.liquidity;
    match reserve_liquidity.borrow(calc.borrow_amount) {
        Ok(()) => {},
        Err(e) => return Err(e),
    }
    let cumulative = borrow_reserve.liquidity.cumulative_borrow_rate_wads;
    match find_borrow(obligation, borrow_reserve_key) {
        Some(li) => {
            let mut entry = obligation.borrows[li];
            match entry.borrowed_amount_wads.try_add(calc.borrow_amount) {
                Ok(b) => {
                    entry.borrowed_amount_wads = b;
                },
                Err(e) => return Err(e),
            }
            proof {
                if old(obligation).spec_wf() {
                    crate::obligation::lemma_borrows_unique_kept(obligation.borrows@, li as int, entry);
                }
            }
            obligation.borrows.set(li, entry);
        },
        None => {
            if obligation.deposits.len() + obligation.borrows.len() + 1 > crate::obligation::MAX_OBLIGATION_RESERVES
                || 72 * obligation.deposits.len() + 96 * (obligation.borrows.len() + 1) > crate::obligation::OBLIGATION_SLAB_LEN {
                return Err(LendingError::CapacityExceeded);
            }
            let mut entry = ObligationLiquidity::new(*borrow_reserve_key, cumulative);
            entry.borrowed_amount_wads = calc.borrow_amount;
            proof {
                if old(obligation).spec_wf() {
                    crate::obligation::lemma_borrows_unique_push(obligation.borrows@, entry);
                }
            }
            obligation.borrows.push(entry);
        },
    }
    borrow_reserve.liquidity = reserve_liquidity;
    borrow_reserve.last_update.mark_stale();
    obligation.last_update.mark_stale();
    Ok(calc)
}

/// The outcome of a collateral deposit, checked in this order: a stale
/// reserve, then the deposit entry: the existing one must not overflow, a
/// new one must fit.
pub open spec fn spec_deposit_collateral(
    o: Obligation,
    deposit_reserve: Reserve,
    deposit_reserve_key: Pubkey,
    collateral_amount: u64,
    current_slot: u64,
) -> Result<(), LendingError> {
    if reserve_stale(deposit_reserve, current_slot) {
        Err(LendingError::ReserveStale)
    } else {
        match deposit_index(o.deposits@, deposit_reserve_key) {
            Some(ci) => if o.deposits@[ci].deposited_amount + collateral_amount > u64::MAX {
                Err(LendingError::MathOverflow)
            } else {
                Ok(())
            },
            None => if entries_fit(o.deposits@.len() + 1nat, o.borrows@.len()) {
                Ok(())
            } else {
                Err(LendingError::CapacityExceeded)
            },
        }
    }
}

/// The deposit entries after depositing `amount` to the reserve
/// `deposit_reserve_key`: the existing entry grows, or a new one is added.
pub open spec fn deposited_deposits(s: Seq<ObligationCollateral>, deposit_reserve_key: Pubkey, amount: u64) -> Seq<ObligationCollateral> {
    match deposit_index(s, deposit_reserve_key) {
        Some(ci) => s.update(ci, ObligationCollateral {
            deposited_amount: (s[ci].deposited_amount + amount) as u64,
            ..s[ci]
        }),
        None => s.push(ObligationCollateral { deposited_amount: amount, ..ObligationCollateral::new_spec(deposit_reserve_key) }),
    }
}

/// Deposits collateral of `deposit_reserve` into the obligation, adding an
/// entry for the reserve if there is none yet. The obligation is then stale;
/// on an error it is unchanged.
pub fn deposit_obligation_collateral(
    obligation: &mut Obligation,
    deposit_reserve: &Reserve,
    deposit_reserve_key: &Pubkey,
    collateral_amount: u64,
    current_slot: u64,
) -> (r: Result<(), LendingError>)
    requires
        entries_fit(old(obligation).deposits@.len(), old(obligation).borrows@.len()),
    ensures
        old(obligation).spec_wf() ==> final(obligation).spec_wf(),
        r == spec_deposit_collateral(*old(obligation), *deposit_reserve, *deposit_reserve_key, collateral_amount, current_slot),
        entries_fit(final(obligation).deposits@.len(), final(obligation).borrows@.len()),
        r is Err ==> *final(obligation) == *old(obligation),
        r is Ok ==> marked_stale(*old(obligation), *final(obligation))
            && final(obligation).borrows@ == old(obligation).borrows@
            && final(obligation).deposits@ == deposited_deposits(old(obligation).deposits@, *deposit_reserve_key, collateral_amount),
{
    if deposit_reserve.last_update.is_stale(current_slot) {
        return Err(LendingError::ReserveStale);
    }
    match find_deposit(obligation, deposit_reserve_key) {
        Some(ci) => {
            let mut entry = obligation.deposits[ci];
            match entry.deposit(collateral_amount) {
                Ok(()) => {},
                Err(e) => return Err(e),
            }
            proof {
                if old(obligation).spec_wf() {
                    crate::obligation::lemma_deposits_unique_kept(obligation.deposits@, ci as int, entry);
                }
            }
            obligation.deposits.set(ci, entry);
        },
        None => {
            if obligation.deposits.len() + obligation.borrows.len() + 1 > crate::obligation::MAX_OBLIGATION_RESERVES
                || 72 * (obligation.deposits.len() + 1) + 96 * obligation.borrows.len() > crate::obligation::OBLIGATION_SLAB_LEN {
                return Err(LendingError::CapacityExceeded);
            }
            let mut entry = ObligationCollateral::new(*deposit_reserve_key);
            entry.deposited_amount = collateral_amount;
            proof {
                if old(obligation).spec_wf() {
                    crate::obligation::lemma_deposits_unique_push(obligation.deposits@, entry);
                }
            }
            obligation.deposits.push(entry);
        },
    }
    obligation.last_update.mark_stale();
    Ok(())
}

/// A deposit entry with its market value taken from the fresh reserve `r`:
/// the deposited collateral, turned into liquidity at the exchange rate,
/// valued at the market price.
pub open spec fn spec_collateral_refresh(c: ObligationCollateral, r: Reserve, slot: u64) -> Result<ObligationCollateral, LendingError> {
    if reserve_stale(r, slot) {
        Err(LendingError::ReserveStale)
    } else {
        match r.spec_collateral_exchange_rate() {
            Err(e) => Err(e),
            Ok(rate) => match rate.spec_decimal_collateral_to_liquidity(Decimal::spec_from_u64(c.deposited_amount)) {
                Err(e) => Err(e),
                Ok(l) => match r.spec_liquidity_value(l) {
                    Err(e) => Err(e),
                    Ok(v) => Ok(ObligationCollateral { market_value: v, ..c }),
                },
            },
        }
    }
}

/// A borrow entry brought up to the fresh reserve `r`: interest accrued to
/// the reserve's cumulative rate, and the debt valued at the market price.
pub open spec fn spec_liquidity_refresh(l: ObligationLiquidity, r: Reserve, slot: u64) -> Result<ObligationLiquidity, LendingError> {
    if reserve_stale(r, slot) {
        Err(LendingError::ReserveStale)
    } else {
        match l.spec_accrue_interest(r.liquidity.cumulative_borrow_rate_wads) {
            Err(e) => Err(e),
            Ok(a) => match r.spec_liquidity_value(a.borrowed_amount_wads) {
                Err(e) => Err(e),
                Ok(v) => Ok(ObligationLiquidity { market_value: v, ..a }),
            },
        }
    }
}

/// One deposit entry refreshed against its reserve `r`, added to the running
/// sums of values, of values weighted by the loan to value ratio, and of
/// values weighted by the liquidation threshold.
pub open spec fn spec_deposit_step(
    c: ObligationCollateral,
    r: Reserve,
    slot: u64,
    deposited: Decimal,
    allowed: Decimal,
    unhealthy: Decimal,
) -> Result<(ObligationCollateral, Decimal, Decimal, Decimal), LendingError> {
    match spec_collateral_refresh(c, r, slot) {
        Err(e) => Err(e),
        Ok(c) => match deposited.spec_add(c.market_value) {
            Err(e) => Err(e),
            Ok(deposited) => match c.market_value.spec_mul(Decimal((r.config.loan_to_value_ratio * PERCENT_SCALER) as u128)) {
                Err(e) => Err(e),
                Ok(a) => match allowed.spec_add(a) {
                    Err(e) => Err(e),
                    Ok(allowed) => match c.market_value.spec_mul(Decimal((r.config.liquidation_threshold * PERCENT_SCALER) as u128)) {
                        Err(e) => Err(e),
                        Ok(u) => match unhealthy.spec_add(u) {
                            Err(e) => Err(e),
                            Ok(unhealthy) => Ok((c, deposited, allowed, unhealthy)),
                        },
                    },
                },
            },
        },
    }
}

/// The first `n` deposit entries refreshed against their reserves, with the
/// three sums of `spec_deposit_step`.
pub open spec fn spec_deposits_refresh(
    deposits: Seq<ObligationCollateral>,
    reserves: Seq<Reserve>,
    slot: u64,
    n: nat,
) -> Result<(Seq<ObligationCollateral>, Decimal, Decimal, Decimal), LendingError>
    decreases n,
{
    if n == 0 {
        Ok((Seq::empty(), Decimal(0), Decimal(0), Decimal(0)))
    } else {
        match spec_deposits_refresh(deposits, reserves, slot, (n - 1) as nat) {
            Err(e) => Err(e),
            Ok((s, deposited, allowed, unhealthy)) => match spec_deposit_step(
                deposits[n - 1],
                reserves[n - 1],
                slot,
                deposited,
                allowed,
                unhealthy,
            ) {
                Err(e) => Err(e),
                Ok((c, deposited, allowed, unhealthy)) => Ok((s.push(c), deposited, allowed, unhealthy)),
            },
        }
    }
}

/// One borrow entry refreshed against its reserve `r`, added to the running
/// sum of values.
pub open spec fn spec_borrow_step(l: ObligationLiquidity, r: Reserve, slot: u64, borrowed: Decimal) -> Result<(ObligationLiquidity, Decimal), LendingError> {
    match spec_liquidity_refresh(l, r, slot) {
        Err(e) => Err(e),
        Ok(l) => match borrowed.spec_add(l.market_value) {
            Err(e) => Err(e),
            Ok(borrowed) => Ok((l, borrowed)),
        },
    }
}

/// The first `n` borrow entries refreshed against their reserves, with the
/// sum of their values.
pub open spec fn spec_borrows_refresh(
    borrows: Seq<ObligationLiquidity>,
    reserves: Seq<Reserve>,
    slot: u64,
    n: nat,
) -> Result<(Seq<ObligationLiquidity>, Decimal), LendingError>
    decreases n,
{
    if n == 0 {
        Ok((Seq::empty(), Decimal(0)))
    } else {
        match spec_borrows_refresh(borrows, reserves, slot, (n - 1) as nat) {
            Err(e) => Err(e),
            Ok((s, borrowed)) => match spec_borrow_step(borrows[n - 1], reserves[n - 1], slot, borrowed) {
                Err(e) => Err(e),
                Ok((l, borrowed)) => Ok((s.push(l), borrowed)),
            },
        }
    }
}

/// Once refreshing the deposit entries fails, refreshing more of them fails
/// the same way.
proof fn lemma_deposits_refresh_err(d: Seq<ObligationCollateral>, rs: Seq<Reserve>, slot: u64, k: nat, n: nat)
    requires
        k <= n,
        spec_deposits_refresh(d, rs, slot, k) is Err,
    ensures
        spec_deposits_refresh(d, rs, slot, n) == spec_deposits_refresh(d, rs, slot, k),
    decreases n - k,
{
    if k < n {
        lemma_deposits_refresh_err(d, rs, slot, k, (n - 1) as nat);
    }
}

/// Once refreshing the borrow entries fails, refreshing more of them fails
/// the same way.
proof fn lemma_borrows_refresh_err(b: Seq<ObligationLiquidity>, rs: Seq<Reserve>, slot: u64, k: nat, n: nat)
    requires
        k <= n,
        spec_borrows_refresh(b, rs, slot, k) is Err,
    ensures
        spec_borrows_refresh(b, rs, slot, n) == spec_borrows_refresh(b, rs, slot, k),
    decreases n - k,
{
    if k < n {
        lemma_borrows_refresh_err(b, rs, slot, k, (n - 1) as nat);
    }
}

/// Refreshing deposit entries keeps their number and their reserves.
proof fn lemma_deposits_refresh_keys(d: Seq<ObligationCollateral>, rs: Seq<Reserve>, slot: u64, n: nat)
    requires
        n <= d.len(),
        spec_deposits_refresh(d, rs, slot, n) is Ok,
    ensures
        spec_deposits_refresh(d, rs, slot, n)->Ok_0.0.len() == n,
        forall|k: int| 0 <= k < n ==> #[trigger] spec_deposits_refresh(d, rs, slot, n)->Ok_0.0[k].deposit_reserve == d[k].deposit_reserve,
    decreases n,
{
    if n > 0 {
        lemma_deposits_refresh_keys(d, rs, slot, (n - 1) as nat);
    }
}

/// Refreshing borrow entries keeps their number and their reserves.
proof fn lemma_borrows_refresh_keys(b: Seq<ObligationLiquidity>, rs: Seq<Reserve>, slot: u64, n: nat)
    requires
        n <= b.len(),
        spec_borrows_refresh(b, rs, slot, n) is Ok,
    ensures
        spec_borrows_refresh(b, rs, slot, n)->Ok_0.0.len() == n,
        forall|k: int| 0 <= k < n ==> #[trigger] spec_borrows_refresh(b, rs, slot, n)->Ok_0.0[k].borrow_reserve == b[k].borrow_reserve,
    decreases n,
{
    if n > 0 {
        lemma_borrows_refresh_keys(b, rs, slot, (n - 1) as nat);
    }
}

fn deposit_step(
    c: &ObligationCollateral,
    r: &Reserve,
    slot: u64,
    deposited: Decimal,
    allowed: Decimal,
    unhealthy: Decimal,
) -> (res: Result<(ObligationCollateral, Decimal, Decimal, Decimal), LendingError>)
    ensures
        res == spec_deposit_step(*c, *r, slot, deposited, allowed, unhealthy),
{
    let c = match collateral_refresh(c, r, slot) {
        Ok(c) => c,
        Err(e) => return Err(e),
    };
    let deposited = match deposited.try_add(c.market_value) {
        Ok(v) => v,
        Err(e) => return Err(e),
    };
    let a = match c.market_value.try_mul(Decimal::from_percent(r.config.loan_to_value_ratio)) {
        Ok(v) => v,
        Err(e) => return Err(e),
    };
    let allowed = match allowed.try_add(a) {
        Ok(v) => v,
        Err(e) => return Err(e),
    };
    let u = match c.market_value.try_mul(Decimal::from_percent(r.config.liquidation_threshold)) {
        Ok(v) => v,
        Err(e) => return Err(e),
    };
    let unhealthy = match unhealthy.try_add(u) {
        Ok(v) => v,
        Err(e) => return Err(e),
    };
    Ok((c, deposited, allowed, unhealthy))
}

fn borrow_step(l: &ObligationLiquidity, r: &Reserve, slot: u64, borrowed: Decimal) -> (res: Result<(ObligationLiquidity, Decimal), LendingError>)
    ensures
        res == spec_borrow_step(*l, *r, slot, borrowed),
{
    let l = match liquidity_refresh(l, r, slot) {
        Ok(l) => l,
        Err(e) => return Err(e),
    };
    match borrowed.try_add(l.market_value) {
        Ok(b) => Ok((l, b)),
        Err(e) => Err(e),
    }
}

fn collateral_refresh(c: &ObligationCollateral, r: &Reserve, slot: u64) -> (res: Result<ObligationCollateral, LendingError>)
    ensures
        res == spec_collateral_refresh(*c, *r, slot),
{
    if r.last_update.is_stale(slot) {
        return Err(LendingError::ReserveStale);
    }
    let rate = match r.collateral_exchange_rate() {
        Ok(v) => v,
        Err(e) => return Err(e),
    };
    let l = match rate.decimal_collateral_to_liquidity(Decimal::from_u64(c.deposited_amount)) {
        Ok(v) => v,
        Err(e) => return Err(e),
    };
    let v = match r.liquidity_value(l) {
        Ok(v) => v,
        Err(e) => return Err(e),
    };
    let mut n = *c;
    n.market_value = v;
    Ok(n)
}

fn liquidity_refresh(l: &ObligationLiquidity, r: &Reserve, slot: u64) -> (res: Result<ObligationLiquidity, LendingError>)
    ensures
        res == spec_liquidity_refresh(*l, *r, slot),
{
    if r.last_update.is_stale(slot) {
        return Err(LendingError::ReserveStale);
    }
    let mut a = *l;
    match a.accrue_interest(r.liquidity.cumulative_borrow_rate_wads) {
        Ok(()) => {},
        Err(e) => return Err(e),
    }
    let v = match r.liquidity_value(a.borrowed_amount_wads) {
        Ok(v) => v,
        Err(e) => return Err(e),
    };
    a.market_value = v;
    Ok(a)
}

/// Refreshes an obligation at `current_slot` against its reserves, given in
/// the order of its deposit entries and of its borrow entries; each must be
/// fresh in this slot, else `ReserveStale`. Interest accrues on every
/// borrow, every entry is valued anew, and the deposited, borrowed, allowed
/// and unhealthy values are summed afresh. All or nothing: on an error the
/// obligation is unchanged.
pub fn refresh_obligation(
    obligation: &mut Obligation,
    deposit_reserves: &Vec<Reserve>,
    borrow_reserves: &Vec<Reserve>,
    current_slot: u64,
) -> (r: Result<(), LendingError>)
    requires
        deposit_reserves@.len() == old(obligation).deposits@.len(),
        borrow_reserves@.len() == old(obligation).borrows@.len(),
    ensures
        old(obligation).spec_wf() ==> final(obligation).spec_wf(),
        match spec_deposits_refresh(old(obligation).deposits@, deposit_reserves@, current_slot, old(obligation).deposits@.len()) {
            Err(e) => r == Err::<(), LendingError>(e) && *final(obligation) == *old(obligation),
            Ok((d, deposited, allowed, unhealthy)) => match spec_borrows_refresh(
                old(obligation).borrows@,
                borrow_reserves@,
                current_slot,
                old(obligation).borrows@.len(),
            ) {
                Err(e) => r == Err::<(), LendingError>(e) && *final(obligation) == *old(obligation),
                Ok((b, borrowed)) => {
                    &&& r is Ok
                    &&& final(obligation).deposits@ == d
                    &&& final(obligation).borrows@ == b
                    &&& final(obligation).deposited_value == deposited
                    &&& final(obligation).borrowed_value == borrowed
                    &&& final(obligation).allowed_borrow_value == allowed
                    &&& final(obligation).unhealthy_borrow_value == unhealthy
                    &&& final(obligation).last_update == (LastUpdate { slot: current_slot, stale: false })
                    &&& final(obligation).version == old(obligation).version
                    &&& final(obligation).lending_market == old(obligation).lending_market
                    &&& final(obligation).owner == old(obligation).owner
                    &&& final(obligation).unclaimed_mine == old(obligation).unclaimed_mine
                },
            },
        },
{
    let mut deposits: Vec<ObligationCollateral> = Vec::new();
    let mut deposited = Decimal::zero();
    let mut allowed = Decimal::zero();
    let mut unhealthy = Decimal::zero();
    let mut i: usize = 0;
    while i < obligation.deposits.len()
        invariant
            i <= obligation.deposits@.len(),
            deposit_reserves@.len() == obligation.deposits@.len(),
            spec_deposits_refresh(obligation.deposits@, deposit_reserves@, current_slot, i as nat)
                == Ok::<(Seq<ObligationCollateral>, Decimal, Decimal, Decimal), LendingError>((deposits@, deposited, allowed, unhealthy)),
        decreases obligation.deposits@.len() - i,
    {
        let step = deposit_step(&obligation.deposits[i], &deposit_reserves[i], current_slot, deposited, allowed, unhealthy);
        let c = match step {
            Ok((c, d, a, u)) => {
                deposited = d;
                allowed = a;
                unhealthy = u;
                c
            },
            Err(e) => {
                proof {
                    lemma_deposits_refresh_err(obligation.deposits@, deposit_reserves@, current_slot, (i + 1) as nat, obligation.deposits@.len());
                }
                return Err(e);
            },
        };
        deposits.push(c);
        i = i + 1;
    }
    let mut borrows: Vec<ObligationLiquidity> = Vec::new();
    let mut borrowed = Decimal::zero();
    let mut j: usize = 0;
    while j < obligation.borrows.len()
        invariant
            j <= obligation.borrows@.len(),
            borrow_reserves@.len() == obligation.borrows@.len(),
            spec_deposits_refresh(obligation.deposits@, deposit_reserves@, current_slot, obligation.deposits@.len())
                == Ok::<(Seq<ObligationCollateral>, Decimal, Decimal, Decimal), LendingError>((deposits@, deposited, allowed, unhealthy)),
            spec_borrows_refresh(obligation.borrows@, borrow_reserves@, current_slot, j as nat)
                == Ok::<(Seq<ObligationLiquidity>, Decimal), LendingError>((borrows@, borrowed)),
        decreases obligation.borrows@.len() - j,
    {
        let l = match borrow_step(&obligation.borrows[j], &borrow_reserves[j], current_slot, borrowed) {
            Ok((l, b)) => {
                borrowed = b;
                l
            },
            Err(e) => {
                proof {
                    lemma_borrows_refresh_err(obligation.borrows@, borrow_reserves@, current_slot, (j + 1) as nat, obligation.borrows@.len());
                }
                return Err(e);
            },
        };
        borrows.push(l);
        j = j + 1;
    }
    proof {
        lemma_deposits_refresh_keys(obligation.deposits@, deposit_reserves@, current_slot, obligation.deposits@.len());
        lemma_borrows_refresh_keys(obligation.borrows@, borrow_reserves@, current_slot, obligation.borrows@.len());
        if old(obligation).spec_wf() {
            assert(deposits@.len() == obligation.deposits@.len());
            assert forall|a: int, b: int| 0 <= a < deposits@.len() && 0 <= b < deposits@.len() && a != b
                implies deposits@[a].deposit_reserve != deposits@[b].deposit_reserve by {
                assert(deposits@[a].deposit_reserve == obligation.deposits@[a].deposit_reserve);
                assert(deposits@[b].deposit_reserve == obligation.deposits@[b].deposit_reserve);
            }
            assert forall|a: int, b: int| 0 <= a < borrows@.len() && 0 <= b < borrows@.len() && a != b
                implies borrows@[a].borrow_reserve != borrows@[b].borrow_reserve by {
                assert(borrows@[a].borrow_reserve == obligation.borrows@[a].borrow_reserve);
                assert(borrows@[b].borrow_reserve == obligation.borrows@[b].borrow_reserve);
            }
        }
    }
    obligation.deposits = deposits;
    obligation.borrows = borrows;
    obligation.deposited_value = deposited;
    obligation.borrowed_value = borrowed;
    obligation.allowed_borrow_value = allowed;
    obligation.unhealthy_borrow_value = unhealthy;
    obligation.last_update.update_slot(current_slot);
    Ok(())
}

} // verus!
