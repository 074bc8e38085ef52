//! Fixed-point arithmetic of the liquidation engine.
//!
//! Prices carry seven decimals (`PRICE_SCALE` is 1.0); risk parameters are in
//! basis points. Every division truncates toward zero, as the integer
//! division of the contract does.

use vstd::prelude::*;
use crate::lending::types::PoolError;

verus! {

/// Fixed-point scale matching 7-decimal oracle prices.
pub const PRICE_SCALE: i128 = 10_000_000;
/// Basis-point denominator.
pub const BPS: i128 = 10_000;

/// Integer division truncating toward zero, for a positive divisor.
pub open spec fn tdiv(a: int, d: int) -> int {
    if a >= 0 {
        a / d
    } else {
        -((-a) / d)
    }
}

/// Whether `x` is representable as an `i128`.
pub open spec fn fits_i128(x: int) -> bool {
    i128::MIN <= x <= i128::MAX
}

/// Collateral units worth `repay` at `price`, before the bonus.
pub open spec fn seize_base(repay: int, price: int) -> int {
    tdiv(repay * PRICE_SCALE, price)
}

/// Collateral units a liquidator receives for repaying `repay` at `price`,
/// bonus included.
pub open spec fn seize_amount(repay: int, price: int, bonus_bps: int) -> int {
    tdiv(seize_base(repay, price) * (BPS + bonus_bps), BPS as int)
}

/// Whether every intermediate product of the seizure formula fits in an `i128`.
pub open spec fn seize_fits(repay: int, price: int, bonus_bps: int) -> bool {
    &&& fits_i128(repay * PRICE_SCALE)
    &&& fits_i128(seize_base(repay, price) * (BPS + bonus_bps))
}

/// One holding's contribution to a collateral valuation:
/// `amount * price / PRICE_SCALE * weight_bps / BPS`, or `None` when an
/// intermediate product leaves the `i128` range.
pub open spec fn weighted_value(amount: int, price: int, weight_bps: int) -> Option<int> {
    let m1 = amount * price;
    if !fits_i128(m1) {
        None
    } else {
        let v = tdiv(m1, PRICE_SCALE as int);
        let m2 = v * weight_bps;
        if !fits_i128(m2) {
            None
        } else {
            Some(tdiv(m2, BPS as int))
        }
    }
}

proof fn lemma_tdiv_bound(a: int, d: int)
    requires
        d >= 1,
    ensures
        -(if a >= 0 { a } else { -a }) <= tdiv(a, d) <= (if a >= 0 { a } else { -a }),
{
    if a >= 0 {
        vstd::arithmetic::div_mod::lemma_div_is_ordered_by_denominator(a, 1, d);
    } else {
        vstd::arithmetic::div_mod::lemma_div_is_ordered_by_denominator(-a, 1, d);
    }
}

/// Truncating division of an `i128` by a positive `i128`.
pub fn div_trunc(a: i128, d: i128) -> (r: i128)
    requires
        d > 0,
    ensures
        r == tdiv(a as int, d as int),
{
    proof {
        lemma_tdiv_bound(a as int, d as int);
    }
    a.checked_div(d).unwrap()
}

/// `amount * price / PRICE_SCALE * weight_bps / BPS`, or `None` on overflow.
pub fn weighted(amount: i128, price: i128, weight_bps: u32) -> (r: Option<i128>)
    ensures
        match r {
            Some(v) => weighted_value(amount as int, price as int, weight_bps as int) == Some(v as int),
            None => weighted_value(amount as int, price as int, weight_bps as int) is None,
        },
{
    let m1 = match amount.checked_mul(price) {
        Some(m) => m,
        None => return None,
    };
    let v = div_trunc(m1, PRICE_SCALE);
    let m2 = match v.checked_mul(weight_bps as i128) {
        Some(m) => m,
        None => return None,
    };
    Some(div_trunc(m2, BPS))
}

/// The amount of collateral the liquidator receives for repaying
/// `repay_amount` of debt against collateral priced at `price`, including a
/// liquidation bonus of `bonus_bps` basis points:
///
/// ```text
/// base   = repay_amount * PRICE_SCALE / price
/// result = base * (BPS + bonus_bps) / BPS
/// ```
pub fn compute_collateral_to_seize(repay_amount: i128, price: i128, bonus_bps: u32) -> (r: i128)
    requires
        price > 0,
        seize_fits(repay_amount as int, price as int, bonus_bps as int),
    ensures
        r == seize_amount(repay_amount as int, price as int, bonus_bps as int),
{
    let scaled = repay_amount.checked_mul(PRICE_SCALE).unwrap();
    let base = div_trunc(scaled, price);
    let grossed = base.checked_mul(BPS + bonus_bps as i128).unwrap();
    div_trunc(grossed, BPS)
}

/// What a seizure of collateral priced at `price` yields for repaying
/// `repay`: the amount, or the refusal the contract aborts with.
pub open spec fn seize_checked(repay: int, price: int, bonus_bps: int) -> Result<i128, PoolError> {
    if price <= 0 {
        Err(PoolError::InvalidPrice)
    } else if !seize_fits(repay, price, bonus_bps) {
        Err(PoolError::Overflow)
    } else {
        Ok(seize_amount(repay, price, bonus_bps) as i128)
    }
}

/// `compute_collateral_to_seize` with its refusals as values: a non-positive
/// price and an overflowing product are errors instead of aborts.
pub fn checked_collateral_to_seize(repay_amount: i128, price: i128, bonus_bps: u32) -> (r: Result<i128, PoolError>)
    ensures
        r == seize_checked(repay_amount as int, price as int, bonus_bps as int),
        r matches Ok(v) ==> v == seize_amount(repay_amount as int, price as int, bonus_bps as int),
{
    if price <= 0 {
        return Err(PoolError::InvalidPrice);
    }
    let scaled = match repay_amount.checked_mul(PRICE_SCALE) {
        Some(x) => x,
        None => return Err(PoolError::Overflow),
    };
    let base = div_trunc(scaled, price);
    let grossed = match base.checked_mul(BPS + bonus_bps as i128) {
        Some(x) => x,
        None => return Err(PoolError::Overflow),
    };
    proof {
        lemma_tdiv_bound(grossed as int, BPS as int);
    }
    Ok(div_trunc(grossed, BPS))
}

/// Refuse a liquidation whose collateral price the oracle reports stale
/// (its `is_price_stale` answer is handed in).
pub fn try_require_fresh_price(price_stale: bool) -> (r: Result<(), PoolError>)
    ensures
        r == (if price_stale { Err(PoolError::StalePrice) } else { Ok::<(), PoolError>(()) }),
{
    if price_stale {
        return Err(PoolError::StalePrice);
    }
    Ok(())
}

/// Go on only with a collateral price the oracle reports fresh.
pub fn require_fresh_price(price_stale: bool)
    requires
        !price_stale,
{
    let _ = try_require_fresh_price(price_stale);
}

} // verus!
