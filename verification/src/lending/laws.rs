//! Properties of the lending pool that hold across its operations.

use vstd::prelude::*;
use crate::lending::liquidation::{fits_i128, seize_amount, seize_base, seize_fits, weighted_value, BPS, PRICE_SCALE};
use crate::lending::pool::{collateral_key, overridden, valuation_prefix, value_or_zero, weight_of, LendingPool};
use crate::lending::types::AssetConfig;
use crate::lending::types::PoolError;

verus! {

/// A user without debt is healthy: the health factor is `i128::MAX`.
pub proof fn law_debt_free_is_healthy(pool: LendingPool, coll: Map<Seq<u8>, i128>, user: Seq<u8>, prices: Map<Seq<u8>, i128>)
    requires
        pool.debt_of(user) == 0,
    ensures
        pool.health(coll, user, prices) == Ok::<i128, PoolError>(i128::MAX),
        pool.liquidatable(user, prices) == Ok::<bool, PoolError>(false),
{
}

/// A borrow that is granted leaves the debt within the borrow power.
pub proof fn law_borrow_within_power(pool: LendingPool, user: Seq<u8>, amount: i128, prices: Map<Seq<u8>, i128>)
    requires
        pool.borrow_check(user, amount, prices) is Ok,
    ensures
        pool.valuation(pool.collateral@, user, prices, true) matches Ok(power)
            && pool.debt_of(user) + amount <= power,
{
}

/// A withdrawal that is granted to a debtor leaves a health factor of at
/// least one over the holdings that remain.
pub proof fn law_withdraw_keeps_debtor_healthy(
    pool: LendingPool,
    user: Seq<u8>,
    asset: Seq<u8>,
    amount: i128,
    prices: Map<Seq<u8>, i128>,
)
    requires
        pool.withdraw_check(user, asset, amount, prices) is Ok,
        pool.debt_of(user) > 0,
    ensures
        pool.health(
            overridden(
                pool.collateral@,
                collateral_key(user, asset),
                Some((pool.collateral_of(user, asset) - amount) as i128),
            ),
            user,
            prices,
        ) matches Ok(h) && h >= PRICE_SCALE,
        0 <= pool.collateral_of(user, asset) - amount,
{
}

/// A repayment takes something, and never more than offered or owed.
pub proof fn law_repay_capped(pool: LendingPool, user: Seq<u8>, amount: i128)
    requires
        pool.wf(),
        pool.repay_check(user, amount) is Ok,
    ensures
        pool.repay_check(user, amount) matches Ok(t) && 0 < t <= amount && t <= pool.debt_of(user),
{
}

/// A liquidation goes through only against a position whose health factor
/// is below one, with a fresh price, and seizes something but never more
/// than the borrower holds or the repayment is worth with its bonus.
pub proof fn law_liquidation_bounds(
    pool: LendingPool,
    borrower: Seq<u8>,
    asset: Seq<u8>,
    repay: i128,
    prices: Map<Seq<u8>, i128>,
    price_stale: bool,
)
    requires
        pool.liquidation_check(borrower, asset, repay, prices, price_stale) is Ok,
    ensures
        pool.liquidatable(borrower, prices) == Ok::<bool, PoolError>(true),
        !price_stale,
        0 < repay <= pool.debt_of(borrower),
        pool.liquidation_check(borrower, asset, repay, prices, price_stale) matches Ok(g)
            && 0 < g <= pool.collateral_of(borrower, asset)
            && g <= seize_amount(repay as int, prices[asset] as int, pool.asset_configs@[asset].liquidation_bonus as int),
{
}

/// Taking a lock that was free and giving it back leaves the locks as they were.
pub proof fn law_lock_release_restores(locks: Map<Seq<u8>, bool>, caller: Seq<u8>)
    requires
        !locks.contains_key(caller),
    ensures
        locks.insert(caller, true).remove(caller) == locks,
{
    assert(locks.insert(caller, true).remove(caller) =~= locks);
}

/// More debt repaid never seizes less collateral, and a larger bonus never
/// seizes less for the same repayment.
pub proof fn law_seizure_monotone(r1: int, r2: int, price: int, b1: int, b2: int)
    requires
        0 <= r1 <= r2,
        price > 0,
        0 <= b1 <= b2,
    ensures
        seize_amount(r1, price, b1) <= seize_amount(r2, price, b1),
        seize_amount(r1, price, b1) <= seize_amount(r1, price, b2),
{
    let s = PRICE_SCALE as int;
    let d = BPS as int;
    assert(0 <= r1 * s <= r2 * s) by (nonlinear_arith)
        requires 0 <= r1 <= r2, s == 10_000_000;
    vstd::arithmetic::div_mod::lemma_div_is_ordered(r1 * s, r2 * s, price);
    vstd::arithmetic::div_mod::lemma_div_pos_is_pos(r1 * s, price);
    let base1 = seize_base(r1, price);
    let base2 = seize_base(r2, price);
    assert(base1 == (r1 * s) / price && base2 == (r2 * s) / price);
    assert(0 <= base1 * (d + b1) <= base2 * (d + b1)) by (nonlinear_arith)
        requires 0 <= base1 <= base2, 0 <= b1, d == 10_000;
    assert(base1 * (d + b1) <= base1 * (d + b2)) by (nonlinear_arith)
        requires 0 <= base1, b1 <= b2;
    vstd::arithmetic::div_mod::lemma_div_is_ordered(base1 * (d + b1), base2 * (d + b1), d);
    vstd::arithmetic::div_mod::lemma_div_is_ordered(base1 * (d + b1), base1 * (d + b2), d);
}

/// Distinct assets of one user have distinct holding keys.
proof fn lemma_collateral_key_injective(user: Seq<u8>, a: Seq<u8>, b: Seq<u8>)
    ensures
        collateral_key(user, a) == collateral_key(user, b) ==> a == b,
{
    crate::bytes::lemma_nat_to_be_len(8, user.len());
    let p = (8 + user.len()) as int;
    if collateral_key(user, a) == collateral_key(user, b) {
        assert(a =~= collateral_key(user, a).subrange(p, collateral_key(user, a).len() as int));
        assert(b =~= collateral_key(user, b).subrange(p, collateral_key(user, b).len() as int));
    }
}

/// Over the first `k` assets, the holdings `coll2` (which add a nonzero
/// holding `v` of asset `assets[j]`, held nowhere else in the list, to
/// `coll`, which held none of it) value exactly that holding's weighted value
/// more than `coll`, once the first `j` assets are passed.
proof fn lemma_prefix_adds_holding(
    assets: Seq<Seq<u8>>,
    configs: Map<Seq<u8>, AssetConfig>,
    coll: Map<Seq<u8>, i128>,
    user: Seq<u8>,
    prices: Map<Seq<u8>, i128>,
    use_ltv: bool,
    j: int,
    v: i128,
    k: nat,
)
    requires
        0 <= j < assets.len(),
        k <= assets.len(),
        forall|i: int| 0 <= i < assets.len() && i != j ==> assets[i] != assets[j],
        configs.contains_key(assets[j]),
        value_or_zero(coll, collateral_key(user, assets[j])) == 0,
        v != 0,
        valuation_prefix(assets, configs, coll, user, prices, use_ltv, k) is Some,
        valuation_prefix(assets, configs, coll.insert(collateral_key(user, assets[j]), v), user, prices, use_ltv, k) is Some,
    ensures
        k <= j ==> valuation_prefix(assets, configs, coll.insert(collateral_key(user, assets[j]), v), user, prices, use_ltv, k)
            == valuation_prefix(assets, configs, coll, user, prices, use_ltv, k),
        k > j ==> (weighted_value(v as int, prices[assets[j]] as int, weight_of(configs[assets[j]], use_ltv)) matches Some(w)
            && valuation_prefix(assets, configs, coll.insert(collateral_key(user, assets[j]), v), user, prices, use_ltv, k)->Some_0
                == valuation_prefix(assets, configs, coll, user, prices, use_ltv, k)->Some_0 + w),
    decreases k,
{
    let coll2 = coll.insert(collateral_key(user, assets[j]), v);
    if k > 0 {
        lemma_prefix_adds_holding(assets, configs, coll, user, prices, use_ltv, j, v, (k - 1) as nat);
        let b = assets[k - 1];
        lemma_collateral_key_injective(user, b, assets[j]);
        if k - 1 != j {
            assert(value_or_zero(coll2, collateral_key(user, b)) == value_or_zero(coll, collateral_key(user, b)));
        } else {
            assert(value_or_zero(coll2, collateral_key(user, b)) == v);
        }
    }
}

proof fn lemma_prefix_fits(
    assets: Seq<Seq<u8>>,
    configs: Map<Seq<u8>, AssetConfig>,
    coll: Map<Seq<u8>, i128>,
    user: Seq<u8>,
    prices: Map<Seq<u8>, i128>,
    use_ltv: bool,
    k: nat,
)
    ensures
        valuation_prefix(assets, configs, coll, user, prices, use_ltv, k) matches Some(t) ==> fits_i128(t),
    decreases k,
{
    if k > 0 {
        lemma_prefix_fits(assets, configs, coll, user, prices, use_ltv, (k - 1) as nat);
    }
}

/// Valuation is additive over assets: adding a nonzero holding of one more
/// listed, configured asset (listed once, not held before) adds that
/// holding's weighted value `amount * price / PRICE_SCALE * weight / BPS`.
pub proof fn law_valuation_adds_a_holding(
    pool: LendingPool,
    coll: Map<Seq<u8>, i128>,
    user: Seq<u8>,
    prices: Map<Seq<u8>, i128>,
    use_ltv: bool,
    j: int,
    v: i128,
)
    requires
        0 <= j < pool.asset_keys().len(),
        forall|i: int| 0 <= i < pool.asset_keys().len() && i != j ==> pool.asset_keys()[i] != pool.asset_keys()[j],
        pool.asset_configs@.contains_key(pool.asset_keys()[j]),
        value_or_zero(coll, collateral_key(user, pool.asset_keys()[j])) == 0,
        v != 0,
        pool.valuation(coll, user, prices, use_ltv) is Ok,
        pool.valuation(coll.insert(collateral_key(user, pool.asset_keys()[j]), v), user, prices, use_ltv) is Ok,
    ensures
        ({
            let a = pool.asset_keys()[j];
            weighted_value(v as int, prices[a] as int, weight_of(pool.asset_configs@[a], use_ltv)) matches Some(w)
                && pool.valuation(coll.insert(collateral_key(user, a), v), user, prices, use_ltv)->Ok_0
                    == pool.valuation(coll, user, prices, use_ltv)->Ok_0 + w
        }),
{
    let a = pool.asset_keys()[j];
    let n = pool.assets@.len();
    assert(pool.asset_keys().len() == n);
    lemma_prefix_adds_holding(pool.asset_keys(), pool.asset_configs@, coll, user, prices, use_ltv, j, v, n);
    lemma_prefix_fits(pool.asset_keys(), pool.asset_configs@, coll, user, prices, use_ltv, n);
    lemma_prefix_fits(pool.asset_keys(), pool.asset_configs@, coll.insert(collateral_key(user, a), v), user, prices, use_ltv, n);
}

/// A user holding none of the listed assets is valued at zero.
pub proof fn law_valuation_of_nothing(pool: LendingPool, coll: Map<Seq<u8>, i128>, user: Seq<u8>, prices: Map<Seq<u8>, i128>, use_ltv: bool)
    requires
        pool.oracle is Some,
        forall|i: int| 0 <= i < pool.asset_keys().len() ==> value_or_zero(coll, #[trigger] collateral_key(user, pool.asset_keys()[i])) == 0,
    ensures
        pool.valuation(coll, user, prices, use_ltv) == Ok::<i128, PoolError>(0),
{
    lemma_prefix_of_nothing(pool.asset_keys(), pool.asset_configs@, coll, user, prices, use_ltv, pool.assets@.len());
}

proof fn lemma_prefix_of_nothing(
    assets: Seq<Seq<u8>>,
    configs: Map<Seq<u8>, AssetConfig>,
    coll: Map<Seq<u8>, i128>,
    user: Seq<u8>,
    prices: Map<Seq<u8>, i128>,
    use_ltv: bool,
    k: nat,
)
    requires
        k <= assets.len(),
        forall|i: int| 0 <= i < assets.len() ==> value_or_zero(coll, #[trigger] collateral_key(user, assets[i])) == 0,
    ensures
        valuation_prefix(assets, configs, coll, user, prices, use_ltv, k) == Some(0int),
    decreases k,
{
    if k > 0 {
        lemma_prefix_of_nothing(assets, configs, coll, user, prices, use_ltv, (k - 1) as nat);
        assert(value_or_zero(coll, collateral_key(user, assets[k - 1])) == 0);
    }
}

/// A borrow is granted whenever the amount is positive, the debt token is
/// set, and the new debt fits and stays within the borrow power.
pub proof fn law_borrow_granted_within_power(pool: LendingPool, user: Seq<u8>, amount: i128, prices: Map<Seq<u8>, i128>)
    requires
        amount > 0,
        pool.smt_token is Some,
        pool.valuation(pool.collateral@, user, prices, true) is Ok,
        fits_i128(pool.debt_of(user) + amount),
        pool.debt_of(user) + amount <= pool.valuation(pool.collateral@, user, prices, true)->Ok_0,
    ensures
        pool.borrow_check(user, amount, prices) == Ok::<(), PoolError>(()),
{
}

/// A liquidation of an unhealthy borrower at a fresh, positive price, for a
/// positive repayment within the debt, goes through and seizes the
/// bonus-inclusive amount capped at what the borrower holds.
pub proof fn law_liquidation_seizes_capped_amount(
    pool: LendingPool,
    borrower: Seq<u8>,
    asset: Seq<u8>,
    repay: i128,
    prices: Map<Seq<u8>, i128>,
)
    requires
        pool.liquidatable(borrower, prices) == Ok::<bool, PoolError>(true),
        pool.smt_token is Some,
        pool.oracle is Some,
        pool.asset_configs@.contains_key(asset),
        0 < repay <= pool.debt_of(borrower),
        prices[asset] > 0,
        seize_fits(repay as int, prices[asset] as int, pool.asset_configs@[asset].liquidation_bonus as int),
        seize_amount(repay as int, prices[asset] as int, pool.asset_configs@[asset].liquidation_bonus as int) > 0,
        pool.collateral_of(borrower, asset) > 0,
    ensures
        ({
            let owed = seize_amount(repay as int, prices[asset] as int, pool.asset_configs@[asset].liquidation_bonus as int);
            let held = pool.collateral_of(borrower, asset) as int;
            pool.liquidation_check(borrower, asset, repay, prices, false)
                == Ok::<i128, PoolError>((if owed <= held { owed } else { held }) as i128)
        }),
{
}

} // verus!
