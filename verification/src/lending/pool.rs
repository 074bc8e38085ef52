//! The lending pool: collateral, debt, valuation and liquidation.
//!
//! Oracle prices, token transfers and the AMM swap are work of other
//! contracts. The pool takes their results as arguments (a price table, a
//! staleness verdict, a post-swap balance) and answers with the state change
//! and the transfers that have to follow.

use vstd::prelude::*;
use crate::address::{views_of, Address};
use crate::bytes::{append_bytes, be_bytes, bytes_eq, nat_to_be};
use crate::table::Table;
use crate::lending::liquidation::{div_trunc, fits_i128, tdiv, weighted, weighted_value, PRICE_SCALE};
use crate::lending::types::{AssetConfig, FlashLiquidateParams, PoolError};

verus! {

/// The storage key of a user's holding of one asset.
pub open spec fn collateral_key(user: Seq<u8>, asset: Seq<u8>) -> Seq<u8> {
    nat_to_be(8, user.len()) + user + asset
}

/// The storage key of a user's holding of one asset.
pub fn collateral_key_of(user: &Address, asset: &Address) -> (r: Vec<u8>)
    ensures
        r@ == collateral_key(user@, asset@),
{
    let mut k = be_bytes(user.xdr.len() as u128, 8);
    append_bytes(&mut k, user.xdr.as_slice());
    append_bytes(&mut k, asset.xdr.as_slice());
    k
}

/// The value stored under `k`, or zero when there is none.
pub open spec fn value_or_zero(m: Map<Seq<u8>, i128>, k: Seq<u8>) -> i128 {
    if m.contains_key(k) {
        m[k]
    } else {
        0
    }
}

/// `m` with `k` set to `v` when an override is given.
pub open spec fn overridden(m: Map<Seq<u8>, i128>, k: Seq<u8>, v: Option<i128>) -> Map<Seq<u8>, i128> {
    match v {
        Some(x) => m.insert(k, x),
        None => m,
    }
}

/// The risk weight applied to an asset: its LTV for borrow power, its
/// liquidation threshold for health.
pub open spec fn weight_of(c: AssetConfig, use_ltv: bool) -> int {
    if use_ltv {
        c.ltv_bps as int
    } else {
        c.liquidation_threshold as int
    }
}

/// Weighted value of the first `n` assets held by `user`, accumulated in
/// order with checked arithmetic; `None` once any step overflows.
pub open spec fn valuation_prefix(
    assets: Seq<Seq<u8>>,
    configs: Map<Seq<u8>, AssetConfig>,
    coll: Map<Seq<u8>, i128>,
    user: Seq<u8>,
    prices: Map<Seq<u8>, i128>,
    use_ltv: bool,
    n: nat,
) -> Option<int>
    decreases n,
{
    if n == 0 {
        Some(0)
    } else {
        match valuation_prefix(assets, configs, coll, user, prices, use_ltv, (n - 1) as nat) {
            None => None,
            Some(t) => {
                let a = assets[n - 1];
                let amount = value_or_zero(coll, collateral_key(user, a));
                if amount == 0 || !configs.contains_key(a) {
                    Some(t)
                } else {
                    match weighted_value(amount as int, prices[a] as int, weight_of(configs[a], use_ltv)) {
                        None => None,
                        Some(w) => if fits_i128(t + w) {
                            Some(t + w)
                        } else {
                            None
                        },
                    }
                }
            },
        }
    }
}

proof fn lemma_prefix_none_stays(
    assets: Seq<Seq<u8>>,
    configs: Map<Seq<u8>, AssetConfig>,
    coll: Map<Seq<u8>, i128>,
    user: Seq<u8>,
    prices: Map<Seq<u8>, i128>,
    use_ltv: bool,
    n: nat,
    m: nat,
)
    requires
        n <= m,
        valuation_prefix(assets, configs, coll, user, prices, use_ltv, n) is None,
    ensures
        valuation_prefix(assets, configs, coll, user, prices, use_ltv, m) is None,
    decreases m - n,
{
    if n < m {
        lemma_prefix_none_stays(assets, configs, coll, user, prices, use_ltv, n, (m - 1) as nat);
    }
}

/// The lending pool's state.
pub struct LendingPool {
    pub admin: Option<Address>,
    pub smt_token: Option<Address>,
    pub oracle: Option<Address>,
    /// Every asset that ever received a configuration, in order.
    pub assets: Vec<Address>,
    pub asset_configs: Table<AssetConfig>,
    /// Holdings, keyed by `collateral_key(user, asset)`.
    pub collateral: Table<i128>,
    pub debts: Table<i128>,
    /// Callers currently inside a guarded section.
    pub locks: Table<bool>,
    pub pending_flash: Option<FlashLiquidateParams>,
}

impl LendingPool {
    /// Internal consistency: the tables are sound and no balance is negative.
    pub open spec fn wf(&self) -> bool {
        &&& self.asset_configs.wf()
        &&& self.collateral.wf()
        &&& self.debts.wf()
        &&& self.locks.wf()
        &&& forall|k: Seq<u8>| #[trigger] self.collateral@.contains_key(k) ==> self.collateral@[k] >= 0
        &&& forall|k: Seq<u8>| #[trigger] self.debts@.contains_key(k) ==> self.debts@[k] >= 0
    }

    pub open spec fn asset_keys(&self) -> Seq<Seq<u8>> {
        views_of(self.assets@)
    }

    pub open spec fn collateral_of(&self, user: Seq<u8>, asset: Seq<u8>) -> i128 {
        value_or_zero(self.collateral@, collateral_key(user, asset))
    }

    pub open spec fn debt_of(&self, user: Seq<u8>) -> i128 {
        value_or_zero(self.debts@, user)
    }

    /// Weighted collateral value of `user` over the holdings `coll`.
    pub open spec fn valuation(
        &self,
        coll: Map<Seq<u8>, i128>,
        user: Seq<u8>,
        prices: Map<Seq<u8>, i128>,
        use_ltv: bool,
    ) -> Result<i128, PoolError> {
        if self.oracle is None {
            Err(PoolError::OracleNotSet)
        } else {
            match valuation_prefix(
                self.asset_keys(),
                self.asset_configs@,
                coll,
                user,
                prices,
                use_ltv,
                self.assets@.len(),
            ) {
                None => Err(PoolError::Overflow),
                Some(t) => Ok(t as i128),
            }
        }
    }

    /// Health factor of `user` over the holdings `coll`, scaled by
    /// `PRICE_SCALE`; `i128::MAX` without debt.
    pub open spec fn health(
        &self,
        coll: Map<Seq<u8>, i128>,
        user: Seq<u8>,
        prices: Map<Seq<u8>, i128>,
    ) -> Result<i128, PoolError> {
        let debt = self.debt_of(user);
        if debt == 0 {
            Ok(i128::MAX)
        } else {
            match self.valuation(coll, user, prices, false) {
                Err(e) => Err(e),
                Ok(t) => if fits_i128(t * PRICE_SCALE) {
                    Ok(tdiv(t * PRICE_SCALE, debt as int) as i128)
                } else {
                    Err(PoolError::Overflow)
                },
            }
        }
    }

    /// Whether `user`'s position can be liquidated.
    pub open spec fn liquidatable(&self, user: Seq<u8>, prices: Map<Seq<u8>, i128>) -> Result<bool, PoolError> {
        match self.health(self.collateral@, user, prices) {
            Ok(h) => Ok(h < PRICE_SCALE),
            Err(e) => Err(e),
        }
    }

    /// `prices` quotes every asset the valuation of `user` over `coll` reads.
    pub open spec fn prices_cover(
        &self,
        coll: Map<Seq<u8>, i128>,
        user: Seq<u8>,
        prices: Map<Seq<u8>, i128>,
    ) -> bool {
        forall|i: int| 0 <= i < self.assets@.len()
            && #[trigger] value_or_zero(coll, collateral_key(user, self.assets@[i]@)) != 0
            && self.asset_configs@.contains_key(self.assets@[i]@)
            ==> prices.contains_key(self.assets@[i]@)
    }

    /// Weighted collateral value of `user`, with the holding under `ov_key`
    /// replaced by `ov_val` when one is given.
    pub(crate) fn valuation_with(
        &self,
        user: &Address,
        prices: &Table<i128>,
        use_ltv: bool,
        ov_key: &[u8],
        ov_val: Option<i128>,
    ) -> (r: Result<i128, PoolError>)
        requires
            self.wf(),
            prices.wf(),
            self.prices_cover(overridden(self.collateral@, ov_key@, ov_val), user@, prices@),
        ensures
            r == self.valuation(overridden(self.collateral@, ov_key@, ov_val), user@, prices@, use_ltv),
    {
        let ghost coll = overridden(self.collateral@, ov_key@, ov_val);
        if self.oracle.is_none() {
            return Err(PoolError::OracleNotSet);
        }
        let n = self.assets.len();
        let mut total: i128 = 0;
        let mut i: usize = 0;
        while i < n
            invariant
                self.wf(),
                prices.wf(),
                self.oracle is Some,
                n == self.assets@.len(),
                i <= n,
                coll == overridden(self.collateral@, ov_key@, ov_val),
                self.prices_cover(coll, user@, prices@),
                valuation_prefix(self.asset_keys(), self.asset_configs@, coll, user@, prices@, use_ltv, i as nat)
                    == Some(total as int),
            decreases n - i,
        {
            let asset = &self.assets[i];
            let key = collateral_key_of(user, asset);
            assert(self.asset_keys()[i as int] == asset@);
            let amount: i128 = match ov_val {
                Some(v) => if bytes_eq(key.as_slice(), ov_key) {
                    v
                } else {
                    match self.collateral.get(key.as_slice()) {
                        Some(x) => *x,
                        None => 0,
                    }
                },
                None => match self.collateral.get(key.as_slice()) {
                    Some(x) => *x,
                    None => 0,
                },
            };
            assert(amount == value_or_zero(coll, collateral_key(user@, asset@)));
            if amount != 0 {
                match self.asset_configs.get(asset.xdr.as_slice()) {
                    None => {},
                    Some(c) => {
                        assert(prices@.contains_key(self.assets@[i as int]@));
                        let price = *prices.get(asset.xdr.as_slice()).unwrap();
                        let w = if use_ltv { c.ltv_bps } else { c.liquidation_threshold };
                        assert(self.asset_configs@[asset@] == *c);
                        assert(prices@[asset@] == price);
                        assert(w as int == weight_of(*c, use_ltv));
                        match weighted(amount, price, w) {
                            None => {
                                assert(valuation_prefix(self.asset_keys(), self.asset_configs@, coll, user@,
                                    prices@, use_ltv, (i + 1) as nat) is None);
                                proof {
                                    lemma_prefix_none_stays(self.asset_keys(), self.asset_configs@, coll,
                                        user@, prices@, use_ltv, (i + 1) as nat, n as nat);
                                }
                                return Err(PoolError::Overflow);
                            },
                            Some(adj) => {
                                match total.checked_add(adj) {
                                    None => {
                                        assert(valuation_prefix(self.asset_keys(), self.asset_configs@, coll,
                                            user@, prices@, use_ltv, (i + 1) as nat) is None);
                                        proof {
                                            lemma_prefix_none_stays(self.asset_keys(), self.asset_configs@,
                                                coll, user@, prices@, use_ltv, (i + 1) as nat, n as nat);
                                        }
                                        return Err(PoolError::Overflow);
                                    },
                                    Some(t) => {
                                        total = t;
                                    },
                                }
                            },
                        }
                    },
                }
            }
            i += 1;
        }
        Ok(total)
    }

    /// Health factor over holdings `coll` (the stored ones, or with one override).
    pub(crate) fn health_with(
        &self,
        user: &Address,
        prices: &Table<i128>,
        ov_key: &[u8],
        ov_val: Option<i128>,
    ) -> (r: Result<i128, PoolError>)
        requires
            self.wf(),
            prices.wf(),
            self.prices_cover(overridden(self.collateral@, ov_key@, ov_val), user@, prices@),
        ensures
            r == self.health(overridden(self.collateral@, ov_key@, ov_val), user@, prices@),
    {
        let debt: i128 = match self.debts.get(user.xdr.as_slice()) {
            Some(d) => *d,
            None => 0,
        };
        if debt == 0 {
            return Ok(i128::MAX);
        }
        let t = self.valuation_with(user, prices, false, ov_key, ov_val)?;
        match t.checked_mul(PRICE_SCALE) {
            None => Err(PoolError::Overflow),
            Some(num) => Ok(div_trunc(num, debt)),
        }
    }

    /// A pool with nothing configured.
    pub fn new() -> (p: LendingPool)
        ensures
            p.wf(),
            p.admin is None,
            p.smt_token is None,
            p.oracle is None,
            p.assets@.len() == 0,
            p.asset_configs@ == Map::<Seq<u8>, AssetConfig>::empty(),
            p.collateral@ == Map::<Seq<u8>, i128>::empty(),
            p.debts@ == Map::<Seq<u8>, i128>::empty(),
            p.locks@ == Map::<Seq<u8>, bool>::empty(),
            p.pending_flash is None,
    {
        LendingPool {
            admin: None,
            smt_token: None,
            oracle: None,
            assets: Vec::new(),
            asset_configs: Table::new(),
            collateral: Table::new(),
            debts: Table::new(),
            locks: Table::new(),
            pending_flash: None,
        }
    }
}

impl LendingPool {
    /// Health factor of `user`, scaled by `PRICE_SCALE`; `i128::MAX` without
    /// debt. Answers the overflow or the missing oracle instead of failing.
    pub fn try_health_factor(&self, user: &Address, prices: &Table<i128>) -> (r: Result<i128, PoolError>)
        requires
            self.wf(),
            prices.wf(),
            self.prices_cover(self.collateral@, user@, prices@),
        ensures
            r == self.health(self.collateral@, user@, prices@),
    {
        proof {
            assert(overridden(self.collateral@, Seq::<u8>::empty(), None) == self.collateral@);
        }
        self.health_with(user, prices, &[], None)
    }

    /// Health factor of `user`, scaled by `PRICE_SCALE`; `i128::MAX` without debt.
    pub fn health_factor(&self, user: &Address, prices: &Table<i128>) -> (r: i128)
        requires
            self.wf(),
            prices.wf(),
            self.prices_cover(self.collateral@, user@, prices@),
            self.health(self.collateral@, user@, prices@) is Ok,
        ensures
            self.health(self.collateral@, user@, prices@) == Ok::<i128, PoolError>(r),
    {
        match self.try_health_factor(user, prices) {
            Ok(h) => h,
            Err(_) => 0,
        }
    }

    /// Whether `user`'s health factor is below one, or why it cannot be told.
    pub fn try_is_liquidatable(&self, user: &Address, prices: &Table<i128>) -> (r: Result<bool, PoolError>)
        requires
            self.wf(),
            prices.wf(),
            self.prices_cover(self.collateral@, user@, prices@),
        ensures
            r == self.liquidatable(user@, prices@),
    {
        let h = self.try_health_factor(user, prices)?;
        Ok(h < PRICE_SCALE)
    }

    /// Whether `user`'s health factor is below one.
    pub fn is_liquidatable(&self, user: &Address, prices: &Table<i128>) -> (r: bool)
        requires
            self.wf(),
            prices.wf(),
            self.prices_cover(self.collateral@, user@, prices@),
            self.liquidatable(user@, prices@) is Ok,
        ensures
            self.liquidatable(user@, prices@) == Ok::<bool, PoolError>(r),
    {
        self.health_factor(user, prices) < PRICE_SCALE
    }

    /// Sum over `user`'s holdings of value times liquidation threshold, or
    /// why it cannot be computed.
    pub fn try_threshold_adjusted_collateral(&self, user: &Address, prices: &Table<i128>) -> (r: Result<i128, PoolError>)
        requires
            self.wf(),
            prices.wf(),
            self.prices_cover(self.collateral@, user@, prices@),
        ensures
            r == self.valuation(self.collateral@, user@, prices@, false),
    {
        proof {
            assert(overridden(self.collateral@, Seq::<u8>::empty(), None) == self.collateral@);
        }
        self.valuation_with(user, prices, false, &[], None)
    }

    /// Sum over `user`'s holdings of value times liquidation threshold.
    pub fn threshold_adjusted_collateral(&self, user: &Address, prices: &Table<i128>) -> (r: i128)
        requires
            self.wf(),
            prices.wf(),
            self.prices_cover(self.collateral@, user@, prices@),
            self.valuation(self.collateral@, user@, prices@, false) is Ok,
        ensures
            self.valuation(self.collateral@, user@, prices@, false) == Ok::<i128, PoolError>(r),
    {
        match self.try_threshold_adjusted_collateral(user, prices) {
            Ok(v) => v,
            Err(_) => 0,
        }
    }

    /// Sum over `user`'s holdings of value times loan-to-value, or why it
    /// cannot be computed.
    pub fn try_ltv_adjusted_collateral(&self, user: &Address, prices: &Table<i128>) -> (r: Result<i128, PoolError>)
        requires
            self.wf(),
            prices.wf(),
            self.prices_cover(self.collateral@, user@, prices@),
        ensures
            r == self.valuation(self.collateral@, user@, prices@, true),
    {
        proof {
            assert(overridden(self.collateral@, Seq::<u8>::empty(), None) == self.collateral@);
        }
        self.valuation_with(user, prices, true, &[], None)
    }

    /// Sum over `user`'s holdings of value times loan-to-value: the borrow power.
    pub fn ltv_adjusted_collateral(&self, user: &Address, prices: &Table<i128>) -> (r: i128)
        requires
            self.wf(),
            prices.wf(),
            self.prices_cover(self.collateral@, user@, prices@),
            self.valuation(self.collateral@, user@, prices@, true) is Ok,
        ensures
            self.valuation(self.collateral@, user@, prices@, true) == Ok::<i128, PoolError>(r),
    {
        match self.try_ltv_adjusted_collateral(user, prices) {
            Ok(v) => v,
            Err(_) => 0,
        }
    }

    /// Whether `user` is not liquidatable.
    pub fn is_healthy(&self, user: &Address, prices: &Table<i128>) -> (r: bool)
        requires
            self.wf(),
            prices.wf(),
            self.prices_cover(self.collateral@, user@, prices@),
            self.liquidatable(user@, prices@) is Ok,
        ensures
            self.liquidatable(user@, prices@) == Ok::<bool, PoolError>(!r),
    {
        !self.is_liquidatable(user, prices)
    }

    /// The health factor of `user`.
    pub fn get_health_factor(&self, user: &Address, prices: &Table<i128>) -> (r: i128)
        requires
            self.wf(),
            prices.wf(),
            self.prices_cover(self.collateral@, user@, prices@),
            self.health(self.collateral@, user@, prices@) is Ok,
        ensures
            self.health(self.collateral@, user@, prices@) == Ok::<i128, PoolError>(r),
    {
        self.health_factor(user, prices)
    }

    /// The borrow power of `user`.
    pub fn get_borrow_power(&self, user: &Address, prices: &Table<i128>) -> (r: i128)
        requires
            self.wf(),
            prices.wf(),
            self.prices_cover(self.collateral@, user@, prices@),
            self.valuation(self.collateral@, user@, prices@, true) is Ok,
        ensures
            self.valuation(self.collateral@, user@, prices@, true) == Ok::<i128, PoolError>(r),
    {
        self.ltv_adjusted_collateral(user, prices)
    }

    /// The threshold-weighted collateral value of `user`.
    pub fn get_account_collateral_value(&self, user: &Address, prices: &Table<i128>) -> (r: i128)
        requires
            self.wf(),
            prices.wf(),
            self.prices_cover(self.collateral@, user@, prices@),
            self.valuation(self.collateral@, user@, prices@, false) is Ok,
        ensures
            self.valuation(self.collateral@, user@, prices@, false) == Ok::<i128, PoolError>(r),
    {
        self.threshold_adjusted_collateral(user, prices)
    }

    /// The debt of `user`.
    pub fn get_debt(&self, user: &Address) -> (r: i128)
        requires
            self.wf(),
        ensures
            r == self.debt_of(user@),
    {
        match self.debts.get(user.xdr.as_slice()) {
            Some(d) => *d,
            None => 0,
        }
    }

    /// The holding of `asset` by `user`.
    pub fn get_collateral(&self, user: &Address, asset: &Address) -> (r: i128)
        requires
            self.wf(),
        ensures
            r == self.collateral_of(user@, asset@),
    {
        let key = collateral_key_of(user, asset);
        match self.collateral.get(key.as_slice()) {
            Some(x) => *x,
            None => 0,
        }
    }

    /// The debt token.
    pub fn get_smt_token(&self) -> (r: Address)
        requires
            self.smt_token is Some,
        ensures
            r@ == self.smt_token->Some_0@,
    {
        match &self.smt_token {
            Some(t) => t.duplicate(),
            None => Address { xdr: Vec::new() },
        }
    }

    /// The contract version.
    pub fn version() -> (r: &'static str)
        ensures
            r@ == "2.0.0"@,
    {
        "2.0.0"
    }

    /// Liveness probe.
    pub fn status() -> (r: &'static str)
        ensures
            r@ == "alive"@,
    {
        "alive"
    }
}

} // verus!
